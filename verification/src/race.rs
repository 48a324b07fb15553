//! Race categories and the ethnicity-to-race classifier.
//!
//! The classifier resolves an overlapping, multi-valued flag set into a
//! single race category under a fixed precedence policy, written below as an
//! explicit ordered rule list.

use vstd::prelude::*;

use crate::ethnicity::ASIAN_FLAGS;
use crate::ethnicity::BLACK_AFRICAN_DESCENT;
use crate::ethnicity::EAST_ASIAN;
use crate::ethnicity::Ethnicities;
use crate::ethnicity::HISPANIC_LATINO;
use crate::ethnicity::MIDDLE_EASTERN;
use crate::ethnicity::NATIVE_AMERICAN;
use crate::ethnicity::OTHER;
use crate::ethnicity::PACIFIC_ISLANDER;
use crate::ethnicity::SOUTH_ASIAN;
use crate::ethnicity::SOUTHEAST_ASIAN;
use crate::ethnicity::WHITE_CAUCASIAN;

verus! {

/// The closed set of race categories.
#[derive(Clone, Copy, PartialEq, Eq, Structural, Debug)]
pub enum Race {
    WhiteCaucasian,
    BlackAfrican,
    NativeAmerican,
    Asian,
    PacificIslander,
    Multiracial,
    Hispanic,
    Other,
}

/// Why a flag set could not be classified.
#[derive(Clone, Copy, PartialEq, Eq, Structural, Debug)]
pub enum ClassificationError {
    /// The flag set was empty.
    EmptyEthnicity,
    /// After removing unsupported flags nothing was left.
    UnsupportedOnly,
}

/// Declaration order of the race categories; the fixed secondary sort key of
/// the preference index.
pub open spec fn race_order(r: Race) -> int {
    match r {
        Race::WhiteCaucasian => 0,
        Race::BlackAfrican => 1,
        Race::NativeAmerican => 2,
        Race::Asian => 3,
        Race::PacificIslander => 4,
        Race::Multiracial => 5,
        Race::Hispanic => 6,
        Race::Other => 7,
    }
}

/// Maps a non-empty flag set that holds no unsupported flag to its race.
/// The rules apply in this exact precedence order: the nine supported single
/// flags map directly; a combination drawn only from the Asian flags maps to
/// Asian; a combination containing HispanicLatino maps to Hispanic; any
/// other combination spans at least two disjoint groupings and maps to
/// Multiracial.
pub open spec fn spec_classify_supported(b: u16) -> Race {
    if b == NATIVE_AMERICAN {
        Race::NativeAmerican
    } else if b == SOUTHEAST_ASIAN {
        Race::Asian
    } else if b == BLACK_AFRICAN_DESCENT {
        Race::BlackAfrican
    } else if b == EAST_ASIAN {
        Race::Asian
    } else if b == PACIFIC_ISLANDER {
        Race::PacificIslander
    } else if b == SOUTH_ASIAN {
        Race::Asian
    } else if b == WHITE_CAUCASIAN {
        Race::WhiteCaucasian
    } else if b == HISPANIC_LATINO {
        Race::Hispanic
    } else if b == OTHER {
        Race::Other
    } else if b & ASIAN_FLAGS == b {
        Race::Asian
    } else if b & HISPANIC_LATINO != 0 {
        Race::Hispanic
    } else {
        Race::Multiracial
    }
}

/// The full classification policy: an empty set fails with `EmptyEthnicity`;
/// a set reduced to nothing once the MiddleEastern flag is removed fails
/// with `UnsupportedOnly`; otherwise the remaining flags are mapped by
/// `spec_classify_supported`.
pub open spec fn spec_classify(bits: u16) -> Result<Race, ClassificationError> {
    if bits == 0 {
        Err(ClassificationError::EmptyEthnicity)
    } else if bits & !MIDDLE_EASTERN == 0 {
        Err(ClassificationError::UnsupportedOnly)
    } else {
        Ok(spec_classify_supported(bits & !MIDDLE_EASTERN))
    }
}

/// The sub-race policy for Hispanic-tagged sets: strip the HispanicLatino
/// flag; an empty remainder maps to Other; any other remainder is classified
/// by the full policy.
pub open spec fn spec_classify_hispanic_subrace(bits: u16) -> Result<Race, ClassificationError> {
    if bits & !HISPANIC_LATINO == 0 {
        Ok(Race::Other)
    } else {
        spec_classify(bits & !HISPANIC_LATINO)
    }
}

impl Race {
    /// All race categories, in declaration order.
    pub fn entries() -> (r: Vec<Race>)
        ensures
            r@ == race_list(),
    {
        let mut r: Vec<Race> = Vec::new();
        r.push(Race::WhiteCaucasian);
        r.push(Race::BlackAfrican);
        r.push(Race::NativeAmerican);
        r.push(Race::Asian);
        r.push(Race::PacificIslander);
        r.push(Race::Multiracial);
        r.push(Race::Hispanic);
        r.push(Race::Other);
        proof {
            assert(r@ =~= race_list());
        }
        r
    }

    /// Declaration order as an executable value.
    pub fn order(&self) -> (o: usize)
        ensures
            o == race_order(*self),
    {
        match *self {
            Race::WhiteCaucasian => 0,
            Race::BlackAfrican => 1,
            Race::NativeAmerican => 2,
            Race::Asian => 3,
            Race::PacificIslander => 4,
            Race::Multiracial => 5,
            Race::Hispanic => 6,
            Race::Other => 7,
        }
    }

    /// Classifies a flag set into exactly one race category, or reports why
    /// no category applies.
    pub fn classify(ethnicity: Ethnicities) -> (r: Result<Race, ClassificationError>)
        ensures
            r == spec_classify(ethnicity.0),
    {
        let bits = ethnicity.0;
        if bits == 0 {
            return Err(ClassificationError::EmptyEthnicity);
        }
        let b = bits & !MIDDLE_EASTERN;
        if b == 0 {
            return Err(ClassificationError::UnsupportedOnly);
        }
        if b == NATIVE_AMERICAN {
            Ok(Race::NativeAmerican)
        } else if b == SOUTHEAST_ASIAN {
            Ok(Race::Asian)
        } else if b == BLACK_AFRICAN_DESCENT {
            Ok(Race::BlackAfrican)
        } else if b == EAST_ASIAN {
            Ok(Race::Asian)
        } else if b == PACIFIC_ISLANDER {
            Ok(Race::PacificIslander)
        } else if b == SOUTH_ASIAN {
            Ok(Race::Asian)
        } else if b == WHITE_CAUCASIAN {
            Ok(Race::WhiteCaucasian)
        } else if b == HISPANIC_LATINO {
            Ok(Race::Hispanic)
        } else if b == OTHER {
            Ok(Race::Other)
        } else if b & ASIAN_FLAGS == b {
            Ok(Race::Asian)
        } else if b & HISPANIC_LATINO != 0 {
            Ok(Race::Hispanic)
        } else {
            Ok(Race::Multiracial)
        }
    }

    /// The sub-race breakdown of a Hispanic-tagged set.  Stripping the
    /// HispanicLatino flag first means the result can never be Hispanic
    /// again.
    pub fn classify_hispanic_subrace(ethnicity: Ethnicities) -> (r: Result<
        Race,
        ClassificationError,
    >)
        requires
            ethnicity.has(HISPANIC_LATINO),
        ensures
            r == spec_classify_hispanic_subrace(ethnicity.0),
            !(r == Ok::<Race, ClassificationError>(Race::Hispanic)),
    {
        let bits = ethnicity.0;
        let rest = bits & !HISPANIC_LATINO;
        proof {
            lemma_subrace_never_hispanic(bits);
        }
        if rest == 0 {
            Ok(Race::Other)
        } else {
            Race::classify(Ethnicities(rest))
        }
    }
}

/// Observed match counts, one per race category.
#[derive(Clone, Copy, PartialEq, Eq, Structural, Debug)]
pub struct RaceCounts {
    pub white_caucasian: u32,
    pub black_african: u32,
    pub native_american: u32,
    pub asian: u32,
    pub pacific_islander: u32,
    pub multiracial: u32,
    pub hispanic: u32,
    pub other: u32,
}

impl RaceCounts {
    /// The count recorded for a race.
    pub open spec fn spec_get(self, r: Race) -> u32 {
        match r {
            Race::WhiteCaucasian => self.white_caucasian,
            Race::BlackAfrican => self.black_african,
            Race::NativeAmerican => self.native_american,
            Race::Asian => self.asian,
            Race::PacificIslander => self.pacific_islander,
            Race::Multiracial => self.multiracial,
            Race::Hispanic => self.hispanic,
            Race::Other => self.other,
        }
    }

    /// The count recorded for a race.
    pub fn get(&self, r: Race) -> (c: u32)
        ensures
            c == self.spec_get(r),
    {
        match r {
            Race::WhiteCaucasian => self.white_caucasian,
            Race::BlackAfrican => self.black_african,
            Race::NativeAmerican => self.native_american,
            Race::Asian => self.asian,
            Race::PacificIslander => self.pacific_islander,
            Race::Multiracial => self.multiracial,
            Race::Hispanic => self.hispanic,
            Race::Other => self.other,
        }
    }

    /// A table with every count at zero.
    pub fn zero() -> (c: RaceCounts)
        ensures
            forall|r: Race| c.spec_get(r) == 0,
    {
        RaceCounts {
            white_caucasian: 0,
            black_african: 0,
            native_american: 0,
            asian: 0,
            pacific_islander: 0,
            multiracial: 0,
            hispanic: 0,
            other: 0,
        }
    }
}

/// How many entries of the sequence equal the given race.
pub open spec fn count_races(s: Seq<Race>, r: Race) -> int
    decreases s.len(),
{
    if s.len() == 0 {
        0
    } else {
        count_races(s.drop_last(), r) + if s.last() == r {
            1int
        } else {
            0int
        }
    }
}

/// A race occurs in a sequence no more often than the sequence is long.
pub proof fn lemma_count_races_le_len(s: Seq<Race>, r: Race)
    ensures
        0 <= count_races(s, r) <= s.len(),
    decreases s.len(),
{
    if s.len() > 0 {
        lemma_count_races_le_len(s.drop_last(), r);
    }
}

impl Race {
    /// Tallies a sequence of classified races into one count per category.
    pub fn aggregate(races: &Vec<Race>) -> (c: RaceCounts)
        requires
            races@.len() <= 0xFFFF_FFFF,
        ensures
            forall|r: Race| #[trigger] c.spec_get(r) == count_races(races@, r),
    {
        let mut c = RaceCounts::zero();
        let n = races.len();
        assert(forall|r: Race| #[trigger] c.spec_get(r) == count_races(races@.take(0), r));
        for i in 0..n
            invariant
                n == races@.len() <= 0xFFFF_FFFF,
                forall|r: Race| #[trigger] c.spec_get(r) == count_races(races@.take(i as int), r),
        {
            let race = races[i];
            proof {
                assert(races@.take(i + 1).drop_last() =~= races@.take(i as int));
                assert(races@.take(i + 1).last() == races@[i as int]);
                assert forall|r: Race| 0 <= #[trigger] count_races(races@.take(i as int), r) <= i by {
                    lemma_count_races_le_len(races@.take(i as int), r);
                    assert(races@.take(i as int).len() == i);
                }
                assert(c.spec_get(Race::WhiteCaucasian) == count_races(
                    races@.take(i as int),
                    Race::WhiteCaucasian,
                ));
                assert(c.spec_get(Race::BlackAfrican) == count_races(
                    races@.take(i as int),
                    Race::BlackAfrican,
                ));
                assert(c.spec_get(Race::NativeAmerican) == count_races(
                    races@.take(i as int),
                    Race::NativeAmerican,
                ));
                assert(c.spec_get(Race::Asian) == count_races(races@.take(i as int), Race::Asian));
                assert(c.spec_get(Race::PacificIslander) == count_races(
                    races@.take(i as int),
                    Race::PacificIslander,
                ));
                assert(c.spec_get(Race::Multiracial) == count_races(
                    races@.take(i as int),
                    Race::Multiracial,
                ));
                assert(c.spec_get(Race::Hispanic) == count_races(
                    races@.take(i as int),
                    Race::Hispanic,
                ));
                assert(c.spec_get(Race::Other) == count_races(races@.take(i as int), Race::Other));
            }
            match race {
                Race::WhiteCaucasian => c.white_caucasian = c.white_caucasian + 1,
                Race::BlackAfrican => c.black_african = c.black_african + 1,
                Race::NativeAmerican => c.native_american = c.native_american + 1,
                Race::Asian => c.asian = c.asian + 1,
                Race::PacificIslander => c.pacific_islander = c.pacific_islander + 1,
                Race::Multiracial => c.multiracial = c.multiracial + 1,
                Race::Hispanic => c.hispanic = c.hispanic + 1,
                Race::Other => c.other = c.other + 1,
            }
            proof {
                assert forall|r: Race| #[trigger] c.spec_get(r) == count_races(
                    races@.take(i as int + 1),
                    r,
                ) by {
                    assert(count_races(races@.take(i + 1), r) == count_races(races@.take(i as int), r)
                        + if races@[i as int] == r {
                        1int
                    } else {
                        0int
                    });
                }
            }
        }
        proof {
            assert(races@.take(n as int) =~= races@);
        }
        c
    }
}

/// All race categories in declaration order.
pub open spec fn race_list() -> Seq<Race> {
    seq![
        Race::WhiteCaucasian,
        Race::BlackAfrican,
        Race::NativeAmerican,
        Race::Asian,
        Race::PacificIslander,
        Race::Multiracial,
        Race::Hispanic,
        Race::Other,
    ]
}

/// Once the HispanicLatino flag is stripped, no rule of the classifier can
/// produce the Hispanic category.
proof fn lemma_subrace_never_hispanic(bits: u16)
    ensures
        !(spec_classify_hispanic_subrace(bits) == Ok::<Race, ClassificationError>(Race::Hispanic)),
{
    let rest = bits & !HISPANIC_LATINO;
    assert(rest & HISPANIC_LATINO == 0) by (bit_vector)
        requires
            rest == bits & !HISPANIC_LATINO,
    ;
    if rest != 0 {
        let b = rest & !MIDDLE_EASTERN;
        assert(b & HISPANIC_LATINO == 0 && (b != HISPANIC_LATINO)) by (bit_vector)
            requires
                b == rest & !MIDDLE_EASTERN,
                rest & HISPANIC_LATINO == 0,
        ;
    }
}

/// Classification is total on every non-empty set that is not reducible to
/// only the MiddleEastern flag: exactly one race results.  Being a function
/// of the flag set alone, it is also deterministic: the same input always
/// yields the same race.
pub proof fn lemma_classify_total(ethnicity: Ethnicities)
    requires
        ethnicity.0 != 0,
        ethnicity.0 & !MIDDLE_EASTERN != 0,
    ensures
        spec_classify(ethnicity.0) is Ok,
{
}

} // verus!
