//! Aggregation of external census records into population-weight
//! distributions.
//!
//! Counts for sub-regions of one area are additive; each race's share of the
//! grand total is the exact fraction `count / total`.

use vstd::prelude::*;

use crate::race::Race;
use crate::rat::num_sum;
use crate::rat::rat_eq;
use crate::rat::rat_sum;
use crate::rat::lemma_num_sum_push;
use crate::rat::lemma_rat_sum_is_one;

verus! {

/// One general-population census record for a county.
#[derive(Clone, Debug)]
pub struct CountyDemographics {
    pub county: String,
    pub white_alone: u32,
    pub black_african_american_alone: u32,
    pub american_indian_alaska_native_alone: u32,
    pub asian_alone: u32,
    pub native_hawaiian_pacific_islander_alone: u32,
    pub some_other_race_alone: u32,
    pub two_or_more_races: u32,
    pub hispanic_latino: u32,
}

/// One Hispanic-subpopulation census record for a county.
#[derive(Clone, Debug)]
pub struct CountyHispanicDemographics {
    pub county: String,
    pub white_hispanic: u32,
    pub black_african_american_hispanic: u32,
    pub american_indian_alaska_native_hispanic: u32,
    pub asian_hispanic: u32,
    pub native_hawaiian_pacific_islander_hispanic: u32,
    pub some_other_race_hispanic: u32,
    pub two_or_more_races_hispanic: u32,
}

/// Why a baseline could not be built.
#[derive(Clone, Copy, PartialEq, Eq, Structural, Debug)]
pub enum BaselineError {
    /// A record set was empty, or its grand total was zero.
    EmptyBaseline,
}

/// The population a general-population record reports for a race.
pub open spec fn general_count(rec: CountyDemographics, r: Race) -> int {
    match r {
        Race::WhiteCaucasian => rec.white_alone as int,
        Race::BlackAfrican => rec.black_african_american_alone as int,
        Race::NativeAmerican => rec.american_indian_alaska_native_alone as int,
        Race::Asian => rec.asian_alone as int,
        Race::PacificIslander => rec.native_hawaiian_pacific_islander_alone as int,
        Race::Multiracial => rec.two_or_more_races as int,
        Race::Hispanic => rec.hispanic_latino as int,
        Race::Other => rec.some_other_race_alone as int,
    }
}

/// The population a Hispanic-subpopulation record reports for a race.
/// Within that subpopulation Hispanic is not itself a race label.
pub open spec fn hispanic_count(rec: CountyHispanicDemographics, r: Race) -> int {
    match r {
        Race::WhiteCaucasian => rec.white_hispanic as int,
        Race::BlackAfrican => rec.black_african_american_hispanic as int,
        Race::NativeAmerican => rec.american_indian_alaska_native_hispanic as int,
        Race::Asian => rec.asian_hispanic as int,
        Race::PacificIslander => rec.native_hawaiian_pacific_islander_hispanic as int,
        Race::Multiracial => rec.two_or_more_races_hispanic as int,
        Race::Hispanic => 0,
        Race::Other => rec.some_other_race_hispanic as int,
    }
}

/// A race's summed population over a sequence of general records.
pub open spec fn general_sum(s: Seq<CountyDemographics>, r: Race) -> int
    decreases s.len(),
{
    if s.len() == 0 {
        0
    } else {
        general_sum(s.drop_last(), r) + general_count(s.last(), r)
    }
}

/// A race's summed population over a sequence of Hispanic-subpopulation
/// records.
pub open spec fn hispanic_sum(s: Seq<CountyHispanicDemographics>, r: Race) -> int
    decreases s.len(),
{
    if s.len() == 0 {
        0
    } else {
        hispanic_sum(s.drop_last(), r) + hispanic_count(s.last(), r)
    }
}

/// The grand total over all races of a sequence of general records.
pub open spec fn general_grand_total(s: Seq<CountyDemographics>) -> int {
    general_sum(s, Race::WhiteCaucasian) + general_sum(s, Race::BlackAfrican) + general_sum(
        s,
        Race::NativeAmerican,
    ) + general_sum(s, Race::Asian) + general_sum(s, Race::PacificIslander) + general_sum(
        s,
        Race::Multiracial,
    ) + general_sum(s, Race::Hispanic) + general_sum(s, Race::Other)
}

/// The grand total over all races of a sequence of Hispanic-subpopulation
/// records.
pub open spec fn hispanic_grand_total(s: Seq<CountyHispanicDemographics>) -> int {
    hispanic_sum(s, Race::WhiteCaucasian) + hispanic_sum(s, Race::BlackAfrican) + hispanic_sum(
        s,
        Race::NativeAmerican,
    ) + hispanic_sum(s, Race::Asian) + hispanic_sum(s, Race::PacificIslander) + hispanic_sum(
        s,
        Race::Multiracial,
    ) + hispanic_sum(s, Race::Hispanic) + hispanic_sum(s, Race::Other)
}

/// A race-weight distribution: per-race population counts and their grand
/// total.  The fraction assigned to a race is `count / total`, exactly.
#[derive(Clone, Copy, PartialEq, Eq, Structural, Debug)]
pub struct RaceWeightDistribution {
    pub white_caucasian: u64,
    pub black_african: u64,
    pub native_american: u64,
    pub asian: u64,
    pub pacific_islander: u64,
    pub multiracial: u64,
    pub hispanic: u64,
    pub other: u64,
    pub total: u64,
}

impl RaceWeightDistribution {
    /// The population counted for a race.
    pub open spec fn spec_get(self, r: Race) -> u64 {
        match r {
            Race::WhiteCaucasian => self.white_caucasian,
            Race::BlackAfrican => self.black_african,
            Race::NativeAmerican => self.native_american,
            Race::Asian => self.asian,
            Race::PacificIslander => self.pacific_islander,
            Race::Multiracial => self.multiracial,
            Race::Hispanic => self.hispanic,
            Race::Other => self.other,
        }
    }

    /// The population counted for a race.
    pub fn get(&self, r: Race) -> (c: u64)
        ensures
            c == self.spec_get(r),
    {
        match r {
            Race::WhiteCaucasian => self.white_caucasian,
            Race::BlackAfrican => self.black_african,
            Race::NativeAmerican => self.native_american,
            Race::Asian => self.asian,
            Race::PacificIslander => self.pacific_islander,
            Race::Multiracial => self.multiracial,
            Race::Hispanic => self.hispanic,
            Race::Other => self.other,
        }
    }

    /// Well-formedness: the total is the sum of the per-race counts and is
    /// positive, so each fraction is defined and the fractions sum to one.
    pub open spec fn wf(self) -> bool {
        &&& self.total == self.white_caucasian + self.black_african + self.native_american
            + self.asian + self.pacific_islander + self.multiracial + self.hispanic + self.other
        &&& self.total > 0
    }

    /// The per-race fractions in declaration order, as exact rationals.
    pub open spec fn fraction_seq(self) -> Seq<(int, int)> {
        seq![
            (self.white_caucasian as int, self.total as int),
            (self.black_african as int, self.total as int),
            (self.native_american as int, self.total as int),
            (self.asian as int, self.total as int),
            (self.pacific_islander as int, self.total as int),
            (self.multiracial as int, self.total as int),
            (self.hispanic as int, self.total as int),
            (self.other as int, self.total as int),
        ]
    }
}

/// The fractions of a well-formed distribution sum to exactly one.
pub proof fn lemma_fractions_sum_to_one(d: RaceWeightDistribution)
    requires
        d.wf(),
    ensures
        rat_eq(rat_sum(d.fraction_seq()), (1int, 1int)),
{
    let t = d.total as int;
    let s = d.fraction_seq();
    let s0 = Seq::<(int, int)>::empty();
    let s1 = s0.push((d.white_caucasian as int, t));
    let s2 = s1.push((d.black_african as int, t));
    let s3 = s2.push((d.native_american as int, t));
    let s4 = s3.push((d.asian as int, t));
    let s5 = s4.push((d.pacific_islander as int, t));
    let s6 = s5.push((d.multiracial as int, t));
    let s7 = s6.push((d.hispanic as int, t));
    let s8 = s7.push((d.other as int, t));
    lemma_num_sum_push(s0, (d.white_caucasian as int, t));
    lemma_num_sum_push(s1, (d.black_african as int, t));
    lemma_num_sum_push(s2, (d.native_american as int, t));
    lemma_num_sum_push(s3, (d.asian as int, t));
    lemma_num_sum_push(s4, (d.pacific_islander as int, t));
    lemma_num_sum_push(s5, (d.multiracial as int, t));
    lemma_num_sum_push(s6, (d.hispanic as int, t));
    lemma_num_sum_push(s7, (d.other as int, t));
    assert(s8 =~= s);
    assert(num_sum(s) == t);
    lemma_rat_sum_is_one(s, t);
}

/// Sums a race's population over general records, leaving the division to
/// the caller.
fn accumulate_general(records: &Vec<CountyDemographics>) -> (d: RaceWeightDistribution)
    requires
        records@.len() <= 0x1000_0000,
    ensures
        forall|r: Race| #[trigger] d.spec_get(r) == general_sum(records@, r),
        d.total == general_grand_total(records@),
{
    let n = records.len();
    let mut white_caucasian: u64 = 0;
    let mut black_african: u64 = 0;
    let mut native_american: u64 = 0;
    let mut asian: u64 = 0;
    let mut pacific_islander: u64 = 0;
    let mut multiracial: u64 = 0;
    let mut hispanic: u64 = 0;
    let mut other: u64 = 0;
    for i in 0..n
        invariant
            n == records@.len() <= 0x1000_0000,
            white_caucasian == general_sum(records@.take(i as int), Race::WhiteCaucasian),
            black_african == general_sum(records@.take(i as int), Race::BlackAfrican),
            native_american == general_sum(records@.take(i as int), Race::NativeAmerican),
            asian == general_sum(records@.take(i as int), Race::Asian),
            pacific_islander == general_sum(records@.take(i as int), Race::PacificIslander),
            multiracial == general_sum(records@.take(i as int), Race::Multiracial),
            hispanic == general_sum(records@.take(i as int), Race::Hispanic),
            other == general_sum(records@.take(i as int), Race::Other),
            white_caucasian <= i as int * 0xFFFF_FFFF,
            black_african <= i as int * 0xFFFF_FFFF,
            native_american <= i as int * 0xFFFF_FFFF,
            asian <= i as int * 0xFFFF_FFFF,
            pacific_islander <= i as int * 0xFFFF_FFFF,
            multiracial <= i as int * 0xFFFF_FFFF,
            hispanic <= i as int * 0xFFFF_FFFF,
            other <= i as int * 0xFFFF_FFFF,
    {
        proof {
            assert(records@.take(i + 1).drop_last() =~= records@.take(i as int));
            assert(records@.take(i + 1).last() == records@[i as int]);
        }
        white_caucasian = white_caucasian + records[i].white_alone as u64;
        black_african = black_african + records[i].black_african_american_alone as u64;
        native_american = native_american + records[i].american_indian_alaska_native_alone as u64;
        asian = asian + records[i].asian_alone as u64;
        pacific_islander = pacific_islander + records[i].native_hawaiian_pacific_islander_alone
            as u64;
        multiracial = multiracial + records[i].two_or_more_races as u64;
        hispanic = hispanic + records[i].hispanic_latino as u64;
        other = other + records[i].some_other_race_alone as u64;
    }
    proof {
        assert(records@.take(n as int) =~= records@);
    }
    let total = white_caucasian + black_african + native_american + asian + pacific_islander
        + multiracial + hispanic + other;
    RaceWeightDistribution {
        white_caucasian,
        black_african,
        native_american,
        asian,
        pacific_islander,
        multiracial,
        hispanic,
        other,
        total,
    }
}

/// Sums a race's population over Hispanic-subpopulation records.
fn accumulate_hispanic(records: &Vec<CountyHispanicDemographics>) -> (d: RaceWeightDistribution)
    requires
        records@.len() <= 0x1000_0000,
    ensures
        forall|r: Race| #[trigger] d.spec_get(r) == hispanic_sum(records@, r),
        d.total == hispanic_grand_total(records@),
        d.hispanic == 0,
{
    let n = records.len();
    let mut white_caucasian: u64 = 0;
    let mut black_african: u64 = 0;
    let mut native_american: u64 = 0;
    let mut asian: u64 = 0;
    let mut pacific_islander: u64 = 0;
    let mut multiracial: u64 = 0;
    let mut other: u64 = 0;
    for i in 0..n
        invariant
            n == records@.len() <= 0x1000_0000,
            white_caucasian == hispanic_sum(records@.take(i as int), Race::WhiteCaucasian),
            black_african == hispanic_sum(records@.take(i as int), Race::BlackAfrican),
            native_american == hispanic_sum(records@.take(i as int), Race::NativeAmerican),
            asian == hispanic_sum(records@.take(i as int), Race::Asian),
            pacific_islander == hispanic_sum(records@.take(i as int), Race::PacificIslander),
            multiracial == hispanic_sum(records@.take(i as int), Race::Multiracial),
            other == hispanic_sum(records@.take(i as int), Race::Other),
            white_caucasian <= i as int * 0xFFFF_FFFF,
            black_african <= i as int * 0xFFFF_FFFF,
            native_american <= i as int * 0xFFFF_FFFF,
            asian <= i as int * 0xFFFF_FFFF,
            pacific_islander <= i as int * 0xFFFF_FFFF,
            multiracial <= i as int * 0xFFFF_FFFF,
            other <= i as int * 0xFFFF_FFFF,
    {
        proof {
            assert(records@.take(i + 1).drop_last() =~= records@.take(i as int));
            assert(records@.take(i + 1).last() == records@[i as int]);
        }
        white_caucasian = white_caucasian + records[i].white_hispanic as u64;
        black_african = black_african + records[i].black_african_american_hispanic as u64;
        native_american = native_american + records[i].american_indian_alaska_native_hispanic
            as u64;
        asian = asian + records[i].asian_hispanic as u64;
        pacific_islander = pacific_islander + records[i].native_hawaiian_pacific_islander_hispanic
            as u64;
        multiracial = multiracial + records[i].two_or_more_races_hispanic as u64;
        other = other + records[i].some_other_race_hispanic as u64;
    }
    proof {
        assert(records@.take(n as int) =~= records@);
        assert(hispanic_sum(records@, Race::Hispanic) == 0) by {
            lemma_hispanic_sum_of_hispanic_is_zero(records@);
        }
    }
    let total = white_caucasian + black_african + native_american + asian + pacific_islander
        + multiracial + other;
    RaceWeightDistribution {
        white_caucasian,
        black_african,
        native_american,
        asian,
        pacific_islander,
        multiracial,
        hispanic: 0,
        other,
        total,
    }
}

/// No Hispanic-subpopulation record contributes to the Hispanic label.
proof fn lemma_hispanic_sum_of_hispanic_is_zero(s: Seq<CountyHispanicDemographics>)
    ensures
        hispanic_sum(s, Race::Hispanic) == 0,
    decreases s.len(),
{
    if s.len() > 0 {
        lemma_hispanic_sum_of_hispanic_is_zero(s.drop_last());
    }
}

/// Builds the two normalized distributions: the general population and the
/// Hispanic-only subpopulation.  Each race's fraction is its summed count
/// over the grand total.  Fails with `EmptyBaseline` when either record set
/// is empty or either grand total is zero, since no normalization is then
/// possible.
pub fn build(general: &Vec<CountyDemographics>, hispanic: &Vec<CountyHispanicDemographics>) -> (r:
    Result<(RaceWeightDistribution, RaceWeightDistribution), BaselineError>)
    requires
        general@.len() <= 0x1000_0000,
        hispanic@.len() <= 0x1000_0000,
    ensures
        r is Ok <==> {
            &&& general@.len() > 0
            &&& hispanic@.len() > 0
            &&& general_grand_total(general@) > 0
            &&& hispanic_grand_total(hispanic@) > 0
        },
        r matches Ok(pair) ==> {
            &&& forall|race: Race| #[trigger] pair.0.spec_get(race) == general_sum(general@, race)
            &&& pair.0.total == general_grand_total(general@)
            &&& pair.0.wf()
            &&& forall|race: Race| #[trigger] pair.1.spec_get(race) == hispanic_sum(hispanic@, race)
            &&& pair.1.total == hispanic_grand_total(hispanic@)
            &&& pair.1.wf()
            &&& pair.1.hispanic == 0
        },
        r is Err ==> r == Err::<(RaceWeightDistribution, RaceWeightDistribution), BaselineError>(
            BaselineError::EmptyBaseline,
        ),
{
    if general.len() == 0 || hispanic.len() == 0 {
        return Err(BaselineError::EmptyBaseline);
    }
    let g = accumulate_general(general);
    let h = accumulate_hispanic(hispanic);
    if g.total == 0 || h.total == 0 {
        return Err(BaselineError::EmptyBaseline);
    }
    proof {
        assert(g.spec_get(Race::WhiteCaucasian) == general_sum(general@, Race::WhiteCaucasian));
        assert(g.spec_get(Race::BlackAfrican) == general_sum(general@, Race::BlackAfrican));
        assert(g.spec_get(Race::NativeAmerican) == general_sum(general@, Race::NativeAmerican));
        assert(g.spec_get(Race::Asian) == general_sum(general@, Race::Asian));
        assert(g.spec_get(Race::PacificIslander) == general_sum(general@, Race::PacificIslander));
        assert(g.spec_get(Race::Multiracial) == general_sum(general@, Race::Multiracial));
        assert(g.spec_get(Race::Hispanic) == general_sum(general@, Race::Hispanic));
        assert(g.spec_get(Race::Other) == general_sum(general@, Race::Other));
        assert(h.spec_get(Race::WhiteCaucasian) == hispanic_sum(hispanic@, Race::WhiteCaucasian));
        assert(h.spec_get(Race::BlackAfrican) == hispanic_sum(hispanic@, Race::BlackAfrican));
        assert(h.spec_get(Race::NativeAmerican) == hispanic_sum(hispanic@, Race::NativeAmerican));
        assert(h.spec_get(Race::Asian) == hispanic_sum(hispanic@, Race::Asian));
        assert(h.spec_get(Race::PacificIslander) == hispanic_sum(hispanic@, Race::PacificIslander));
        assert(h.spec_get(Race::Multiracial) == hispanic_sum(hispanic@, Race::Multiracial));
        assert(h.spec_get(Race::Other) == hispanic_sum(hispanic@, Race::Other));
        lemma_hispanic_sum_of_hispanic_is_zero(hispanic@);
    }
    Ok((g, h))
}

} // verus!
