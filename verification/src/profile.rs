//! Validated match records and the sequences derived from them.

use vstd::prelude::*;

use crate::ethnicity::Ethnicities;
use crate::ethnicity::HISPANIC_LATINO;
use crate::race::Race;
use crate::race::spec_classify;
use crate::race::spec_classify_hispanic_subrace;

verus! {

/// Who replied last in the conversation with a match.
#[derive(Clone, Copy, PartialEq, Eq, Structural, Debug)]
pub enum WhoLastReplied {
    You,
    Them,
    Met,
    /// Nobody ever replied.
    NoReply,
}

/// Why a raw record was rejected.
#[derive(Clone, Copy, PartialEq, Eq, Structural, Debug)]
pub enum ProfileValidationError {
    /// The reply state says the two met, yet no conversation occurred.
    MetWithoutConversation,
    /// The reply state says nobody replied, yet a conversation occurred.
    NoReplyWithConversation,
}

/// The consistency rule between conversation state and reply state: a
/// meeting presupposes a conversation, and a conversation presupposes some
/// reply.
pub open spec fn reply_state_consistent(convo: bool, who_last_replied: WhoLastReplied) -> bool {
    &&& (who_last_replied == WhoLastReplied::Met ==> convo)
    &&& (who_last_replied == WhoLastReplied::NoReply ==> !convo)
}

/// The race the classifier derives from a flag set, absent when
/// classification fails.
pub open spec fn spec_race_of(bits: u16) -> Option<Race> {
    match spec_classify(bits) {
        Ok(r) => Some(r),
        Err(_) => None,
    }
}

/// One validated match record.
#[derive(Clone, Debug)]
pub struct Profile {
    pub name: String,
    pub matched: bool,
    pub convo: bool,
    pub who_last_replied: WhoLastReplied,
    pub ethnicity_specified: bool,
    pub ethnicity: Ethnicities,
    /// The classifier's result on `ethnicity`; absent when classification
    /// fails.
    pub race: Option<Race>,
}

impl Profile {
    /// The invariant every constructed profile satisfies.
    pub open spec fn wf(self) -> bool {
        &&& reply_state_consistent(self.convo, self.who_last_replied)
        &&& self.race == spec_race_of(self.ethnicity.0)
    }

    /// Validates a raw record into a profile.  Succeeds exactly when the
    /// conversation and reply states are consistent; the derived race is
    /// attached on the way.
    pub fn from_raw(
        name: String,
        matched: bool,
        convo: bool,
        who_last_replied: WhoLastReplied,
        ethnicity_specified: bool,
        ethnicity: Ethnicities,
    ) -> (r: Result<Profile, ProfileValidationError>)
        ensures
            r is Ok <==> reply_state_consistent(convo, who_last_replied),
            who_last_replied == WhoLastReplied::Met && !convo ==> r == Err::<
                Profile,
                ProfileValidationError,
            >(ProfileValidationError::MetWithoutConversation),
            who_last_replied == WhoLastReplied::NoReply && convo ==> r == Err::<
                Profile,
                ProfileValidationError,
            >(ProfileValidationError::NoReplyWithConversation),
            r matches Ok(p) ==> {
                &&& p.name == name
                &&& p.matched == matched
                &&& p.convo == convo
                &&& p.who_last_replied == who_last_replied
                &&& p.ethnicity_specified == ethnicity_specified
                &&& p.ethnicity == ethnicity
                &&& p.race == spec_race_of(ethnicity.0)
                &&& p.wf()
            },
    {
        if matches!(who_last_replied, WhoLastReplied::Met) && !convo {
            return Err(ProfileValidationError::MetWithoutConversation);
        }
        if matches!(who_last_replied, WhoLastReplied::NoReply) && convo {
            return Err(ProfileValidationError::NoReplyWithConversation);
        }
        let race = match Race::classify(ethnicity) {
            Ok(r) => Some(r),
            Err(_) => None,
        };
        Ok(
            Profile {
                name,
                matched,
                convo,
                who_last_replied,
                ethnicity_specified,
                ethnicity,
                race,
            },
        )
    }

    /// Runtime check of the profile invariant, for callers outside the
    /// verified world.
    pub fn check_valid(&self) -> (b: bool)
        ensures
            b == self.wf(),
    {
        let consistent = !(matches!(self.who_last_replied, WhoLastReplied::Met) && !self.convo)
            && !(matches!(self.who_last_replied, WhoLastReplied::NoReply) && self.convo);
        let race_ok = match (self.race, Race::classify(self.ethnicity)) {
            (Some(a), Ok(b)) => a == b,
            (None, Err(_)) => true,
            _ => false,
        };
        consistent && race_ok
    }
}

/// The classified race of each profile whose classification succeeded, in
/// input order.
pub open spec fn spec_general_races(s: Seq<Profile>) -> Seq<Race>
    decreases s.len(),
{
    if s.len() == 0 {
        Seq::empty()
    } else {
        spec_general_races(s.drop_last()) + match s.last().race {
            Some(r) => seq![r],
            None => Seq::empty(),
        }
    }
}

/// The sub-race of each Hispanic-tagged profile whose sub-race
/// classification succeeded, in input order.
pub open spec fn spec_hispanic_subraces(s: Seq<Profile>) -> Seq<Race>
    decreases s.len(),
{
    if s.len() == 0 {
        Seq::empty()
    } else {
        spec_hispanic_subraces(s.drop_last()) + if s.last().ethnicity.has(HISPANIC_LATINO) {
            match spec_classify_hispanic_subrace(s.last().ethnicity.0) {
                Ok(r) => seq![r],
                Err(_) => Seq::empty(),
            }
        } else {
            Seq::empty()
        }
    }
}

/// How many profiles carry background information: a classified race, or at
/// least the HispanicLatino flag.
pub open spec fn spec_background_count(s: Seq<Profile>) -> int
    decreases s.len(),
{
    if s.len() == 0 {
        0
    } else {
        spec_background_count(s.drop_last()) + if s.last().race is Some
            || s.last().ethnicity.has(HISPANIC_LATINO) {
            1int
        } else {
            0int
        }
    }
}

/// Collects the classified race of every profile that has one.
pub fn general_races(profiles: &Vec<Profile>) -> (r: Vec<Race>)
    ensures
        r@ == spec_general_races(profiles@),
{
    let mut out: Vec<Race> = Vec::new();
    let n = profiles.len();
    assert(out@ =~= spec_general_races(profiles@.take(0)));
    for i in 0..n
        invariant
            n == profiles@.len(),
            out@ == spec_general_races(profiles@.take(i as int)),
    {
        proof {
            assert(profiles@.take(i + 1).drop_last() =~= profiles@.take(i as int));
            assert(profiles@.take(i + 1).last() == profiles@[i as int]);
        }
        match profiles[i].race {
            Some(race) => {
                out.push(race);
                proof {
                    assert(out@ =~= spec_general_races(profiles@.take(i + 1)));
                }
            },
            None => {
                proof {
                    assert(out@ =~= spec_general_races(profiles@.take(i + 1)));
                }
            },
        }
    }
    proof {
        assert(profiles@.take(n as int) =~= profiles@);
    }
    out
}

/// Collects the sub-race of every Hispanic-tagged profile whose sub-race
/// classification succeeds.  The result never contains Hispanic itself.
pub fn hispanic_subraces(profiles: &Vec<Profile>) -> (r: Vec<Race>)
    ensures
        r@ == spec_hispanic_subraces(profiles@),
        forall|j: int| 0 <= j < r@.len() ==> r@[j] != Race::Hispanic,
{
    let mut out: Vec<Race> = Vec::new();
    let n = profiles.len();
    assert(out@ =~= spec_hispanic_subraces(profiles@.take(0)));
    for i in 0..n
        invariant
            n == profiles@.len(),
            out@ == spec_hispanic_subraces(profiles@.take(i as int)),
            forall|j: int| 0 <= j < out@.len() ==> out@[j] != Race::Hispanic,
    {
        proof {
            assert(profiles@.take(i + 1).drop_last() =~= profiles@.take(i as int));
            assert(profiles@.take(i + 1).last() == profiles@[i as int]);
        }
        let e = profiles[i].ethnicity;
        if e.bits() & HISPANIC_LATINO != 0 {
            match Race::classify_hispanic_subrace(e) {
                Ok(race) => {
                    out.push(race);
                    proof {
                        assert(out@ =~= spec_hispanic_subraces(profiles@.take(i + 1)));
                    }
                },
                Err(_) => {
                    proof {
                        assert(out@ =~= spec_hispanic_subraces(profiles@.take(i + 1)));
                    }
                },
            }
        } else {
            proof {
                assert(out@ =~= spec_hispanic_subraces(profiles@.take(i + 1)));
            }
        }
    }
    proof {
        assert(profiles@.take(n as int) =~= profiles@);
    }
    out
}

/// Counts the profiles that carry background information.
pub fn count_with_background(profiles: &Vec<Profile>) -> (c: u64)
    requires
        profiles@.len() <= 0xFFFF_FFFF,
    ensures
        c == spec_background_count(profiles@),
{
    let mut c: u64 = 0;
    let n = profiles.len();
    for i in 0..n
        invariant
            n == profiles@.len() <= 0xFFFF_FFFF,
            c == spec_background_count(profiles@.take(i as int)),
            c <= i,
    {
        proof {
            assert(profiles@.take(i + 1).drop_last() =~= profiles@.take(i as int));
            assert(profiles@.take(i + 1).last() == profiles@[i as int]);
        }
        let has_race = matches!(profiles[i].race, Some(_));
        if has_race || profiles[i].ethnicity.bits() & HISPANIC_LATINO != 0 {
            c = c + 1;
        }
    }
    proof {
        assert(profiles@.take(n as int) =~= profiles@);
    }
    c
}

} // verus!
