//! Conversation-funnel metrics: where matches are lost between first
//! contact and a date, and who stopped replying.

use vstd::prelude::*;

use crate::profile::Profile;
use crate::profile::WhoLastReplied;
use crate::profile::reply_state_consistent;
use crate::rat::Ratio;

verus! {

/// Not enough data: a ratio's denominator would be zero.
#[derive(Clone, Copy, PartialEq, Eq, Structural, Debug)]
pub struct InsufficientDataError;

/// How many profiles fall in the bucket keyed by a conversation state and a
/// reply state.
pub open spec fn bucket_count(s: Seq<Profile>, convo: bool, who: WhoLastReplied) -> int
    decreases s.len(),
{
    if s.len() == 0 {
        0
    } else {
        bucket_count(s.drop_last(), convo, who) + if s.last().convo == convo
            && s.last().who_last_replied == who {
            1int
        } else {
            0int
        }
    }
}

/// Conversations that were started: either side later failed, or the two
/// met.
pub open spec fn spec_convo_started(s: Seq<Profile>) -> int {
    bucket_count(s, true, WhoLastReplied::You) + bucket_count(s, true, WhoLastReplied::Them)
        + bucket_count(s, true, WhoLastReplied::Met)
}

/// Matches whose conversation the user wanted: everything except the
/// no-activity bucket and the bucket where only the other side wrote.
pub open spec fn spec_convo_you_attempted(s: Seq<Profile>) -> int {
    s.len() - bucket_count(s, false, WhoLastReplied::NoReply) - bucket_count(
        s,
        false,
        WhoLastReplied::Them,
    )
}

/// The funnel tallies and the ratios derived from them.  Each ratio is an
/// exact fraction of its stated denominator.
#[derive(Clone, Copy, PartialEq, Eq, Structural, Debug)]
pub struct FunnelMetrics {
    pub total: u64,
    /// No conversation, nobody wrote.
    pub no_convo_attempted: u64,
    /// No conversation; the user wrote, the match never replied.
    pub no_convo_you_failed: u64,
    /// No conversation; the match wrote, the user never replied.
    pub no_convo_they_failed: u64,
    /// Conversation; the user stopped replying.
    pub convo_started_you_failed: u64,
    /// Conversation; the match stopped replying.
    pub convo_started_they_failed: u64,
    /// Conversation that led to a meeting.
    pub you_met: u64,
    pub convo_started: u64,
    pub convo_you_attempted: u64,
    /// convo_you_attempted / total.
    pub interested: Ratio,
    /// no_convo_they_failed / total.
    pub they_failed: Ratio,
    /// no_convo_attempted / total.
    pub no_one_interested: Ratio,
    /// convo_started / convo_you_attempted.
    pub starter_success: Ratio,
    /// no_convo_you_failed / convo_you_attempted.
    pub starter_failed: Ratio,
    /// convo_started_you_failed / convo_started.
    pub you_ghost_them: Ratio,
    /// convo_started_they_failed / convo_started.
    pub them_ghost_you: Ratio,
    /// you_met / convo_started.
    pub date_rate: Ratio,
    /// starter_success times date_rate: the chance a wanted conversation
    /// ends in a date.
    pub date_given_interest: Ratio,
}

/// Tallies every profile into its funnel bucket and derives the ratio
/// metrics.  Fails with `InsufficientDataError` exactly when a denominator
/// (the total, the attempted-conversation count, or the started-conversation
/// count) is zero.
pub fn compute(profiles: &Vec<Profile>) -> (r: Result<FunnelMetrics, InsufficientDataError>)
    requires
        profiles@.len() <= 0xFFFF_FFFF,
        forall|i: int| 0 <= i < profiles@.len() ==> reply_state_consistent(
            (#[trigger] profiles@[i]).convo,
            profiles@[i].who_last_replied,
        ),
    ensures
        r is Ok <==> {
            &&& profiles@.len() > 0
            &&& spec_convo_you_attempted(profiles@) > 0
            &&& spec_convo_started(profiles@) > 0
        },
        r matches Ok(m) ==> {
            &&& m.total == profiles@.len()
            &&& m.no_convo_attempted == bucket_count(profiles@, false, WhoLastReplied::NoReply)
            &&& m.no_convo_you_failed == bucket_count(profiles@, false, WhoLastReplied::You)
            &&& m.no_convo_they_failed == bucket_count(profiles@, false, WhoLastReplied::Them)
            &&& m.convo_started_you_failed == bucket_count(profiles@, true, WhoLastReplied::You)
            &&& m.convo_started_they_failed == bucket_count(profiles@, true, WhoLastReplied::Them)
            &&& m.you_met == bucket_count(profiles@, true, WhoLastReplied::Met)
            &&& m.convo_started == spec_convo_started(profiles@)
            &&& m.convo_you_attempted == spec_convo_you_attempted(profiles@)
            &&& m.interested == (Ratio { num: m.convo_you_attempted as u128, den: m.total as u128 })
            &&& m.they_failed == (Ratio {
                num: m.no_convo_they_failed as u128,
                den: m.total as u128,
            })
            &&& m.no_one_interested == (Ratio {
                num: m.no_convo_attempted as u128,
                den: m.total as u128,
            })
            &&& m.starter_success == (Ratio {
                num: m.convo_started as u128,
                den: m.convo_you_attempted as u128,
            })
            &&& m.starter_failed == (Ratio {
                num: m.no_convo_you_failed as u128,
                den: m.convo_you_attempted as u128,
            })
            &&& m.you_ghost_them == (Ratio {
                num: m.convo_started_you_failed as u128,
                den: m.convo_started as u128,
            })
            &&& m.them_ghost_you == (Ratio {
                num: m.convo_started_they_failed as u128,
                den: m.convo_started as u128,
            })
            &&& m.date_rate == (Ratio { num: m.you_met as u128, den: m.convo_started as u128 })
            &&& m.date_given_interest == (Ratio {
                num: (m.convo_started * m.you_met) as u128,
                den: (m.convo_you_attempted * m.convo_started) as u128,
            })
        },
{
    let n = profiles.len();
    let mut no_convo_attempted: u64 = 0;
    let mut no_convo_you_failed: u64 = 0;
    let mut no_convo_they_failed: u64 = 0;
    let mut convo_started_you_failed: u64 = 0;
    let mut convo_started_they_failed: u64 = 0;
    let mut you_met: u64 = 0;
    for i in 0..n
        invariant
            n == profiles@.len() <= 0xFFFF_FFFF,
            forall|k: int| 0 <= k < profiles@.len() ==> reply_state_consistent(
                (#[trigger] profiles@[k]).convo,
                profiles@[k].who_last_replied,
            ),
            no_convo_attempted == bucket_count(
                profiles@.take(i as int),
                false,
                WhoLastReplied::NoReply,
            ),
            no_convo_you_failed == bucket_count(profiles@.take(i as int), false, WhoLastReplied::You),
            no_convo_they_failed == bucket_count(
                profiles@.take(i as int),
                false,
                WhoLastReplied::Them,
            ),
            convo_started_you_failed == bucket_count(
                profiles@.take(i as int),
                true,
                WhoLastReplied::You,
            ),
            convo_started_they_failed == bucket_count(
                profiles@.take(i as int),
                true,
                WhoLastReplied::Them,
            ),
            you_met == bucket_count(profiles@.take(i as int), true, WhoLastReplied::Met),
            no_convo_attempted + no_convo_you_failed + no_convo_they_failed
                + convo_started_you_failed + convo_started_they_failed + you_met == i,
    {
        proof {
            assert(profiles@.take(i + 1).drop_last() =~= profiles@.take(i as int));
            assert(profiles@.take(i + 1).last() == profiles@[i as int]);
        }
        let convo = profiles[i].convo;
        let who = profiles[i].who_last_replied;
        if convo {
            match who {
                WhoLastReplied::You => convo_started_you_failed = convo_started_you_failed + 1,
                WhoLastReplied::Them => convo_started_they_failed = convo_started_they_failed + 1,
                WhoLastReplied::Met => you_met = you_met + 1,
                WhoLastReplied::NoReply => {
                    proof {
                        assert(reply_state_consistent(
                            profiles@[i as int].convo,
                            profiles@[i as int].who_last_replied,
                        ));
                        assert(false);
                    }
                },
            }
        } else {
            match who {
                WhoLastReplied::You => no_convo_you_failed = no_convo_you_failed + 1,
                WhoLastReplied::Them => no_convo_they_failed = no_convo_they_failed + 1,
                WhoLastReplied::NoReply => no_convo_attempted = no_convo_attempted + 1,
                WhoLastReplied::Met => {
                    proof {
                        assert(reply_state_consistent(
                            profiles@[i as int].convo,
                            profiles@[i as int].who_last_replied,
                        ));
                        assert(false);
                    }
                },
            }
        }
    }
    proof {
        assert(profiles@.take(n as int) =~= profiles@);
    }
    let total: u64 = n as u64;
    let convo_started = convo_started_you_failed + convo_started_they_failed + you_met;
    let convo_you_attempted = total - no_convo_attempted - no_convo_they_failed;
    if total == 0 || convo_you_attempted == 0 || convo_started == 0 {
        return Err(InsufficientDataError);
    }
    proof {
        vstd::arithmetic::mul::lemma_mul_upper_bound(
            convo_started as int,
            0xFFFF_FFFFint,
            you_met as int,
            0xFFFF_FFFFint,
        );
        vstd::arithmetic::mul::lemma_mul_upper_bound(
            convo_you_attempted as int,
            0xFFFF_FFFFint,
            convo_started as int,
            0xFFFF_FFFFint,
        );
    }
    Ok(
        FunnelMetrics {
            total,
            no_convo_attempted,
            no_convo_you_failed,
            no_convo_they_failed,
            convo_started_you_failed,
            convo_started_they_failed,
            you_met,
            convo_started,
            convo_you_attempted,
            interested: Ratio { num: convo_you_attempted as u128, den: total as u128 },
            they_failed: Ratio { num: no_convo_they_failed as u128, den: total as u128 },
            no_one_interested: Ratio { num: no_convo_attempted as u128, den: total as u128 },
            starter_success: Ratio {
                num: convo_started as u128,
                den: convo_you_attempted as u128,
            },
            starter_failed: Ratio {
                num: no_convo_you_failed as u128,
                den: convo_you_attempted as u128,
            },
            you_ghost_them: Ratio {
                num: convo_started_you_failed as u128,
                den: convo_started as u128,
            },
            them_ghost_you: Ratio {
                num: convo_started_they_failed as u128,
                den: convo_started as u128,
            },
            date_rate: Ratio { num: you_met as u128, den: convo_started as u128 },
            date_given_interest: Ratio {
                num: convo_started as u128 * you_met as u128,
                den: convo_you_attempted as u128 * convo_started as u128,
            },
        },
    )
}

} // verus!
