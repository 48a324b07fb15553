use match_metrics::ethnicity::Ethnicities;
use match_metrics::funnel::compute;
use match_metrics::funnel::InsufficientDataError;
use match_metrics::profile::Profile;
use match_metrics::profile::WhoLastReplied;

fn profile(convo: bool, who: WhoLastReplied) -> Profile {
    Profile::from_raw("match".to_string(), true, convo, who, false, Ethnicities(0)).unwrap()
}

#[test]
fn all_inactive_profiles_are_insufficient() {
    // ten matches where nobody ever wrote: no conversation was attempted,
    // so the attempted-conversation denominator is zero
    let profiles: Vec<Profile> = (0..10)
        .map(|_| profile(false, WhoLastReplied::NoReply))
        .collect();
    assert_eq!(compute(&profiles).unwrap_err(), InsufficientDataError);
}

#[test]
fn no_profiles_is_insufficient() {
    assert_eq!(compute(&Vec::new()).unwrap_err(), InsufficientDataError);
}

#[test]
fn no_started_conversation_is_insufficient() {
    let profiles = vec![
        profile(false, WhoLastReplied::You),
        profile(false, WhoLastReplied::You),
    ];
    assert_eq!(compute(&profiles).unwrap_err(), InsufficientDataError);
}

#[test]
fn funnel_buckets_and_ratios_are_exact() {
    let mut profiles = Vec::new();
    for _ in 0..2 {
        profiles.push(profile(false, WhoLastReplied::NoReply));
    }
    profiles.push(profile(false, WhoLastReplied::Them));
    for _ in 0..2 {
        profiles.push(profile(false, WhoLastReplied::You));
    }
    for _ in 0..2 {
        profiles.push(profile(true, WhoLastReplied::You));
    }
    for _ in 0..2 {
        profiles.push(profile(true, WhoLastReplied::Them));
    }
    profiles.push(profile(true, WhoLastReplied::Met));

    let m = compute(&profiles).unwrap();
    assert_eq!(m.total, 10);
    assert_eq!(m.no_convo_attempted, 2);
    assert_eq!(m.no_convo_they_failed, 1);
    assert_eq!(m.no_convo_you_failed, 2);
    assert_eq!(m.convo_started_you_failed, 2);
    assert_eq!(m.convo_started_they_failed, 2);
    assert_eq!(m.you_met, 1);
    assert_eq!(m.convo_started, 5);
    assert_eq!(m.convo_you_attempted, 7);

    assert_eq!((m.interested.num, m.interested.den), (7, 10));
    assert_eq!((m.they_failed.num, m.they_failed.den), (1, 10));
    assert_eq!((m.no_one_interested.num, m.no_one_interested.den), (2, 10));
    assert_eq!((m.starter_success.num, m.starter_success.den), (5, 7));
    assert_eq!((m.starter_failed.num, m.starter_failed.den), (2, 7));
    assert_eq!((m.you_ghost_them.num, m.you_ghost_them.den), (2, 5));
    assert_eq!((m.them_ghost_you.num, m.them_ghost_you.den), (2, 5));
    assert_eq!((m.date_rate.num, m.date_rate.den), (1, 5));
    // (5/7) * (1/5) kept unreduced over the product denominator
    assert_eq!((m.date_given_interest.num, m.date_given_interest.den), (5, 35));
}

#[test]
fn a_single_date_fills_every_bucket_it_touches() {
    let profiles = vec![profile(true, WhoLastReplied::Met)];
    let m = compute(&profiles).unwrap();
    assert_eq!(m.total, 1);
    assert_eq!(m.you_met, 1);
    assert_eq!(m.convo_started, 1);
    assert_eq!(m.convo_you_attempted, 1);
    assert_eq!((m.date_rate.num, m.date_rate.den), (1, 1));
    assert_eq!((m.date_given_interest.num, m.date_given_interest.den), (1, 1));
}
