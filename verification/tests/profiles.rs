use match_metrics::ethnicity::Ethnicities;
use match_metrics::ethnicity::BLACK_AFRICAN_DESCENT;
use match_metrics::ethnicity::HISPANIC_LATINO;
use match_metrics::ethnicity::MIDDLE_EASTERN;
use match_metrics::ethnicity::WHITE_CAUCASIAN;
use match_metrics::profile::count_with_background;
use match_metrics::profile::general_races;
use match_metrics::profile::hispanic_subraces;
use match_metrics::profile::Profile;
use match_metrics::profile::ProfileValidationError;
use match_metrics::profile::WhoLastReplied;
use match_metrics::race::Race;

fn profile(convo: bool, who: WhoLastReplied, bits: u16) -> Profile {
    Profile::from_raw("match".to_string(), true, convo, who, true, Ethnicities(bits)).unwrap()
}

#[test]
fn met_without_conversation_fails_validation() {
    let r = Profile::from_raw(
        "a".to_string(),
        true,
        false,
        WhoLastReplied::Met,
        true,
        Ethnicities(WHITE_CAUCASIAN),
    );
    assert_eq!(r.unwrap_err(), ProfileValidationError::MetWithoutConversation);
}

#[test]
fn no_reply_with_conversation_fails_validation() {
    let r = Profile::from_raw(
        "a".to_string(),
        true,
        true,
        WhoLastReplied::NoReply,
        true,
        Ethnicities(WHITE_CAUCASIAN),
    );
    assert_eq!(r.unwrap_err(), ProfileValidationError::NoReplyWithConversation);
}

#[test]
fn all_other_reply_combinations_validate() {
    for convo in [false, true] {
        for who in [WhoLastReplied::You, WhoLastReplied::Them] {
            let r = Profile::from_raw(
                "a".to_string(),
                false,
                convo,
                who,
                false,
                Ethnicities(0),
            );
            assert!(r.is_ok());
        }
    }
    assert!(Profile::from_raw(
        "a".to_string(),
        false,
        true,
        WhoLastReplied::Met,
        false,
        Ethnicities(0)
    )
    .is_ok());
    assert!(Profile::from_raw(
        "a".to_string(),
        false,
        false,
        WhoLastReplied::NoReply,
        false,
        Ethnicities(0)
    )
    .is_ok());
}

#[test]
fn validation_attaches_the_classified_race() {
    let p = profile(true, WhoLastReplied::Met, HISPANIC_LATINO | WHITE_CAUCASIAN);
    assert_eq!(p.race, Some(Race::Hispanic));
    let q = profile(false, WhoLastReplied::You, 0);
    assert_eq!(q.race, None);
    let m = profile(false, WhoLastReplied::You, MIDDLE_EASTERN);
    assert_eq!(m.race, None);
}

#[test]
fn built_profiles_pass_the_runtime_check() {
    let p = profile(true, WhoLastReplied::Them, WHITE_CAUCASIAN);
    assert!(p.check_valid());
    let mut broken = profile(true, WhoLastReplied::Them, WHITE_CAUCASIAN);
    broken.race = None;
    assert!(!broken.check_valid());
}

#[test]
fn general_races_keeps_classified_profiles_in_order() {
    let profiles = vec![
        profile(false, WhoLastReplied::You, WHITE_CAUCASIAN),
        profile(false, WhoLastReplied::You, 0),
        profile(false, WhoLastReplied::You, BLACK_AFRICAN_DESCENT),
    ];
    assert_eq!(general_races(&profiles), vec![Race::WhiteCaucasian, Race::BlackAfrican]);
}

#[test]
fn hispanic_subraces_strip_the_hispanic_flag() {
    let profiles = vec![
        profile(false, WhoLastReplied::You, HISPANIC_LATINO),
        profile(false, WhoLastReplied::You, HISPANIC_LATINO | BLACK_AFRICAN_DESCENT),
        profile(false, WhoLastReplied::You, WHITE_CAUCASIAN),
        profile(false, WhoLastReplied::You, HISPANIC_LATINO | MIDDLE_EASTERN),
    ];
    assert_eq!(hispanic_subraces(&profiles), vec![Race::Other, Race::BlackAfrican]);
}

#[test]
fn background_count_includes_race_or_hispanic_flag() {
    let profiles = vec![
        profile(false, WhoLastReplied::You, WHITE_CAUCASIAN),
        profile(false, WhoLastReplied::You, 0),
        profile(false, WhoLastReplied::You, HISPANIC_LATINO | MIDDLE_EASTERN),
    ];
    assert_eq!(count_with_background(&profiles), 2);
}
