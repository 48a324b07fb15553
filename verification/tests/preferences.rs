use match_metrics::baseline::RaceWeightDistribution;
use match_metrics::preference::compute;
use match_metrics::preference::inputs_ok;
use match_metrics::preference::PreferenceError;
use match_metrics::preference::PreferenceInputs;
use match_metrics::race::Race;
use match_metrics::race::RaceCounts;

fn distribution(white: u64, black: u64, hispanic: u64) -> RaceWeightDistribution {
    RaceWeightDistribution {
        white_caucasian: white,
        black_african: black,
        native_american: 0,
        asian: 0,
        pacific_islander: 0,
        multiracial: 0,
        hispanic,
        other: 0,
        total: white + black + hispanic,
    }
}

fn counts(white: u32, black: u32) -> RaceCounts {
    RaceCounts {
        white_caucasian: white,
        black_african: black,
        native_american: 0,
        asian: 0,
        pacific_islander: 0,
        multiracial: 0,
        hispanic: 0,
        other: 0,
    }
}

#[test]
fn white_and_black_baseline_scenario() {
    // Baseline 60/40 out of 100; 12 white and 4 black matches at cutoff 2:
    // raw weights 20 and 10 (scaled), normalized two thirds and one third.
    let inputs = PreferenceInputs {
        general_counts: counts(12, 4),
        hispanic_counts: counts(0, 0),
        general: distribution(60, 40, 0),
        hispanic_sub: distribution(1, 0, 0),
        cutoff: 2,
    };
    assert!(inputs_ok(&inputs));
    let prefs = compute(&inputs).unwrap();
    assert_eq!(prefs.len(), 14);

    let first = &prefs[0];
    assert_eq!(first.race, Race::WhiteCaucasian);
    assert!(!first.hispanic);
    assert_eq!(first.count, 12);
    assert_eq!(first.weight.num, 20_000_000);
    assert_eq!(first.weight.den, 30_000_000);
    // exactly two thirds
    assert_eq!(first.weight.num * 3, first.weight.den * 2);

    let second = &prefs[1];
    assert_eq!(second.race, Race::BlackAfrican);
    assert!(!second.hispanic);
    assert_eq!(second.count, 4);
    assert_eq!(second.weight.num, 10_000_000);
    // exactly one third
    assert_eq!(second.weight.num * 3, second.weight.den);

    for p in prefs.iter().skip(2) {
        assert_eq!(p.weight.num, 0);
    }
}

#[test]
fn weights_sum_to_one_and_share_a_denominator() {
    let inputs = PreferenceInputs {
        general_counts: counts(12, 4),
        hispanic_counts: counts(0, 0),
        general: distribution(60, 40, 0),
        hispanic_sub: distribution(1, 0, 0),
        cutoff: 2,
    };
    let prefs = compute(&inputs).unwrap();
    let den = prefs[0].weight.den;
    let mut num_total: u128 = 0;
    for p in prefs.iter() {
        assert_eq!(p.weight.den, den);
        num_total += p.weight.num;
    }
    assert_eq!(num_total, den);
}

#[test]
fn counts_below_the_cutoff_are_zeroed() {
    let inputs = PreferenceInputs {
        general_counts: counts(5, 1),
        hispanic_counts: counts(0, 0),
        general: distribution(60, 40, 0),
        hispanic_sub: distribution(1, 0, 0),
        cutoff: 2,
    };
    let prefs = compute(&inputs).unwrap();
    for p in prefs.iter() {
        if p.count < 2 {
            assert_eq!(p.weight.num, 0);
        }
    }
    // the single black match is suppressed, so white holds the whole index
    assert_eq!(prefs[0].race, Race::WhiteCaucasian);
    assert_eq!(prefs[0].weight.num, prefs[0].weight.den);
}

#[test]
fn all_counts_below_cutoff_is_degenerate() {
    let inputs = PreferenceInputs {
        general_counts: counts(1, 1),
        hispanic_counts: counts(0, 0),
        general: distribution(60, 40, 0),
        hispanic_sub: distribution(1, 0, 0),
        cutoff: 2,
    };
    assert_eq!(compute(&inputs).unwrap_err(), PreferenceError::DegenerateDistribution);
}

#[test]
fn hispanic_entries_are_doubly_normalized() {
    // 3 Hispanic-white matches; Hispanic is a fifth of the population and
    // white half of the Hispanic subpopulation: raw weight is
    // 3 / (1/5 * 1/2) = 30, scaled.
    let inputs = PreferenceInputs {
        general_counts: counts(0, 0),
        hispanic_counts: counts(3, 0),
        general: distribution(60, 20, 20),
        hispanic_sub: distribution(5, 5, 0),
        cutoff: 2,
    };
    assert!(inputs_ok(&inputs));
    let prefs = compute(&inputs).unwrap();
    let first = &prefs[0];
    assert_eq!(first.race, Race::WhiteCaucasian);
    assert!(first.hispanic);
    assert_eq!(first.count, 3);
    // 3 * 100 * 10 * 1_000_000 / (20 * 5)
    assert_eq!(first.weight.num, 30_000_000);
    assert_eq!(first.weight.den, 30_000_000);
}

#[test]
fn ties_rank_by_race_order_then_general_before_hispanic() {
    let inputs = PreferenceInputs {
        general_counts: counts(12, 4),
        hispanic_counts: counts(0, 0),
        general: distribution(60, 40, 0),
        hispanic_sub: distribution(1, 0, 0),
        cutoff: 2,
    };
    let prefs = compute(&inputs).unwrap();
    // all zero-weight entries tie; they follow race declaration order with
    // the general entry before its Hispanic variant
    let tail: Vec<(Race, bool)> = prefs.iter().skip(2).map(|p| (p.race, p.hispanic)).collect();
    assert_eq!(
        tail,
        vec![
            (Race::WhiteCaucasian, true),
            (Race::BlackAfrican, true),
            (Race::NativeAmerican, false),
            (Race::NativeAmerican, true),
            (Race::Asian, false),
            (Race::Asian, true),
            (Race::PacificIslander, false),
            (Race::PacificIslander, true),
            (Race::Multiracial, false),
            (Race::Multiracial, true),
            (Race::Other, false),
            (Race::Other, true),
        ]
    );
}

#[test]
fn end_to_end_from_census_records_to_ranking() {
    // the whole pipeline: census records -> distributions -> classified
    // match counts -> ranked index
    let county = match_metrics::baseline::CountyDemographics {
        county: "somewhere".to_string(),
        white_alone: 60,
        black_african_american_alone: 40,
        american_indian_alaska_native_alone: 0,
        asian_alone: 0,
        native_hawaiian_pacific_islander_alone: 0,
        some_other_race_alone: 0,
        two_or_more_races: 0,
        hispanic_latino: 0,
    };
    let hispanic_county = match_metrics::baseline::CountyHispanicDemographics {
        county: "somewhere".to_string(),
        white_hispanic: 1,
        black_african_american_hispanic: 0,
        american_indian_alaska_native_hispanic: 0,
        asian_hispanic: 0,
        native_hawaiian_pacific_islander_hispanic: 0,
        some_other_race_hispanic: 0,
        two_or_more_races_hispanic: 0,
    };
    let (general, hispanic_sub) =
        match_metrics::baseline::build(&vec![county], &vec![hispanic_county]).unwrap();
    assert_eq!(general.get(Race::WhiteCaucasian), 60);
    assert_eq!(general.total, 100);

    let mut races = Vec::new();
    for _ in 0..12 {
        races.push(Race::WhiteCaucasian);
    }
    for _ in 0..4 {
        races.push(Race::BlackAfrican);
    }
    let general_counts = Race::aggregate(&races);
    let inputs = PreferenceInputs {
        general_counts,
        hispanic_counts: counts(0, 0),
        general,
        hispanic_sub,
        cutoff: 2,
    };
    assert!(inputs_ok(&inputs));
    let prefs = compute(&inputs).unwrap();
    assert_eq!(prefs[0].race, Race::WhiteCaucasian);
    assert!(!prefs[0].hispanic);
    assert_eq!(prefs[0].weight.num * 3, prefs[0].weight.den * 2);
    assert_eq!(prefs[1].race, Race::BlackAfrican);
    assert_eq!(prefs[1].weight.num * 3, prefs[1].weight.den);
}

#[test]
fn nonzero_entries_from_both_domains_interleave_by_weight() {
    // general black raw: 6 / (40/100) = 15; hispanic white raw:
    // 4 / ((20/100) * (5/10)) = 40; the hispanic entry ranks first
    let inputs = PreferenceInputs {
        general_counts: counts(0, 6),
        hispanic_counts: counts(4, 0),
        general: distribution(40, 40, 20),
        hispanic_sub: distribution(5, 5, 0),
        cutoff: 2,
    };
    assert!(inputs_ok(&inputs));
    let prefs = compute(&inputs).unwrap();
    assert_eq!((prefs[0].race, prefs[0].hispanic), (Race::WhiteCaucasian, true));
    assert_eq!(prefs[0].weight.num, 40_000_000);
    assert_eq!((prefs[1].race, prefs[1].hispanic), (Race::BlackAfrican, false));
    assert_eq!(prefs[1].weight.num, 15_000_000);
    assert_eq!(prefs[0].weight.den, 55_000_000);
}

#[test]
fn inputs_ok_rejects_ill_formed_baselines() {
    let mut inputs = PreferenceInputs {
        general_counts: counts(12, 4),
        hispanic_counts: counts(0, 0),
        general: distribution(60, 40, 0),
        hispanic_sub: distribution(1, 0, 0),
        cutoff: 2,
    };
    assert!(inputs_ok(&inputs));
    inputs.general.total = 99;
    assert!(!inputs_ok(&inputs));
    inputs.general.total = 100;
    // a counted race with no population cannot be normalized
    inputs.general.white_caucasian = 0;
    inputs.general.black_african = 100;
    assert!(!inputs_ok(&inputs));
}
