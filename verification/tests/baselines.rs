use match_metrics::baseline::build;
use match_metrics::baseline::BaselineError;
use match_metrics::baseline::CountyDemographics;
use match_metrics::baseline::CountyHispanicDemographics;
use match_metrics::race::Race;

fn county(white: u32, black: u32, hispanic: u32) -> CountyDemographics {
    CountyDemographics {
        county: "somewhere".to_string(),
        white_alone: white,
        black_african_american_alone: black,
        american_indian_alaska_native_alone: 0,
        asian_alone: 0,
        native_hawaiian_pacific_islander_alone: 0,
        some_other_race_alone: 0,
        two_or_more_races: 0,
        hispanic_latino: hispanic,
    }
}

fn hispanic_county(white: u32, black: u32) -> CountyHispanicDemographics {
    CountyHispanicDemographics {
        county: "somewhere".to_string(),
        white_hispanic: white,
        black_african_american_hispanic: black,
        american_indian_alaska_native_hispanic: 0,
        asian_hispanic: 0,
        native_hawaiian_pacific_islander_hispanic: 0,
        some_other_race_hispanic: 0,
        two_or_more_races_hispanic: 0,
    }
}

#[test]
fn build_divides_each_count_by_the_grand_total() {
    let (g, h) = build(&vec![county(60, 40, 0)], &vec![hispanic_county(3, 1)]).unwrap();
    assert_eq!(g.total, 100);
    assert_eq!(g.get(Race::WhiteCaucasian), 60);
    assert_eq!(g.get(Race::BlackAfrican), 40);
    assert_eq!(g.get(Race::Asian), 0);
    assert_eq!(h.total, 4);
    assert_eq!(h.get(Race::WhiteCaucasian), 3);
    assert_eq!(h.get(Race::BlackAfrican), 1);
    assert_eq!(h.get(Race::Hispanic), 0);
}

#[test]
fn build_adds_counts_across_records() {
    let (g, h) = build(
        &vec![county(10, 20, 5), county(30, 5, 5)],
        &vec![hispanic_county(2, 0), hispanic_county(1, 4)],
    )
    .unwrap();
    assert_eq!(g.get(Race::WhiteCaucasian), 40);
    assert_eq!(g.get(Race::BlackAfrican), 25);
    assert_eq!(g.get(Race::Hispanic), 10);
    assert_eq!(g.total, 75);
    assert_eq!(h.get(Race::WhiteCaucasian), 3);
    assert_eq!(h.get(Race::BlackAfrican), 4);
    assert_eq!(h.total, 7);
}

#[test]
fn empty_general_records_fail() {
    let r = build(&Vec::new(), &vec![hispanic_county(1, 0)]);
    assert_eq!(r.unwrap_err(), BaselineError::EmptyBaseline);
}

#[test]
fn empty_hispanic_records_fail() {
    let r = build(&vec![county(1, 0, 0)], &Vec::new());
    assert_eq!(r.unwrap_err(), BaselineError::EmptyBaseline);
}

#[test]
fn zero_grand_total_fails() {
    let r = build(&vec![county(0, 0, 0)], &vec![hispanic_county(1, 0)]);
    assert_eq!(r.unwrap_err(), BaselineError::EmptyBaseline);
    let r = build(&vec![county(1, 0, 0)], &vec![hispanic_county(0, 0)]);
    assert_eq!(r.unwrap_err(), BaselineError::EmptyBaseline);
}

#[test]
fn fractions_sum_to_the_whole() {
    let (g, h) = build(&vec![county(7, 11, 13)], &vec![hispanic_county(5, 9)]).unwrap();
    let g_sum = g.get(Race::WhiteCaucasian)
        + g.get(Race::BlackAfrican)
        + g.get(Race::NativeAmerican)
        + g.get(Race::Asian)
        + g.get(Race::PacificIslander)
        + g.get(Race::Multiracial)
        + g.get(Race::Hispanic)
        + g.get(Race::Other);
    assert_eq!(g_sum, g.total);
    let h_sum = h.get(Race::WhiteCaucasian)
        + h.get(Race::BlackAfrican)
        + h.get(Race::NativeAmerican)
        + h.get(Race::Asian)
        + h.get(Race::PacificIslander)
        + h.get(Race::Multiracial)
        + h.get(Race::Hispanic)
        + h.get(Race::Other);
    assert_eq!(h_sum, h.total);
}
