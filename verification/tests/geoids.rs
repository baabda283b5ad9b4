use s2_tracts::prepare::{accept_geoid, geoid_field, source_archive_name};
use std::collections::HashSet;

#[test]
fn duplicate_and_malformed_geoids_fail() {
    let mut seen = HashSet::new();
    accept_geoid("01001000100", "01", &mut seen).unwrap();
    assert!(accept_geoid("01001000100", "01", &mut seen).is_err());
    assert!(accept_geoid("02001000100", "01", &mut seen).is_err());
    assert!(accept_geoid("01001abc100", "01", &mut seen).is_err());
}

#[test]
fn distinct_geoids_are_remembered_separately() {
    let mut seen = HashSet::new();
    assert!(accept_geoid("01001000100", "01", &mut seen).is_ok());
    assert!(accept_geoid("01001000101", "01", &mut seen).is_ok());
    assert!(accept_geoid("0100100010", "01", &mut seen).is_err());
    assert!(accept_geoid("010010001000", "01", &mut seen).is_err());
    assert_eq!(seen.len(), 2);
    assert!(seen.contains(&1001000100));
}

#[test]
fn source_names() {
    assert_eq!(source_archive_name(2010, "01"), "tl_2010_01_tract10.zip");
    assert_eq!(source_archive_name(2019, "72"), "tl_2019_72_tract.zip");
    assert_eq!(geoid_field(2010), "GEOID10");
    assert_eq!(geoid_field(2020), "GEOID");
}

use s2_tracts::prepare::{parse_prepare_args, PrepareArgsError};
use s2_tracts::text::NumberError;

fn strings(v: &[&str]) -> Vec<String> {
    v.iter().map(|s| s.to_string()).collect()
}

#[test]
fn preparation_arguments() {
    let a = parse_prepare_args(&strings(&["--vintage", "2019", "--sources", "src", "--output", "out"]))
        .unwrap();
    assert_eq!((a.year, a.sources.as_str(), a.output.as_str()), (2019, "src", "out"));
    assert_eq!(
        parse_prepare_args(&strings(&["--vintage", "2019", "--sources", "src"])).unwrap_err(),
        PrepareArgsError::Usage
    );
    assert_eq!(
        parse_prepare_args(&strings(&["--vintage", "2019", "--source", "s", "--output", "o"]))
            .unwrap_err(),
        PrepareArgsError::Usage
    );
    assert_eq!(
        parse_prepare_args(&strings(&["--vintage", "x", "--sources", "s", "--output", "o"]))
            .unwrap_err(),
        PrepareArgsError::Number(NumberError::InvalidDigit)
    );
    assert_eq!(
        parse_prepare_args(&strings(&["--vintage", "2009", "--sources", "s", "--output", "o"]))
            .unwrap_err(),
        PrepareArgsError::OutOfRange
    );
}

use s2_tracts::prepare::{
    check_archive_count, check_feature_count, check_fresh_output, check_geographic,
    check_source_record, source_digest_matches, source_size_matches, SourceProblem,
};

#[test]
fn source_lock_checks() {
    assert!(check_fresh_output(false, false).is_ok());
    assert_eq!(check_fresh_output(true, false), Err(SourceProblem::OutputExists));
    assert_eq!(check_fresh_output(false, true), Err(SourceProblem::OutputExists));
    assert!(check_archive_count(56).is_ok());
    assert_eq!(check_archive_count(55), Err(SourceProblem::WrongArchiveCount));
    assert!(check_source_record(2019, "01", Some(2019), Some("01"), Some("tl_2019_01_tract.zip")).is_ok());
    assert!(check_source_record(2010, "01", Some(2010), Some("01"), Some("tl_2010_01_tract10.zip")).is_ok());
    assert_eq!(
        check_source_record(2019, "01", Some(2018), None, None),
        Err(SourceProblem::UnorderedState)
    );
    assert_eq!(
        check_source_record(2019, "01", Some(2019), None, None),
        Err(SourceProblem::MissingState)
    );
    assert_eq!(
        check_source_record(2019, "01", Some(2019), Some("02"), None),
        Err(SourceProblem::UnorderedState)
    );
    assert_eq!(
        check_source_record(2019, "01", Some(2019), Some("01"), None),
        Err(SourceProblem::MissingFilename)
    );
    assert_eq!(
        check_source_record(2019, "01", Some(2019), Some("01"), Some("tl_2019_01_tract10.zip")),
        Err(SourceProblem::FilenameMismatch)
    );
    assert_eq!(source_size_matches(None, 3), Err(SourceProblem::InvalidByteCount));
    assert_eq!(source_size_matches(Some(3), 3), Ok(true));
    assert_eq!(source_size_matches(Some(3), 4), Ok(false));
    assert_eq!(source_digest_matches(None, "ab"), Err(SourceProblem::MissingDigest));
    assert_eq!(source_digest_matches(Some("ab"), "ab"), Ok(true));
    assert_eq!(source_digest_matches(Some("ab"), "ac"), Ok(false));
    assert!(check_geographic("GEOGCRS[\"NAD83\"]").is_ok());
    assert_eq!(check_geographic("PROJCRS[x]"), Err(SourceProblem::NotGeographic));
    assert_eq!(check_geographic("GEOG"), Err(SourceProblem::NotGeographic));
    assert!(check_feature_count(Some(5), 5).is_ok());
    assert_eq!(check_feature_count(Some(0), 0), Err(SourceProblem::FeatureCountMismatch));
    assert_eq!(check_feature_count(Some(4), 5), Err(SourceProblem::FeatureCountMismatch));
    assert_eq!(check_feature_count(None, 5), Err(SourceProblem::FeatureCountMismatch));
    assert_eq!(SourceProblem::MissingDigest.message(), "missing sha256");
}
