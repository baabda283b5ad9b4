use s2_tracts::header::{
    check_header, data_revision, dataset_layer_name, preparation_title, ColumnSummary,
    EnvelopeStatus, HeaderProblem, HeaderSummary,
};

fn header(year: u16, title: Option<&str>, column: &str, count: u64) -> HeaderSummary {
    HeaderSummary {
        name: Some(format!("tracts_{year}")),
        title: title.map(|t| t.to_string()),
        geometry_type: 3,
        has_z: false,
        has_m: false,
        has_t: false,
        has_tm: false,
        index_node_size: 16,
        features_count: count,
        columns: Some(vec![ColumnSummary {
            name: column.to_string(),
            column_type: 11,
        }]),
        envelope: EnvelopeStatus::Valid,
    }
}

const LEGACY: &str = "census-tracts-2010-2020-r1";

#[test]
fn accepted_titles() {
    assert!(check_header(&header(2010, Some(LEGACY), "GEOID", 1), 2010, 1000, 100).is_ok());
    assert!(check_header(&header(2020, Some(LEGACY), "GEOID", 1), 2020, 1000, 100).is_ok());
    assert!(check_header(&header(2019, Some("census-tracts-2019-r2"), "GEOID", 1), 2019, 1000, 100).is_ok());
    assert_eq!(
        check_header(&header(2019, Some(LEGACY), "GEOID", 1), 2019, 1000, 100),
        Err(HeaderProblem::Incompatible)
    );
}

#[test]
fn incompatible_revision_and_schema() {
    for (title, column) in [
        (None, "GEOID"),
        (Some("census-tracts-2010-2020-r2"), "GEOID"),
    ] {
        assert_eq!(
            check_header(&header(2010, title, column, 1), 2010, 1000, 100),
            Err(HeaderProblem::Incompatible)
        );
    }
    assert_eq!(
        check_header(&header(2010, Some(LEGACY), "GEOID10", 1), 2010, 1000, 100),
        Err(HeaderProblem::WrongColumns)
    );
    assert_eq!(
        check_header(&header(2020, Some(LEGACY), "GEOID", 1), 2010, 1000, 100),
        Err(HeaderProblem::Incompatible)
    );
    let mut h = header(2010, Some(LEGACY), "GEOID", 1);
    h.index_node_size = 0;
    assert_eq!(check_header(&h, 2010, 1000, 100), Err(HeaderProblem::Incompatible));
    let mut h = header(2010, Some(LEGACY), "GEOID", 0);
    h.features_count = 0;
    assert_eq!(check_header(&h, 2010, 1000, 100), Err(HeaderProblem::Incompatible));
    let mut h = header(2010, Some(LEGACY), "GEOID", 1);
    h.has_z = true;
    assert_eq!(check_header(&h, 2010, 1000, 100), Err(HeaderProblem::Incompatible));
    let mut h = header(2010, Some(LEGACY), "GEOID", 1);
    h.columns = None;
    assert_eq!(check_header(&h, 2010, 1000, 100), Err(HeaderProblem::MissingGeoidColumn));
    let mut h = header(2010, Some(LEGACY), "GEOID", 1);
    h.columns.as_mut().unwrap()[0].column_type = 5;
    assert_eq!(check_header(&h, 2010, 1000, 100), Err(HeaderProblem::WrongColumns));
}

#[test]
fn envelope_precedes_extent_checks() {
    let mut h = header(2010, Some(LEGACY), "GEOID", 1000);
    h.envelope = EnvelopeStatus::Missing;
    assert_eq!(check_header(&h, 2010, 10, 0), Err(HeaderProblem::MissingEnvelope));
    h.envelope = EnvelopeStatus::WrongLength;
    assert_eq!(check_header(&h, 2010, 10, 0), Err(HeaderProblem::InvalidEnvelope));
    h.envelope = EnvelopeStatus::OutOfRange;
    assert_eq!(check_header(&h, 2010, 10, 0), Err(HeaderProblem::EnvelopeOutOfRange));
}

#[test]
fn feature_count_and_index_room() {
    let h = header(2010, Some(LEGACY), "GEOID", 3);
    assert_eq!(check_header(&h, 2010, 119, 0), Err(HeaderProblem::InvalidFeatureCount));
    // Three items: three leaves and one root, 4 * 40 bytes of index.
    assert!(check_header(&h, 2010, 1000, 1000 - 160 - 8).is_ok());
    assert_eq!(
        check_header(&h, 2010, 1000, 1000 - 160 - 7),
        Err(HeaderProblem::Truncated)
    );
    // Seventeen items: two nodes above the leaves, then a root.
    let h = header(2010, Some(LEGACY), "GEOID", 17);
    assert!(check_header(&h, 2010, 2000, 2000 - 20 * 40 - 8).is_ok());
    assert_eq!(
        check_header(&h, 2010, 2000, 2000 - 20 * 40 - 7),
        Err(HeaderProblem::Truncated)
    );
    assert_eq!(HeaderProblem::Truncated.message(), "truncated dataset");
}

#[test]
fn prepared_names() {
    assert_eq!(dataset_layer_name(2010), "tracts_2010");
    assert_eq!(preparation_title(2019), "census-tracts-2019-r2");
    assert_eq!(data_revision(), "r2");
}
