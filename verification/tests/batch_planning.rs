use s2::cellid::CellID;
use s2::latlng::LatLng;
use s2_tracts::batch::{
    dataset_error, gather_tract_ids, gather_tracts, plan_lookup, validate_ids, LookupError, TractIds,
};
use s2_tracts::cell::is_level30_cell;

fn id_at(lat: f64, lng: f64) -> u64 {
    CellID::from(LatLng::from_degrees(lat, lng)).0
}

#[test]
fn level30_cells() {
    let a = id_at(10., 10.);
    assert!(is_level30_cell(a));
    assert!(!is_level30_cell(0));
    assert!(!is_level30_cell(u64::MAX));
    assert!(!is_level30_cell(CellID(a).parent(29).0));
    assert!(!is_level30_cell(CellID::from_face(0).0));
    assert!(!is_level30_cell(1 << 63));
    assert!(is_level30_cell(1));
    assert!(!is_level30_cell((6u64 << 61) | 1));
}

#[test]
fn validation_reports_first_invalid_index() {
    let a = id_at(10., 10.);
    let b = id_at(20., 20.);
    for value in [0, u64::MAX, CellID(a).parent(29).0, CellID::from_face(0).0] {
        match validate_ids(&[a, value, b, 0]) {
            Err(LookupError::InvalidCellId { index, value: v }) => {
                assert_eq!(index, 1);
                assert_eq!(v, value);
            }
            other => panic!("unexpected {other:?}"),
        }
    }
    assert!(validate_ids(&[a, b]).is_ok());
    assert!(validate_ids(&[]).is_ok());
}

#[test]
fn plan_keeps_first_occurrences() {
    let a = id_at(10., 10.);
    let b = id_at(20., 20.);
    let plan = plan_lookup(&[b, a, a, b]).unwrap();
    assert_eq!(plan.unique, vec![b, a]);
    assert_eq!(plan.slots, vec![0, 1, 1, 0]);
    let empty = plan_lookup(&[]).unwrap();
    assert!(empty.unique.is_empty() && empty.slots.is_empty());
    assert!(matches!(
        plan_lookup(&[a, 0]),
        Err(LookupError::InvalidCellId { index: 1, value: 0 })
    ));
}

#[test]
fn answers_follow_input_order_with_duplicates() {
    let a = id_at(10., 10.);
    let b = id_at(20., 20.);
    let plan = plan_lookup(&[b, a, a, b]).unwrap();
    let t2010 = vec![None, Some("01001000100".to_string())];
    let t2020 = vec![Some("09001000200".to_string()), None];
    let ra = TractIds {
        tract_2010: Some("01001000100".into()),
        tract_2020: None,
    };
    let rb = TractIds {
        tract_2010: None,
        tract_2020: Some("09001000200".into()),
    };
    assert_eq!(
        gather_tract_ids(&plan.slots, &t2010, &t2020),
        vec![rb.clone(), ra.clone(), ra, rb]
    );
    assert_eq!(
        gather_tracts(&plan.slots, &t2010),
        vec![None, Some("01001000100".to_string()), Some("01001000100".to_string()), None]
    );
}

#[test]
fn dataset_errors_name_the_file() {
    match dataset_error("/data/tracts_2010.fgb", "truncated dataset") {
        LookupError::Dataset { path, message } => {
            assert_eq!(path, "/data/tracts_2010.fgb");
            assert_eq!(message, "truncated dataset");
        }
        other => panic!("unexpected {other:?}"),
    }
}

#[test]
fn error_messages() {
    assert_eq!(
        LookupError::InvalidCellId { index: 1, value: 0 }.message(),
        "invalid level-30 S2 cell ID at index 1: 0"
    );
    assert_eq!(
        dataset_error("/d/tracts_2010.fgb", "truncated dataset").message(),
        "dataset /d/tracts_2010.fgb: truncated dataset"
    );
}
