use s2_tracts::feature::{decode_geoid, plan_rings, FeatureProblem};

fn property(geoid: &str) -> Vec<u8> {
    let mut b = vec![0u8, 0];
    b.extend_from_slice(&(geoid.len() as u32).to_le_bytes());
    b.extend_from_slice(geoid.as_bytes());
    b
}

#[test]
fn geoid_property_decoding() {
    assert_eq!(decode_geoid(Some(&property("01001000100"))).unwrap(), "01001000100");
    for invalid in ["1001000100", "0100100010x", "", "010010001000"] {
        assert_eq!(
            decode_geoid(Some(&property(invalid))),
            Err(FeatureProblem::MalformedGeoid)
        );
    }
    let mut other_column = property("01001000100");
    other_column[0] = 1;
    assert_eq!(decode_geoid(Some(&other_column)), Err(FeatureProblem::MalformedGeoid));
    assert_eq!(decode_geoid(None), Err(FeatureProblem::MissingGeoid));
}

#[test]
fn ring_layout() {
    let plan = plan_rings(false, false, false, false, false, Some(20), None).unwrap();
    assert_eq!(plan.rings, vec![(0, 10)]);
    assert!(!plan.rejected);
    let plan = plan_rings(false, false, false, false, false, Some(20), Some(&[])).unwrap();
    assert_eq!(plan.rings, vec![(0, 10)]);
    let plan = plan_rings(false, false, false, false, false, Some(20), Some(&[5, 10])).unwrap();
    assert_eq!(plan.rings, vec![(0, 5), (5, 10)]);
    let plan = plan_rings(false, false, false, false, false, Some(20), Some(&[5, 7, 10])).unwrap();
    assert_eq!(plan.rings, vec![(0, 5)]);
    assert!(plan.rejected);
    let plan = plan_rings(false, false, false, false, false, Some(6), Some(&[3])).unwrap();
    assert!(plan.rings.is_empty() && plan.rejected);
    assert_eq!(
        plan_rings(false, false, false, false, false, Some(20), Some(&[5, 9])).err(),
        Some(FeatureProblem::RingEndsMismatch)
    );
    assert_eq!(
        plan_rings(false, false, false, false, false, Some(21), None).err(),
        Some(FeatureProblem::OddCoordinateCount)
    );
    assert_eq!(
        plan_rings(false, false, false, false, false, None, None).err(),
        Some(FeatureProblem::MissingCoordinates)
    );
    assert_eq!(
        plan_rings(false, true, false, false, false, Some(20), None).err(),
        Some(FeatureProblem::NotPlanarPolygon)
    );
    assert_eq!(
        plan_rings(true, false, false, false, false, Some(20), None).err(),
        Some(FeatureProblem::NotPlanarPolygon)
    );
    assert_eq!(FeatureProblem::InvalidRingOffsets.message(), "invalid ring offsets");
}
