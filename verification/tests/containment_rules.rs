use s2_tracts::containment::{check_selected_count, resolve_tract, Observation, Position};

fn obs(geoid: &str, position: Position) -> Observation {
    Observation { geoid: geoid.to_string(), position }
}

const A: &str = "01001000100";
const B: &str = "01001000200";
const C: &str = "01001000300";

#[test]
fn strict_match_in_one_tract() {
    assert_eq!(resolve_tract(&vec![obs(A, Position::Inside)]), Some(A.to_string()));
    assert_eq!(resolve_tract(&vec![obs(A, Position::Outside)]), None);
    assert_eq!(resolve_tract(&vec![]), None);
}

#[test]
fn ambiguity_and_boundary_precedence() {
    for features in [
        vec![obs(A, Position::Inside), obs(B, Position::Inside)],
        vec![obs(B, Position::Inside), obs(A, Position::Inside)],
        vec![obs(A, Position::Inside), obs(C, Position::OnBoundary)],
        vec![obs(C, Position::OnBoundary), obs(A, Position::Inside)],
    ] {
        assert_eq!(resolve_tract(&features), None);
    }
}

#[test]
fn components_of_one_geoid_count_once() {
    assert_eq!(
        resolve_tract(&vec![obs(A, Position::Inside), obs(A, Position::Inside)]),
        Some(A.to_string())
    );
    assert_eq!(
        resolve_tract(&vec![obs(A, Position::Inside), obs(A, Position::Outside)]),
        Some(A.to_string())
    );
}

#[test]
fn boundary_of_same_geoid_also_wins() {
    assert_eq!(
        resolve_tract(&vec![obs(A, Position::Inside), obs(A, Position::OnBoundary)]),
        None
    );
}

#[test]
fn every_selected_feature_must_arrive() {
    assert!(check_selected_count(3, 3).is_ok());
    assert_eq!(check_selected_count(3, 2), Err("short read in selected features"));
}
