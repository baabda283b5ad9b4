//! Strict point-in-tract resolution: a point belongs to a tract only when
//! it lies strictly inside components of exactly one GEOID and on no
//! boundary at all.

use vstd::prelude::*;
use vstd::string::*;

verus! {

/// Where a point lies relative to one polygon component.
#[derive(Debug, Clone, Copy, PartialEq, Eq)]
pub enum Position {
    Inside,
    OnBoundary,
    Outside,
}

/// One candidate component met by a point query: its GEOID and the
/// position of the point relative to it.
#[derive(Debug, Clone)]
pub struct Observation {
    pub geoid: String,
    pub position: Position,
}

impl Observation {
    pub open spec fn view(&self) -> (Seq<char>, Position) {
        (self.geoid@, self.position)
    }
}

/// The observations by their views.
pub open spec fn observations_view(obs: Seq<Observation>) -> Seq<(Seq<char>, Position)> {
    obs.map_values(|o: Observation| o.view())
}

/// Some component has the point on its boundary (exterior or hole).
pub open spec fn has_boundary(obs: Seq<(Seq<char>, Position)>) -> bool {
    exists|i: int| 0 <= i < obs.len() && (#[trigger] obs[i]).1 == Position::OnBoundary
}

/// The GEOIDs of the components that strictly contain the point.
pub open spec fn inside_geoids(obs: Seq<(Seq<char>, Position)>) -> Set<Seq<char>> {
    Set::new(|g: Seq<char>| exists|i: int| 0 <= i < obs.len() && #[trigger] obs[i] == (g, Position::Inside))
}

/// The inside set holds exactly one GEOID.
pub open spec fn single_geoid(obs: Seq<(Seq<char>, Position)>) -> bool {
    exists|g: Seq<char>| inside_geoids(obs) == Set::empty().insert(g)
}

/// The tract of the point: the one GEOID strictly containing it, when no
/// boundary was met and no other GEOID contains it too.
pub open spec fn strict_tract(obs: Seq<(Seq<char>, Position)>) -> Option<Seq<char>> {
    if !has_boundary(obs) && single_geoid(obs) {
        Some(choose|g: Seq<char>| inside_geoids(obs) == Set::empty().insert(g))
    } else {
        None
    }
}

fn contains_string(v: &Vec<String>, s: &String) -> (found: bool)
    ensures
        found <==> exists|i: int| 0 <= i < v@.len() && (#[trigger] v@[i])@ == s@,
{
    let mut i: usize = 0;
    while i < v.len()
        invariant
            i <= v@.len(),
            forall|j: int| 0 <= j < i ==> (#[trigger] v@[j])@ != s@,
        decreases v.len() - i,
    {
        if v[i] == *s {
            return true;
        }
        i = i + 1;
    }
    false
}

/// Resolves a point from every candidate component met by its queries,
/// in any order.
pub fn resolve_tract(obs: &Vec<Observation>) -> (tract: Option<String>)
    ensures
        tract matches Some(t) ==> strict_tract(observations_view(obs@)) == Some(t@),
        tract is None ==> strict_tract(observations_view(obs@)) is None,
{
    let ghost all = observations_view(obs@);
    let mut matches: Vec<String> = Vec::new();
    let mut boundary = false;
    let mut i: usize = 0;
    while i < obs.len()
        invariant
            i <= obs@.len(),
            all == observations_view(obs@),
            boundary == has_boundary(all.take(i as int)),
            forall|a: int, b: int| 0 <= a < b < matches@.len() ==> matches@[a]@ != matches@[b]@,
            forall|g: Seq<char>| inside_geoids(all.take(i as int)).contains(g) <==> exists|j: int|
                0 <= j < matches@.len() && (#[trigger] matches@[j])@ == g,
        decreases obs.len() - i,
    {
        let o = &obs[i];
        let ghost pre = all.take(i as int);
        let ghost cur = all.take(i + 1);
        assert(cur == pre.push(o.view()));
        assert(all[i as int] == o.view());
        proof {
            lemma_take_step(pre, cur, o.view(), i as int);
        }
        match o.position {
            Position::OnBoundary => {
                boundary = true;
            },
            Position::Inside => {
                if !contains_string(&matches, &o.geoid) {
                    let ghost old_matches = matches@;
                    matches.push(o.geoid.clone());
                    assert forall|g: Seq<char>| inside_geoids(cur).contains(g) <==> exists|j: int|
                        0 <= j < matches@.len() && (#[trigger] matches@[j])@ == g by {
                        if inside_geoids(pre).contains(g) {
                            let j = choose|j: int| 0 <= j < old_matches.len() && (#[trigger] old_matches[j])@ == g;
                            assert(matches@[j] == old_matches[j]);
                        }
                        if g == o.geoid@ {
                            assert(matches@[old_matches.len() as int]@ == g);
                        }
                        if exists|j: int| 0 <= j < matches@.len() && (#[trigger] matches@[j])@ == g {
                            let j = choose|j: int| 0 <= j < matches@.len() && (#[trigger] matches@[j])@ == g;
                            if j < old_matches.len() {
                                assert(old_matches[j] == matches@[j]);
                            }
                        }
                    }
                }
            },
            Position::Outside => {},
        }
        i = i + 1;
    }
    assert(all.take(obs@.len() as int) == all);
    let ghost inside = inside_geoids(all);
    if !boundary && matches.len() == 1 {
        let t = matches[0].clone();
        assert(inside =~= Set::empty().insert(t@));
        assert(single_geoid(all));
        let ghost g = choose|g: Seq<char>| inside_geoids(all) == Set::empty().insert(g);
        assert(Set::<Seq<char>>::empty().insert(g).contains(t@));
        Some(t)
    } else {
        proof {
            if !boundary && single_geoid(all) {
                let g = choose|g: Seq<char>| inside_geoids(all) == Set::empty().insert(g);
                if matches.len() == 0 {
                    assert(inside.contains(g));
                } else {
                    assert(inside.contains(matches@[0]@));
                    assert(inside.contains(matches@[1]@));
                }
            }
        }
        None
    }
}

proof fn lemma_take_step(
    pre: Seq<(Seq<char>, Position)>,
    cur: Seq<(Seq<char>, Position)>,
    o: (Seq<char>, Position),
    i: int,
)
    requires
        cur == pre.push(o),
        i == pre.len(),
    ensures
        has_boundary(cur) == (has_boundary(pre) || o.1 == Position::OnBoundary),
        inside_geoids(cur) == (if o.1 == Position::Inside {
            inside_geoids(pre).insert(o.0)
        } else {
            inside_geoids(pre)
        }),
{
    if has_boundary(pre) {
        let w = choose|w: int| 0 <= w < pre.len() && (#[trigger] pre[w]).1 == Position::OnBoundary;
        assert(cur[w] == pre[w]);
    }
    if has_boundary(cur) {
        let w = choose|w: int| 0 <= w < cur.len() && (#[trigger] cur[w]).1 == Position::OnBoundary;
        if w < i {
            assert(cur[w] == pre[w]);
        }
    }
    assert(cur[i] == o);
    let expected = if o.1 == Position::Inside {
        inside_geoids(pre).insert(o.0)
    } else {
        inside_geoids(pre)
    };
    assert forall|g: Seq<char>| inside_geoids(cur).contains(g) <==> expected.contains(g) by {
        if inside_geoids(cur).contains(g) {
            let w = choose|w: int| 0 <= w < cur.len() && #[trigger] cur[w] == (g, Position::Inside);
            if w < i {
                assert(pre[w] == cur[w]);
            }
        }
        if inside_geoids(pre).contains(g) {
            let w = choose|w: int| 0 <= w < pre.len() && #[trigger] pre[w] == (g, Position::Inside);
            assert(cur[w] == pre[w]);
        }
    }
    assert(inside_geoids(cur) =~= expected);
}

/// A point resolves to `g` exactly when no component has it on its
/// boundary and `g` is the only GEOID whose components strictly contain it.
pub proof fn lemma_strict_tract_characterized(obs: Seq<(Seq<char>, Position)>, g: Seq<char>)
    ensures
        strict_tract(obs) == Some(g) <==> (!has_boundary(obs) && inside_geoids(obs)
            == Set::empty().insert(g)),
{
    if !has_boundary(obs) && inside_geoids(obs) == Set::<Seq<char>>::empty().insert(g) {
        assert(single_geoid(obs));
        let h = choose|h: Seq<char>| inside_geoids(obs) == Set::empty().insert(h);
        assert(Set::<Seq<char>>::empty().insert(h).contains(g));
    }
}

/// The answer depends only on which observations were made, not on their
/// order or repetition: the features may arrive in any order.
pub proof fn lemma_order_does_not_matter(
    a: Seq<(Seq<char>, Position)>,
    b: Seq<(Seq<char>, Position)>,
)
    requires
        forall|x: (Seq<char>, Position)| a.contains(x) <==> b.contains(x),
    ensures
        strict_tract(a) == strict_tract(b),
{
    assert(has_boundary(a) == has_boundary(b)) by {
        if has_boundary(a) {
            let w = choose|w: int| 0 <= w < a.len() && (#[trigger] a[w]).1 == Position::OnBoundary;
            assert(a.contains(a[w]));
            let v = choose|v: int| 0 <= v < b.len() && b[v] == a[w];
            assert(b[v].1 == Position::OnBoundary);
        }
        if has_boundary(b) {
            let w = choose|w: int| 0 <= w < b.len() && (#[trigger] b[w]).1 == Position::OnBoundary;
            assert(b.contains(b[w]));
            let v = choose|v: int| 0 <= v < a.len() && a[v] == b[w];
            assert(a[v].1 == Position::OnBoundary);
        }
    }
    assert forall|g: Seq<char>| inside_geoids(a).contains(g) <==> inside_geoids(b).contains(g) by {
        if inside_geoids(a).contains(g) {
            let w = choose|w: int| 0 <= w < a.len() && #[trigger] a[w] == (g, Position::Inside);
            assert(a.contains(a[w]));
            let v = choose|v: int| 0 <= v < b.len() && b[v] == a[w];
            assert(b[v] == (g, Position::Inside));
        }
        if inside_geoids(b).contains(g) {
            let w = choose|w: int| 0 <= w < b.len() && #[trigger] b[w] == (g, Position::Inside);
            assert(b.contains(b[w]));
            let v = choose|v: int| 0 <= v < a.len() && a[v] == b[w];
            assert(a[v] == (g, Position::Inside));
        }
    }
    assert(inside_geoids(a) =~= inside_geoids(b));
}

/// A boundary wins: a point on the boundary of any component (exterior or
/// hole, of the same or another tract) has no tract.
pub proof fn lemma_boundary_wins(obs: Seq<(Seq<char>, Position)>, i: int)
    requires
        0 <= i < obs.len(),
        obs[i].1 == Position::OnBoundary,
    ensures
        strict_tract(obs) is None,
{
    assert(has_boundary(obs));
}

/// Overlapping tracts are ambiguous: a point strictly inside components of
/// two different GEOIDs has no tract.
pub proof fn lemma_overlap_is_ambiguous(obs: Seq<(Seq<char>, Position)>, i: int, j: int)
    requires
        0 <= i < obs.len(),
        0 <= j < obs.len(),
        obs[i].1 == Position::Inside,
        obs[j].1 == Position::Inside,
        obs[i].0 != obs[j].0,
    ensures
        strict_tract(obs) is None,
{
    assert(obs[i] == (obs[i].0, Position::Inside));
    assert(obs[j] == (obs[j].0, Position::Inside));
    assert(inside_geoids(obs).contains(obs[i].0));
    assert(inside_geoids(obs).contains(obs[j].0));
    if single_geoid(obs) {
        let g = choose|g: Seq<char>| inside_geoids(obs) == Set::empty().insert(g);
        assert(Set::<Seq<char>>::empty().insert(g).contains(obs[i].0));
        assert(Set::<Seq<char>>::empty().insert(g).contains(obs[j].0));
    }
}

/// Components of one GEOID count once: when every component strictly
/// containing the point carries the same GEOID `g`, at least one does, and
/// no boundary was met, the point belongs to `g`.
pub proof fn lemma_same_geoid_components_count_once(
    obs: Seq<(Seq<char>, Position)>,
    g: Seq<char>,
    i: int,
)
    requires
        0 <= i < obs.len(),
        obs[i] == (g, Position::Inside),
        forall|j: int| 0 <= j < obs.len() ==> (#[trigger] obs[j]).1 != Position::OnBoundary,
        forall|j: int| 0 <= j < obs.len() && (#[trigger] obs[j]).1 == Position::Inside ==> obs[j].0 == g,
    ensures
        strict_tract(obs) == Some(g),
{
    assert forall|h: Seq<char>| inside_geoids(obs).contains(h) <==> h == g by {
        if inside_geoids(obs).contains(h) {
            let w = choose|w: int| 0 <= w < obs.len() && #[trigger] obs[w] == (h, Position::Inside);
            assert(obs[w].1 == Position::Inside);
        }
    }
    assert(inside_geoids(obs) =~= Set::empty().insert(g));
    lemma_strict_tract_characterized(obs, g);
}

/// A point met by no containing component has no tract.
pub proof fn lemma_outside_everything(obs: Seq<(Seq<char>, Position)>)
    requires
        forall|j: int| 0 <= j < obs.len() ==> (#[trigger] obs[j]).1 == Position::Outside,
    ensures
        strict_tract(obs) is None,
{
    if single_geoid(obs) {
        let g = choose|g: Seq<char>| inside_geoids(obs) == Set::empty().insert(g);
        assert(inside_geoids(obs).contains(g));
        let w = choose|w: int| 0 <= w < obs.len() && #[trigger] obs[w] == (g, Position::Inside);
    }
}

/// Every selected candidate must have been read: the count reported by
/// the spatial index must equal the number of features that arrived.
pub fn check_selected_count(expected: usize, seen: usize) -> (r: Result<(), &'static str>)
    ensures
        r is Ok <==> seen == expected,
        r matches Err(m) ==> m@ == "short read in selected features"@,
{
    if seen != expected {
        Err("short read in selected features")
    } else {
        Ok(())
    }
}

} // verus!
