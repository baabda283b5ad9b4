//! Decoding of the integer and byte parts of a stored tract feature: its
//! GEOID property and the ring layout of its polygon component.

use vstd::prelude::*;
use vstd::string::*;
use crate::text::digit_char;

verus! {

/// Why a stored feature cannot be used.
#[derive(Debug, Clone, Copy, PartialEq, Eq)]
pub enum FeatureProblem {
    MissingGeoid,
    MalformedGeoid,
    NotPlanarPolygon,
    MissingCoordinates,
    OddCoordinateCount,
    RingEndsMismatch,
    InvalidRingOffsets,
}

impl FeatureProblem {
    /// The message reported for this problem.
    pub fn message(&self) -> (m: &'static str)
        ensures
            match self {
                FeatureProblem::MissingGeoid => m@ == "missing GEOID"@,
                FeatureProblem::MalformedGeoid => m@ == "expected an 11-digit GEOID string"@,
                FeatureProblem::NotPlanarPolygon => m@ == "expected a 2D polygon component"@,
                FeatureProblem::MissingCoordinates => m@ == "missing polygon coordinates"@,
                FeatureProblem::OddCoordinateCount => m@ == "odd coordinate array length"@,
                FeatureProblem::RingEndsMismatch => m@ == "ring ends do not cover coordinates"@,
                FeatureProblem::InvalidRingOffsets => m@ == "invalid ring offsets"@,
            },
    {
        match self {
            FeatureProblem::MissingGeoid => "missing GEOID",
            FeatureProblem::MalformedGeoid => "expected an 11-digit GEOID string",
            FeatureProblem::NotPlanarPolygon => "expected a 2D polygon component",
            FeatureProblem::MissingCoordinates => "missing polygon coordinates",
            FeatureProblem::OddCoordinateCount => "odd coordinate array length",
            FeatureProblem::RingEndsMismatch => "ring ends do not cover coordinates",
            FeatureProblem::InvalidRingOffsets => "invalid ring offsets",
        }
    }
}

/// The only property a feature carries: column 0 (two bytes), a length of
/// 11 (four little-endian bytes) and eleven ASCII digits.
pub open spec fn is_geoid_property(b: Seq<u8>) -> bool {
    &&& b.len() == 17
    &&& b[0] == 0 && b[1] == 0 && b[2] == 11 && b[3] == 0 && b[4] == 0 && b[5] == 0
    &&& forall|i: int| 6 <= i < 17 ==> 48 <= #[trigger] b[i] <= 57
}

/// The GEOID text held by a valid property block.
pub open spec fn geoid_text(b: Seq<u8>) -> Seq<char> {
    Seq::new(11, |i: int| b[6 + i] as char)
}

fn digit_byte_str(d: u8) -> (s: &'static str)
    requires
        48 <= d <= 57,
    ensures
        s@ == seq![d as char],
{
    proof {
        reveal_strlit("0");
        reveal_strlit("1");
        reveal_strlit("2");
        reveal_strlit("3");
        reveal_strlit("4");
        reveal_strlit("5");
        reveal_strlit("6");
        reveal_strlit("7");
        reveal_strlit("8");
        reveal_strlit("9");
    }
    match d {
        48 => "0",
        49 => "1",
        50 => "2",
        51 => "3",
        52 => "4",
        53 => "5",
        54 => "6",
        55 => "7",
        56 => "8",
        _ => "9",
    }
}

/// Reads the GEOID of a feature from its raw property bytes, checking the
/// encoding directly so that malformed offsets cannot reach a decoder.
pub fn decode_geoid(properties: Option<&[u8]>) -> (r: Result<String, FeatureProblem>)
    ensures
        properties is None ==> r == Err::<String, FeatureProblem>(FeatureProblem::MissingGeoid),
        properties matches Some(b) ==> match r {
            Ok(s) => is_geoid_property(b@) && s@ == geoid_text(b@),
            Err(e) => !is_geoid_property(b@) && e == FeatureProblem::MalformedGeoid,
        },
{
    let b = match properties {
        None => return Err(FeatureProblem::MissingGeoid),
        Some(b) => b,
    };
    if b.len() != 17 || b[0] != 0 || b[1] != 0 || b[2] != 11 || b[3] != 0 || b[4] != 0 || b[5]
        != 0 {
        return Err(FeatureProblem::MalformedGeoid);
    }
    let mut s = String::new();
    let mut i: usize = 6;
    while i < 17
        invariant
            6 <= i <= 17,
            properties matches Some(pb) && pb@ == b@,
            b@.len() == 17,
            forall|k: int| 6 <= k < i ==> 48 <= #[trigger] b@[k] <= 57,
            s@ == Seq::new((i - 6) as nat, |k: int| b@[6 + k] as char),
        decreases 17 - i,
    {
        let d = b[i];
        if d < 48 || d > 57 {
            return Err(FeatureProblem::MalformedGeoid);
        }
        s.append(digit_byte_str(d));
        assert(s@ =~= Seq::new((i + 1 - 6) as nat, |k: int| b@[6 + k] as char));
        i = i + 1;
    }
    assert(s@ =~= geoid_text(b@));
    Ok(s)
}

/// The ring ends to use: the stored ends when there are any, otherwise a
/// single ring over all `count` coordinates.
pub open spec fn effective_ends(ends: Option<Seq<u32>>, count: nat) -> Seq<nat> {
    match ends {
        Some(e) => if e.len() > 0 {
            e.map_values(|n: u32| n as nat)
        } else {
            seq![count]
        },
        None => seq![count],
    }
}

/// Where ring `k` starts: at the end of the previous ring.
pub open spec fn ring_start(e: Seq<nat>, k: int) -> nat {
    if k == 0 {
        0
    } else {
        e[k - 1]
    }
}

/// Ring `k` ends within the coordinates and holds at least four points.
pub open spec fn ring_fits(e: Seq<nat>, count: nat, k: int) -> bool {
    e[k] <= count && e[k] >= ring_start(e, k) + 4
}

/// The stored ring ends, by their values.
pub open spec fn ends_view(ends: Option<&[u32]>) -> Option<Seq<u32>> {
    match ends {
        Some(s) => Some(s@),
        None => None,
    }
}

/// `plan` lists the rings of `e` over `count` coordinates, from the first,
/// up to the first ring that does not fit, and is rejected exactly when such
/// a ring exists.
pub open spec fn plans_rings(plan: RingPlan, e: Seq<nat>, count: nat) -> bool {
    let m = plan.rings@.len();
    &&& m <= e.len()
    &&& forall|k: int| 0 <= k < m ==> #[trigger] ring_fits(e, count, k)
    &&& forall|k: int| 0 <= k < m ==> (#[trigger] plan.rings@[k]).0 == ring_start(e, k)
        && plan.rings@[k].1 == e[k]
    &&& plan.rejected == (m < e.len())
    &&& m < e.len() ==> !ring_fits(e, count, m as int)
}

/// Planned rings follow one another: the first starts at coordinate 0,
/// each later one starts where the one before it ended, each ends at its
/// stored end, within the coordinates, at least four points after its
/// start; a plan that was not rejected covers the coordinates exactly, its
/// last ring ending at the last coordinate; and a rejected plan stops at a
/// ring that ends past the coordinates or fewer than four points after the
/// end of the last planned ring (or after coordinate 0).
pub proof fn lemma_planned_rings_partition(plan: RingPlan, e: Seq<nat>, count: nat)
    requires
        plans_rings(plan, e, count),
    ensures
        plan.rings@.len() > 0 ==> plan.rings@[0].0 == 0,
        forall|k: int| 0 < k < plan.rings@.len() ==> (#[trigger] plan.rings@[k]).0 == plan.rings@[k - 1].1,
        forall|k: int| 0 <= k < plan.rings@.len() ==> (#[trigger] plan.rings@[k]).1 as nat == e[k]
            && plan.rings@[k].1 <= count && plan.rings@[k].0 + 4 <= plan.rings@[k].1,
        !plan.rejected ==> plan.rings@.len() == e.len(),
        !plan.rejected && e.len() > 0 && e.last() == count ==> plan.rings@[e.len() - 1].1 == count,
        plan.rejected ==> plan.rings@.len() < e.len() && (e[plan.rings@.len() as int] > count
            || e[plan.rings@.len() as int] < (if plan.rings@.len() == 0 { 0 } else {
            plan.rings@[plan.rings@.len() - 1].1 as nat }) + 4),
{
    let m = plan.rings@.len();
    assert forall|k: int| 0 <= k < m implies (#[trigger] plan.rings@[k]).1 as nat == e[k]
        && plan.rings@[k].1 <= count && plan.rings@[k].0 + 4 <= plan.rings@[k].1 by {
        assert(ring_fits(e, count, k));
    }
    assert forall|k: int| 0 < k < m implies (#[trigger] plan.rings@[k]).0 == plan.rings@[k - 1].1 by {
        assert(plan.rings@[k - 1].1 == e[k - 1]);
    }
}

/// The rings of a component in storage order, each as the half-open range
/// of its coordinate indices, up to the first ring whose offsets are
/// invalid; `rejected` tells whether such a ring was met.
pub struct RingPlan {
    pub rings: Vec<(usize, usize)>,
    pub rejected: bool,
}

/// Checks the shape of a stored polygon component and plans its rings.
/// The caller validates the coordinates of each planned ring in order and,
/// if all pass and the plan was `rejected`, reports invalid ring offsets.
pub fn plan_rings(
    has_parts: bool,
    has_z: bool,
    has_m: bool,
    has_t: bool,
    has_tm: bool,
    xy_len: Option<usize>,
    ends: Option<&[u32]>,
) -> (r: Result<RingPlan, FeatureProblem>)
    ensures
        (has_parts || has_z || has_m || has_t || has_tm) ==> r == Err::<RingPlan, FeatureProblem>(
            FeatureProblem::NotPlanarPolygon),
        !(has_parts || has_z || has_m || has_t || has_tm) ==> match xy_len {
            None => r == Err::<RingPlan, FeatureProblem>(FeatureProblem::MissingCoordinates),
            Some(n) => if n % 2 != 0 {
                r == Err::<RingPlan, FeatureProblem>(FeatureProblem::OddCoordinateCount)
            } else {
                let e = effective_ends(ends_view(ends), (n / 2) as nat);
                if e.last() != (n / 2) as nat {
                    r == Err::<RingPlan, FeatureProblem>(FeatureProblem::RingEndsMismatch)
                } else {
                    r matches Ok(plan) && plans_rings(plan, e, (n / 2) as nat)
                }
            },
        },
{
    if has_parts || has_z || has_m || has_t || has_tm {
        return Err(FeatureProblem::NotPlanarPolygon);
    }
    let n = match xy_len {
        None => return Err(FeatureProblem::MissingCoordinates),
        Some(n) => n,
    };
    if n % 2 != 0 {
        return Err(FeatureProblem::OddCoordinateCount);
    }
    let count = n / 2;
    let ghost stored = ends_view(ends);
    let mut e: Vec<usize> = Vec::new();
    match ends {
        Some(s) if s.len() > 0 => {
            let mut i: usize = 0;
            while i < s.len()
                invariant
                    i <= s@.len(),
                    e@.len() == i,
                    forall|k: int| 0 <= k < i ==> (#[trigger] e@[k]) as nat == s@[k] as nat,
                decreases s.len() - i,
            {
                e.push(s[i] as usize);
                i = i + 1;
            }
        },
        _ => {
            e.push(count);
        },
    }
    let ghost spec_e = effective_ends(stored, count as nat);
    assert(spec_e.len() == e@.len());
    assert forall|k: int| 0 <= k < e@.len() implies (#[trigger] e@[k]) as nat == spec_e[k] by {}
    if e[e.len() - 1] != count {
        return Err(FeatureProblem::RingEndsMismatch);
    }
    let mut rings: Vec<(usize, usize)> = Vec::new();
    let mut start: usize = 0;
    let mut k: usize = 0;
    while k < e.len()
        invariant
            k <= e@.len(),
            !(has_parts || has_z || has_m || has_t || has_tm),
            xy_len == Some(n),
            n % 2 == 0,
            spec_e == effective_ends(stored, count as nat),
            stored == ends_view(ends),
            spec_e.last() == count as nat,
            spec_e.len() == e@.len(),
            forall|j: int| 0 <= j < e@.len() ==> (#[trigger] e@[j]) as nat == spec_e[j],
            count == n / 2,
            rings@.len() == k,
            start as nat == ring_start(spec_e, k as int),
            start <= count,
            forall|j: int| 0 <= j < k ==> #[trigger] ring_fits(spec_e, count as nat, j),
            forall|j: int| 0 <= j < k ==> (#[trigger] rings@[j]).0 == ring_start(spec_e, j)
                && rings@[j].1 == spec_e[j],
        decreases e.len() - k,
    {
        let end = e[k];
        if end > count || end < start + 4 {
            return Ok(RingPlan { rings, rejected: true });
        }
        rings.push((start, end));
        start = end;
        k = k + 1;
    }
    Ok(RingPlan { rings, rejected: false })
}

} // verus!
