//! Validation and planning of a batch of cell identifiers, and the
//! assembly of per-identifier answers in input order.

use std::collections::HashMap;
use vstd::prelude::*;
use vstd::string::*;
use crate::cell::{is_level30_cell, is_valid_leaf};
use crate::text::{decimal, decimal_string};

verus! {

/// An input or dataset failure. Input errors identify the batch index.
#[derive(Debug)]
pub enum LookupError {
    InvalidCellId { index: usize, value: u64 },
    Dataset { path: String, message: String },
}

/// The tract of one cell in each of the two decennial vintages.
#[derive(Debug, Clone, PartialEq, Eq)]
pub struct TractIds {
    pub tract_2010: Option<String>,
    pub tract_2020: Option<String>,
}

impl LookupError {
    /// The text the error is reported with:
    /// `invalid level-30 S2 cell ID at index INDEX: VALUE` or
    /// `dataset PATH: MESSAGE`.
    pub fn message(&self) -> (m: String)
        ensures
            match self {
                LookupError::InvalidCellId { index, value } => m@ == "invalid level-30 S2 cell ID at index "@
                    + decimal(*index as nat) + ": "@ + decimal(*value as nat),
                LookupError::Dataset { path, message } => m@ == "dataset "@ + path@ + ": "@ + message@,
            },
    {
        match self {
            LookupError::InvalidCellId { index, value } => {
                let mut m = String::from_str("invalid level-30 S2 cell ID at index ");
                let i = decimal_string(*index as u64);
                m.append(i.as_str());
                m.append(": ");
                let v = decimal_string(*value);
                m.append(v.as_str());
                m
            },
            LookupError::Dataset { path, message } => {
                let mut m = String::from_str("dataset ");
                m.append(path.as_str());
                m.append(": ");
                m.append(message.as_str());
                m
            },
        }
    }
}

/// A dataset error for the file at `path`.
pub fn dataset_error(path: &str, message: &str) -> (e: LookupError)
    ensures
        e matches LookupError::Dataset { path: p, message: m } && p@ == path@ && m@ == message@,
{
    LookupError::Dataset { path: String::from_str(path), message: String::from_str(message) }
}

/// Every identifier before position `n` is a valid level-30 cell.
pub open spec fn all_valid_before(ids: Seq<u64>, n: int) -> bool {
    forall|i: int| 0 <= i < n ==> #[trigger] is_valid_leaf(ids[i])
}

/// The error that whole-batch validation owes for `ids`: the first
/// position holding an identifier that is not a valid level-30 cell.
pub open spec fn validation_error(ids: Seq<u64>, e: LookupError) -> bool {
    e matches LookupError::InvalidCellId { index, value } && {
        &&& index < ids.len()
        &&& value == ids[index as int]
        &&& !is_valid_leaf(value)
        &&& all_valid_before(ids, index as int)
    }
}

/// Checks the whole batch before any dataset is touched.
pub fn validate_ids(ids: &[u64]) -> (r: Result<(), LookupError>)
    ensures
        r is Ok <==> all_valid_before(ids@, ids@.len() as int),
        r matches Err(e) ==> validation_error(ids@, e),
{
    let mut i: usize = 0;
    while i < ids.len()
        invariant
            i <= ids@.len(),
            all_valid_before(ids@, i as int),
        decreases ids.len() - i,
    {
        let value = ids[i];
        if !is_level30_cell(value) {
            return Err(LookupError::InvalidCellId { index: i, value });
        }
        i = i + 1;
    }
    Ok(())
}

/// The distinct values of `s` in the order of their first occurrence.
pub open spec fn first_occurrences(s: Seq<u64>) -> Seq<u64>
    decreases s.len(),
{
    if s.len() == 0 {
        Seq::empty()
    } else {
        let p = first_occurrences(s.drop_last());
        if p.contains(s.last()) {
            p
        } else {
            p.push(s.last())
        }
    }
}

/// `unique` lists the distinct identifiers of `ids` once each, in order of
/// first occurrence, and `slots[i]` is the position of `ids[i]` in it.
pub open spec fn is_plan_of(ids: Seq<u64>, unique: Seq<u64>, slots: Seq<usize>) -> bool {
    &&& unique == first_occurrences(ids)
    &&& unique.no_duplicates()
    &&& slots.len() == ids.len()
    &&& forall|i: int| 0 <= i < ids.len() ==> {
        &&& (#[trigger] slots[i]) < unique.len()
        &&& unique[slots[i] as int] == ids[i]
    }
}

/// How a validated batch is queried: each distinct identifier once.
pub struct LookupPlan {
    pub unique: Vec<u64>,
    pub slots: Vec<usize>,
}

/// Validates the batch and, when every identifier is valid, plans one
/// query per distinct identifier.
pub fn plan_lookup(ids: &[u64]) -> (r: Result<LookupPlan, LookupError>)
    ensures
        r is Ok <==> all_valid_before(ids@, ids@.len() as int),
        r matches Err(e) ==> validation_error(ids@, e),
        r matches Ok(plan) ==> is_plan_of(ids@, plan.unique@, plan.slots@),
{
    validate_ids(ids)?;
    broadcast use vstd::std_specs::hash::group_hash_axioms;
    let mut seen: HashMap<u64, usize> = HashMap::new();
    let mut unique: Vec<u64> = Vec::new();
    let mut slots: Vec<usize> = Vec::new();
    let mut i: usize = 0;
    while i < ids.len()
        invariant
            i <= ids@.len(),
            all_valid_before(ids@, ids@.len() as int),
            unique@ == first_occurrences(ids@.take(i as int)),
            unique@.no_duplicates(),
            slots@.len() == i,
            forall|k: u64| #[trigger] seen@.contains_key(k) <==> unique@.contains(k),
            forall|k: u64| #[trigger] seen@.contains_key(k) ==> seen@[k] < unique@.len()
                && unique@[seen@[k] as int] == k,
            forall|j: int| 0 <= j < i ==> {
                &&& (#[trigger] slots@[j]) < unique@.len()
                &&& unique@[slots@[j] as int] == ids@[j]
            },
        decreases ids.len() - i,
    {
        let id = ids[i];
        let ghost before = ids@.take(i as int);
        assert(ids@.take(i + 1).drop_last() == before);
        assert(ids@.take(i + 1).last() == id);
        match seen.get(&id) {
            Some(k) => {
                let k = *k;
                slots.push(k);
            },
            None => {
                let k = unique.len();
                let ghost old_unique = unique@;
                assert(!old_unique.contains(id));
                seen.insert(id, k);
                unique.push(id);
                slots.push(k);
                assert(unique@ == old_unique.push(id));
                assert forall|a: int, b: int| 0 <= a < b < unique@.len() implies unique@[a]
                    != unique@[b] by {
                    if b == unique@.len() - 1 {
                        assert(old_unique.contains(old_unique[a]));
                    }
                }
                assert forall|x: u64| #[trigger] seen@.contains_key(x) <==> unique@.contains(x) by {
                    if x != id && old_unique.contains(x) {
                        let w = choose|w: int| 0 <= w < old_unique.len() && old_unique[w] == x;
                        assert(unique@[w] == x);
                    }
                    if unique@.contains(x) && x != id {
                        let w = choose|w: int| 0 <= w < unique@.len() && unique@[w] == x;
                        assert(old_unique[w] == x);
                    }
                    if x == id {
                        assert(unique@[k as int] == id);
                    }
                }
            },
        }
        i = i + 1;
    }
    assert(ids@.take(ids@.len() as int) == ids@);
    Ok(LookupPlan { unique, slots })
}

fn clone_tract(t: &Option<String>) -> (c: Option<String>)
    ensures
        c == *t,
{
    match t {
        Some(s) => Some(s.clone()),
        None => None,
    }
}

/// The answer of each batch position, taken from the answer of its
/// distinct identifier: input order and duplicates are kept.
pub fn gather_tracts(slots: &Vec<usize>, answers: &Vec<Option<String>>) -> (out: Vec<Option<String>>)
    requires
        forall|i: int| 0 <= i < slots@.len() ==> (#[trigger] slots@[i]) < answers@.len(),
    ensures
        out@.len() == slots@.len(),
        forall|i: int| 0 <= i < slots@.len() ==> #[trigger] out@[i] == answers@[slots@[i] as int],
{
    let mut out: Vec<Option<String>> = Vec::new();
    let mut i: usize = 0;
    while i < slots.len()
        invariant
            i <= slots@.len(),
            forall|j: int| 0 <= j < slots@.len() ==> (#[trigger] slots@[j]) < answers@.len(),
            out@.len() == i,
            forall|j: int| 0 <= j < i ==> #[trigger] out@[j] == answers@[slots@[j] as int],
        decreases slots.len() - i,
    {
        out.push(clone_tract(&answers[slots[i]]));
        i = i + 1;
    }
    out
}

/// Pairs the answers of both vintages for each batch position.
pub fn gather_tract_ids(
    slots: &Vec<usize>,
    answers_2010: &Vec<Option<String>>,
    answers_2020: &Vec<Option<String>>,
) -> (out: Vec<TractIds>)
    requires
        forall|i: int| 0 <= i < slots@.len() ==> (#[trigger] slots@[i]) < answers_2010@.len(),
        forall|i: int| 0 <= i < slots@.len() ==> (#[trigger] slots@[i]) < answers_2020@.len(),
    ensures
        out@.len() == slots@.len(),
        forall|i: int| 0 <= i < slots@.len() ==> {
            &&& (#[trigger] out@[i]).tract_2010 == answers_2010@[slots@[i] as int]
            &&& out@[i].tract_2020 == answers_2020@[slots@[i] as int]
        },
{
    let mut out: Vec<TractIds> = Vec::new();
    let mut i: usize = 0;
    while i < slots.len()
        invariant
            i <= slots@.len(),
            forall|j: int| 0 <= j < slots@.len() ==> (#[trigger] slots@[j]) < answers_2010@.len(),
            forall|j: int| 0 <= j < slots@.len() ==> (#[trigger] slots@[j]) < answers_2020@.len(),
            out@.len() == i,
            forall|j: int| 0 <= j < i ==> {
                &&& (#[trigger] out@[j]).tract_2010 == answers_2010@[slots@[j] as int]
                &&& out@[j].tract_2020 == answers_2020@[slots@[j] as int]
            },
        decreases slots.len() - i,
    {
        let k = slots[i];
        out.push(
            TractIds {
                tract_2010: clone_tract(&answers_2010[k]),
                tract_2020: clone_tract(&answers_2020[k]),
            },
        );
        i = i + 1;
    }
    out
}


/// Results stay in input order, duplicates included: two positions that
/// hold the same identifier share one query and so one answer.
pub proof fn lemma_equal_ids_share_answer(
    ids: Seq<u64>,
    unique: Seq<u64>,
    slots: Seq<usize>,
    i: int,
    j: int,
)
    requires
        is_plan_of(ids, unique, slots),
        0 <= i < ids.len(),
        0 <= j < ids.len(),
        ids[i] == ids[j],
    ensures
        slots[i] == slots[j],
{
    assert(unique[slots[i] as int] == unique[slots[j] as int]);
}

/// Each distinct identifier of the batch is queried exactly once.
pub proof fn lemma_each_id_queried_once(ids: Seq<u64>, unique: Seq<u64>, slots: Seq<usize>, x: u64)
    requires
        is_plan_of(ids, unique, slots),
        ids.contains(x),
    ensures
        exists|k: int| 0 <= k < unique.len() && unique[k] == x && forall|m: int|
            0 <= m < unique.len() && unique[m] == x ==> m == k,
{
    let i = choose|i: int| 0 <= i < ids.len() && ids[i] == x;
    let k = slots[i] as int;
    assert(unique[k] == x);
}


/// Looking up a batch answers each position as looking up that identifier
/// alone would: when the answer of each distinct identifier depends only on
/// the identifier (`answer`), position `i` of the batch receives
/// `answer(ids[i])`, and the plan of the one-identifier batch `[ids[i]]`
/// queries exactly that identifier once.
pub proof fn lemma_batch_answers_per_position<T>(
    ids: Seq<u64>,
    unique: Seq<u64>,
    slots: Seq<usize>,
    answers: Seq<T>,
    answer: spec_fn(u64) -> T,
    i: int,
)
    requires
        is_plan_of(ids, unique, slots),
        answers.len() == unique.len(),
        forall|k: int| 0 <= k < unique.len() ==> #[trigger] answers[k] == answer(unique[k]),
        0 <= i < ids.len(),
    ensures
        answers[slots[i] as int] == answer(ids[i]),
        first_occurrences(seq![ids[i]]) == seq![ids[i]],
        is_plan_of(seq![ids[i]], seq![ids[i]], seq![0usize]),
{
    let single = seq![ids[i]];
    assert(single.drop_last() =~= Seq::<u64>::empty());
    assert(first_occurrences(Seq::<u64>::empty()) == Seq::<u64>::empty());
    assert(first_occurrences(single) =~= single);
}

} // verus!
