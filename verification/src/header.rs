//! Validation of a dataset's FlatGeobuf header before any lookup: the
//! vintage, preparation revision, schema, spatial index and extent.

use vstd::prelude::*;
use vstd::string::*;
use crate::text::{decimal, decimal_string, lemma_decimal_injective};

verus! {

/// One attribute column of a dataset: its name and FlatGeobuf column type.
pub struct ColumnSummary {
    pub name: String,
    pub column_type: u8,
}

/// What the floating-point envelope of a dataset was found to be.
#[derive(Debug, Clone, Copy, PartialEq, Eq)]
pub enum EnvelopeStatus {
    Missing,
    WrongLength,
    OutOfRange,
    Valid,
}

/// The header fields that decide whether a dataset can be queried.
pub struct HeaderSummary {
    pub name: Option<String>,
    pub title: Option<String>,
    pub geometry_type: u8,
    pub has_z: bool,
    pub has_m: bool,
    pub has_t: bool,
    pub has_tm: bool,
    pub index_node_size: u16,
    pub features_count: u64,
    pub columns: Option<Vec<ColumnSummary>>,
    pub envelope: EnvelopeStatus,
}

/// Why a dataset cannot be opened.
#[derive(Debug, Clone, Copy, PartialEq, Eq)]
pub enum HeaderProblem {
    Incompatible,
    MissingGeoidColumn,
    WrongColumns,
    MissingEnvelope,
    InvalidEnvelope,
    EnvelopeOutOfRange,
    InvalidFeatureCount,
    Truncated,
}

impl HeaderProblem {
    /// The message reported for this problem.
    pub fn message(&self) -> (m: &'static str)
        ensures
            match self {
                HeaderProblem::Incompatible => m@ == "incompatible vintage, bundle revision, geometry, or spatial index"@,
                HeaderProblem::MissingGeoidColumn => m@ == "missing GEOID column"@,
                HeaderProblem::WrongColumns => m@ == "expected exactly one string column named GEOID"@,
                HeaderProblem::MissingEnvelope => m@ == "missing envelope"@,
                HeaderProblem::InvalidEnvelope => m@ == "invalid envelope"@,
                HeaderProblem::EnvelopeOutOfRange => m@ == "incompatible unwrapped longitude/latitude envelope"@,
                HeaderProblem::InvalidFeatureCount => m@ == "truncated index or invalid feature count"@,
                HeaderProblem::Truncated => m@ == "truncated dataset"@,
            },
    {
        match self {
            HeaderProblem::Incompatible => "incompatible vintage, bundle revision, geometry, or spatial index",
            HeaderProblem::MissingGeoidColumn => "missing GEOID column",
            HeaderProblem::WrongColumns => "expected exactly one string column named GEOID",
            HeaderProblem::MissingEnvelope => "missing envelope",
            HeaderProblem::InvalidEnvelope => "invalid envelope",
            HeaderProblem::EnvelopeOutOfRange => "incompatible unwrapped longitude/latitude envelope",
            HeaderProblem::InvalidFeatureCount => "truncated index or invalid feature count",
            HeaderProblem::Truncated => "truncated dataset",
        }
    }
}

/// The FlatGeobuf geometry type code of a polygon.
pub open spec fn POLYGON_TYPE() -> u8 {
    3
}

/// The FlatGeobuf column type code of a string.
pub open spec fn STRING_COLUMN() -> u8 {
    11
}

/// The spatial index node size the reader relies on.
pub open spec fn NODE_SIZE() -> u16 {
    16
}

/// The revision of prepared data that this release reads.
pub fn data_revision() -> (r: &'static str)
    ensures
        r@ == "r2"@,
{
    "r2"
}

/// The layer name of the dataset of `year`: `tracts_YEAR`.
pub open spec fn dataset_name(year: u16) -> Seq<char> {
    "tracts_"@ + decimal(year as nat)
}

/// The title written by the current preparation: `census-tracts-YEAR-r2`.
pub open spec fn revision_title(year: u16) -> Seq<char> {
    "census-tracts-"@ + decimal(year as nat) + "-"@ + "r2"@
}

/// The title of the earlier combined 2010 and 2020 bundle.
pub open spec fn legacy_title() -> Seq<char> {
    "census-tracts-2010-2020-r1"@
}

/// The current revision is accepted for every vintage; the 2010 and 2020
/// files of the earlier bundle remain readable under their first title.
pub open spec fn title_accepted(title: Seq<char>, year: u16) -> bool {
    title == revision_title(year) || ((year == 2010 || year == 2020) && title == legacy_title())
}

/// Vintage, revision, geometry and index settings that a dataset must have.
pub open spec fn schema_compatible(h: HeaderSummary, year: u16) -> bool {
    &&& h.name matches Some(n) && n@ == dataset_name(year)
    &&& h.title matches Some(t) && title_accepted(t@, year)
    &&& h.geometry_type == POLYGON_TYPE()
    &&& !h.has_z && !h.has_m && !h.has_t && !h.has_tm
    &&& h.index_node_size == NODE_SIZE()
    &&& h.features_count != 0
}

/// Exactly one column, a string column named `GEOID`.
pub open spec fn columns_ok(cols: Seq<ColumnSummary>) -> bool {
    cols.len() == 1 && cols[0].name@ == "GEOID"@ && cols[0].column_type == STRING_COLUMN()
}

/// `a / b` rounded up.
pub open spec fn ceil_div(a: nat, b: nat) -> nat {
    if b == 0 {
        0
    } else {
        ((a + b - 1) / (b as int)) as nat
    }
}

/// The number of nodes above the leaves of a packed R-tree over `n` items
/// with `node_size` children per node: each level groups the one below,
/// up to a single root.
pub open spec fn upper_levels(n: nat, node_size: nat) -> nat
    decreases n,
{
    let m = ceil_div(n, node_size);
    if n <= 1 || node_size < 2 || m <= 1 {
        m
    } else {
        proof {
            assert(m < n) by (nonlinear_arith)
                requires
                    n >= 2,
                    node_size >= 2,
                    m == (n + node_size - 1) / (node_size as int),
            ;
        }
        m + upper_levels(m, node_size)
    }
}

/// The byte size of a packed R-tree index: 40 bytes per node.
pub open spec fn index_bytes(n: nat, node_size: nat) -> nat {
    40 * (n + upper_levels(n, node_size))
}

/// Calls `flatgeobuf::packed_r_tree::PackedRTree::index_size`. Its source
/// starts from `n` leaf nodes, adds `ceil(n / node_size)` nodes per level
/// until a level of one node, and multiplies the node count by the
/// 40-byte `NodeItem`. It asserts `node_size >= 2` and `num_items > 0`,
/// and the product must fit a `usize`.
#[verifier::external_body]
fn packed_index_size(num_items: usize, node_size: u16) -> (size: usize)
    requires
        num_items > 0,
        node_size >= 2,
        index_bytes(num_items as nat, node_size as nat) <= usize::MAX,
    ensures
        size == index_bytes(num_items as nat, node_size as nat),
{
    flatgeobuf::packed_r_tree::PackedRTree::index_size(num_items, node_size)
}

/// With 16 children per node the upper levels never outnumber the leaves.
pub proof fn lemma_upper_levels_bounded(n: nat)
    requires
        n >= 1,
    ensures
        upper_levels(n, 16) <= n,
    decreases n,
{
    let m = ceil_div(n, 16);
    if n <= 1 || m <= 1 {
    } else {
        lemma_upper_levels_bounded(m);
    }
}

/// The first problem of a dataset header, checked in order: schema, GEOID
/// column, envelope, feature count against the file length, and room for
/// the spatial index after `index_start`.
pub open spec fn header_problem(h: HeaderSummary, year: u16, length: u64, index_start: u64) -> Option<HeaderProblem> {
    if !schema_compatible(h, year) {
        Some(HeaderProblem::Incompatible)
    } else if h.columns is None {
        Some(HeaderProblem::MissingGeoidColumn)
    } else if !columns_ok(h.columns.unwrap()@) {
        Some(HeaderProblem::WrongColumns)
    } else {
        match h.envelope {
            EnvelopeStatus::Missing => Some(HeaderProblem::MissingEnvelope),
            EnvelopeStatus::WrongLength => Some(HeaderProblem::InvalidEnvelope),
            EnvelopeStatus::OutOfRange => Some(HeaderProblem::EnvelopeOutOfRange),
            EnvelopeStatus::Valid => if h.features_count > length / 40 {
                Some(HeaderProblem::InvalidFeatureCount)
            } else if index_start + index_bytes(h.features_count as nat, 16) + 8 > length {
                Some(HeaderProblem::Truncated)
            } else {
                None
            },
        }
    }
}

/// The layer name a dataset of `year` carries: `tracts_YEAR`.
pub fn dataset_layer_name(year: u16) -> (n: String)
    ensures
        n@ == dataset_name(year),
{
    let mut n = String::from_str("tracts_");
    let digits = decimal_string(year as u64);
    n.append(digits.as_str());
    n
}

/// The title that preparation writes for `year`: `census-tracts-YEAR-r2`.
pub fn preparation_title(year: u16) -> (t: String)
    ensures
        t@ == revision_title(year),
{
    let mut t = String::from_str("census-tracts-");
    let digits = decimal_string(year as u64);
    t.append(digits.as_str());
    t.append("-");
    t.append(data_revision());
    t
}

fn title_matches(title: &String, year: u16) -> (ok: bool)
    ensures
        ok == title_accepted(title@, year),
{
    if *title == preparation_title(year) {
        return true;
    }
    (year == 2010 || year == 2020) && *title == String::from_str("census-tracts-2010-2020-r1")
}

fn schema_matches(h: &HeaderSummary, year: u16) -> (ok: bool)
    ensures
        ok == schema_compatible(*h, year),
{
    let name_ok = match &h.name {
        Some(n) => *n == dataset_layer_name(year),
        None => false,
    };
    let title_ok = match &h.title {
        Some(t) => title_matches(t, year),
        None => false,
    };
    name_ok && title_ok && h.geometry_type == 3 && !h.has_z && !h.has_m && !h.has_t && !h.has_tm
        && h.index_node_size == 16 && h.features_count != 0
}

/// A dataset prepared for `year` carries the name and a title that opening
/// it for `year` accepts, and no other year's name.
pub proof fn lemma_prepared_names_are_accepted(year: u16, other: u16)
    requires
        other != year,
    ensures
        title_accepted(revision_title(year), year),
        dataset_name(year) != dataset_name(other),
{
    lemma_decimal_injective(year as nat, other as nat);
    if dataset_name(year) == dataset_name(other) {
        let p = "tracts_"@;
        assert(dataset_name(year).skip(p.len() as int) == decimal(year as nat));
        assert(dataset_name(other).skip(p.len() as int) == decimal(other as nat));
    }
}

/// Checks a dataset header opened for `year`. `length` is the file size and
/// `index_start` the offset where the spatial index begins.
pub fn check_header(h: &HeaderSummary, year: u16, length: u64, index_start: u64) -> (r: Result<(), HeaderProblem>)
    requires
        length < 0x8000_0000_0000_0000u64,
        usize::MAX == u64::MAX,
    ensures
        match header_problem(*h, year, length, index_start) {
            Some(p) => r == Err::<(), HeaderProblem>(p),
            None => r is Ok,
        },
{
    if !schema_matches(h, year) {
        return Err(HeaderProblem::Incompatible);
    }
    let cols = match &h.columns {
        None => return Err(HeaderProblem::MissingGeoidColumn),
        Some(c) => c,
    };
    if cols.len() != 1 || cols[0].name != String::from_str("GEOID") || cols[0].column_type != 11 {
        return Err(HeaderProblem::WrongColumns);
    }
    match h.envelope {
        EnvelopeStatus::Missing => return Err(HeaderProblem::MissingEnvelope),
        EnvelopeStatus::WrongLength => return Err(HeaderProblem::InvalidEnvelope),
        EnvelopeStatus::OutOfRange => return Err(HeaderProblem::EnvelopeOutOfRange),
        EnvelopeStatus::Valid => {},
    }
    let count = h.features_count;
    if count > length / 40 {
        return Err(HeaderProblem::InvalidFeatureCount);
    }
    proof {
        lemma_upper_levels_bounded(count as nat);
    }
    let size = packed_index_size(count as usize, 16);
    if (index_start as u128) + (size as u128) + 8 > length as u128 {
        return Err(HeaderProblem::Truncated);
    }
    Ok(())
}


/// What preparation writes for `year`: the layer name `tracts_YEAR`, the
/// current revision title, 2D polygons indexed with node size 16, one
/// string column `GEOID`, at least one feature and a valid envelope.
pub open spec fn as_prepared(h: HeaderSummary, year: u16) -> bool {
    &&& h.name matches Some(n) && n@ == dataset_name(year)
    &&& h.title matches Some(t) && t@ == revision_title(year)
    &&& h.geometry_type == POLYGON_TYPE()
    &&& !h.has_z && !h.has_m && !h.has_t && !h.has_tm
    &&& h.index_node_size == NODE_SIZE()
    &&& h.features_count != 0
    &&& h.columns matches Some(c) && columns_ok(c@)
    &&& h.envelope == EnvelopeStatus::Valid
}

/// Every vintage prepared for release opens: a header as preparation
/// writes it, followed by its spatial index within the file, passes the
/// check for its own year.
pub proof fn lemma_prepared_dataset_opens(h: HeaderSummary, year: u16, length: u64, index_start: u64)
    requires
        as_prepared(h, year),
        index_start + index_bytes(h.features_count as nat, 16) + 8 <= length,
    ensures
        header_problem(h, year, length, index_start) is None,
{
    assert(title_accepted(revision_title(year), year));
    assert(schema_compatible(h, year));
}

} // verus!
