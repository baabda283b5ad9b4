//! Rules of dataset preparation: which GEOIDs a state's source may
//! contribute, and how the source archives and fields are named.

use std::collections::HashSet;
use vstd::prelude::*;
use vstd::string::*;
use crate::text::{decimal, decimal_string, parse_decimal, parse_unsigned, NumberError};
use crate::cli::{views, FIRST_VINTAGE, LAST_VINTAGE};

verus! {

/// A GEOID that is malformed, outside its state, or already seen.
#[derive(Debug, Clone, Copy, PartialEq, Eq)]
pub struct GeoidRejected;

/// An ASCII decimal digit byte.
pub open spec fn is_digit_byte(b: u8) -> bool {
    48 <= b <= 57
}

/// The digit bytes are exactly the ASCII characters '0' through '9'.
pub proof fn lemma_digit_bytes_are_ascii_digits(b: u8)
    ensures
        is_digit_byte(b) <==> ('0' <= (b as char) && (b as char) <= '9'),
{
}

/// A tract GEOID of state `state`: eleven ASCII digits starting with the
/// state code (compared as bytes).
pub open spec fn geoid_well_formed(g: Seq<u8>, state: Seq<u8>) -> bool {
    &&& g.len() == 11
    &&& forall|i: int| 0 <= i < g.len() ==> #[trigger] is_digit_byte(g[i])
    &&& state.len() <= g.len()
    &&& g.take(state.len() as int) == state
}

/// The number written by a string of decimal digit bytes.
pub open spec fn digits_value(g: Seq<u8>) -> nat
    decreases g.len(),
{
    if g.len() == 0 {
        0
    } else {
        digits_value(g.drop_last()) * 10 + (g.last() - 48) as nat
    }
}

/// `10` to the power `n`.
pub open spec fn pow10(n: nat) -> nat
    decreases n,
{
    if n == 0 {
        1
    } else {
        10 * pow10((n - 1) as nat)
    }
}

proof fn lemma_pow10_eleven()
    ensures
        pow10(11) == 100_000_000_000,
{
    reveal_with_fuel(pow10, 12);
}

proof fn lemma_pow10_monotone(a: nat, b: nat)
    requires
        a <= b,
    ensures
        pow10(a) <= pow10(b),
    decreases b,
{
    if a < b {
        lemma_pow10_monotone(a, (b - 1) as nat);
    }
}

/// Whether GEOID `g` of state `state` is accepted after the GEOIDs `seen`.
pub open spec fn geoid_accepted(g: Seq<u8>, state: Seq<u8>, seen: Set<u64>) -> bool {
    geoid_well_formed(g, state) && !seen.contains(digits_value(g) as u64)
}

proof fn lemma_digits_value_bound(g: Seq<u8>)
    requires
        forall|i: int| 0 <= i < g.len() ==> #[trigger] is_digit_byte(g[i]),
    ensures
        digits_value(g) < pow10(g.len()),
    decreases g.len(),
{
    if g.len() > 0 {
        let p = g.drop_last();
        assert forall|i: int| 0 <= i < p.len() implies #[trigger] is_digit_byte(p[i]) by {
            assert(p[i] == g[i]);
        }
        assert(is_digit_byte(g[g.len() - 1]));
        lemma_digits_value_bound(p);
    }
}

/// A GEOID of eleven characters, each from '0' through '9', that starts
/// with the state's code and whose value was not seen before is accepted.
pub proof fn lemma_new_digit_geoid_accepted(g: Seq<u8>, state: Seq<u8>, seen: Set<u64>)
    requires
        g.len() == 11,
        forall|i: int| 0 <= i < 11 ==> '0' <= ((#[trigger] g[i]) as char) && (g[i] as char) <= '9',
        state.len() <= 11,
        g.take(state.len() as int) == state,
        !seen.contains(digits_value(g) as u64),
    ensures
        geoid_accepted(g, state, seen),
{
    assert forall|i: int| 0 <= i < g.len() implies #[trigger] is_digit_byte(g[i]) by {
        lemma_digit_bytes_are_ascii_digits(g[i]);
    }
}

/// Checks that `geoid` is a new, well-formed GEOID of `state`, remembering
/// it in `seen` (by its numeric value) when it is.
#[verifier::loop_isolation(false)]
pub fn accept_geoid(geoid: &str, state: &str, seen: &mut HashSet<u64>) -> (r: Result<(), GeoidRejected>)
    ensures
        r is Ok <==> geoid_accepted(geoid.spec_bytes(), state.spec_bytes(), old(seen)@),
        final(seen)@ == if geoid_well_formed(geoid.spec_bytes(), state.spec_bytes()) {
            old(seen)@.insert(digits_value(geoid.spec_bytes()) as u64)
        } else {
            old(seen)@
        },
{
    broadcast use vstd::std_specs::hash::group_hash_axioms;
    let g = geoid.as_bytes();
    let st = state.as_bytes();
    if g.len() != 11 {
        return Err(GeoidRejected);
    }
    let mut value: u64 = 0;
    let mut i: usize = 0;
    while i < 11
        invariant
            i <= 11,
            g@.len() == 11,
            forall|j: int| 0 <= j < i ==> #[trigger] is_digit_byte(g@[j]),
            value as nat == digits_value(g@.take(i as int)),
            value < pow10(i as nat),
        decreases 11 - i,
    {
        let b = g[i];
        if b < 48 || b > 57 {
            assert(!is_digit_byte(g@[i as int]));
            return Err(GeoidRejected);
        }
        assert(g@.take(i + 1).drop_last() == g@.take(i as int));
        proof {
            lemma_pow10_small(i as nat);
        }
        value = value * 10 + (b - 48) as u64;
        i = i + 1;
    }
    assert(g@.take(11) == g@);
    if st.len() > 11 {
        return Err(GeoidRejected);
    }
    let mut k: usize = 0;
    while k < st.len()
        invariant
            k <= st@.len(),
            st@.len() <= 11,
            g@.len() == 11,
            forall|j: int| 0 <= j < k ==> g@[j] == st@[j],
        decreases st.len() - k,
    {
        if g[k] != st[k] {
            assert(g@.take(st@.len() as int)[k as int] != st@[k as int]);
            return Err(GeoidRejected);
        }
        k = k + 1;
    }
    assert(g@.take(st@.len() as int) =~= st@);
    if seen.insert(value) {
        Ok(())
    } else {
        Err(GeoidRejected)
    }
}

proof fn lemma_pow10_small(i: nat)
    requires
        i < 11,
    ensures
        pow10(i + 1) <= 100_000_000_000,
{
    lemma_pow10_eleven();
    lemma_pow10_monotone(i + 1, 11);
}

/// Two GEOIDs of the same length with the same value are the same GEOID,
/// so remembering values never confuses two distinct tracts.
pub proof fn lemma_digits_value_injective(a: Seq<u8>, b: Seq<u8>)
    requires
        a.len() == b.len(),
        forall|i: int| 0 <= i < a.len() ==> #[trigger] is_digit_byte(a[i]),
        forall|i: int| 0 <= i < b.len() ==> #[trigger] is_digit_byte(b[i]),
        digits_value(a) == digits_value(b),
    ensures
        a == b,
    decreases a.len(),
{
    if a.len() > 0 {
        let pa = a.drop_last();
        let pb = b.drop_last();
        assert(is_digit_byte(a[a.len() - 1]));
        assert(is_digit_byte(b[b.len() - 1]));
        assert forall|i: int| 0 <= i < pa.len() implies #[trigger] is_digit_byte(pa[i]) by {
            assert(pa[i] == a[i]);
        }
        assert forall|i: int| 0 <= i < pb.len() implies #[trigger] is_digit_byte(pb[i]) by {
            assert(pb[i] == b[i]);
        }
        assert(digits_value(pa) == digits_value(pb));
        lemma_digits_value_injective(pa, pb);
        assert(a =~= pa.push(a.last()));
        assert(b =~= pb.push(b.last()));
    } else {
        assert(a =~= b);
    }
}

/// A GEOID is accepted at most once: after it is accepted, the same GEOID
/// is refused, while any other well-formed GEOID of the state is still
/// accepted if it was before.
pub proof fn lemma_geoid_accepted_once(g: Seq<u8>, h: Seq<u8>, state: Seq<u8>, seen: Set<u64>)
    requires
        geoid_accepted(g, state, seen),
    ensures
        !geoid_accepted(g, state, seen.insert(digits_value(g) as u64)),
        h != g && geoid_accepted(h, state, seen) ==> geoid_accepted(
            h,
            state,
            seen.insert(digits_value(g) as u64),
        ),
{
    if h != g && geoid_accepted(h, state, seen) {
        lemma_digits_value_bound(g);
        lemma_digits_value_bound(h);
        lemma_pow10_eleven();
        if digits_value(h) == digits_value(g) {
            lemma_digits_value_injective(h, g);
        }
    }
}

/// The GEOID attribute of a vintage's source: `GEOID10` in 2010, `GEOID`
/// otherwise.
pub fn geoid_field(year: u16) -> (f: &'static str)
    ensures
        f@ == if year == 2010 { "GEOID10"@ } else { "GEOID"@ },
{
    if year == 2010 {
        "GEOID10"
    } else {
        "GEOID"
    }
}

/// The name of a state's TIGER/Line tract archive:
/// `tl_YEAR_STATE_tract.zip`, with `tract10` for 2010.
pub fn source_archive_name(year: u16, state: &str) -> (n: String)
    ensures
        n@ == "tl_"@ + decimal(year as nat) + "_"@ + state@ + "_tract"@ + (if year == 2010 {
            "10"@
        } else {
            ""@
        }) + ".zip"@,
{
    let mut n = String::from_str("tl_");
    let d = decimal_string(year as u64);
    n.append(d.as_str());
    n.append("_");
    n.append(state);
    n.append("_tract");
    n.append(if year == 2010 { "10" } else { "" });
    n.append(".zip");
    n
}


/// The arguments of a preparation run.
#[derive(Debug, Clone)]
pub struct PrepareArgs {
    pub year: u16,
    pub sources: String,
    pub output: String,
}

/// Why the arguments of a preparation run were refused.
#[derive(Debug, Clone, Copy, PartialEq, Eq)]
pub enum PrepareArgsError {
    Usage,
    Number(NumberError),
    OutOfRange,
}

/// The argument layout `--vintage YEAR --sources DIR --output DIR`.
pub open spec fn prepare_layout(s: Seq<Seq<char>>) -> bool {
    s.len() == 6 && s[0] == "--vintage"@ && s[2] == "--sources"@ && s[4] == "--output"@
}

/// Reads `--vintage YEAR --sources DIR --output DIR`, with a year from the
/// first to the last vintage.
pub fn parse_prepare_args(args: &Vec<String>) -> (r: Result<PrepareArgs, PrepareArgsError>)
    ensures
        !prepare_layout(views(args@)) ==> r == Err::<PrepareArgs, PrepareArgsError>(PrepareArgsError::Usage),
        prepare_layout(views(args@)) ==> match parse_unsigned(args@[1]@, 65535) {
            Err(e) => r == Err::<PrepareArgs, PrepareArgsError>(PrepareArgsError::Number(e)),
            Ok(v) => if v < FIRST_VINTAGE || v > LAST_VINTAGE {
                r == Err::<PrepareArgs, PrepareArgsError>(PrepareArgsError::OutOfRange)
            } else {
                r matches Ok(a) && a.year == v && a.sources@ == args@[3]@ && a.output@ == args@[5]@
            },
        },
{
    let ghost s = views(args@);
    if args.len() != 6 {
        return Err(PrepareArgsError::Usage);
    }
    assert(s[0] == args@[0]@ && s[2] == args@[2]@ && s[4] == args@[4]@);
    if !(args[0] == String::from_str("--vintage")) || !(args[2] == String::from_str("--sources"))
        || !(args[4] == String::from_str("--output")) {
        return Err(PrepareArgsError::Usage);
    }
    let year = match parse_decimal(args[1].as_str(), 65535) {
        Err(e) => return Err(PrepareArgsError::Number(e)),
        Ok(v) => v,
    };
    if year < FIRST_VINTAGE as u64 || year > LAST_VINTAGE as u64 {
        return Err(PrepareArgsError::OutOfRange);
    }
    Ok(PrepareArgs { year: year as u16, sources: args[3].clone(), output: args[5].clone() })
}


/// Why a preparation run stops on its sources or output.
#[derive(Debug, Clone, Copy, PartialEq, Eq)]
pub enum SourceProblem {
    OutputExists,
    WrongArchiveCount,
    UnorderedState,
    MissingState,
    MissingFilename,
    FilenameMismatch,
    InvalidByteCount,
    MissingDigest,
    SourceDiffers,
    NotGeographic,
    FeatureCountMismatch,
}

impl SourceProblem {
    /// The message reported for this problem; the program adds the archive
    /// path or name after the last two kinds of mismatch.
    pub fn message(&self) -> (m: &'static str)
        ensures
            match self {
                SourceProblem::OutputExists => m@ == "output or staging directory already exists"@,
                SourceProblem::WrongArchiveCount => m@ == "source lock must contain 56 archives"@,
                SourceProblem::UnorderedState => m@ == "source lock has missing or unordered state"@,
                SourceProblem::MissingState => m@ == "missing state"@,
                SourceProblem::MissingFilename => m@ == "missing filename"@,
                SourceProblem::FilenameMismatch => m@ == "source lock filename mismatch"@,
                SourceProblem::InvalidByteCount => m@ == "invalid source byte count"@,
                SourceProblem::MissingDigest => m@ == "missing sha256"@,
                SourceProblem::SourceDiffers => m@ == "source differs from lock"@,
                SourceProblem::NotGeographic => m@ == "source CRS is not geographic"@,
                SourceProblem::FeatureCountMismatch => m@ == "source feature count mismatch"@,
            },
    {
        match self {
            SourceProblem::OutputExists => "output or staging directory already exists",
            SourceProblem::WrongArchiveCount => "source lock must contain 56 archives",
            SourceProblem::UnorderedState => "source lock has missing or unordered state",
            SourceProblem::MissingState => "missing state",
            SourceProblem::MissingFilename => "missing filename",
            SourceProblem::FilenameMismatch => "source lock filename mismatch",
            SourceProblem::InvalidByteCount => "invalid source byte count",
            SourceProblem::MissingDigest => "missing sha256",
            SourceProblem::SourceDiffers => "source differs from lock",
            SourceProblem::NotGeographic => "source CRS is not geographic",
            SourceProblem::FeatureCountMismatch => "source feature count mismatch",
        }
    }
}

/// The number of state and territory archives a vintage is built from.
pub const STATE_COUNT: usize = 56;

/// Preparation never overwrites: neither the output directory nor its
/// staging directory may exist yet.
pub fn check_fresh_output(output_exists: bool, staging_exists: bool) -> (r: Result<(), SourceProblem>)
    ensures
        r is Ok <==> !output_exists && !staging_exists,
        r is Err ==> r == Err::<(), SourceProblem>(SourceProblem::OutputExists),
{
    if output_exists || staging_exists {
        Err(SourceProblem::OutputExists)
    } else {
        Ok(())
    }
}

/// The source lock lists one archive per state and territory.
pub fn check_archive_count(records: usize) -> (r: Result<(), SourceProblem>)
    ensures
        r is Ok <==> records == STATE_COUNT,
        r is Err ==> r == Err::<(), SourceProblem>(SourceProblem::WrongArchiveCount),
{
    if records != STATE_COUNT {
        Err(SourceProblem::WrongArchiveCount)
    } else {
        Ok(())
    }
}

/// The lock record for `state`, checked in order: its year, its state
/// (present, and the expected one in the lock's order), and its archive
/// name (present, and the name of that state's archive for the year).
pub open spec fn source_record_problem(
    year: u16,
    state: Seq<char>,
    record_year: Option<u64>,
    record_state: Option<Seq<char>>,
    filename: Option<Seq<char>>,
) -> Option<SourceProblem> {
    if record_year != Some(year as u64) {
        Some(SourceProblem::UnorderedState)
    } else if record_state is None {
        Some(SourceProblem::MissingState)
    } else if record_state != Some(state) {
        Some(SourceProblem::UnorderedState)
    } else if filename is None {
        Some(SourceProblem::MissingFilename)
    } else if filename != Some(
        "tl_"@ + decimal(year as nat) + "_"@ + state + "_tract"@ + (if year == 2010 {
            "10"@
        } else {
            ""@
        }) + ".zip"@,
    ) {
        Some(SourceProblem::FilenameMismatch)
    } else {
        None
    }
}

/// An optional string slice by its characters.
pub open spec fn opt_chars(o: Option<&str>) -> Option<Seq<char>> {
    match o {
        Some(s) => Some(s@),
        None => None,
    }
}

/// Checks one source-lock record against the state expected at its place.
pub fn check_source_record(
    year: u16,
    state: &str,
    record_year: Option<u64>,
    record_state: Option<&str>,
    filename: Option<&str>,
) -> (r: Result<(), SourceProblem>)
    ensures
        match source_record_problem(year, state@, record_year, opt_chars(record_state), opt_chars(filename)) {
            Some(p) => r == Err::<(), SourceProblem>(p),
            None => r is Ok,
        },
{
    if record_year != Some(year as u64) {
        return Err(SourceProblem::UnorderedState);
    }
    let rs = match record_state {
        None => return Err(SourceProblem::MissingState),
        Some(s) => s,
    };
    if !crate::text::str_eq(rs, state) {
        return Err(SourceProblem::UnorderedState);
    }
    let f = match filename {
        None => return Err(SourceProblem::MissingFilename),
        Some(f) => f,
    };
    let expected = source_archive_name(year, state);
    if !crate::text::str_eq(f, expected.as_str()) {
        return Err(SourceProblem::FilenameMismatch);
    }
    Ok(())
}

/// The archive's size against the lock: an error when the lock has no
/// byte count, and whether the sizes agree.
pub fn source_size_matches(locked: Option<u64>, actual: u64) -> (r: Result<bool, SourceProblem>)
    ensures
        match locked {
            None => r == Err::<bool, SourceProblem>(SourceProblem::InvalidByteCount),
            Some(n) => r == Ok::<bool, SourceProblem>(n == actual),
        },
{
    match locked {
        None => Err(SourceProblem::InvalidByteCount),
        Some(n) => Ok(n == actual),
    }
}

/// The archive's digest against the lock: an error when the lock has no
/// digest, and whether the digests agree.
pub fn source_digest_matches(locked: Option<&str>, actual: &str) -> (r: Result<bool, SourceProblem>)
    ensures
        match locked {
            None => r == Err::<bool, SourceProblem>(SourceProblem::MissingDigest),
            Some(d) => r == Ok::<bool, SourceProblem>(d@ == actual@),
        },
{
    match locked {
        None => Err(SourceProblem::MissingDigest),
        Some(d) => Ok(crate::text::str_eq(d, actual)),
    }
}

/// A geographic coordinate reference system: WKT that starts `GEOGCRS[`.
pub open spec fn is_geographic(crs: Seq<char>) -> bool {
    crs.len() >= 8 && crs.take(8) == "GEOGCRS["@
}

/// Whether the source's coordinate reference system is geographic.
pub fn check_geographic(crs: &str) -> (r: Result<(), SourceProblem>)
    ensures
        r is Ok <==> is_geographic(crs@),
        r is Err ==> r == Err::<(), SourceProblem>(SourceProblem::NotGeographic),
{
    let prefix = "GEOGCRS[";
    proof {
        reveal_strlit("GEOGCRS[");
    }
    if crs.unicode_len() < 8 {
        return Err(SourceProblem::NotGeographic);
    }
    let head = crs.substring_char(0, 8);
    if crate::text::str_eq(head, prefix) {
        Ok(())
    } else {
        Err(SourceProblem::NotGeographic)
    }
}

/// Every tract of the source was read, and there was at least one.
pub fn check_feature_count(reported: Option<u64>, tracts: usize) -> (r: Result<(), SourceProblem>)
    ensures
        r is Ok <==> reported == Some(tracts as u64) && tracts != 0,
        r is Err ==> r == Err::<(), SourceProblem>(SourceProblem::FeatureCountMismatch),
{
    if reported != Some(tracts as u64) || tracts == 0 {
        Err(SourceProblem::FeatureCountMismatch)
    } else {
        Ok(())
    }
}

} // verus!
