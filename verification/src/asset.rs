//! The pinned release assets of a vintage: sizes and SHA-256 digests of
//! the compressed download and of the expanded dataset.

use vstd::prelude::*;
use vstd::string::*;

verus! {

/// What the embedded manifest pins for one vintage.
#[derive(Debug, Clone)]
pub struct Asset {
    pub raw_bytes: u64,
    pub raw_sha256: String,
    pub archive_bytes: u64,
    pub archive_sha256: String,
}

/// Why a manifest entry cannot be used.
#[derive(Debug, Clone, Copy, PartialEq, Eq)]
pub enum AssetError {
    InvalidManifest,
    InvalidChecksum,
}

impl AssetError {
    /// The message reported for this error.
    pub fn message(&self) -> (m: &'static str)
        ensures
            match self {
                AssetError::InvalidManifest => m@ == "invalid asset manifest"@,
                AssetError::InvalidChecksum => m@ == "invalid asset manifest checksum"@,
            },
    {
        match self {
            AssetError::InvalidManifest => "invalid asset manifest",
            AssetError::InvalidChecksum => "invalid asset manifest checksum",
        }
    }
}

/// An ASCII hexadecimal digit, in either case.
pub open spec fn is_hex_digit(c: char) -> bool {
    ('0' <= c && c <= '9') || ('a' <= c && c <= 'f') || ('A' <= c && c <= 'F')
}

/// A SHA-256 digest written as 64 hexadecimal digits.
pub open spec fn is_sha256_hex(s: Seq<char>) -> bool {
    s.len() == 64 && forall|i: int| 0 <= i < 64 ==> #[trigger] is_hex_digit(s[i])
}

/// Whether `s` is 64 hexadecimal digits.
pub fn sha256_hex_ok(s: &str) -> (ok: bool)
    ensures
        ok == is_sha256_hex(s@),
{
    let n = s.unicode_len();
    if n != 64 {
        return false;
    }
    let mut i: usize = 0;
    while i < 64
        invariant
            i <= 64,
            s@.len() == 64,
            forall|j: int| 0 <= j < i ==> #[trigger] is_hex_digit(s@[j]),
        decreases 64 - i,
    {
        let c = s.get_char(i);
        if !(('0' <= c && c <= '9') || ('a' <= c && c <= 'f') || ('A' <= c && c <= 'F')) {
            assert(!is_hex_digit(s@[i as int]));
            return false;
        }
        i = i + 1;
    }
    true
}

/// A manifest entry is usable when both sizes are present and positive,
/// both digests are present, and both digests are 64 hexadecimal digits.
pub open spec fn entry_problem(
    raw_bytes: Option<u64>,
    raw_sha256: Option<Seq<char>>,
    archive_bytes: Option<u64>,
    archive_sha256: Option<Seq<char>>,
) -> Option<AssetError> {
    if raw_bytes is None || raw_bytes == Some(0u64) || raw_sha256 is None || archive_bytes is None
        || archive_bytes == Some(0u64) || archive_sha256 is None {
        Some(AssetError::InvalidManifest)
    } else if !is_sha256_hex(raw_sha256.unwrap()) || !is_sha256_hex(archive_sha256.unwrap()) {
        Some(AssetError::InvalidChecksum)
    } else {
        None
    }
}

/// An optional string by its characters.
pub open spec fn opt_str(o: Option<String>) -> Option<Seq<char>> {
    match o {
        Some(s) => Some(s@),
        None => None,
    }
}

/// `r` is what the manifest entry with these fields pins: the first problem
/// of the entry, or an asset holding exactly these fields.
pub open spec fn pins(
    r: Result<Asset, AssetError>,
    raw_bytes: Option<u64>,
    raw_sha256: Option<Seq<char>>,
    archive_bytes: Option<u64>,
    archive_sha256: Option<Seq<char>>,
) -> bool {
    match entry_problem(raw_bytes, raw_sha256, archive_bytes, archive_sha256) {
        Some(e) => r == Err::<Asset, AssetError>(e),
        None => r matches Ok(a) && raw_bytes == Some(a.raw_bytes) && raw_sha256 == Some(a.raw_sha256@)
            && archive_bytes == Some(a.archive_bytes) && archive_sha256 == Some(a.archive_sha256@),
    }
}

/// Whatever satisfies `pins` for a usable entry is an asset whose raw
/// digest is the entry's `raw_sha256` field and whose archive digest is the
/// entry's `archive_sha256` field, with the sizes taken the same way: the
/// two digests are never exchanged.
pub proof fn lemma_pins_keeps_fields(
    r: Result<Asset, AssetError>,
    raw_bytes: Option<u64>,
    raw_sha256: Option<Seq<char>>,
    archive_bytes: Option<u64>,
    archive_sha256: Option<Seq<char>>,
)
    requires
        pins(r, raw_bytes, raw_sha256, archive_bytes, archive_sha256),
        entry_problem(raw_bytes, raw_sha256, archive_bytes, archive_sha256) is None,
    ensures
        r is Ok,
        r->Ok_0.raw_sha256@ == raw_sha256.unwrap(),
        r->Ok_0.archive_sha256@ == archive_sha256.unwrap(),
        r->Ok_0.raw_bytes == raw_bytes.unwrap(),
        r->Ok_0.archive_bytes == archive_bytes.unwrap(),
{
}

/// Builds the pinned asset of a vintage from the fields of its manifest
/// entry (`None` where a field is missing or of the wrong kind).
pub fn pinned_asset(
    raw_bytes: Option<u64>,
    raw_sha256: Option<String>,
    archive_bytes: Option<u64>,
    archive_sha256: Option<String>,
) -> (r: Result<Asset, AssetError>)
    ensures
        pins(r, raw_bytes, opt_str(raw_sha256), archive_bytes, opt_str(archive_sha256)),
        r is Ok <==> entry_problem(raw_bytes, opt_str(raw_sha256), archive_bytes, opt_str(archive_sha256)) is None,
        r matches Ok(a) ==> raw_sha256 matches Some(h) && a.raw_sha256@ == h@,
        r matches Ok(a) ==> archive_sha256 matches Some(h) && a.archive_sha256@ == h@,
        r matches Ok(a) ==> raw_bytes == Some(a.raw_bytes) && archive_bytes == Some(a.archive_bytes),
{
    let raw_bytes = match raw_bytes {
        Some(n) if n > 0 => n,
        _ => return Err(AssetError::InvalidManifest),
    };
    let raw_sha256 = match raw_sha256 {
        Some(s) => s,
        None => return Err(AssetError::InvalidManifest),
    };
    let archive_bytes = match archive_bytes {
        Some(n) if n > 0 => n,
        _ => return Err(AssetError::InvalidManifest),
    };
    let archive_sha256 = match archive_sha256 {
        Some(s) => s,
        None => return Err(AssetError::InvalidManifest),
    };
    if !sha256_hex_ok(raw_sha256.as_str()) || !sha256_hex_ok(archive_sha256.as_str()) {
        return Err(AssetError::InvalidChecksum);
    }
    Ok(Asset { raw_bytes, raw_sha256, archive_bytes, archive_sha256 })
}

/// The fields of one vintage's manifest entry: the two sizes (when they
/// are unsigned integers) and the two digests (when they are strings).
pub type EntryFields = (Option<u64>, Option<String>, Option<u64>, Option<String>);

/// What parsing the manifest text as JSON and taking the entry named by
/// the vintage's decimal year gives: the parse error's message, no entry,
/// or the entry's four fields (`raw_bytes`, `raw_sha256`, `archive_bytes`,
/// `archive_sha256`).
pub uninterp spec fn manifest_entry(manifest: Seq<char>, vintage: u16) -> Result<
    Option<(Option<u64>, Option<Seq<char>>, Option<u64>, Option<Seq<char>>)>,
    Seq<char>,
>;

/// The entry fields by their views.
pub open spec fn fields_view(f: EntryFields) -> (Option<u64>, Option<Seq<char>>, Option<u64>, Option<Seq<char>>) {
    (f.0, opt_str(f.1), f.2, opt_str(f.3))
}

/// Calls `serde_json::from_str::<serde_json::Value>` on the manifest, then
/// `Value::get` with the year in decimal, and `Value::get` with `as_u64` or
/// `as_str` for each field. The result depends on the text and the year
/// alone; the contract names it and says nothing of JSON itself.
#[verifier::external_body]
fn manifest_fields(manifest: &str, vintage: u16) -> (f: Result<Option<EntryFields>, String>)
    ensures
        match manifest_entry(manifest@, vintage) {
            Err(m) => f matches Err(e) && e@ == m,
            Ok(None) => f matches Ok(None),
            Ok(Some(t)) => f matches Ok(Some(g)) && fields_view(g) == t,
        },
{
    let value: serde_json::Value = match serde_json::from_str(manifest) {
        Ok(v) => v,
        Err(e) => return Err(e.to_string()),
    };
    let item = match value.get(vintage.to_string()) {
        Some(item) => item,
        None => return Ok(None),
    };
    let raw_bytes = item.get("raw_bytes").and_then(serde_json::Value::as_u64);
    let raw_sha256 = item.get("raw_sha256").and_then(serde_json::Value::as_str).map(str::to_owned);
    let archive_bytes = item.get("archive_bytes").and_then(serde_json::Value::as_u64);
    let archive_sha256 = item.get("archive_sha256").and_then(serde_json::Value::as_str).map(str::to_owned);
    Ok(Some((raw_bytes, raw_sha256, archive_bytes, archive_sha256)))
}

/// Why the manifest gives no usable asset for a vintage.
#[derive(Debug, Clone, PartialEq, Eq)]
pub enum ManifestError {
    /// The text is not JSON; the parser's message.
    NotJson(String),
    /// The manifest pins nothing for the vintage.
    MissingVintage,
    /// The vintage's entry is incomplete or malformed.
    Entry(AssetError),
}

/// The outcome was decided by the vintage's entry: an asset or an entry error.
pub open spec fn from_entry(r: Result<Asset, ManifestError>) -> bool {
    r is Ok || r matches Err(ManifestError::Entry(_))
}

/// The outcome of the vintage's entry, as `pinned_asset` gives it.
pub open spec fn entry_result(r: Result<Asset, ManifestError>) -> Result<Asset, AssetError> {
    match r {
        Ok(a) => Ok(a),
        Err(ManifestError::Entry(e)) => Err(e),
        Err(_) => Err(AssetError::InvalidManifest),
    }
}

/// The asset that the manifest text pins for `vintage`.
pub fn manifest_asset(manifest: &str, vintage: u16) -> (r: Result<Asset, ManifestError>)
    ensures
        match manifest_entry(manifest@, vintage) {
            Err(m) => r matches Err(ManifestError::NotJson(e)) && e@ == m,
            Ok(None) => r matches Err(ManifestError::MissingVintage),
            Ok(Some(t)) => from_entry(r) && pins(entry_result(r), t.0, t.1, t.2, t.3),
        },
        r matches Ok(a) ==> manifest_entry(manifest@, vintage) matches Ok(Some(t))
            && t.1 == Some(a.raw_sha256@) && t.3 == Some(a.archive_sha256@)
            && t.0 == Some(a.raw_bytes) && t.2 == Some(a.archive_bytes),
{
    match manifest_fields(manifest, vintage) {
        Err(e) => Err(ManifestError::NotJson(e)),
        Ok(None) => Err(ManifestError::MissingVintage),
        Ok(Some((raw_bytes, raw_sha256, archive_bytes, archive_sha256))) => {
            match pinned_asset(raw_bytes, raw_sha256, archive_bytes, archive_sha256) {
                Ok(a) => Ok(a),
                Err(e) => Err(ManifestError::Entry(e)),
            }
        },
    }
}

} // verus!
