use s2_tracts::asset::{pinned_asset, sha256_hex_ok, AssetError};

fn hex() -> String {
    "0123456789abcdefABCDEF0123456789abcdefABCDEF0123456789abcdef0123".to_string()
}

#[test]
fn complete_entries_are_pinned() {
    let a = pinned_asset(Some(10), Some(hex()), Some(5), Some(hex())).unwrap();
    assert_eq!(a.raw_bytes, 10);
    assert_eq!(a.archive_bytes, 5);
    assert_eq!(a.raw_sha256, hex());
}

#[test]
fn incomplete_or_bad_entries() {
    assert_eq!(
        pinned_asset(Some(0), Some(hex()), Some(5), Some(hex())).unwrap_err(),
        AssetError::InvalidManifest
    );
    assert_eq!(
        pinned_asset(Some(1), None, Some(5), Some(hex())).unwrap_err(),
        AssetError::InvalidManifest
    );
    assert_eq!(
        pinned_asset(Some(1), Some("xyz".into()), None, Some(hex())).unwrap_err(),
        AssetError::InvalidManifest
    );
    assert_eq!(
        pinned_asset(Some(1), Some("xyz".into()), Some(2), Some(hex())).unwrap_err(),
        AssetError::InvalidChecksum
    );
    let mut long = hex();
    long.push('0');
    assert!(!sha256_hex_ok(&long));
    assert!(!sha256_hex_ok(&hex().replace('0', "g")));
    assert!(sha256_hex_ok(&hex()));
    assert_eq!(AssetError::InvalidChecksum.message(), "invalid asset manifest checksum");
}

use s2_tracts::asset::{manifest_asset, ManifestError};

fn manifest(entry: &str) -> String {
    format!("{{\"2020\": {entry}, \"2019\": {{\"raw_bytes\": 1}}}}")
}

#[test]
fn manifest_text_pins_the_vintage_entry() {
    let text = manifest(&format!(
        "{{\"raw_bytes\": 100, \"raw_sha256\": \"{h}\", \"archive_bytes\": 40, \"archive_sha256\": \"{h}\"}}",
        h = hex()
    ));
    let a = manifest_asset(&text, 2020).unwrap();
    assert_eq!((a.raw_bytes, a.archive_bytes), (100, 40));
    assert_eq!(a.archive_sha256, hex());
    assert_eq!(
        manifest_asset(&text, 2019).unwrap_err(),
        ManifestError::Entry(AssetError::InvalidManifest)
    );
    assert_eq!(manifest_asset(&text, 2011).unwrap_err(), ManifestError::MissingVintage);
    assert!(matches!(manifest_asset("not json", 2020), Err(ManifestError::NotJson(_))));
    let bad_digest = manifest(&format!(
        "{{\"raw_bytes\": 100, \"raw_sha256\": \"{h}\", \"archive_bytes\": 40, \"archive_sha256\": \"x\"}}",
        h = hex()
    ));
    assert_eq!(
        manifest_asset(&bad_digest, 2020).unwrap_err(),
        ManifestError::Entry(AssetError::InvalidChecksum)
    );
    let negative = manifest(&format!(
        "{{\"raw_bytes\": -1, \"raw_sha256\": \"{h}\", \"archive_bytes\": 40, \"archive_sha256\": \"{h}\"}}",
        h = hex()
    ));
    assert_eq!(
        manifest_asset(&negative, 2020).unwrap_err(),
        ManifestError::Entry(AssetError::InvalidManifest)
    );
}
