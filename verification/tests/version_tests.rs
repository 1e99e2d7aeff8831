use codex_quota::version::{is_newer_version, normalize_version, version_from_asset, version_parts};

#[test]
fn normalize_strips_prefixes_and_requires_three_parts() {
    assert_eq!(normalize_version("v2.6.9"), Some("2.6.9".to_string()));
    assert_eq!(normalize_version("  V2.6.9 \n"), Some("2.6.9".to_string()));
    assert_eq!(normalize_version("vvV1.2.3"), Some("1.2.3".to_string()));
    assert_eq!(normalize_version("Vv1.2.3"), Some("v1.2.3".to_string()));
    assert_eq!(normalize_version("v2.6"), None);
    assert_eq!(normalize_version(""), None);
    assert_eq!(normalize_version("release-1.2.3.4"), Some("release-1.2.3.4".to_string()));
}

#[test]
fn version_from_asset_takes_the_first_dotted_word() {
    assert_eq!(
        version_from_asset("Codex Quota Monitor 2.6.9 Portable.exe"),
        Some("2.6.9".to_string())
    );
    assert_eq!(
        version_from_asset("Codex.Quota.Monitor.2.6.9.Portable.exe"),
        Some("Codex.Quota.Monitor.2.6.9.Portable.exe".to_string())
    );
    assert_eq!(version_from_asset("Monitor v3.0.1 Setup.exe"), Some("3.0.1".to_string()));
    assert_eq!(version_from_asset("Monitor Setup.exe"), None);
    assert_eq!(version_from_asset(""), None);
}

#[test]
fn version_parts_reads_leading_digits() {
    assert_eq!(version_parts("2.6.9"), [2, 6, 9]);
    assert_eq!(version_parts(" v2.6.9 "), [2, 6, 9]);
    assert_eq!(version_parts("2.6"), [2, 6, 0]);
    assert_eq!(version_parts("2.6.9-beta.4"), [2, 6, 9]);
    assert_eq!(version_parts("2.x.10rc"), [2, 0, 10]);
    assert_eq!(version_parts("V2.6.9"), [0, 6, 9]);
    assert_eq!(version_parts("99999999999.1.1"), [0, 1, 1]);
    assert_eq!(version_parts("4294967295.0.1"), [4294967295, 0, 1]);
    assert_eq!(version_parts(""), [0, 0, 0]);
    assert_eq!(version_parts("1..3"), [1, 0, 3]);
}

#[test]
fn newer_version_compares_parts_in_order() {
    assert!(is_newer_version("2.6.10", "2.6.9"));
    assert!(is_newer_version("3.0.0", "2.9.9"));
    assert!(!is_newer_version("2.6.9", "2.6.9"));
    assert!(!is_newer_version("2.6.8", "2.6.9"));
    assert!(!is_newer_version("v2.6.9", "2.6.9"));
    assert!(is_newer_version("2.7", "2.6.9"));
}

#[test]
fn newer_is_a_strict_order_on_examples() {
    let vs = ["1.0.0", "1.0.1", "1.2.0", "2.0.0", "2.0", "0.9.9"];
    for a in vs {
        assert!(!is_newer_version(a, a));
        for b in vs {
            if is_newer_version(a, b) {
                assert!(!is_newer_version(b, a));
                for c in vs {
                    if is_newer_version(b, c) {
                        assert!(is_newer_version(a, c));
                    }
                }
            }
        }
    }
}
