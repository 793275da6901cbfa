use nix_template::version::{compare_versions, sort_versions_desc, version_token, VersionOrdering};

#[test]
fn test_version_regex() {
    let t = version_token("v0.1.0");
    assert!(t.is_some());
    let (prefix, version) = t.unwrap();
    assert_eq!(prefix, "v");
    assert_eq!(version, "0.1.0");

    let t = version_token("azure-cli-21.1.3");
    assert!(t.is_some());
    let (prefix, version) = t.unwrap();
    assert_eq!(prefix, "azure-cli-");
    assert_eq!(version, "21.1.3");

    let t = version_token("zfs-2.1.0-rc7");
    assert!(t.is_some());
    let (prefix, version) = t.unwrap();
    assert_eq!(prefix, "zfs-");
    assert_eq!(version, "2.1.0-rc7");
}

#[test]
fn test_simple_version_regex() {
    let t = version_token("2.1.1");
    assert!(t.is_some());
    let (prefix, version) = t.unwrap();
    assert_eq!(prefix, "");
    assert_eq!(version, "2.1.1");
}

#[test]
fn version_token_empty_tag() {
    assert!(version_token("").is_none());
}

#[test]
fn version_token_no_digit() {
    // with no digit the split still leaves a one-character suffix
    let (prefix, version) = version_token("abc").unwrap();
    assert_eq!(prefix, "ab");
    assert_eq!(version, "c");
}

#[test]
fn sort_orders_numerically_not_lexicographically() {
    let v = vec!["1.9.0".to_string(), "1.10.0".to_string(), "1.2.0".to_string()];
    let sorted = sort_versions_desc(v);
    assert_eq!(sorted, vec!["1.10.0".to_string(), "1.9.0".to_string(), "1.2.0".to_string()]);
}

#[test]
fn sort_two_digit_segments() {
    let v = vec!["1.2".to_string(), "1.10".to_string()];
    let sorted = sort_versions_desc(v);
    assert_eq!(sorted, vec!["1.10".to_string(), "1.2".to_string()]);
}

#[test]
fn sort_empty_and_single() {
    let empty: Vec<String> = Vec::new();
    assert_eq!(sort_versions_desc(empty), Vec::<String>::new());
    let one = vec!["3.1".to_string()];
    assert_eq!(sort_versions_desc(one), vec!["3.1".to_string()]);
}

#[test]
fn compare_versions_agrees_with_crate() {
    assert_eq!(
        compare_versions(&"1.2.3".to_string(), &"1.2.4".to_string()),
        Some(VersionOrdering::Older)
    );
    assert_eq!(
        compare_versions(&"1".to_string(), &"0.1".to_string()),
        Some(VersionOrdering::Newer)
    );
    assert_eq!(
        compare_versions(&"1.2".to_string(), &"1.2.0".to_string()),
        Some(VersionOrdering::Same)
    );
}
