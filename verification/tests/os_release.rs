//! Reading os-release metadata.

use flashrom_tester::scenarios::{os_release_is_chrome, parse_os_release};

#[test]
fn test_parse_os_release() {
    let lines = [
        "BUILD_ID=12516.0.0",
        "# this line is a comment followed by an empty line",
        "",
        "ID_LIKE=chromiumos",
        "ID=chromeos",
        "VERSION=79",
        "EMPTY_VALUE=",
    ];
    let map = parse_os_release(lines.iter().map(|&s| s.to_owned()).collect());

    assert_eq!(map.get("ID"), Some("chromeos".to_string()));
    assert_eq!(map.get("BUILD_ID"), Some("12516.0.0".to_string()));
    assert_eq!(map.get("EMPTY_VALUE"), Some("".to_string()));
    assert_eq!(map.get(""), None);
}

#[test]
fn parse_os_release_later_entries_override() {
    let lines = vec!["ID=first".to_string(), "ID=second".to_string()];
    let map = parse_os_release(lines);
    assert_eq!(map.get("ID"), Some("second".to_string()));
}

#[test]
fn os_release_chrome_classification() {
    let m = parse_os_release(vec!["ID=chromeos".to_string()]);
    assert!(os_release_is_chrome(&m));
    let m = parse_os_release(vec!["ID=chromiumos".to_string()]);
    assert!(os_release_is_chrome(&m));
    let m = parse_os_release(vec!["ID=debian".to_string()]);
    assert!(!os_release_is_chrome(&m));
    let m = parse_os_release(Vec::new());
    assert!(!os_release_is_chrome(&m));
}
