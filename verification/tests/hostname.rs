use trimrouter::hostname::sanitize_hostname;

#[test]
fn test_sanitize_hostname_valid_and_edge_cases() {
    assert_eq!(sanitize_hostname("printer"), Some("printer".to_string()));
    assert_eq!(
        sanitize_hostname("PRINTER-01"),
        Some("printer-01".to_string())
    );
    assert_eq!(
        sanitize_hostname("printer.local"),
        Some("printer".to_string())
    );
    assert_eq!(
        sanitize_hostname("server01.lab.internal"),
        Some("server01".to_string())
    );
    assert_eq!(sanitize_hostname("laptop.lan"), Some("laptop".to_string()));
    assert_eq!(
        sanitize_hostname("my-box.home.arpa"),
        Some("my-box".to_string())
    );

    // Names that no host can have.
    assert_eq!(sanitize_hostname(""), None);
    assert_eq!(sanitize_hostname("-invalid"), None);
    assert_eq!(sanitize_hostname("invalid-"), None);
    assert_eq!(sanitize_hostname("invalid_underscore"), None);
    assert_eq!(sanitize_hostname("a".repeat(64).as_str()), None);
}

#[test]
fn longest_label_and_foreign_letters() {
    let longest = "a".repeat(63);
    assert_eq!(sanitize_hostname(longest.as_str()), Some(longest.clone()));
    assert_eq!(sanitize_hostname("caf\u{e9}"), None);
}

#[test]
fn sanitizing_twice_changes_nothing_more() {
    let once = sanitize_hostname("Office-Printer.LAN").unwrap();
    assert_eq!(once, "office-printer");
    assert_eq!(sanitize_hostname(once.as_str()), Some(once.clone()));
}

#[test]
fn white_space_around_a_name_is_dropped() {
    assert_eq!(sanitize_hostname(" printer\t.lan"), Some("printer".to_string()));
    assert_eq!(
        sanitize_hostname("\u{3000}box\u{a0}"),
        Some("box".to_string())
    );
    assert_eq!(sanitize_hostname("two words"), None);
    assert_eq!(sanitize_hostname("  "), None);
}
