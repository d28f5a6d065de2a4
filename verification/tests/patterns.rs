use onionbell::TextPattern;

#[test]
fn unanchored_search_semantics() {
    let p = TextPattern::new("QQ".to_string()).unwrap();
    // A text-search pattern matches anywhere in the haystack, not only the
    // whole string.
    assert!(p.matches("QQ"));
    assert!(p.matches("aQQb"));
    assert!(!p.matches("qq"));
}

#[test]
fn anchored_class_pattern() {
    let p = TextPattern::new("^QQ.*$".to_string()).unwrap();
    assert!(p.matches("QQalskjhslk"));
    assert!(p.matches("QQ"));
    assert!(!p.matches("aQQ"));
    assert!(!p.matches("completely irrelevent thing"));
    assert!(!p.matches("SDEZ 1.60"));
}

#[test]
fn anchored_title_pattern() {
    let p = TextPattern::new("^abc\\..*$".to_string()).unwrap();
    assert!(p.matches("abc."));
    assert!(p.matches("abc.asl"));
    assert!(!p.matches("abc"));
    assert!(!p.matches("aaabc.aslaa"));
}

#[test]
fn malformed_pattern_is_rejected() {
    assert!(TextPattern::new("foo(".to_string()).is_none());
    assert!(TextPattern::new("[a-".to_string()).is_none());
    let p = TextPattern::new("fire.*".to_string()).unwrap();
    assert_eq!(p.source(), "fire.*");
}
