use onionbell::classify_event;
use onionbell::split_event;
use onionbell::EventAction;

#[test]
fn bell_line_parses_to_kind_and_payload() {
    let parsed = split_event("bell>>1a2b3c");
    assert_eq!(parsed, Some(("bell".to_string(), "1a2b3c".to_string())));
}

#[test]
fn line_without_delimiter_is_skipped() {
    assert_eq!(split_event("noise"), None);
    assert!(matches!(classify_event("noise"), EventAction::Skip));
}

#[test]
fn split_at_first_delimiter_only() {
    let parsed = split_event("a>>b>>c");
    assert_eq!(parsed, Some(("a".to_string(), "b>>c".to_string())));
}

#[test]
fn empty_kind_and_payload() {
    assert_eq!(split_event(">>"), Some((String::new(), String::new())));
    assert_eq!(split_event(""), None);
    assert_eq!(split_event(">"), None);
}

#[test]
fn classify_bell_and_other_kinds() {
    match classify_event("bell>>1a2b3c") {
        EventAction::HandleBell { target } => assert_eq!(target, "1a2b3c"),
        other => panic!("expected a bell, got {:?}", other),
    }
    match classify_event("workspace>>2") {
        EventAction::Ignore { kind } => assert_eq!(kind, "workspace"),
        other => panic!("expected an ignored event, got {:?}", other),
    }
}
