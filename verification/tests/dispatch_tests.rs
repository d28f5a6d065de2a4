use onionbell::decide_bell;
use onionbell::Config;
use onionbell::HyprClient;
use onionbell::HyprWorkspace;
use onionbell::Rule;
use onionbell::TextPattern;
use onionbell::Volume;
use onionbell::WorkspaceRule;

fn window(address: &str, ws_id: i32, class: &str) -> HyprClient {
    HyprClient {
        address: address.to_string(),
        mapped: true,
        hidden: false,
        at: [0, 0],
        size: [800, 600],
        workspace: HyprWorkspace { id: ws_id, name: ws_id.to_string() },
        floating: false,
        pseudo: false,
        monitor: 0,
        class: class.to_string(),
        title: class.to_string(),
        initial_class: class.to_string(),
        initial_title: class.to_string(),
        pid: 1,
        xwayland: false,
        pinned: false,
        fullscreen: 0,
        fullscreen_client: 0,
        grouped: Vec::new(),
        swallowing: "0x0".to_string(),
        focus_history_id: 0,
        inhibiting_idle: false,
        xdg_tag: String::new(),
        xdg_description: String::new(),
        content_type: "none".to_string(),
    }
}

fn config_with_rules(rules: Vec<Rule>) -> Config {
    Config {
        sound: Some("/sounds/global.mp3".to_string()),
        volume: Volume::from_millionths(700_000).unwrap(),
        rules,
    }
}

#[test]
fn query_failure_degrades_to_global_default() {
    let config = config_with_rules(vec![Rule {
        sound: Some("/sounds/rule.mp3".to_string()),
        ..Default::default()
    }]);
    // No window list: the rules are not consulted at all.
    let outcome = decide_bell(None, "1a2b3c", &config);
    assert_eq!(outcome.sound.as_deref(), Some("/sounds/global.mp3"));
    assert_eq!(outcome.volume.millionths(), 700_000);
}

#[test]
fn matched_rule_supplies_sound_and_volume() {
    let clients = vec![window("0x1a2b3c", 3, "firefox")];
    let config = config_with_rules(vec![Rule {
        sound: Some("/sounds/rule.mp3".to_string()),
        volume: Volume::from_millionths(250_000).unwrap(),
        workspace: Some(WorkspaceRule::Id(3)),
        class_regex: Some(TextPattern::new("fire.*".to_string()).unwrap()),
        ..Default::default()
    }]);
    let outcome = decide_bell(Some(&clients), "1a2b3c", &config);
    assert_eq!(outcome.sound.as_deref(), Some("/sounds/rule.mp3"));
    assert_eq!(outcome.volume.millionths(), 250_000);
}

#[test]
fn matched_rule_without_sound_is_explicit_silence() {
    let clients = vec![window("0x1a2b3c", 3, "firefox")];
    let config = config_with_rules(vec![Rule {
        workspace: Some(WorkspaceRule::Id(3)),
        ..Default::default()
    }]);
    // The rule matches and carries no sound: nothing plays, even though the
    // global sound is set.
    let outcome = decide_bell(Some(&clients), "1a2b3c", &config);
    assert_eq!(outcome.sound, None);
}

#[test]
fn no_matching_rule_falls_back_to_global() {
    let clients = vec![window("0x1a2b3c", 3, "firefox")];
    let config = config_with_rules(vec![Rule {
        sound: Some("/sounds/rule.mp3".to_string()),
        workspace: Some(WorkspaceRule::Id(7)),
        ..Default::default()
    }]);
    let outcome = decide_bell(Some(&clients), "1a2b3c", &config);
    assert_eq!(outcome.sound.as_deref(), Some("/sounds/global.mp3"));
    assert_eq!(outcome.volume.millionths(), 700_000);
}

#[test]
fn bell_event_end_to_end() {
    // One full turn of the event loop: decode the line from raw bytes,
    // classify it, then resolve the outcome against the window list.
    let mut decoder = onionbell::LineFrameDecoder::new();
    let mut line = None;
    for byte in b"bell>>1a2b3c\n" {
        line = decoder.push_char(&vec![*byte]);
    }
    let line = line.expect("the terminator ends the line");
    let target = match onionbell::classify_event(&line) {
        onionbell::EventAction::HandleBell { target } => target,
        other => panic!("expected a bell, got {:?}", other),
    };
    let clients = vec![window("0x1a2b3c", 3, "firefox")];
    let config = config_with_rules(vec![Rule {
        sound: Some("/sounds/rule.mp3".to_string()),
        workspace: Some(WorkspaceRule::Id(3)),
        ..Default::default()
    }]);
    let outcome = decide_bell(Some(&clients), &target, &config);
    assert_eq!(outcome.sound.as_deref(), Some("/sounds/rule.mp3"));
}

#[test]
fn empty_configuration_is_silent() {
    let config = Config::default();
    let outcome = decide_bell(None, "1a2b3c", &config);
    assert_eq!(outcome.sound, None);
    let outcome = decide_bell(Some(&Vec::new()), "1a2b3c", &config);
    assert_eq!(outcome.sound, None);
}

#[test]
fn earlier_matching_rule_decides_outcome() {
    let clients = vec![window("0x1a2b3c", 3, "firefox")];
    let config = config_with_rules(vec![
        Rule {
            sound: Some("/sounds/first.mp3".to_string()),
            workspace: Some(WorkspaceRule::Id(3)),
            ..Default::default()
        },
        Rule {
            sound: Some("/sounds/second.mp3".to_string()),
            ..Default::default()
        },
    ]);
    let outcome = decide_bell(Some(&clients), "1a2b3c", &config);
    assert_eq!(outcome.sound.as_deref(), Some("/sounds/first.mp3"));
}
