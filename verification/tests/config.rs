//! Configuration and key bindings.
use fleet_commander::config::{Action, Bindings, Config, ConfigError, RawBindings};
use fleet_commander::keybind::{Binding, KeyCode, KeyEvent, KeyModifiers};

#[test]
fn empty_config_uses_defaults() {
    let cfg = Config::from_str("").unwrap();
    assert!(cfg.bindings.quit.iter().any(|b| b.code == KeyCode::Char('q')));
}

#[test]
fn partial_config_fills_unspecified_fields_from_defaults() {
    let cfg = Config::from_str(
        r#"
            [bindings]
            quit = ["Q"]
        "#,
    )
    .unwrap();
    // Override applied.
    assert_eq!(cfg.bindings.quit.len(), 1);
    assert_eq!(cfg.bindings.quit[0].code, KeyCode::Char('Q'));
    // Untouched fields still have their defaults.
    assert!(cfg.bindings.down.iter().any(|b| b.code == KeyCode::Char('j')));
    assert!(cfg.bindings.activate.iter().any(|b| b.code == KeyCode::Enter));
}

#[test]
fn bad_binding_string_surfaces_error() {
    let err = Config::from_str(
        r#"
            [bindings]
            quit = ["Nope"]
        "#,
    )
    .unwrap_err();
    let msg = format!("{err:?}");
    assert!(msg.contains("Nope") || msg.to_lowercase().contains("unknown key"));
    assert!(matches!(err, ConfigError::Key(e) if e.key == "Nope"));
}

#[test]
fn malformed_toml_surfaces_error() {
    assert!(Config::from_str("[bindings\nquit = ").is_err());
    assert!(matches!(Config::from_str("[bindings\nquit = "), Err(ConfigError::Toml(_))));
}

#[test]
fn action_for_returns_matching_action() {
    let bindings = Bindings::default();
    let event = KeyEvent::new(KeyCode::Char('j'), KeyModifiers::none());
    assert_eq!(bindings.action_for(&event), Some(Action::Down));
}

#[test]
fn action_for_returns_none_when_no_binding_matches() {
    let bindings = Bindings::default();
    let event = KeyEvent::new(KeyCode::Char('x'), KeyModifiers::none());
    assert_eq!(bindings.action_for(&event), None);
}

#[test]
fn action_for_respects_modifiers() {
    let bindings = Bindings::default();
    // Plain `q` triggers Quit.
    let plain = KeyEvent::new(KeyCode::Char('q'), KeyModifiers::none());
    assert_eq!(bindings.action_for(&plain), Some(Action::Quit));

    // Ctrl-c is also bound to Quit; Ctrl-q is *not* (modifier-aware).
    let ctrl_c = KeyEvent::new(KeyCode::Char('c'), KeyModifiers::control());
    assert_eq!(bindings.action_for(&ctrl_c), Some(Action::Quit));
    let ctrl_q = KeyEvent::new(KeyCode::Char('q'), KeyModifiers::control());
    assert_eq!(bindings.action_for(&ctrl_q), None);
}

#[test]
fn unknown_fields_are_ignored() {
    let cfg = Config::from_str("theme = \"dark\"\n[bindings]\nfly = 3\nup = [\"C-p\", \"Up\"]\n").unwrap();
    assert_eq!(
        cfg.bindings.up,
        vec![
            Binding::new(KeyCode::Char('p'), KeyModifiers::control()),
            Binding::new(KeyCode::Up, KeyModifiers::none()),
        ]
    );
}

#[test]
fn an_action_can_be_left_without_a_key() {
    let cfg = Config::from_str("[bindings]\ndismiss_pane = []\n").unwrap();
    assert!(cfg.bindings.dismiss_pane.is_empty());
    let event = KeyEvent::new(KeyCode::Char('d'), KeyModifiers::none());
    assert_eq!(cfg.bindings.action_for(&event), None);
}

#[test]
fn bindings_must_be_a_table_of_lists_of_strings() {
    assert!(matches!(Config::from_str("bindings = 3"), Err(ConfigError::NotATable)));
    assert!(matches!(
        Config::from_str("[bindings]\nup = \"k\"\n"),
        Err(ConfigError::Field(Action::Up))
    ));
    assert!(matches!(
        Config::from_str("[bindings]\nfollow_bottom = [\"G\", 3]\n"),
        Err(ConfigError::Field(Action::FollowBottom))
    ));
}

#[test]
fn every_action_has_a_field() {
    let text = "[bindings]\nquit = [\"F\"]\nup = [\"a\"]\ndown = [\"b\"]\nleft = [\"c\"]\nright = [\"d\"]\n\
        activate = [\"e\"]\nback = [\"f\"]\ntoggle_pane = [\"g\"]\ndismiss_pane = [\"h\"]\n\
        insert = [\"i\"]\ncommand = [\"j\"]\ntoggle_explorer = [\"k\"]\nfollow_bottom = [\"l\"]\n";
    let bindings = Config::from_str(text).unwrap().bindings;
    let expected = [
        ('a', Action::Up),
        ('b', Action::Down),
        ('c', Action::Left),
        ('d', Action::Right),
        ('e', Action::Activate),
        ('f', Action::Back),
        ('g', Action::TogglePane),
        ('h', Action::DismissPane),
        ('i', Action::Insert),
        ('j', Action::Command),
        ('k', Action::ToggleExplorer),
        ('l', Action::FollowBottom),
    ];
    for (c, action) in expected {
        let event = KeyEvent::new(KeyCode::Char(c), KeyModifiers::none());
        assert_eq!(bindings.action_for(&event), Some(action));
    }
    let event = KeyEvent::new(KeyCode::Char('F'), KeyModifiers::shift());
    assert_eq!(bindings.action_for(&event), Some(Action::Quit));
}

#[test]
fn default_bindings_follow_the_documented_keys() {
    let bindings = Bindings::default();
    let expected = [
        (KeyCode::Up, Action::Up),
        (KeyCode::Char('k'), Action::Up),
        (KeyCode::Down, Action::Down),
        (KeyCode::Char('h'), Action::Left),
        (KeyCode::Char('l'), Action::Right),
        (KeyCode::Enter, Action::Activate),
        (KeyCode::Esc, Action::Back),
        (KeyCode::Tab, Action::TogglePane),
        (KeyCode::Char('d'), Action::DismissPane),
        (KeyCode::Char('i'), Action::Insert),
        (KeyCode::Char(':'), Action::Command),
    ];
    for (code, action) in expected {
        let event = KeyEvent::new(code, KeyModifiers::none());
        assert_eq!(bindings.action_for(&event), Some(action));
    }
    let ctrl_e = KeyEvent::new(KeyCode::Char('e'), KeyModifiers::control());
    assert_eq!(bindings.action_for(&ctrl_e), Some(Action::ToggleExplorer));
    let shift_g = KeyEvent::new(KeyCode::Char('G'), KeyModifiers::shift());
    assert_eq!(bindings.action_for(&shift_g), Some(Action::FollowBottom));
}

#[test]
fn a_key_bound_twice_goes_to_the_first_action() {
    let cfg = Config::from_str("[bindings]\nup = [\"x\"]\ndown = [\"x\"]\n").unwrap();
    let event = KeyEvent::new(KeyCode::Char('x'), KeyModifiers::none());
    assert_eq!(cfg.bindings.action_for(&event), Some(Action::Up));
}

#[test]
fn strings_replace_the_keys_of_their_action() {
    let raw = RawBindings {
        quit: Some(vec!["C-x".into()]),
        up: None,
        down: None,
        left: None,
        right: None,
        activate: None,
        back: None,
        toggle_pane: None,
        dismiss_pane: None,
        insert: None,
        command: None,
        toggle_explorer: None,
        follow_bottom: None,
    };
    let cfg = Config::default().with_raw(&raw).unwrap();
    assert_eq!(
        cfg.bindings.quit,
        vec![Binding::new(KeyCode::Char('x'), KeyModifiers::control())]
    );
    assert_eq!(cfg.bindings.up, Bindings::default().up);
}

#[test]
fn a_users_own_config_goes_on_top() {
    let base = Config::from_str("[bindings]\nup = [\"u\"]\ndown = [\"v\"]\n").unwrap();
    let merged = base.with_str("[bindings]\ndown = [\"w\"]\n").unwrap();
    assert_eq!(merged.bindings.up, vec![Binding::new(KeyCode::Char('u'), KeyModifiers::none())]);
    assert_eq!(merged.bindings.down, vec![Binding::new(KeyCode::Char('w'), KeyModifiers::none())]);
    assert_eq!(merged.bindings.quit, Bindings::default().quit);
    assert_eq!(base.with_str("").unwrap().bindings.up, base.bindings.up);
    assert!(base.with_str("[bindings]\nup = 3\n").is_err());
}
