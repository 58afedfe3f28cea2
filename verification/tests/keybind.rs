//! Parsing and matching of bindings.
use fleet_commander::keybind::{Binding, KeyCode, KeyEvent, KeyModifiers};

fn key(code: KeyCode, mods: KeyModifiers) -> KeyEvent {
    KeyEvent::new(code, mods)
}

#[test]
fn parses_plain_char() {
    let b: Binding = Binding::from_str("h").unwrap();
    assert_eq!(b, Binding::new(KeyCode::Char('h'), KeyModifiers::none()));
}

#[test]
fn parses_uppercase_char_as_shifted() {
    let b: Binding = Binding::from_str("H").unwrap();
    assert_eq!(b, Binding::new(KeyCode::Char('H'), KeyModifiers::shift()));
}

#[test]
fn parses_control_modifier() {
    let b: Binding = Binding::from_str("C-q").unwrap();
    assert_eq!(b, Binding::new(KeyCode::Char('q'), KeyModifiers::control()));
}

#[test]
fn parses_special_keys() {
    assert_eq!(
        Binding::from_str("Tab").unwrap(),
        Binding::new(KeyCode::Tab, KeyModifiers::none())
    );
    assert_eq!(
        Binding::from_str("S-Tab").unwrap(),
        Binding::new(KeyCode::Tab, KeyModifiers::shift())
    );
    assert_eq!(
        Binding::from_str("Esc").unwrap(),
        Binding::new(KeyCode::Esc, KeyModifiers::none())
    );
}

#[test]
fn rejects_unknown_key() {
    assert!(Binding::from_str("Frobnicate").is_err());
}

#[test]
fn matches_exact_event() {
    let b: Binding = Binding::from_str("h").unwrap();
    assert!(b.matches(&key(KeyCode::Char('h'), KeyModifiers::none())));
}

#[test]
fn does_not_match_when_modifier_differs() {
    let b: Binding = Binding::from_str("h").unwrap();
    assert!(!b.matches(&key(KeyCode::Char('h'), KeyModifiers::control())));
}

#[test]
fn does_not_case_fold_char() {
    let b: Binding = Binding::from_str("h").unwrap();
    assert!(!b.matches(&key(KeyCode::Char('H'), KeyModifiers::shift())));
    assert!(!b.matches(&key(KeyCode::Char('H'), KeyModifiers::none())));
}

#[test]
fn ctrl_q_does_not_match_bare_q() {
    let q: Binding = Binding::from_str("q").unwrap();
    let ctrl_q: Binding = Binding::from_str("C-q").unwrap();
    let event = key(KeyCode::Char('q'), KeyModifiers::control());
    assert!(!q.matches(&event));
    assert!(ctrl_q.matches(&event));
}

#[test]
fn every_named_key_parses() {
    let expected = [
        ("Tab", KeyCode::Tab),
        ("BackTab", KeyCode::BackTab),
        ("Enter", KeyCode::Enter),
        ("Esc", KeyCode::Esc),
        ("Backspace", KeyCode::Backspace),
        ("Delete", KeyCode::Delete),
        ("Space", KeyCode::Char(' ')),
        ("Left", KeyCode::Left),
        ("Right", KeyCode::Right),
        ("Up", KeyCode::Up),
        ("Down", KeyCode::Down),
        ("Home", KeyCode::Home),
        ("End", KeyCode::End),
        ("PageUp", KeyCode::PageUp),
        ("PageDown", KeyCode::PageDown),
    ];
    for (name, code) in expected {
        assert_eq!(
            Binding::from_str(name).unwrap(),
            Binding::new(code, KeyModifiers::none())
        );
    }
}

#[test]
fn modifiers_add_up_in_any_order() {
    let mut mods = KeyModifiers::control();
    mods.shift = true;
    mods.alt = true;
    for text in ["C-S-M-x", "M-S-C-x", "S-C-M-C-x"] {
        assert_eq!(
            Binding::from_str(text).unwrap(),
            Binding::new(KeyCode::Char('x'), mods)
        );
    }
}

#[test]
fn a_dash_and_a_letter_from_elsewhere_are_keys() {
    assert_eq!(
        Binding::from_str("C--").unwrap(),
        Binding::new(KeyCode::Char('-'), KeyModifiers::control())
    );
    // Only ASCII letters imply shift.
    assert_eq!(
        Binding::from_str("Ä").unwrap(),
        Binding::new(KeyCode::Char('Ä'), KeyModifiers::none())
    );
}

#[test]
fn an_error_names_what_follows_the_modifiers() {
    assert_eq!(Binding::from_str("C-Nope").unwrap_err().key, "Nope");
    assert_eq!(Binding::from_str("").unwrap_err().key, "");
    assert_eq!(Binding::from_str("C-").unwrap_err().key, "");
}

#[test]
fn a_chunk_adds_its_modifier() {
    let all = KeyModifiers { shift: true, alt: true, ..KeyModifiers::control() };
    for text in ["C-S-M-Tab", "M-C-S-Tab", "S-S-M-C-C-Tab"] {
        assert_eq!(Binding::from_str(text).unwrap(), Binding::new(KeyCode::Tab, all));
    }
    assert_eq!(Binding::from_str("C-Nope").unwrap_err().key, "Nope");
    assert!(Binding::from_str("C-").is_err() && Binding::from_str("").is_err());
}
