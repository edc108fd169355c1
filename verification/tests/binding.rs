use blake::binding::key_binding_to_string;
use blake::binding::parse_key_binding;
use blake::binding::KeyBinding;
use blake::binding::KeyCode;
use blake::binding::KeyModifiers;
use blake::binding::KeyParseError;

#[test]
fn uppercase_letter_always_carries_shift() {
    let b = KeyBinding::new(KeyCode::Char('G'));
    assert!(b.modifiers.shift);
    assert!(!b.modifiers.ctrl);
    assert!(!b.modifiers.alt);
    // replacing the modifiers cannot drop the forced shift
    let b2 = b.with_modifiers(KeyModifiers::ctrl());
    assert!(b2.modifiers.shift);
    assert!(b2.modifiers.ctrl);
    // a lowercase letter carries only what was asked for
    let c = KeyBinding::new(KeyCode::Char('g'));
    assert!(!c.modifiers.shift);
}

#[test]
fn from_event_forces_shift_for_uppercase() {
    let b = KeyBinding::from_event(KeyCode::Char('Q'), false, false, false);
    assert!(b.modifiers.shift);
    let c = KeyBinding::from_event(KeyCode::Char('q'), true, false, false);
    assert!(!c.modifiers.shift);
    assert!(c.modifiers.ctrl);
}

#[test]
fn to_string_orders_modifiers_ctrl_alt_shift() {
    let b = KeyBinding::new(KeyCode::Char('x')).with_modifiers(
        KeyModifiers::ctrl().or(KeyModifiers::alt()).or(KeyModifiers::shift()),
    );
    assert_eq!(key_binding_to_string(&b), "Ctrl+Alt+Shift+x");
    let plain = KeyBinding::new(KeyCode::Enter);
    assert_eq!(key_binding_to_string(&plain), "Enter");
    let fkey = KeyBinding::new(KeyCode::F(12));
    assert_eq!(key_binding_to_string(&fkey), "F12");
    let upper = KeyBinding::new(KeyCode::Char('G'));
    assert_eq!(key_binding_to_string(&upper), "Shift+G");
}

#[test]
fn parse_accepts_modifiers_case_insensitively() {
    let b = parse_key_binding("CTRL+q").unwrap();
    assert_eq!(b.key, KeyCode::Char('q'));
    assert!(b.modifiers.ctrl);
    let b2 = parse_key_binding("shift+ALT+Up").unwrap();
    assert_eq!(b2.key, KeyCode::Up);
    assert!(b2.modifiers.shift);
    assert!(b2.modifiers.alt);
    assert!(!b2.modifiers.ctrl);
}

#[test]
fn parse_accepts_named_keys_and_esc_alias() {
    assert_eq!(parse_key_binding("enter").unwrap().key, KeyCode::Enter);
    assert_eq!(parse_key_binding("Escape").unwrap().key, KeyCode::Escape);
    assert_eq!(parse_key_binding("esc").unwrap().key, KeyCode::Escape);
    assert_eq!(parse_key_binding("PageDown").unwrap().key, KeyCode::PageDown);
    assert_eq!(parse_key_binding("HOME").unwrap().key, KeyCode::Home);
}

#[test]
fn parse_reads_function_keys() {
    assert_eq!(parse_key_binding("f5").unwrap().key, KeyCode::F(5));
    assert_eq!(parse_key_binding("F12").unwrap().key, KeyCode::F(12));
    assert_eq!(parse_key_binding("f255").unwrap().key, KeyCode::F(255));
    // a lone letter is a literal key, not a malformed function key
    assert_eq!(parse_key_binding("f").unwrap().key, KeyCode::Char('f'));
}

#[test]
fn parse_rejects_bad_input() {
    assert_eq!(parse_key_binding("").unwrap_err(), KeyParseError::EmptyKey);
    assert_eq!(parse_key_binding("ctrl+").unwrap_err(), KeyParseError::EmptyKey);
    assert_eq!(parse_key_binding("bogus").unwrap_err(), KeyParseError::UnknownKey);
    assert_eq!(parse_key_binding("f9x").unwrap_err(), KeyParseError::InvalidFunctionKey);
    assert_eq!(parse_key_binding("f256").unwrap_err(), KeyParseError::InvalidFunctionKey);
    assert_eq!(parse_key_binding("f99999999999").unwrap_err(), KeyParseError::InvalidFunctionKey);
}

#[test]
fn the_separator_character_is_itself_a_bindable_key() {
    // a trailing lone '+' names the literal '+' key
    let plain = parse_key_binding("+").unwrap();
    assert_eq!(plain.key, KeyCode::Char('+'));
    assert!(!plain.modifiers.ctrl && !plain.modifiers.alt && !plain.modifiers.shift);
    let ctrl = parse_key_binding("Ctrl++").unwrap();
    assert_eq!(ctrl.key, KeyCode::Char('+'));
    assert!(ctrl.modifiers.ctrl);
    let all = parse_key_binding("ctrl+alt+shift++").unwrap();
    assert_eq!(all.key, KeyCode::Char('+'));
    assert!(all.modifiers.ctrl && all.modifiers.alt && all.modifiers.shift);
    // as everywhere, the last key token wins
    let overridden = parse_key_binding("q++").unwrap();
    assert_eq!(overridden.key, KeyCode::Char('+'));
    // a '+' after an ordinary token is still a separator: the key is empty
    assert_eq!(parse_key_binding("ctrl+").unwrap_err(), KeyParseError::EmptyKey);
}

#[test]
fn parse_forces_shift_for_uppercase_literal() {
    let b = parse_key_binding("Q").unwrap();
    assert_eq!(b.key, KeyCode::Char('Q'));
    assert!(b.modifiers.shift);
}

#[test]
fn round_trip_holds_for_every_kind_of_binding() {
    let keys = [
        KeyCode::Char('a'),
        KeyCode::Char('Z'),
        KeyCode::Char('?'),
        KeyCode::Char('+'),
        KeyCode::Enter,
        KeyCode::Escape,
        KeyCode::Backspace,
        KeyCode::Tab,
        KeyCode::Up,
        KeyCode::Down,
        KeyCode::Left,
        KeyCode::Right,
        KeyCode::PageUp,
        KeyCode::PageDown,
        KeyCode::Home,
        KeyCode::End,
        KeyCode::F(1),
        KeyCode::F(10),
        KeyCode::F(255),
    ];
    let modifier_sets = [
        KeyModifiers::empty(),
        KeyModifiers::ctrl(),
        KeyModifiers::alt(),
        KeyModifiers::shift(),
        KeyModifiers::ctrl().or(KeyModifiers::alt()),
        KeyModifiers::ctrl().or(KeyModifiers::shift()),
        KeyModifiers::alt().or(KeyModifiers::shift()),
        KeyModifiers::ctrl().or(KeyModifiers::alt()).or(KeyModifiers::shift()),
    ];
    for key in keys {
        for mods in modifier_sets {
            let b = KeyBinding::new(key).with_modifiers(mods);
            let text = key_binding_to_string(&b);
            let parsed = parse_key_binding(&text).unwrap();
            assert_eq!(parsed, b, "round trip failed for {}", text);
        }
    }
}
