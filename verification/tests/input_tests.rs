use cinder::input::{
    get_input, get_input_key, get_input_key_code, KeyInput, KeyInputButton, PhysicalKeyCode,
    PressedKeySet, RawKeyEvent,
};

fn event(identity: u64, code: PhysicalKeyCode, scancode: Option<u32>, text: Option<&str>, pressed: bool) -> RawKeyEvent {
    RawKeyEvent {
        identity,
        code,
        scancode,
        text: text.map(|t| t.to_string()),
        logical_escape: false,
        pressed,
    }
}

fn held_keys_of(snapshot: &KeyInput) -> Vec<String> {
    snapshot.held_keys.iter().map(|b| b.key.clone()).collect()
}

#[test]
fn named_keys_have_fixed_names() {
    let cases = [
        (PhysicalKeyCode::ControlLeft, "lctrl"),
        (PhysicalKeyCode::ControlRight, "rctrl"),
        (PhysicalKeyCode::ShiftLeft, "lshift"),
        (PhysicalKeyCode::ShiftRight, "rshift"),
        (PhysicalKeyCode::AltLeft, "lalt"),
        (PhysicalKeyCode::AltRight, "ralt"),
        (PhysicalKeyCode::ArrowUp, "up"),
        (PhysicalKeyCode::ArrowRight, "right"),
        (PhysicalKeyCode::ArrowDown, "down"),
        (PhysicalKeyCode::ArrowLeft, "left"),
        (PhysicalKeyCode::CapsLock, "capslock"),
        (PhysicalKeyCode::Tab, "tab"),
        (PhysicalKeyCode::Escape, "escape"),
        (PhysicalKeyCode::Fn, "function"),
        (PhysicalKeyCode::Enter, "enter"),
        (PhysicalKeyCode::Backspace, "backspace"),
        (PhysicalKeyCode::Insert, "insert"),
    ];
    for (code, expected) in cases {
        let e = event(1, code, Some(9), Some("x"), true);
        assert_eq!(get_input_key(&e), expected);
    }
}

#[test]
fn unlisted_key_falls_back_to_text() {
    let e = event(1, PhysicalKeyCode::Other, Some(30), Some("a"), true);
    assert_eq!(get_input_key(&e), "a");
    let u = event(2, PhysicalKeyCode::Unidentified, Some(30), Some("b"), true);
    assert_eq!(get_input_key(&u), "b");
}

#[test]
fn unlisted_key_without_text_falls_back_to_scancode() {
    let e = event(1, PhysicalKeyCode::Other, Some(30), None, true);
    assert_eq!(get_input_key(&e), "Some(30)");
    let u = event(2, PhysicalKeyCode::Unidentified, None, None, true);
    assert_eq!(get_input_key(&u), "None");
}

#[test]
fn key_code_is_formatted_scancode() {
    let e = event(1, PhysicalKeyCode::Other, Some(42), Some("a"), true);
    assert_eq!(get_input_key_code(&e), "Some(42)");
    let n = event(2, PhysicalKeyCode::Enter, None, None, true);
    assert_eq!(get_input_key_code(&n), "None");
    let big = event(3, PhysicalKeyCode::Other, Some(4294967295), None, true);
    assert_eq!(get_input_key_code(&big), "Some(4294967295)");
}

#[test]
fn snapshot_input_matches_event() {
    let mut keys = PressedKeySet::new();
    let shift = event(7, PhysicalKeyCode::ShiftLeft, Some(50), None, true);
    get_input(&mut keys, &shift);
    let a = event(8, PhysicalKeyCode::Other, Some(30), Some("a"), true);
    let snap = get_input(&mut keys, &a);
    assert_eq!(
        snap.input,
        KeyInputButton { key: "a".to_string(), code: "Some(30)".to_string() }
    );
    assert!(snap.pressed);
    let release = event(8, PhysicalKeyCode::Other, Some(30), Some("a"), false);
    let snap2 = get_input(&mut keys, &release);
    assert_eq!(
        snap2.input,
        KeyInputButton { key: "a".to_string(), code: "Some(30)".to_string() }
    );
    assert!(!snap2.pressed);
}

#[test]
fn held_keys_exclude_triggering_key() {
    let mut keys = PressedKeySet::new();
    let a_down = event(1, PhysicalKeyCode::Other, Some(30), Some("a"), true);
    let snap = get_input(&mut keys, &a_down);
    assert!(snap.held_keys.is_empty());
    let b_down = event(2, PhysicalKeyCode::Other, Some(48), Some("b"), true);
    let snap = get_input(&mut keys, &b_down);
    assert_eq!(held_keys_of(&snap), vec!["a".to_string()]);
}

#[test]
fn press_tracks_until_release() {
    let mut keys = PressedKeySet::new();
    let shift_down = event(1, PhysicalKeyCode::ShiftLeft, Some(50), None, true);
    get_input(&mut keys, &shift_down);
    let a_down = event(2, PhysicalKeyCode::Other, Some(30), Some("a"), true);
    let snap = get_input(&mut keys, &a_down);
    assert_eq!(held_keys_of(&snap), vec!["lshift".to_string()]);
    let a_up = event(2, PhysicalKeyCode::Other, Some(30), Some("a"), false);
    let snap = get_input(&mut keys, &a_up);
    assert_eq!(held_keys_of(&snap), vec!["lshift".to_string()]);
    let shift_up = event(1, PhysicalKeyCode::ShiftLeft, Some(50), None, false);
    let snap = get_input(&mut keys, &shift_up);
    assert!(snap.held_keys.is_empty());
    let b_down = event(3, PhysicalKeyCode::Other, Some(48), Some("b"), true);
    let snap = get_input(&mut keys, &b_down);
    assert!(snap.held_keys.is_empty());
}

#[test]
fn released_key_absent_from_later_snapshots() {
    let mut keys = PressedKeySet::new();
    let a_down = event(1, PhysicalKeyCode::Other, Some(30), Some("a"), true);
    let b_down = event(2, PhysicalKeyCode::Other, Some(48), Some("b"), true);
    get_input(&mut keys, &a_down);
    get_input(&mut keys, &b_down);
    let a_up = event(1, PhysicalKeyCode::Other, Some(30), Some("a"), false);
    let snap = get_input(&mut keys, &a_up);
    assert_eq!(held_keys_of(&snap), vec!["b".to_string()]);
    let c_down = event(3, PhysicalKeyCode::Other, Some(46), Some("c"), true);
    let snap = get_input(&mut keys, &c_down);
    assert_eq!(held_keys_of(&snap), vec!["b".to_string()]);
}

#[test]
fn release_of_never_pressed_key_is_noop() {
    let mut keys = PressedKeySet::new();
    let a_down = event(1, PhysicalKeyCode::Other, Some(30), Some("a"), true);
    get_input(&mut keys, &a_down);
    assert_eq!(keys.len(), 1);
    let ghost_up = event(9, PhysicalKeyCode::Other, Some(99), Some("q"), false);
    let snap = get_input(&mut keys, &ghost_up);
    assert_eq!(keys.len(), 1);
    assert!(!snap.pressed);
    assert_eq!(
        snap.input,
        KeyInputButton { key: "q".to_string(), code: "Some(99)".to_string() }
    );
    assert_eq!(held_keys_of(&snap), vec!["a".to_string()]);
}

#[test]
fn repeated_press_overwrites_entry() {
    let mut keys = PressedKeySet::new();
    let a_down = event(1, PhysicalKeyCode::Other, Some(30), Some("a"), true);
    get_input(&mut keys, &a_down);
    let a_again = event(1, PhysicalKeyCode::Other, Some(30), Some("A"), true);
    get_input(&mut keys, &a_again);
    assert_eq!(keys.len(), 1);
    let b_down = event(2, PhysicalKeyCode::Other, Some(48), Some("b"), true);
    let snap = get_input(&mut keys, &b_down);
    assert_eq!(held_keys_of(&snap), vec!["A".to_string()]);
}
