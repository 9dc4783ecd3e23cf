use diktovani::hotkey::{FnTap, FnTapDetector, KeyEvent, FN_FLAG, FN_KEYCODE};

fn down(ms: u128) -> KeyEvent {
    KeyEvent { key_code: FN_KEYCODE, modifier_flags: FN_FLAG | 0x100, now: ms * 1_000_000 }
}

fn up(ms: u128) -> KeyEvent {
    KeyEvent { key_code: FN_KEYCODE, modifier_flags: 0x100, now: ms * 1_000_000 }
}

#[test]
fn two_quick_taps_are_a_double_tap() {
    let mut detector = FnTapDetector::new();
    assert_eq!(detector.register_event(down(0)), Some(FnTap::Single));
    assert_eq!(detector.register_event(up(100)), None);
    assert_eq!(detector.register_event(down(500)), Some(FnTap::Double));
    assert_eq!(detector.register_event(up(600)), None);
    assert_eq!(detector.register_event(down(700)), Some(FnTap::Single));
}

#[test]
fn two_slow_taps_are_two_single_taps() {
    let mut detector = FnTapDetector::new();
    assert_eq!(detector.register_event(down(0)), Some(FnTap::Single));
    assert_eq!(detector.register_event(up(100)), None);
    assert_eq!(detector.register_event(down(501)), Some(FnTap::Single));
}

#[test]
fn other_keys_and_a_held_key_are_no_taps() {
    let mut detector = FnTapDetector::new();
    let shift = KeyEvent { key_code: 56, modifier_flags: FN_FLAG, now: 0 };
    assert_eq!(detector.register_event(shift), None);
    assert_eq!(detector, FnTapDetector::new());
    assert_eq!(detector.register_event(down(1)), Some(FnTap::Single));
    let held = detector;
    assert_eq!(detector.register_event(down(2)), None);
    assert_eq!(detector, held);
}
