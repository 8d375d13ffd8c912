use pathwarp::input_hook::{
    classify, is_control, key_intent, printable_char, should_intercept, VK_BACK, VK_DOWN, VK_ESCAPE,
    VK_RETURN, VK_UP, WM_KEYDOWN, WM_SYSKEYDOWN,
};
use pathwarp::types::KeyAction;

#[test]
fn only_key_presses_with_gate_on_are_intercepted() {
    assert!(should_intercept(0, true, WM_KEYDOWN));
    assert!(should_intercept(0, true, WM_SYSKEYDOWN));
    assert!(!should_intercept(0, false, WM_KEYDOWN));
    assert!(!should_intercept(3, true, WM_KEYDOWN));
    assert!(!should_intercept(0, true, 0x0101));
}

#[test]
fn navigation_keys_are_classified() {
    assert_eq!(classify(VK_ESCAPE, false, false), Some(KeyAction::Escape));
    assert_eq!(classify(VK_RETURN, false, false), Some(KeyAction::Enter));
    assert_eq!(classify(VK_BACK, false, false), Some(KeyAction::Backspace));
    assert_eq!(classify(VK_UP, false, false), Some(KeyAction::Up));
    assert_eq!(classify(VK_DOWN, false, false), Some(KeyAction::Down));
    assert_eq!(classify(0x41, false, false), None);
}

#[test]
fn modifier_combinations_pass_through() {
    assert_eq!(classify(VK_RETURN, true, false), None);
    assert_eq!(classify(VK_ESCAPE, false, true), None);
}

#[test]
fn printable_chars_only() {
    assert_eq!(printable_char(1, 'a' as u16), Some('a'));
    assert_eq!(printable_char(1, 0x4e2d), Some('中'));
    assert_eq!(printable_char(1, 0x0d), None);
    assert_eq!(printable_char(1, 0x85), None);
    assert_eq!(printable_char(1, 0xd800), None);
    assert_eq!(printable_char(2, 'a' as u16), None);
    assert_eq!(printable_char(0, 'a' as u16), None);
    assert_eq!(printable_char(-1, 'a' as u16), None);
}

#[test]
fn control_chars_match_std() {
    for u in 0u32..0x3000 {
        if let Some(c) = char::from_u32(u) {
            assert_eq!(is_control(c), c.is_control(), "U+{u:04X}");
        }
    }
}

#[test]
fn ctrl_and_alt_combinations_pass_through_whole() {
    assert_eq!(key_intent(0x44, false, true, Some('d')), None);
    assert_eq!(key_intent(0x41, true, false, Some('a')), None);
    assert_eq!(key_intent(VK_RETURN, true, true, None), None);
    assert_eq!(key_intent(0x44, false, false, Some('d')), Some(KeyAction::Char('d')));
    assert_eq!(key_intent(VK_ESCAPE, false, false, Some('x')), Some(KeyAction::Escape));
    assert_eq!(key_intent(0x10, false, false, None), None);
}
