//! Decisions of the global low-level keyboard hook: which key presses are
//! intercepted while interception is enabled, and which intent each one becomes. Every
//! other key passes through to the dialog.

use vstd::prelude::*;
pub use crate::types::KeyAction;

verus! {

/// `HC_ACTION`: the hook code of a real keyboard event.
pub const HC_ACTION: i32 = 0;
/// `WM_KEYDOWN`.
pub const WM_KEYDOWN: u32 = 0x0100;
/// `WM_SYSKEYDOWN`.
pub const WM_SYSKEYDOWN: u32 = 0x0104;
/// Virtual key codes of the navigation keys.
pub const VK_BACK: u32 = 0x08;
pub const VK_RETURN: u32 = 0x0D;
pub const VK_ESCAPE: u32 = 0x1B;
pub const VK_UP: u32 = 0x26;
pub const VK_DOWN: u32 = 0x28;

/// The hook looks at an event only when it is a real key press and interception is enabled.
pub fn should_intercept(code: i32, gate_active: bool, message: u32) -> (r: bool)
    ensures
        r == (code == HC_ACTION && gate_active && (message == WM_KEYDOWN || message
            == WM_SYSKEYDOWN)),
{
    code == HC_ACTION && gate_active && (message == WM_KEYDOWN || message == WM_SYSKEYDOWN)
}

/// The intent of a navigation key. Ctrl and Alt combinations always pass
/// through, so the dialog keeps its own shortcuts.
pub open spec fn navigation_action(vk: u32, ctrl_down: bool, alt_down: bool) -> Option<KeyAction> {
    if ctrl_down || alt_down {
        None
    } else if vk == VK_ESCAPE {
        Some(KeyAction::Escape)
    } else if vk == VK_RETURN {
        Some(KeyAction::Enter)
    } else if vk == VK_BACK {
        Some(KeyAction::Backspace)
    } else if vk == VK_UP {
        Some(KeyAction::Up)
    } else if vk == VK_DOWN {
        Some(KeyAction::Down)
    } else {
        None
    }
}

/// Classifies a key press by its virtual key and the modifier state.
pub fn classify(vk: u32, ctrl_down: bool, alt_down: bool) -> (r: Option<KeyAction>)
    ensures
        r == navigation_action(vk, ctrl_down, alt_down),
{
    if ctrl_down || alt_down {
        return None;
    }
    if vk == VK_ESCAPE {
        Some(KeyAction::Escape)
    } else if vk == VK_RETURN {
        Some(KeyAction::Enter)
    } else if vk == VK_BACK {
        Some(KeyAction::Backspace)
    } else if vk == VK_UP {
        Some(KeyAction::Up)
    } else if vk == VK_DOWN {
        Some(KeyAction::Down)
    } else {
        None
    }
}

/// The whole intent of a key press: nothing under Ctrl or Alt (the key passes
/// through); else the navigation action of the key, or else the character the
/// layout translates it to, if any.
pub open spec fn intended_action(
    vk: u32,
    ctrl_down: bool,
    alt_down: bool,
    translated: Option<char>,
) -> Option<KeyAction> {
    if ctrl_down || alt_down {
        None
    } else {
        match navigation_action(vk, false, false) {
            Some(a) => Some(a),
            None => match translated {
                Some(c) => Some(KeyAction::Char(c)),
                None => None,
            },
        }
    }
}

/// Decides what a key press means, given the modifiers and the layout's
/// translation of the key (`None` when it types no printable character).
pub fn key_intent(vk: u32, ctrl_down: bool, alt_down: bool, translated: Option<char>) -> (r: Option<
    KeyAction,
>)
    ensures
        r == intended_action(vk, ctrl_down, alt_down, translated),
        ctrl_down || alt_down ==> r is None,
{
    if ctrl_down || alt_down {
        return None;
    }
    match classify(vk, false, false) {
        Some(a) => Some(a),
        None => match translated {
            Some(c) => Some(KeyAction::Char(c)),
            None => None,
        },
    }
}

/// A Unicode scalar value: at most 0x10FFFF and not a surrogate.
pub open spec fn is_scalar_value(u: u32) -> bool {
    u <= 0x10FFFF && !(0xD800 <= u <= 0xDFFF)
}

/// Calls `char::from_u32`. Claimed: `Some` of the character with that code
/// exactly when the value is a Unicode scalar value, `None` otherwise.
#[verifier::external_body]
fn char_from_u32(u: u32) -> (r: Option<char>)
    ensures
        is_scalar_value(u) ==> r == Some(u as char),
        !is_scalar_value(u) ==> r is None,
{
    char::from_u32(u)
}

/// Control characters (general category Cc: C0 and C1 control codes), which
/// `char::is_control` reports.
pub open spec fn is_control_char(c: char) -> bool {
    (c as u32) <= 0x1F || (0x7F <= (c as u32) && (c as u32) <= 0x9F)
}

/// Whether `c` is a control character.
pub fn is_control(c: char) -> (r: bool)
    ensures
        r == is_control_char(c),
{
    let u = c as u32;
    u <= 0x1F || (0x7F <= u && u <= 0x9F)
}

/// The character typed by a key, from the keyboard layout's translation:
/// exactly one UTF-16 unit that is a scalar value and not a control character.
pub open spec fn typed_char(count: i32, unit: u16) -> Option<char> {
    if count == 1 && is_scalar_value(unit as u32) && !is_control_char((unit as u32) as char) {
        Some((unit as u32) as char)
    } else {
        None
    }
}

/// The printable character of a translation that produced `count` UTF-16
/// units, the first of which is `unit`.
pub fn printable_char(count: i32, unit: u16) -> (r: Option<char>)
    ensures
        r == typed_char(count, unit),
{
    if count != 1 {
        return None;
    }
    match char_from_u32(unit as u32) {
        Some(c) => {
            if is_control(c) {
                None
            } else {
                Some(c)
            }
        },
        None => None,
    }
}

/// Exactly the printable characters are typed: a translation into one UTF-16
/// unit types that unit's character when it is a Unicode scalar value outside
/// the C0 (0x00-0x1F) and C1 (0x7F-0x9F) control ranges, space included; a
/// control unit, a surrogate or any other number of units types nothing.
pub proof fn lemma_typed_chars(count: i32, unit: u16)
    ensures
        count == 1 && unit >= 0x20 && !(0x7F <= unit <= 0x9F) && !(0xD800 <= unit <= 0xDFFF)
            ==> typed_char(count, unit) == Some((unit as u32) as char),
        count == 1 && (unit < 0x20 || (0x7F <= unit <= 0x9F) || (0xD800 <= unit <= 0xDFFF))
            ==> typed_char(count, unit) is None,
        count != 1 ==> typed_char(count, unit) is None,
        typed_char(1, 0x20) == Some(' '),
{
}

} // verus!
