//! Which keyboard key works which console button, for hosts that have a keyboard.
use crate::joypad::Button;
use vstd::prelude::*;

verus! {

/// The named keys a host can report. `Other` is any named key with no use here.
#[derive(Debug, Clone, Copy, PartialEq, Eq, Structural)]
pub enum NamedKey {
    ArrowRight,
    ArrowLeft,
    ArrowUp,
    ArrowDown,
    Enter,
    Shift,
    Escape,
    F11,
    Other,
}

/// A key as the host reports it: a named key, or the text a key types.
#[derive(Debug, Clone, PartialEq, Eq)]
pub enum Key {
    Named(NamedKey),
    Character(String),
}

/// Whether `text` is the one letter `lower`, in either case.
pub open spec fn is_letter(text: Seq<char>, lower: char, upper: char) -> bool {
    text == seq![lower] || text == seq![upper]
}

/// Arrows for the d-pad, Enter for Start, Shift for Select, A and X for A and B whether or
/// not Shift is held; any other key works no button.
pub open spec fn button_of(key: Key) -> Option<Button> {
    match key {
        Key::Named(NamedKey::ArrowRight) => Some(Button::Right),
        Key::Named(NamedKey::ArrowLeft) => Some(Button::Left),
        Key::Named(NamedKey::ArrowUp) => Some(Button::Up),
        Key::Named(NamedKey::ArrowDown) => Some(Button::Down),
        Key::Named(NamedKey::Enter) => Some(Button::Start),
        Key::Named(NamedKey::Shift) => Some(Button::Select),
        Key::Named(_) => None,
        Key::Character(c) => if is_letter(c@, 'a', 'A') {
            Some(Button::A)
        } else if is_letter(c@, 'x', 'X') {
            Some(Button::B)
        } else {
            None
        },
    }
}

// Whether `text` is exactly one character, `lower` or `upper`.
fn one_letter(text: &str, lower: char, upper: char) -> (r: bool)
    ensures
        r == is_letter(text@, lower, upper),
{
    if text.unicode_len() != 1 {
        assert(text@ != seq![lower] && text@ != seq![upper]);
        return false;
    }
    let c = text.get_char(0);
    if c == lower || c == upper {
        assert(text@ =~= seq![c]);
        true
    } else {
        assert(text@ != seq![lower] && text@ != seq![upper]) by {
            if text@ == seq![lower] {
                assert(text@[0] == lower);
            }
            if text@ == seq![upper] {
                assert(text@[0] == upper);
            }
        }
        false
    }
}

/// Which key works which button. Anything else is ignored.
pub fn button_for(key: &Key) -> (r: Option<Button>)
    ensures
        r == button_of(*key),
{
    match key {
        Key::Named(NamedKey::ArrowRight) => Some(Button::Right),
        Key::Named(NamedKey::ArrowLeft) => Some(Button::Left),
        Key::Named(NamedKey::ArrowUp) => Some(Button::Up),
        Key::Named(NamedKey::ArrowDown) => Some(Button::Down),
        Key::Named(NamedKey::Enter) => Some(Button::Start),
        Key::Named(NamedKey::Shift) => Some(Button::Select),
        Key::Named(_) => None,
        Key::Character(c) => {
            if one_letter(c.as_str(), 'a', 'A') {
                Some(Button::A)
            } else if one_letter(c.as_str(), 'x', 'X') {
                Some(Button::B)
            } else {
                None
            }
        },
    }
}

} // verus!
