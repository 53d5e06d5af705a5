use rustboy_core::keys::{button_for, Key, NamedKey};
use rustboy_core::Button;

#[test]
fn root_every_button_has_a_key() {
    for (key, button) in [
        (Key::Named(NamedKey::ArrowUp), Button::Up),
        (Key::Named(NamedKey::Enter), Button::Start),
        (Key::Named(NamedKey::Shift), Button::Select),
        (Key::Character("a".into()), Button::A),
        (Key::Character("x".into()), Button::B),
    ] {
        assert_eq!(button_for(&key), Some(button));
    }
}

#[test]
fn root_holding_shift_still_works() {
    assert_eq!(button_for(&Key::Character("A".into())), Some(Button::A));
}

#[test]
fn main_every_button_has_a_key() {
    for (key, button) in [
        (Key::Named(NamedKey::ArrowUp), Button::Up),
        (Key::Named(NamedKey::Enter), Button::Start),
        (Key::Named(NamedKey::Shift), Button::Select),
        (Key::Character("a".into()), Button::A),
        (Key::Character("x".into()), Button::B),
    ] {
        assert_eq!(button_for(&key), Some(button));
    }
}

#[test]
fn main_holding_shift_still_works() {
    assert_eq!(button_for(&Key::Character("A".into())), Some(Button::A));
}
