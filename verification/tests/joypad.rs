use rustboy_core::joypad::Joypad;
use rustboy_core::Button;

#[test]
fn joypad_pressed_button_reads_as_zero() {
    let mut joypad = Joypad::new();
    joypad.write(0x20); // ask for the d-pad row
    joypad.set_button(Button::Right, true);
    assert_eq!(joypad.read() & 0x01, 0);
}

#[test]
fn joypad_unselected_row_is_not_reported() {
    let mut joypad = Joypad::new();
    joypad.write(0x10); // ask for the face button row
    joypad.set_button(Button::Right, true);
    assert_eq!(joypad.read() & 0x01, 0x01);
}

#[test]
fn a_history_of_writes_and_presses_reads_as_the_last_of_each() {
    let mut joypad = Joypad::new();
    assert_eq!(joypad.read(), 0xFF);
    joypad.set_button(Button::Right, true);
    joypad.set_button(Button::A, true);
    joypad.write(0x20);
    joypad.set_button(Button::Right, false);
    joypad.set_button(Button::Down, true);
    // d-pad row chosen: Down (line 3) is held, Right was let go.
    assert_eq!(joypad.read(), 0xC0 | 0x20 | 0x07);
    joypad.write(0x10);
    // face row chosen: A (line 0) is still held.
    assert_eq!(joypad.read(), 0xC0 | 0x10 | 0x0E);
    joypad.write(0x00);
    assert_eq!(joypad.read(), 0xC0 | 0x06);
    joypad.write(0xFF);
    assert_eq!(joypad.read(), 0xFF);
}

#[test]
fn the_interrupt_waits_for_a_press_since_the_last_take() {
    let mut joypad = Joypad::new();
    assert_eq!(joypad.take_interrupt(), 0);
    joypad.set_button(Button::B, true);
    joypad.set_button(Button::B, true);
    assert_eq!(joypad.take_interrupt(), 0x10);
    assert_eq!(joypad.take_interrupt(), 0);
    // Holding on, releasing and writing raise nothing.
    joypad.set_button(Button::B, true);
    joypad.set_button(Button::B, false);
    joypad.write(0x00);
    assert_eq!(joypad.take_interrupt(), 0);
    // Two presses before a take still give one interrupt.
    joypad.set_button(Button::Up, true);
    joypad.set_button(Button::Start, true);
    assert_eq!(joypad.take_interrupt(), 0x10);
    assert_eq!(joypad.take_interrupt(), 0);
}
