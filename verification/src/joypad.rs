//! The buttons, read through the single register FF00.
use crate::bus::IF_JOYPAD;
use vstd::prelude::*;

verus! {

#[derive(Debug, Clone, Copy, PartialEq, Eq, Structural)]
pub enum Button {
    Right,
    Left,
    Up,
    Down,
    A,
    B,
    Select,
    Start,
}

/// Which bit a button is kept in: 0-3 the d-pad, 4-7 the face buttons.
pub open spec fn button_bit(button: Button) -> u8 {
    match button {
        Button::Right => 0,
        Button::Left => 1,
        Button::Up => 2,
        Button::Down => 3,
        Button::A => 4,
        Button::B => 5,
        Button::Select => 6,
        Button::Start => 7,
    }
}

impl Button {
    /// Which bit we keep this button in: 0-3 the d-pad, 4-7 the face buttons.
    pub fn bit(self) -> (r: u8)
        ensures
            r == button_bit(self),
    {
        match self {
            Button::Right => 0,
            Button::Left => 1,
            Button::Up => 2,
            Button::Down => 3,
            Button::A => 4,
            Button::B => 5,
            Button::Select => 6,
            Button::Start => 7,
        }
    }
}

pub struct Joypad {
    held: u8,  // one bit per button, 1 while held down; reading flips them all
    select: u8,  // FF00 bits 4-5: which row of buttons the game is asking for
    interrupt: u8,  // a joypad interrupt waiting for the bus to collect it
}

impl Joypad {
    pub closed spec fn initial() -> Joypad {
        Joypad { held: 0, select: 0x30, interrupt: 0 }
    }

    /// Whether bit `k` of the held buttons is set.
    pub closed spec fn held_bit(self, k: u8) -> bool {
        (self.held >> k) & 1 == 1
    }

    /// Whether the button is held down now.
    pub open spec fn is_held(self, button: Button) -> bool {
        self.held_bit(button_bit(button))
    }

    /// Whether the game has chosen the d-pad row (FF00 bit 4 cleared).
    pub closed spec fn dpad_chosen(self) -> bool {
        self.select & 0x10 == 0
    }

    /// Whether the game has chosen the face-button row (FF00 bit 5 cleared).
    pub closed spec fn face_chosen(self) -> bool {
        self.select & 0x20 == 0
    }

    pub closed spec fn any_held_spec(self) -> bool {
        self.held != 0
    }

    pub closed spec fn pending_interrupt(self) -> u8 {
        self.interrupt
    }

    pub closed spec fn after_set(self, button: Button, pressed: bool) -> Joypad {
        let mask: u8 = (1u8 << button_bit(button)) as u8;
        if pressed {
            Joypad {
                held: self.held | mask,
                interrupt: if self.held & mask == 0 {
                    self.interrupt | IF_JOYPAD
                } else {
                    self.interrupt
                },
                ..self
            }
        } else {
            Joypad { held: self.held & !mask, ..self }
        }
    }

    pub closed spec fn after_take(self) -> Joypad {
        Joypad { interrupt: 0, ..self }
    }

    /// FF00: the top bits read 1, bits 4-5 echo the row choice, and bits 0-3 read 0 for a
    /// held button in a chosen row.
    pub closed spec fn read_spec(self) -> u8 {
        let dpad: u8 = if self.select & 0x10 == 0 {
            0x0F & !(self.held & 0x0F)
        } else {
            0x0F
        };
        let lines: u8 = if self.select & 0x20 == 0 {
            dpad & !((self.held >> 4u8) & 0x0F)
        } else {
            dpad
        };
        0xC0 | (self.select & 0x30) | lines
    }

    pub closed spec fn write_spec(self, value: u8) -> Joypad {
        Joypad { select: value & 0x30, ..self }
    }

    pub fn new() -> (r: Self)
        ensures
            r == Joypad::initial(),
    {
        Self { held: 0, select: 0x30, interrupt: 0 }
    }

    pub fn set_button(&mut self, button: Button, pressed: bool)
        ensures
            *final(self) == old(self).after_set(button, pressed),
    {
        let mask: u8 = 1u8 << button.bit();
        let was_held = self.held & mask != 0;
        if pressed {
            self.held = self.held | mask;
            if !was_held {
                self.interrupt = self.interrupt | IF_JOYPAD;
            }
        } else {
            self.held = self.held & !mask;
        }
    }

    pub fn take_interrupt(&mut self) -> (r: u8)
        ensures
            r == old(self).pending_interrupt(),
            *final(self) == old(self).after_take(),
    {
        let r = self.interrupt;
        self.interrupt = 0;
        r
    }

    /// Whether any button at all is held down.
    pub fn any_held(&self) -> (r: bool)
        ensures
            r == self.any_held_spec(),
    {
        self.held != 0
    }

    /// Hardware is upside down: a held button reads 0, so we start from all ones.
    pub fn read(&self) -> (r: u8)
        ensures
            r == self.read_spec(),
    {
        let mut lines: u8 = 0x0F;
        if self.select & 0x10 == 0 {
            lines = lines & !(self.held & 0x0F);
        }
        if self.select & 0x20 == 0 {
            lines = lines & !((self.held >> 4u8) & 0x0F);
        }
        0xC0 | (self.select & 0x30) | lines
    }

    pub fn write(&mut self, value: u8)
        ensures
            *final(self) == old(self).write_spec(value),
    {
        self.select = value & 0x30;
    }

    /// Each of the four lines of FF00 reads 0 exactly when a held button sits on it in a
    /// row the game has chosen; the top two bits always read 1.
    pub proof fn lemma_read_lines(self, line: u8)
        requires
            line < 4,
        ensures
            (self.read_spec() >> line) & 1 == 0 <==> ((self.dpad_chosen() && self.held_bit(line))
                || (self.face_chosen() && self.held_bit((line + 4) as u8))),
            self.read_spec() & 0xC0 == 0xC0,
    {
        let (held, select) = (self.held, self.select);
        let r = self.read_spec();
        assert((((r >> line) & 1 == 0) <==> ((select & 0x10 == 0 && (held >> line) & 1 == 1)
            || (select & 0x20 == 0 && (held >> (line + 4) as u8) & 1 == 1))) && r & 0xC0 == 0xC0)
            by (bit_vector)
            requires
                line < 4,
                r == 0xC0 | (select & 0x30) | (if select & 0x20 == 0 {
                    (if select & 0x10 == 0 {
                        0x0F & !(held & 0x0F)
                    } else {
                        0x0Fu8
                    }) & !((held >> 4u8) & 0x0F)
                } else {
                    (if select & 0x10 == 0 {
                        0x0F & !(held & 0x0F)
                    } else {
                        0x0Fu8
                    })
                }),
        ;
    }

    /// Writing FF00 chooses the rows: bit 4 cleared picks the d-pad, bit 5 cleared the
    /// face buttons.
    pub proof fn lemma_write_chooses_rows(self, value: u8)
        ensures
            self.write_spec(value).dpad_chosen() == (value & 0x10 == 0),
            self.write_spec(value).face_chosen() == (value & 0x20 == 0),
    {
        assert(((value & 0x30) & 0x10 == 0) == (value & 0x10 == 0) && ((value & 0x30) & 0x20 == 0)
            == (value & 0x20 == 0)) by (bit_vector);
    }

    /// A press raises the joypad interrupt only when the button was up before; holding on
    /// or a release never does. Either way the button ends up held exactly when it was
    /// pressed, every other button and the row choice stay as they were, and the waiting
    /// interrupt stays either nothing or the joypad one.
    pub proof fn lemma_press_interrupt(self, button: Button, pressed: bool)
        ensures
            self.after_set(button, pressed).is_held(button) == pressed,
            forall|other: Button|
                other != button ==> #[trigger] self.after_set(button, pressed).is_held(other)
                    == self.is_held(other),
            self.after_set(button, pressed).dpad_chosen() == self.dpad_chosen(),
            self.after_set(button, pressed).face_chosen() == self.face_chosen(),
            pressed && !self.is_held(button) ==> self.after_set(
                button,
                pressed,
            ).pending_interrupt() & IF_JOYPAD != 0,
            !pressed || self.is_held(button) ==> self.after_set(
                button,
                pressed,
            ).pending_interrupt() == self.pending_interrupt(),
            self.pending_interrupt() == 0 || self.pending_interrupt() == IF_JOYPAD
                ==> self.after_set(button, pressed).pending_interrupt() == if pressed
                && !self.is_held(button) {
                IF_JOYPAD
            } else {
                self.pending_interrupt()
            },
    {
        let (held, interrupt) = (self.held, self.interrupt);
        let k = button_bit(button);
        assert(k < 8);
        let mask: u8 = (1u8 << k) as u8;
        assert(((held | mask) >> k) & 1 == 1 && ((held & !mask) >> k) & 1 == 0 && ((held
            & mask == 0) <==> (held >> k) & 1 != 1) && (interrupt | 16) & 16 != 0) by (bit_vector)
            requires
                k < 8,
                mask == 1u8 << k,
        ;
        assert((0u8 | 16u8) == 16u8 && (16u8 | 16u8) == 16u8) by (bit_vector);
        assert forall|other: Button|
            other != button implies #[trigger] self.after_set(button, pressed).is_held(other)
                == self.is_held(other) by {
            let j = button_bit(other);
            assert(j < 8 && j != k);
            assert(((held | mask) >> j) & 1 == (held >> j) & 1 && ((held & !mask) >> j) & 1 == (
            held >> j) & 1) by (bit_vector)
                requires
                    k < 8,
                    j < 8,
                    j != k,
                    mask == 1u8 << k,
            ;
        }
    }

    /// Taking the interrupt leaves none waiting, so taking it again at once gives 0; the
    /// held buttons and the row choice stay as they were.
    pub proof fn lemma_take_clears(self)
        ensures
            self.after_take().pending_interrupt() == 0,
            forall|b: Button| #[trigger] self.after_take().is_held(b) == self.is_held(b),
            self.after_take().dpad_chosen() == self.dpad_chosen(),
            self.after_take().face_chosen() == self.face_chosen(),
            self.after_take().read_spec() == self.read_spec(),
    {
    }

    /// Writing FF00 chooses the rows, and later reads echo the row bits written; the held
    /// buttons and a waiting interrupt stay as they were.
    pub proof fn lemma_write_echoes(self, value: u8)
        ensures
            self.write_spec(value).read_spec() & 0x30 == value & 0x30,
            forall|b: Button| #[trigger] self.write_spec(value).is_held(b) == self.is_held(b),
            self.write_spec(value).pending_interrupt() == self.pending_interrupt(),
    {
        let held = self.held;
        let select = value & 0x30;
        let r = self.write_spec(value).read_spec();
        assert(r & 0x30 == value & 0x30) by (bit_vector)
            requires
                select == value & 0x30,
                r == 0xC0 | (select & 0x30) | (if select & 0x20 == 0 {
                    (if select & 0x10 == 0 {
                        0x0F & !(held & 0x0F)
                    } else {
                        0x0Fu8
                    }) & !((held >> 4u8) & 0x0F)
                } else {
                    (if select & 0x10 == 0 {
                        0x0F & !(held & 0x0F)
                    } else {
                        0x0Fu8
                    })
                }),
        ;
    }

    /// At power on no row is chosen, no button is held, no interrupt waits, and FF00 reads
    /// 0xFF.
    pub proof fn lemma_initial()
        ensures
            !Joypad::initial().dpad_chosen(),
            !Joypad::initial().face_chosen(),
            forall|b: Button| !(#[trigger] Joypad::initial().is_held(b)),
            Joypad::initial().pending_interrupt() == 0,
            Joypad::initial().read_spec() == 0xFF,
    {
        assert((0x30u8 & 0x10u8) != 0 && (0x30u8 & 0x20u8) != 0 && (0xC0u8 | (0x30u8 & 0x30u8)
            | 0x0Fu8) == 0xFF) by (bit_vector);
        assert forall|b: Button| !(#[trigger] Joypad::initial().is_held(b)) by {
            let k = button_bit(b);
            assert((0u8 >> k) & 1 == 0) by (bit_vector);
        }
    }
}

/// The byte FF00 reads after any run of events from power on: the top two bits read 1,
/// the row bits echo the last value written (both 1 where none was), and each of the four
/// lines reads 0 exactly when a button on it is held in a row the game has chosen.
pub proof fn lemma_replay_read(events: Seq<JoypadEvent>, line: u8)
    requires
        line < 4,
    ensures
        Joypad::initial().replay(events).read_spec() & 0xC0 == 0xC0,
        Joypad::initial().replay(events).read_spec() & 0x30 == rows_after(events),
        (Joypad::initial().replay(events).read_spec() >> line) & 1 == 0 <==> ((rows_after(events)
            & 0x10 == 0 && held_after(events, line_button(line, false))) || (rows_after(events)
            & 0x20 == 0 && held_after(events, line_button(line, true)))),
{
    Joypad::lemma_replay(events);
    let j = Joypad::initial().replay(events);
    j.lemma_read_lines(line);
    let (dpad, face) = (line_button(line, false), line_button(line, true));
    assert(button_bit(dpad) == line);
    assert(button_bit(face) == (line + 4) as u8);
    assert(j.is_held(dpad) == held_after(events, dpad));
    assert(j.is_held(face) == held_after(events, face));
}

/// One thing that can happen to the joypad: the game writes FF00, the host presses or
/// releases a button, or the bus collects the waiting interrupt.
pub enum JoypadEvent {
    Write(u8),
    Button(Button, bool),
    Take,
}

impl Joypad {
    /// The waiting interrupt is nothing or the joypad one: true at power on and kept by
    /// every change, so true of every joypad a game can see.
    pub open spec fn wf(self) -> bool {
        self.pending_interrupt() == 0 || self.pending_interrupt() == IF_JOYPAD
    }

    /// What one event does.
    pub open spec fn apply(self, event: JoypadEvent) -> Joypad {
        match event {
            JoypadEvent::Write(value) => self.write_spec(value),
            JoypadEvent::Button(button, pressed) => self.after_set(button, pressed),
            JoypadEvent::Take => self.after_take(),
        }
    }

    /// What a run of events does, first to last.
    pub open spec fn replay(self, events: Seq<JoypadEvent>) -> Joypad
        decreases events.len(),
    {
        if events.len() == 0 {
            self
        } else {
            self.replay(events.drop_last()).apply(events.last())
        }
    }

    /// The joypad at power on is well formed, and every event keeps it so.
    pub proof fn lemma_wf_kept(self, event: JoypadEvent)
        requires
            self.wf(),
        ensures
            Joypad::initial().wf(),
            self.apply(event).wf(),
    {
        if let JoypadEvent::Button(button, pressed) = event {
            self.lemma_press_interrupt(button, pressed);
        }
    }

    /// Every joypad reached from power on is well formed, so `lemma_press_interrupt` gives
    /// the exact interrupt rule for each of its presses.
    pub proof fn lemma_replay_wf(events: Seq<JoypadEvent>)
        ensures
            Joypad::initial().replay(events).wf(),
        decreases events.len(),
    {
        if events.len() > 0 {
            Joypad::lemma_replay_wf(events.drop_last());
            Joypad::initial().replay(events.drop_last()).lemma_wf_kept(events.last());
        }
    }

    // The row bits FF00 shows are those kept in `select`.
    proof fn lemma_read_rows(self)
        ensures
            self.read_spec() & 0x30 == self.select & 0x30,
    {
        let held = self.held;
        let select = self.select;
        let r = self.read_spec();
        assert(r & 0x30 == select & 0x30) by (bit_vector)
            requires
                r == 0xC0 | (select & 0x30) | (if select & 0x20 == 0 {
                    (if select & 0x10 == 0 {
                        0x0F & !(held & 0x0F)
                    } else {
                        0x0Fu8
                    }) & !((held >> 4u8) & 0x0F)
                } else {
                    (if select & 0x10 == 0 {
                        0x0F & !(held & 0x0F)
                    } else {
                        0x0Fu8
                    })
                }),
        ;
    }

    // The kept row choice is the last one written.
    proof fn lemma_replay_rows(events: Seq<JoypadEvent>)
        ensures
            Joypad::initial().replay(events).select == rows_after(events),
            rows_after(events) & 0x30 == rows_after(events),
        decreases events.len(),
    {
        if events.len() > 0 {
            Joypad::lemma_replay_rows(events.drop_last());
            if let JoypadEvent::Write(value) = events.last() {
                assert((value & 0x30) & 0x30 == value & 0x30) by (bit_vector);
            }
        } else {
            assert(0x30u8 & 0x30u8 == 0x30u8) by (bit_vector);
        }
    }

    /// After any run of events from power on, the row choice is the last one written (both
    /// rows off if none was), each button is held exactly when its last press or release was
    /// a press, and the interrupt waits exactly when a button that was up has been pressed
    /// since the bus last collected it.
    pub proof fn lemma_replay(events: Seq<JoypadEvent>)
        ensures
            Joypad::initial().replay(events).dpad_chosen() == (rows_after(events) & 0x10 == 0),
            Joypad::initial().replay(events).face_chosen() == (rows_after(events) & 0x20 == 0),
            Joypad::initial().replay(events).read_spec() & 0x30 == rows_after(events),
            forall|b: Button| #[trigger]
                Joypad::initial().replay(events).is_held(b) == held_after(events, b),
            Joypad::initial().replay(events).pending_interrupt() == if raised_after(events) {
                IF_JOYPAD
            } else {
                0
            },
        decreases events.len(),
    {
        let j = Joypad::initial().replay(events);
        Joypad::lemma_replay_rows(events);
        j.lemma_read_rows();
        if events.len() == 0 {
            Joypad::lemma_initial();
            assert((0x30u8 & 0x10u8) != 0 && (0x30u8 & 0x20u8) != 0 && (0xFFu8 & 0x30u8) == 0x30u8)
                by (bit_vector);
        } else {
            let before = events.drop_last();
            let prev = Joypad::initial().replay(before);
            Joypad::lemma_replay(before);
            Joypad::lemma_replay_wf(before);
            match events.last() {
                JoypadEvent::Write(value) => {
                    prev.lemma_write_echoes(value);
                    prev.lemma_write_chooses_rows(value);
                    assert(((value & 0x30) & 0x10 == 0) == (value & 0x10 == 0) && ((value & 0x30)
                        & 0x20 == 0) == (value & 0x20 == 0)) by (bit_vector);
                },
                JoypadEvent::Button(button, pressed) => {
                    prev.lemma_press_interrupt(button, pressed);
                },
                JoypadEvent::Take => {
                    prev.lemma_take_clears();
                },
            }
        }
    }
}

/// The button on line `line` (0 to 3) of FF00: in the d-pad row, or in the face-button row.
pub open spec fn line_button(line: u8, face: bool) -> Button {
    if !face {
        if line == 0 {
            Button::Right
        } else if line == 1 {
            Button::Left
        } else if line == 2 {
            Button::Up
        } else {
            Button::Down
        }
    } else {
        if line == 0 {
            Button::A
        } else if line == 1 {
            Button::B
        } else if line == 2 {
            Button::Select
        } else {
            Button::Start
        }
    }
}

/// The row bits of FF00 after a run of events from power on: those of the last value
/// written, or both set where nothing was written.
pub open spec fn rows_after(events: Seq<JoypadEvent>) -> u8
    decreases events.len(),
{
    if events.len() == 0 {
        0x30
    } else {
        match events.last() {
            JoypadEvent::Write(value) => value & 0x30,
            _ => rows_after(events.drop_last()),
        }
    }
}

/// Whether a button is held after a run of events from power on: its last press or release
/// was a press.
pub open spec fn held_after(events: Seq<JoypadEvent>, button: Button) -> bool
    decreases events.len(),
{
    if events.len() == 0 {
        false
    } else {
        match events.last() {
            JoypadEvent::Button(b, pressed) if b == button => pressed,
            _ => held_after(events.drop_last(), button),
        }
    }
}

/// Whether a button that was up has been pressed since the interrupt was last collected
/// (or since power on).
pub open spec fn raised_after(events: Seq<JoypadEvent>) -> bool
    decreases events.len(),
{
    if events.len() == 0 {
        false
    } else {
        match events.last() {
            JoypadEvent::Take => false,
            JoypadEvent::Button(b, true) => !held_after(events.drop_last(), b) || raised_after(
                events.drop_last(),
            ),
            _ => raised_after(events.drop_last()),
        }
    }
}

impl Default for Joypad {
    fn default() -> (r: Self)
        ensures
            r == Joypad::initial(),
    {
        Self::new()
    }
}

} // verus!
