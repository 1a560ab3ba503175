//! The input latch: eight buttons arranged as two active-low nibbles
//! (action keys and direction keys), exposed through one register with
//! row-select semantics, plus the joypad interrupt line.
use vstd::prelude::*;

verus! {

/// The eight buttons of the console.
#[derive(Copy, Clone, PartialEq, Eq, Structural, Debug)]
pub enum Button {
    A,
    B,
    Left,
    Right,
    Up,
    Down,
    Start,
    Select,
}

/// Button/direction state and the row-select register.
///
/// Bits 0-3 of `buttons` and `directions` are active low: a cleared bit
/// means the key is held. `current` selects which nibble a read exposes
/// (0x20: action keys, 0x10: direction keys). `interrupt` latches the
/// joypad interrupt bit (0x10) on every fresh key press; the memory unit
/// drains it into the shared pending-interrupt register.
pub struct Input {
    pub current: u8,
    pub buttons: u8,
    pub directions: u8,
    pub interrupt: u8,
}

impl Input {
    /// Both key nibbles stay within their low four bits.
    pub open spec fn wf(self) -> bool {
        self.buttons < 0x10 && self.directions < 0x10
    }

    /// True for the action-key group (A, B, Start, Select); false for the
    /// direction keys.
    pub open spec fn is_action(key: Button) -> bool {
        match key {
            Button::A | Button::B | Button::Start | Button::Select => true,
            _ => false,
        }
    }

    /// The single bit a button occupies inside its nibble.
    pub open spec fn spec_mask(key: Button) -> u8 {
        match key {
            Button::A => 0x1,
            Button::B => 0x2,
            Button::Select => 0x4,
            Button::Start => 0x8,
            Button::Right => 0x1,
            Button::Left => 0x2,
            Button::Up => 0x4,
            Button::Down => 0x8,
        }
    }

    /// What a read of the register returns: the nibble selected by
    /// `current`, or all-ones when neither row is selected.
    pub open spec fn spec_read(self) -> u8 {
        if self.current == 0x20 {
            self.buttons
        } else if self.current == 0x10 {
            self.directions
        } else {
            0xf
        }
    }

    /// The row-select value after a write: only an unambiguous selection
    /// (exactly one of bits 4-5 cleared in the written value) changes it.
    pub open spec fn spec_select(self, value: u8) -> u8 {
        let sel = !value & 0x30;
        if sel == 0x20 {
            0x20
        } else if sel == 0x10 {
            0x10
        } else {
            self.current
        }
    }

    /// The state after a key press: the button's bit is cleared in its
    /// nibble, and the joypad interrupt bit is latched exactly when the
    /// button was not already held, whichever row is selected.
    pub open spec fn spec_keydown(self, key: Button) -> Input {
        let m = Self::spec_mask(key);
        if Self::is_action(key) {
            Input {
                buttons: self.buttons & !m,
                interrupt: if self.buttons & m != 0 {
                    self.interrupt | 0x10
                } else {
                    self.interrupt
                },
                ..self
            }
        } else {
            Input {
                directions: self.directions & !m,
                interrupt: if self.directions & m != 0 {
                    self.interrupt | 0x10
                } else {
                    self.interrupt
                },
                ..self
            }
        }
    }

    /// The state after a key release: the button's bit is set again; no
    /// interrupt is raised.
    pub open spec fn spec_keyup(self, key: Button) -> Input {
        let m = Self::spec_mask(key);
        if Self::is_action(key) {
            Input { buttons: self.buttons | m, ..self }
        } else {
            Input { directions: self.directions | m, ..self }
        }
    }

    /// Power-on state: direction row selected, no key held, no interrupt
    /// pending.
    pub fn new() -> (r: Input)
        ensures
            r.wf(),
            r.current == 0x10,
            r.buttons == 0xf,
            r.directions == 0xf,
            r.interrupt == 0,
    {
        Input { current: 0x10, buttons: 0xf, directions: 0xf, interrupt: 0 }
    }

    /// Read the register: the selected nibble, else all-ones.
    pub fn read_byte(&self) -> (r: u8)
        ensures
            r == self.spec_read(),
    {
        if self.current == 0x20 {
            self.buttons
        } else if self.current == 0x10 {
            self.directions
        } else {
            0xf
        }
    }

    /// Write the register: only the row-select bits 4-5 have any effect.
    pub fn write_byte(&mut self, value: u8)
        ensures
            final(self).current == old(self).spec_select(value),
            final(self).buttons == old(self).buttons,
            final(self).directions == old(self).directions,
            final(self).interrupt == old(self).interrupt,
    {
        let sel = !value & 0x30;
        if sel == 0x20 {
            self.current = 0x20;
        } else if sel == 0x10 {
            self.current = 0x10;
        }
    }

    fn mask_of(key: Button) -> (m: u8)
        ensures
            m == Self::spec_mask(key),
            0 < m < 0x10,
    {
        match key {
            Button::A => 0x1,
            Button::B => 0x2,
            Button::Select => 0x4,
            Button::Start => 0x8,
            Button::Right => 0x1,
            Button::Left => 0x2,
            Button::Up => 0x4,
            Button::Down => 0x8,
        }
    }

    /// Press a key: clears its bit and latches the joypad interrupt when
    /// the key was previously up.
    pub fn keydown(&mut self, key: Button)
        requires
            old(self).wf(),
        ensures
            final(self).wf(),
            *final(self) == old(self).spec_keydown(key),
    {
        let m = Input::mask_of(key);
        match key {
            Button::A | Button::B | Button::Start | Button::Select => {
                if self.buttons & m != 0 {
                    self.interrupt = self.interrupt | 0x10;
                }
                let ghost ob = self.buttons;
                let nb = self.buttons & !m;
                proof {
                    assert(nb < 0x10) by (bit_vector)
                        requires
                            nb == ob & !m,
                            ob < 0x10,
                    ;
                }
                self.buttons = nb;
            },
            _ => {
                if self.directions & m != 0 {
                    self.interrupt = self.interrupt | 0x10;
                }
                let ghost od = self.directions;
                let nd = self.directions & !m;
                proof {
                    assert(nd < 0x10) by (bit_vector)
                        requires
                            nd == od & !m,
                            od < 0x10,
                    ;
                }
                self.directions = nd;
            },
        }
    }

    /// Release a key: sets its bit again; never raises an interrupt.
    pub fn keyup(&mut self, key: Button)
        requires
            old(self).wf(),
        ensures
            final(self).wf(),
            *final(self) == old(self).spec_keyup(key),
    {
        let m = Input::mask_of(key);
        match key {
            Button::A | Button::B | Button::Start | Button::Select => {
                let ghost ob = self.buttons;
                let nb = self.buttons | m;
                proof {
                    assert(nb < 0x10) by (bit_vector)
                        requires
                            nb == ob | m,
                            ob < 0x10,
                            m < 0x10,
                    ;
                }
                self.buttons = nb;
            },
            _ => {
                let ghost od = self.directions;
                let nd = self.directions | m;
                proof {
                    assert(nd < 0x10) by (bit_vector)
                        requires
                            nd == od | m,
                            od < 0x10,
                            m < 0x10,
                    ;
                }
                self.directions = nd;
            },
        }
    }
}

impl Default for Input {
    /// The power-on state, as `new` builds it.
    fn default() -> (r: Input)
        ensures
            r.wf(),
            r == (Input { current: 0x10, buttons: 0xf, directions: 0xf, interrupt: 0 }),
    {
        Input::new()
    }
}

/// A fresh press raises the joypad interrupt bit exactly once: pressing a
/// key whose bit is still set latches the bit, and pressing the same key
/// again adds nothing.
pub proof fn lemma_press_raises_interrupt_once(s: Input, key: Button)
    requires
        s.wf(),
    ensures
        ({
            let nibble = if Input::is_action(key) {
                s.buttons
            } else {
                s.directions
            };
            &&& (nibble & Input::spec_mask(key) != 0 ==> s.spec_keydown(key).interrupt == (
            s.interrupt | 0x10))
            &&& (nibble & Input::spec_mask(key) == 0 ==> s.spec_keydown(key).interrupt
                == s.interrupt)
        }),
        s.spec_keydown(key).spec_keydown(key).interrupt == s.spec_keydown(key).interrupt,
{
    let m = Input::spec_mask(key);
    assert(forall|b: u8| #[trigger] ((b & !m) & m) == 0) by (bit_vector);
}

} // verus!
