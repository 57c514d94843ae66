//! Host button state mirrored into KEYINPUT, and the keypad interrupt
//! condition of KEYCNT.
use vstd::prelude::*;

use crate::io::{IoRegs, IoView, IRQ_KEYPAD};

verus! {

/// The ten buttons, each one bit of KEYINPUT.
#[derive(Debug, Clone, Copy, PartialEq, Eq, Structural)]
pub enum Button {
    A,
    B,
    Select,
    Start,
    Right,
    Left,
    Up,
    Down,
    R,
    L,
}

/// The KEYINPUT bit of a button.
pub open spec fn button_mask(button: Button) -> u16 {
    match button {
        Button::A => 0x0001,
        Button::B => 0x0002,
        Button::Select => 0x0004,
        Button::Start => 0x0008,
        Button::Right => 0x0010,
        Button::Left => 0x0020,
        Button::Up => 0x0040,
        Button::Down => 0x0080,
        Button::R => 0x0100,
        Button::L => 0x0200,
    }
}

impl Button {
    /// The button's KEYINPUT bit.
    pub fn mask(self) -> (r: u16)
        ensures
            r == button_mask(self),
    {
        match self {
            Button::A => 0x0001,
            Button::B => 0x0002,
            Button::Select => 0x0004,
            Button::Start => 0x0008,
            Button::Right => 0x0010,
            Button::Left => 0x0020,
            Button::Up => 0x0040,
            Button::Down => 0x0080,
            Button::R => 0x0100,
            Button::L => 0x0200,
        }
    }
}

/// Whether KEYCNT's interrupt condition holds for the pressed buttons: the
/// interrupt is enabled (bit 14), some button is watched (bits 0-9), and
/// either all watched buttons are pressed (bit 15 set) or any is.
pub open spec fn keypad_condition(keycnt: u16, pressed: u16) -> bool {
    let watched = keycnt & 0x03ff;
    if keycnt & 0x4000 != 0 && watched != 0 {
        if keycnt & 0x8000 != 0 {
            pressed & watched == watched
        } else {
            pressed & watched != 0
        }
    } else {
        false
    }
}

/// The registers after a sync of the buttons in `pressed`, when the
/// interrupt condition held at the previous sync exactly if `active`.
pub open spec fn synced_io(pressed: u16, active: bool, io: IoView) -> IoView {
    let synced = IoView { keyinput: (!pressed & 0x03ff) & 0x03ff, ..io };
    if keypad_condition(io.keycnt, pressed) && !active {
        synced.with_interrupt(IRQ_KEYPAD)
    } else {
        synced
    }
}

/// Host input state mirrored into the GBA KEYINPUT/KEYCNT registers.
#[derive(Debug, Clone, PartialEq, Eq, Default)]
pub struct Keypad {
    pressed: u16,
    irq_condition_active: bool,
}

impl Keypad {
    /// The set of pressed buttons, one bit each.
    pub closed spec fn pressed_spec(&self) -> u16 {
        self.pressed
    }

    /// Whether the keypad interrupt condition held at the last sync.
    pub closed spec fn condition_spec(&self) -> bool {
        self.irq_condition_active
    }

    /// No button pressed.
    pub fn new() -> (r: Self)
        ensures
            r.pressed_spec() == 0,
            !r.condition_spec(),
    {
        Keypad { pressed: 0, irq_condition_active: false }
    }

    pub fn set_pressed(&mut self, button: Button, pressed: bool)
        ensures
            final(self).pressed_spec() == (if pressed {
                old(self).pressed_spec() | button_mask(button)
            } else {
                old(self).pressed_spec() & !button_mask(button)
            }),
            final(self).condition_spec() == old(self).condition_spec(),
    {
        if pressed {
            self.pressed = self.pressed | button.mask();
        } else {
            self.pressed = self.pressed & !button.mask();
        }
    }

    /// The KEYINPUT value: a bit is clear while its button is pressed.
    pub fn keyinput(&self) -> (r: u16)
        ensures
            r == !self.pressed_spec() & 0x03ff,
    {
        !self.pressed & 0x03ff
    }

    /// Copy the buttons into KEYINPUT and request the keypad interrupt when
    /// KEYCNT's condition starts to hold (not again while it keeps holding).
    pub fn sync_to_io(&mut self, io: &mut IoRegs)
        ensures
            final(self).pressed_spec() == old(self).pressed_spec(),
            final(self).condition_spec() == keypad_condition(old(io)@.keycnt, old(self).pressed_spec()),
            final(io)@ == synced_io(old(self).pressed_spec(), old(self).condition_spec(), old(io)@),
    {
        let value = self.keyinput();
        io.set_keyinput(value);
        let keycnt = io.keycnt();
        let irq_enabled = (keycnt & 0x4000) != 0;
        let watched = keycnt & 0x03ff;
        let condition = if irq_enabled && watched != 0 {
            if (keycnt & 0x8000) != 0 {
                (self.pressed & watched) == watched
            } else {
                (self.pressed & watched) != 0
            }
        } else {
            false
        };
        if condition && !self.irq_condition_active {
            io.request_interrupt(IRQ_KEYPAD);
        }
        self.irq_condition_active = condition;
    }
}

/// Syncing twice with the same buttons pressed requests the keypad
/// interrupt at most once: the second sync leaves every register as the
/// first left it.
pub proof fn lemma_keypad_irq_once(pressed: u16, active: bool, io: IoView)
    ensures
        ({
            let first = synced_io(pressed, active, io);
            synced_io(pressed, keypad_condition(io.keycnt, pressed), first) == first
        }),
{
}

proof fn lemma_low_active_bits(p: u16)
    by (bit_vector)
    ensures
        ((!p & 0x03ffu16) & 0x0001u16 == 0) == (p & 0x0001u16 != 0),
        ((!p & 0x03ffu16) & 0x0002u16 == 0) == (p & 0x0002u16 != 0),
        ((!p & 0x03ffu16) & 0x0004u16 == 0) == (p & 0x0004u16 != 0),
        ((!p & 0x03ffu16) & 0x0008u16 == 0) == (p & 0x0008u16 != 0),
        ((!p & 0x03ffu16) & 0x0010u16 == 0) == (p & 0x0010u16 != 0),
        ((!p & 0x03ffu16) & 0x0020u16 == 0) == (p & 0x0020u16 != 0),
        ((!p & 0x03ffu16) & 0x0040u16 == 0) == (p & 0x0040u16 != 0),
        ((!p & 0x03ffu16) & 0x0080u16 == 0) == (p & 0x0080u16 != 0),
        ((!p & 0x03ffu16) & 0x0100u16 == 0) == (p & 0x0100u16 != 0),
        ((!p & 0x03ffu16) & 0x0200u16 == 0) == (p & 0x0200u16 != 0),
        (p | 0x0001u16) & 0x0001u16 != 0 && (p & !0x0001u16) & 0x0001u16 == 0,
        (p | 0x0002u16) & 0x0002u16 != 0 && (p & !0x0002u16) & 0x0002u16 == 0,
        (p | 0x0004u16) & 0x0004u16 != 0 && (p & !0x0004u16) & 0x0004u16 == 0,
        (p | 0x0008u16) & 0x0008u16 != 0 && (p & !0x0008u16) & 0x0008u16 == 0,
        (p | 0x0010u16) & 0x0010u16 != 0 && (p & !0x0010u16) & 0x0010u16 == 0,
        (p | 0x0020u16) & 0x0020u16 != 0 && (p & !0x0020u16) & 0x0020u16 == 0,
        (p | 0x0040u16) & 0x0040u16 != 0 && (p & !0x0040u16) & 0x0040u16 == 0,
        (p | 0x0080u16) & 0x0080u16 != 0 && (p & !0x0080u16) & 0x0080u16 == 0,
        (p | 0x0100u16) & 0x0100u16 != 0 && (p & !0x0100u16) & 0x0100u16 == 0,
        (p | 0x0200u16) & 0x0200u16 != 0 && (p & !0x0200u16) & 0x0200u16 == 0,
{
}

/// KEYINPUT is low-active: a button's bit reads 0 exactly while it is
/// pressed, so after pressing it the bit reads 0 and after releasing it 1.
pub proof fn lemma_keyinput_low_active(pressed: u16, button: Button)
    ensures
        ((!pressed & 0x03ff) & button_mask(button) == 0) == (pressed & button_mask(button) != 0),
        (!(pressed | button_mask(button)) & 0x03ff) & button_mask(button) == 0,
        (!(pressed & !button_mask(button)) & 0x03ff) & button_mask(button) != 0,
{
    lemma_low_active_bits(pressed);
    lemma_low_active_bits(pressed | button_mask(button));
    lemma_low_active_bits(pressed & !button_mask(button));
}

/// Bit-level facts behind the keypad interrupt condition.
proof fn lemma_keycnt_bits(k: u16, p: u16, e: u16, m: u16)
    by (bit_vector)
    ensures
        (p & (k & 0x03ff) == (k & 0x03ff)) ==> ((p | e) & (k & 0x03ff) == (k & 0x03ff)),
        (p & (k & 0x03ff) != 0) ==> ((p | e) & (k & 0x03ff) != 0),
        0u16 & (k & 0x03ff) == 0,
        (k & 0x03ff) & (k & 0x03ff) == (k & 0x03ff),
        (m == 1 || m == 2 || m == 4 || m == 8 || m == 0x10 || m == 0x20 || m == 0x40 || m == 0x80 || m
            == 0x100 || m == 0x200) ==> (m & 0x03ff == m && m != 0 && ((k & m != 0) ==> (m & (k & 0x03ff)
            != 0 && k & 0x03ff != 0)) && (((k & 0x03ff) & !m != 0) ==> m & (k & 0x03ff) != (k & 0x03ff))),
{
}

/// When the keypad requests its interrupt: never with KEYCNT's interrupt
/// enable (bit 14) clear, nor with no button pressed; pressing more buttons
/// never withdraws the condition; in OR mode (bit 15 clear) any one watched
/// button (bits 0-9) pressed alone meets it; in AND mode pressing all the
/// watched buttons meets it, and one button alone does not while another
/// button is watched too.
pub proof fn lemma_keypad_condition(keycnt: u16, pressed: u16, more: u16, button: Button)
    ensures
        keycnt & 0x4000 == 0 ==> !keypad_condition(keycnt, pressed),
        !keypad_condition(keycnt, 0),
        keypad_condition(keycnt, pressed) ==> keypad_condition(keycnt, pressed | more),
        (keycnt & 0x4000 != 0 && keycnt & 0x8000 == 0 && keycnt & button_mask(button) != 0)
            ==> keypad_condition(keycnt, button_mask(button)),
        (keycnt & 0x4000 != 0 && keycnt & 0x8000 != 0 && keycnt & 0x03ff != 0) ==> keypad_condition(
            keycnt,
            keycnt & 0x03ff,
        ),
        (keycnt & 0x4000 != 0 && keycnt & 0x8000 != 0 && (keycnt & 0x03ff) & !button_mask(button) != 0)
            ==> !keypad_condition(keycnt, button_mask(button)),
{
    lemma_keycnt_bits(keycnt, pressed, more, button_mask(button));
}

} // verus!
