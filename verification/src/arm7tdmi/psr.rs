//! Program status registers and operating modes.
use vstd::prelude::*;

verus! {

/// ARM7TDMI operating modes.
#[derive(Debug, Clone, Copy, PartialEq, Eq, Structural)]
pub enum Mode {
    User,
    Fiq,
    Irq,
    Supervisor,
    Abort,
    Undefined,
    System,
}

/// The five-bit mode field that encodes each mode in a PSR.
pub open spec fn mode_bits_spec(mode: Mode) -> u8 {
    match mode {
        Mode::User => 0x10,
        Mode::Fiq => 0x11,
        Mode::Irq => 0x12,
        Mode::Supervisor => 0x13,
        Mode::Abort => 0x17,
        Mode::Undefined => 0x1b,
        Mode::System => 0x1f,
    }
}

/// The mode that a five-bit mode field names, if any.
pub open spec fn mode_from_bits_spec(bits: u8) -> Option<Mode> {
    if bits == 0x10 {
        Some(Mode::User)
    } else if bits == 0x11 {
        Some(Mode::Fiq)
    } else if bits == 0x12 {
        Some(Mode::Irq)
    } else if bits == 0x13 {
        Some(Mode::Supervisor)
    } else if bits == 0x17 {
        Some(Mode::Abort)
    } else if bits == 0x1b {
        Some(Mode::Undefined)
    } else if bits == 0x1f {
        Some(Mode::System)
    } else {
        None
    }
}

/// Modes that bank a saved program status register.
pub open spec fn mode_has_spsr(mode: Mode) -> bool {
    !(mode is User || mode is System)
}

/// Bit `i` of `v`.
pub open spec fn bit_of(v: u32, i: u32) -> bool {
    (v >> i) & 1 == 1
}

/// `v` with bit `i` forced to `b`.
pub open spec fn with_bit(v: u32, i: u32, b: bool) -> u32 {
    if b {
        v | (1u32 << i)
    } else {
        v & !(1u32 << i)
    }
}

/// The mode encoded in the low five bits of a PSR value.
pub open spec fn psr_mode(v: u32) -> Option<Mode> {
    mode_from_bits_spec((v & 0x1f) as u8)
}

/// The mode of a PSR value whose mode field is valid (User otherwise).
pub open spec fn mode_of(v: u32) -> Mode {
    match psr_mode(v) {
        Some(m) => m,
        None => Mode::User,
    }
}

/// `v` with its mode field replaced by the encoding of `mode`.
pub open spec fn with_mode(v: u32, mode: Mode) -> u32 {
    (v & !0x1fu32) | (mode_bits_spec(mode) as u32)
}

/// `v` with N and Z describing `result`.
pub open spec fn with_nz(v: u32, result: u32) -> u32 {
    with_bit(with_bit(v, 31, bit_of(result, 31)), 30, result == 0)
}

/// `v` with N, Z, C and V set from a result and its carry and overflow.
pub open spec fn with_nzcv(v: u32, result: u32, carry: bool, overflow: bool) -> u32 {
    with_bit(with_bit(with_nz(v, result), 29, carry), 28, overflow)
}

/// Bit 31 of a word, its sign bit, is set exactly when the word is at least
/// 2^31.
pub proof fn lemma_sign_bit(x: u32)
    by (bit_vector)
    ensures
        bit_of(x, 31) == (x >= 0x8000_0000),
        ((x & 0x8000_0000) != 0) == bit_of(x, 31),
{
}

/// Setting a bit gives that bit back and leaves every other bit alone.
pub proof fn lemma_with_bit(v: u32, i: u32, b: bool, j: u32)
    requires
        i < 32,
        j < 32,
    ensures
        bit_of(with_bit(v, i, b), j) == (if i == j { b } else { bit_of(v, j) }),
{
    assert((((v | (1u32 << i)) >> j) & 1 == 1 <==> (i == j || (v >> j) & 1 == 1)) && (((v & !(1u32
        << i)) >> j) & 1 == 1 <==> (i != j && (v >> j) & 1 == 1))) by (bit_vector)
        requires
            i < 32,
            j < 32,
    ;
}

/// The flags a result leaves: N is its bit 31 and Z whether it is zero;
/// C and V, where set, are the given carry and overflow.
pub proof fn lemma_flag_bits(v: u32, result: u32, carry: bool, overflow: bool)
    ensures
        bit_of(with_nz(v, result), 31) == bit_of(result, 31),
        bit_of(with_nz(v, result), 30) == (result == 0),
        bit_of(with_nz(v, result), 29) == bit_of(v, 29),
        bit_of(with_nz(v, result), 28) == bit_of(v, 28),
        bit_of(with_bit(with_nz(v, result), 29, carry), 31) == bit_of(result, 31),
        bit_of(with_bit(with_nz(v, result), 29, carry), 30) == (result == 0),
        bit_of(with_bit(with_nz(v, result), 29, carry), 29) == carry,
        bit_of(with_bit(with_nz(v, result), 29, carry), 28) == bit_of(v, 28),
        bit_of(with_nzcv(v, result, carry, overflow), 31) == bit_of(result, 31),
        bit_of(with_nzcv(v, result, carry, overflow), 30) == (result == 0),
        bit_of(with_nzcv(v, result, carry, overflow), 29) == carry,
        bit_of(with_nzcv(v, result, carry, overflow), 28) == overflow,
{
    let a = with_bit(v, 31, bit_of(result, 31));
    let n = with_nz(v, result);
    let l = with_bit(n, 29, carry);
    lemma_with_bit(v, 31, bit_of(result, 31), 31);
    lemma_with_bit(v, 31, bit_of(result, 31), 29);
    lemma_with_bit(v, 31, bit_of(result, 31), 28);
    lemma_with_bit(a, 30, result == 0, 31);
    lemma_with_bit(a, 30, result == 0, 30);
    lemma_with_bit(a, 30, result == 0, 29);
    lemma_with_bit(a, 30, result == 0, 28);
    lemma_with_bit(n, 29, carry, 31);
    lemma_with_bit(n, 29, carry, 30);
    lemma_with_bit(n, 29, carry, 29);
    lemma_with_bit(n, 29, carry, 28);
    lemma_with_bit(l, 28, overflow, 31);
    lemma_with_bit(l, 28, overflow, 30);
    lemma_with_bit(l, 28, overflow, 29);
    lemma_with_bit(l, 28, overflow, 28);
}

/// Setting a bit at or above bit five leaves the mode field alone.
pub proof fn lemma_with_bit_keeps_mode(v: u32, i: u32, b: bool)
    requires
        5 <= i < 32,
    ensures
        with_bit(v, i, b) & 0x1f == v & 0x1f,
        psr_mode(with_bit(v, i, b)) == psr_mode(v),
{
    assert((v | (1u32 << i)) & 0x1f == v & 0x1f && (v & !(1u32 << i)) & 0x1f == v & 0x1f) by (bit_vector)
        requires
            5 <= i < 32,
    ;
}

/// The condition flags live above the mode field, so updating them leaves the
/// mode alone.
pub proof fn lemma_flags_keep_mode(v: u32, result: u32, carry: bool, overflow: bool)
    ensures
        psr_mode(with_nz(v, result)) == psr_mode(v),
        psr_mode(with_bit(with_nz(v, result), 29, carry)) == psr_mode(v),
        psr_mode(with_nzcv(v, result, carry, overflow)) == psr_mode(v),
{
    lemma_with_bit_keeps_mode(v, 31, bit_of(result, 31));
    lemma_with_bit_keeps_mode(with_bit(v, 31, bit_of(result, 31)), 30, result == 0);
    lemma_with_bit_keeps_mode(with_nz(v, result), 29, carry);
    lemma_with_bit_keeps_mode(with_bit(with_nz(v, result), 29, carry), 28, overflow);
}

/// Writing a mode field and reading it back gives that mode; flag bits stay.
pub proof fn lemma_with_mode(v: u32, mode: Mode)
    ensures
        psr_mode(with_mode(v, mode)) == Some(mode),
        mode_of(with_mode(v, mode)) == mode,
        forall|j: u32| 5 <= j < 32 ==> #[trigger] bit_of(with_mode(v, mode), j) == bit_of(v, j),
{
    let b = mode_bits_spec(mode) as u32;
    assert(b < 32);
    assert(((v & !0x1fu32) | b) & 0x1f == b) by (bit_vector)
        requires
            b < 32,
    ;
    assert forall|j: u32| 5 <= j < 32 implies #[trigger] bit_of(with_mode(v, mode), j) == bit_of(
        v,
        j,
    ) by {
        assert(((((v & !0x1fu32) | b) >> j) & 1 == 1) == ((v >> j) & 1 == 1)) by (bit_vector)
            requires
                b < 32,
                5 <= j < 32,
        ;
    }
}

impl Mode {
    /// The five-bit encoding of this mode.
    pub fn bits(self) -> (r: u8)
        ensures
            r == mode_bits_spec(self),
    {
        match self {
            Mode::User => 0x10,
            Mode::Fiq => 0x11,
            Mode::Irq => 0x12,
            Mode::Supervisor => 0x13,
            Mode::Abort => 0x17,
            Mode::Undefined => 0x1b,
            Mode::System => 0x1f,
        }
    }

    /// Decodes a five-bit mode field; `None` for encodings no mode uses.
    pub fn from_bits(bits: u8) -> (r: Option<Mode>)
        ensures
            r == mode_from_bits_spec(bits),
    {
        if bits == 0x10 {
            Some(Mode::User)
        } else if bits == 0x11 {
            Some(Mode::Fiq)
        } else if bits == 0x12 {
            Some(Mode::Irq)
        } else if bits == 0x13 {
            Some(Mode::Supervisor)
        } else if bits == 0x17 {
            Some(Mode::Abort)
        } else if bits == 0x1b {
            Some(Mode::Undefined)
        } else if bits == 0x1f {
            Some(Mode::System)
        } else {
            None
        }
    }

    /// Whether this mode banks a saved PSR (every mode but User and System).
    pub fn has_spsr(self) -> (r: bool)
        ensures
            r == mode_has_spsr(self),
    {
        match self {
            Mode::User | Mode::System => false,
            _ => true,
        }
    }

    /// Whether this mode may change the control byte of the CPSR.
    pub fn is_privileged(self) -> (r: bool)
        ensures
            r == !(self is User),
    {
        match self {
            Mode::User => false,
            _ => true,
        }
    }
}

/// Decoding the encoding of a mode gives the mode back.
pub proof fn lemma_mode_bits_round_trip(mode: Mode)
    ensures
        mode_from_bits_spec(mode_bits_spec(mode)) == Some(mode),
{
}

/// Program Status Register wrapper.
#[derive(Debug, Clone, Copy, PartialEq, Eq, Structural)]
pub struct Psr(u32);

impl View for Psr {
    type V = u32;

    closed spec fn view(&self) -> u32 {
        self.0
    }
}

impl Psr {
    /// Whether the mode field names a mode.
    pub open spec fn valid(self) -> bool {
        psr_mode(self@) is Some
    }

    /// A PSR holding only the mode field of `mode`.
    pub fn new(mode: Mode) -> (r: Psr)
        ensures
            r@ == mode_bits_spec(mode) as u32,
            r.valid(),
            mode_of(r@) == mode,
    {
        let b = mode.bits();
        proof {
            let bb = b as u32;
            assert(bb < 32);
            assert(bb & 0x1f == bb) by (bit_vector)
                requires
                    bb < 32,
            ;
        }
        Psr(b as u32)
    }

    pub fn from_bits(bits: u32) -> (r: Psr)
        ensures
            r@ == bits,
    {
        Psr(bits)
    }

    pub fn bits(self) -> (r: u32)
        ensures
            r == self@,
    {
        self.0
    }

    pub fn negative(self) -> (r: bool)
        ensures
            r == bit_of(self@, 31),
    {
        self.bit(31)
    }

    pub fn zero(self) -> (r: bool)
        ensures
            r == bit_of(self@, 30),
    {
        self.bit(30)
    }

    pub fn carry(self) -> (r: bool)
        ensures
            r == bit_of(self@, 29),
    {
        self.bit(29)
    }

    pub fn overflow(self) -> (r: bool)
        ensures
            r == bit_of(self@, 28),
    {
        self.bit(28)
    }

    pub fn irq_disabled(self) -> (r: bool)
        ensures
            r == bit_of(self@, 7),
    {
        self.bit(7)
    }

    pub fn fiq_disabled(self) -> (r: bool)
        ensures
            r == bit_of(self@, 6),
    {
        self.bit(6)
    }

    pub fn thumb(self) -> (r: bool)
        ensures
            r == bit_of(self@, 5),
    {
        self.bit(5)
    }

    /// The operating mode; the mode field must name a mode.
    pub fn mode(self) -> (r: Mode)
        requires
            self.valid(),
        ensures
            psr_mode(self@) == Some(r),
            r == mode_of(self@),
    {
        let bits = (self.0 & 0x1f) as u8;
        match Mode::from_bits(bits) {
            Some(m) => m,
            None => Mode::User,
        }
    }

    pub fn set_negative(&mut self, value: bool)
        ensures
            final(self)@ == with_bit(old(self)@, 31, value),
    {
        self.set_bit(31, value);
    }

    pub fn set_zero(&mut self, value: bool)
        ensures
            final(self)@ == with_bit(old(self)@, 30, value),
    {
        self.set_bit(30, value);
    }

    pub fn set_carry(&mut self, value: bool)
        ensures
            final(self)@ == with_bit(old(self)@, 29, value),
    {
        self.set_bit(29, value);
    }

    pub fn set_overflow(&mut self, value: bool)
        ensures
            final(self)@ == with_bit(old(self)@, 28, value),
    {
        self.set_bit(28, value);
    }

    pub fn set_irq_disabled(&mut self, value: bool)
        ensures
            final(self)@ == with_bit(old(self)@, 7, value),
    {
        self.set_bit(7, value);
    }

    pub fn set_fiq_disabled(&mut self, value: bool)
        ensures
            final(self)@ == with_bit(old(self)@, 6, value),
    {
        self.set_bit(6, value);
    }

    pub fn set_thumb(&mut self, value: bool)
        ensures
            final(self)@ == with_bit(old(self)@, 5, value),
    {
        self.set_bit(5, value);
    }

    pub fn set_mode(&mut self, mode: Mode)
        ensures
            final(self)@ == with_mode(old(self)@, mode),
            final(self).valid(),
    {
        self.0 = (self.0 & !0x1fu32) | mode.bits() as u32;
        proof {
            lemma_with_mode(old(self)@, mode);
        }
    }

    /// Sets N from bit 31 of `result` and Z when `result` is zero.
    pub fn set_nz(&mut self, result: u32)
        ensures
            final(self)@ == with_nz(old(self)@, result),
    {
        self.set_negative((result & 0x8000_0000) != 0);
        self.set_zero(result == 0);
        proof {
            lemma_sign_bit(result);
        }
    }

    /// Sets all four condition flags.
    pub fn set_nzcv(&mut self, result: u32, carry: bool, overflow: bool)
        ensures
            final(self)@ == with_nzcv(old(self)@, result, carry, overflow),
    {
        self.set_nz(result);
        self.set_carry(carry);
        self.set_overflow(overflow);
    }

    fn bit(self, index: u32) -> (r: bool)
        requires
            index < 32,
        ensures
            r == bit_of(self@, index),
    {
        let v = self.0;
        assert((((v >> index) & 1) != 0) == ((v >> index) & 1 == 1)) by (bit_vector);
        ((v >> index) & 1) != 0
    }

    fn set_bit(&mut self, index: u32, value: bool)
        requires
            index < 32,
        ensures
            final(self)@ == with_bit(old(self)@, index, value),
    {
        if value {
            self.0 = self.0 | (1u32 << index);
        } else {
            self.0 = self.0 & !(1u32 << index);
        }
    }
}

/// The index of a mode's saved PSR in `SavedProgramStatusRegisters::view`.
pub open spec fn spsr_slot(mode: Mode) -> int {
    match mode {
        Mode::Fiq => 0,
        Mode::Irq => 1,
        Mode::Supervisor => 2,
        Mode::Abort => 3,
        Mode::Undefined => 4,
        Mode::User | Mode::System => -1,
    }
}

/// Saved program status registers for exception modes.
#[derive(Debug, Clone, Copy, PartialEq, Eq, Structural)]
pub struct SavedProgramStatusRegisters {
    fiq: Psr,
    irq: Psr,
    svc: Psr,
    abt: Psr,
    und: Psr,
}

impl View for SavedProgramStatusRegisters {
    type V = Seq<u32>;

    closed spec fn view(&self) -> Seq<u32> {
        seq![self.fiq@, self.irq@, self.svc@, self.abt@, self.und@]
    }
}

impl SavedProgramStatusRegisters {
    pub proof fn lemma_view_len(self)
        ensures
            self@.len() == 5,
    {
    }

    /// Five saved PSRs, each holding User mode.
    pub fn new() -> (r: SavedProgramStatusRegisters)
        ensures
            r@.len() == 5,
            forall|i: int| 0 <= i < 5 ==> r@[i] == 0x10,
    {
        let initial = Psr::new(Mode::User);
        SavedProgramStatusRegisters {
            fiq: initial,
            irq: initial,
            svc: initial,
            abt: initial,
            und: initial,
        }
    }

    /// The saved PSR of `mode`; `None` for User and System.
    pub fn get(&self, mode: Mode) -> (r: Option<Psr>)
        ensures
            self@.len() == 5,
            r is Some <==> mode_has_spsr(mode),
            r is Some ==> r->0@ == self@[spsr_slot(mode)],
    {
        match mode {
            Mode::Fiq => Some(self.fiq),
            Mode::Irq => Some(self.irq),
            Mode::Supervisor => Some(self.svc),
            Mode::Abort => Some(self.abt),
            Mode::Undefined => Some(self.und),
            Mode::User | Mode::System => None,
        }
    }

    /// A mutable reference to the saved PSR of `mode`; `None` for User and
    /// System. What is written through it lands in that mode's slot only.
    pub fn get_mut(&mut self, mode: Mode) -> (r: Option<&mut Psr>)
        ensures
            r is Some <==> mode_has_spsr(mode),
            match r {
                Some(p) => p@ == old(self)@[spsr_slot(mode)] && final(self)@ == old(self)@.update(
                    spsr_slot(mode),
                    final(p)@,
                ),
                None => *final(self) == *old(self),
            },
    {
        match mode {
            Mode::Fiq => Some(&mut self.fiq),
            Mode::Irq => Some(&mut self.irq),
            Mode::Supervisor => Some(&mut self.svc),
            Mode::Abort => Some(&mut self.abt),
            Mode::Undefined => Some(&mut self.und),
            Mode::User | Mode::System => None,
        }
    }

    /// Replaces the saved PSR of `mode`; returns false (and changes nothing)
    /// for User and System.
    pub fn set(&mut self, mode: Mode, value: Psr) -> (r: bool)
        ensures
            r == mode_has_spsr(mode),
            r ==> final(self)@ == old(self)@.update(spsr_slot(mode), value@),
            !r ==> final(self)@ == old(self)@,
            final(self)@.len() == 5,
    {
        if let Some(slot) = self.get_mut(mode) {
            *slot = value;
            true
        } else {
            false
        }
    }
}

impl Default for Psr {
    fn default() -> (r: Psr)
        ensures
            r@ == 0x10,
    {
        Psr::new(Mode::User)
    }
}

impl Default for SavedProgramStatusRegisters {
    fn default() -> (r: SavedProgramStatusRegisters)
        ensures
            r@.len() == 5,
            forall|i: int| 0 <= i < 5 ==> r@[i] == 0x10,
    {
        SavedProgramStatusRegisters::new()
    }
}

} // verus!
