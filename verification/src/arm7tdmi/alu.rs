//! ALU and barrel-shifter helpers shared by ARM and Thumb instructions.
use vstd::prelude::*;
use crate::arm7tdmi::psr::bit_of;
use vstd::arithmetic::power2::pow2;

verus! {

/// ARM barrel-shifter operation kinds.
#[derive(Debug, Clone, Copy, PartialEq, Eq, Structural)]
pub enum ShiftKind {
    Lsl,
    Lsr,
    Asr,
    Ror,
}

/// Result of a shift/rotate operation.
#[derive(Debug, Clone, Copy, PartialEq, Eq, Structural)]
pub struct ShiftResult {
    pub value: u32,
    pub carry_out: bool,
}

/// Result of add/sub-style arithmetic.
#[derive(Debug, Clone, Copy, PartialEq, Eq, Structural)]
pub struct ArithmeticResult {
    pub value: u32,
    pub carry_out: bool,
    pub overflow: bool,
}

/// A word read as a two's-complement integer.
pub open spec fn signed32(x: u32) -> int {
    if x < 0x8000_0000 {
        x as int
    } else {
        x as int - 0x1_0000_0000
    }
}

/// `lhs + rhs + carry_in`: the low 32 bits, the unsigned carry out and the
/// signed overflow.
pub open spec fn add_with_carry_spec(lhs: u32, rhs: u32, carry_in: bool) -> ArithmeticResult {
    let c: int = if carry_in { 1 } else { 0 };
    let sum: int = lhs as int + rhs as int + c;
    let signed_sum: int = signed32(lhs) + signed32(rhs) + c;
    ArithmeticResult {
        value: (sum % 0x1_0000_0000) as u32,
        carry_out: sum > 0xffff_ffff,
        overflow: signed_sum < -0x8000_0000 || signed_sum > 0x7fff_ffff,
    }
}

pub fn add_with_carry(lhs: u32, rhs: u32, carry_in: bool) -> (r: ArithmeticResult)
    ensures
        r == add_with_carry_spec(lhs, rhs, carry_in),
{
    let carry: u64 = if carry_in {
        1
    } else {
        0
    };
    let unsigned_sum: u64 = lhs as u64 + rhs as u64 + carry;
    let value: u32 = if unsigned_sum > 0xffff_ffff {
        (unsigned_sum - 0x1_0000_0000) as u32
    } else {
        unsigned_sum as u32
    };
    let carry_out = unsigned_sum > 0xffff_ffff;
    let sl: i64 = if lhs < 0x8000_0000 {
        lhs as i64
    } else {
        lhs as i64 - 0x1_0000_0000
    };
    let sr: i64 = if rhs < 0x8000_0000 {
        rhs as i64
    } else {
        rhs as i64 - 0x1_0000_0000
    };
    let signed_sum: i64 = sl + sr + carry as i64;
    let overflow = signed_sum < -0x8000_0000 || signed_sum > 0x7fff_ffff;
    ArithmeticResult { value, carry_out, overflow }
}

/// Subtraction as the ALU performs it: `a - b` is `a + !b + 1`, and the carry
/// out is set exactly when no borrow occurs (`a >= b`).
pub proof fn lemma_subtract_via_add_with_carry(a: u32, b: u32)
    ensures
        add_with_carry_spec(a, !b, true).value == (a as int - b as int + 0x1_0000_0000)
            % 0x1_0000_0000,
        add_with_carry_spec(a, !b, true).carry_out == (a >= b),
        add_with_carry_spec(a, !b, true).value == 0 <==> a == b,
{
    assert(!b == 0xffff_ffff - b) by (bit_vector);
}

/// The bitwise complement of a word is all ones less the word.
pub proof fn lemma_not_is_complement(b: u32)
    ensures
        !b as int == 0xffff_ffff - b as int,
{
    lemma_subtract_via_add_with_carry(0, b);
    assert(add_with_carry_spec(0, !b, true).value == (!b as int + 1) % 0x1_0000_0000);
}

/// `value << amount` for amounts up to 31, with the last bit shifted out as
/// carry; 32 clears the value and carries bit 0; more clears both; 0 keeps
/// the value and the incoming carry.
pub open spec fn lsl_spec(value: u32, amount: u8, carry_in: bool) -> ShiftResult {
    if amount == 0 {
        ShiftResult { value, carry_out: carry_in }
    } else if amount < 32 {
        ShiftResult { value: value << amount, carry_out: bit_of(value, (32 - amount) as u32) }
    } else if amount == 32 {
        ShiftResult { value: 0, carry_out: bit_of(value, 0) }
    } else {
        ShiftResult { value: 0, carry_out: false }
    }
}

/// Logical right shift by a register amount in 1..=255.
pub open spec fn lsr_spec(value: u32, amount: u8) -> ShiftResult {
    if 1 <= amount < 32 {
        ShiftResult { value: value >> amount, carry_out: bit_of(value, (amount - 1) as u32) }
    } else if amount == 32 {
        ShiftResult { value: 0, carry_out: bit_of(value, 31) }
    } else {
        ShiftResult { value: 0, carry_out: false }
    }
}

/// All ones when bit 31 is set, else zero.
pub open spec fn sign_fill_spec(value: u32) -> u32 {
    if bit_of(value, 31) {
        0xffff_ffff
    } else {
        0
    }
}

/// Arithmetic (sign-propagating) right shift of a word by 0..=31.
pub open spec fn asr_value(value: u32, amount: u8) -> u32 {
    if bit_of(value, 31) {
        !((!value) >> amount)
    } else {
        value >> amount
    }
}

/// Arithmetic right shift by a register amount in 1..=255.
pub open spec fn asr_spec(value: u32, amount: u8) -> ShiftResult {
    if 1 <= amount < 32 {
        ShiftResult { value: asr_value(value, amount), carry_out: bit_of(value, (amount - 1) as u32) }
    } else {
        ShiftResult { value: sign_fill_spec(value), carry_out: bit_of(value, 31) }
    }
}

/// `value` rotated right by `r` in 1..=31.
pub open spec fn rotate_right_spec(value: u32, r: u32) -> u32 {
    (value >> r) | (value << ((32 - r) as u32))
}

/// Rotate right by a register amount in 1..=255: only the low five bits
/// count; a multiple of 32 keeps the value and carries bit 31.
pub open spec fn ror_spec(value: u32, amount: u8) -> ShiftResult {
    let rotate = amount & 0x1f;
    if rotate == 0 {
        ShiftResult { value, carry_out: bit_of(value, 31) }
    } else {
        ShiftResult {
            value: rotate_right_spec(value, rotate as u32),
            carry_out: bit_of(value, (rotate - 1) as u32),
        }
    }
}

/// Barrel shifter with an amount encoded in an instruction (0..=31), where
/// an amount of 0 means LSR #32, ASR #32 and RRX for the right shifts.
pub open spec fn shift_immediate_spec(
    kind: ShiftKind,
    value: u32,
    amount: u8,
    carry_in: bool,
) -> ShiftResult {
    match kind {
        ShiftKind::Lsl => lsl_spec(value, amount, carry_in),
        ShiftKind::Lsr => if amount == 0 {
            ShiftResult { value: 0, carry_out: bit_of(value, 31) }
        } else {
            lsr_spec(value, amount)
        },
        ShiftKind::Asr => if amount == 0 {
            ShiftResult { value: sign_fill_spec(value), carry_out: bit_of(value, 31) }
        } else {
            asr_spec(value, amount)
        },
        ShiftKind::Ror => if amount == 0 {
            ShiftResult {
                value: ((if carry_in { 1u32 } else { 0u32 }) << 31u32) | (value >> 1u32),
                carry_out: bit_of(value, 0),
            }
        } else {
            ror_spec(value, amount)
        },
    }
}

/// Barrel shifter with an amount taken from a register's low byte; an amount
/// of 0 leaves the value and the carry untouched.
pub open spec fn shift_register_spec(
    kind: ShiftKind,
    value: u32,
    amount: u8,
    carry_in: bool,
) -> ShiftResult {
    if amount == 0 {
        ShiftResult { value, carry_out: carry_in }
    } else {
        match kind {
            ShiftKind::Lsl => lsl_spec(value, amount, carry_in),
            ShiftKind::Lsr => lsr_spec(value, amount),
            ShiftKind::Asr => asr_spec(value, amount),
            ShiftKind::Ror => ror_spec(value, amount),
        }
    }
}

pub fn shift_immediate(kind: ShiftKind, value: u32, amount: u8, carry_in: bool) -> (r: ShiftResult)
    ensures
        r == shift_immediate_spec(kind, value, amount, carry_in),
{
    match kind {
        ShiftKind::Lsl => lsl(value, amount, carry_in),
        ShiftKind::Lsr => lsr_immediate(value, amount),
        ShiftKind::Asr => asr_immediate(value, amount),
        ShiftKind::Ror => ror_immediate(value, amount, carry_in),
    }
}

pub fn shift_register(kind: ShiftKind, value: u32, amount: u8, carry_in: bool) -> (r: ShiftResult)
    ensures
        r == shift_register_spec(kind, value, amount, carry_in),
{
    if amount == 0 {
        return ShiftResult { value, carry_out: carry_in };
    }
    match kind {
        ShiftKind::Lsl => lsl(value, amount, carry_in),
        ShiftKind::Lsr => lsr_register(value, amount),
        ShiftKind::Asr => asr_register(value, amount),
        ShiftKind::Ror => ror_register(value, amount),
    }
}

fn lsl(value: u32, amount: u8, carry_in: bool) -> (r: ShiftResult)
    ensures
        r == lsl_spec(value, amount, carry_in),
{
    if amount == 0 {
        ShiftResult { value, carry_out: carry_in }
    } else if amount < 32 {
        ShiftResult { value: value << amount, carry_out: bit(value, 32 - amount) }
    } else if amount == 32 {
        ShiftResult { value: 0, carry_out: bit(value, 0) }
    } else {
        ShiftResult { value: 0, carry_out: false }
    }
}

fn lsr_immediate(value: u32, amount: u8) -> (r: ShiftResult)
    ensures
        r == shift_immediate_spec(ShiftKind::Lsr, value, amount, false),
{
    if amount == 0 {
        ShiftResult { value: 0, carry_out: bit(value, 31) }
    } else {
        lsr_register(value, amount)
    }
}

fn lsr_register(value: u32, amount: u8) -> (r: ShiftResult)
    ensures
        r == lsr_spec(value, amount),
{
    if 1 <= amount && amount < 32 {
        ShiftResult { value: value >> amount, carry_out: bit(value, amount - 1) }
    } else if amount == 32 {
        ShiftResult { value: 0, carry_out: bit(value, 31) }
    } else {
        ShiftResult { value: 0, carry_out: false }
    }
}

fn asr_immediate(value: u32, amount: u8) -> (r: ShiftResult)
    ensures
        r == shift_immediate_spec(ShiftKind::Asr, value, amount, false),
{
    if amount == 0 {
        ShiftResult { value: sign_fill(value), carry_out: bit(value, 31) }
    } else {
        asr_register(value, amount)
    }
}

fn asr_register(value: u32, amount: u8) -> (r: ShiftResult)
    ensures
        r == asr_spec(value, amount),
{
    if 1 <= amount && amount < 32 {
        let shifted = if bit(value, 31) {
            !((!value) >> amount)
        } else {
            value >> amount
        };
        ShiftResult { value: shifted, carry_out: bit(value, amount - 1) }
    } else {
        ShiftResult { value: sign_fill(value), carry_out: bit(value, 31) }
    }
}

fn ror_immediate(value: u32, amount: u8, carry_in: bool) -> (r: ShiftResult)
    ensures
        r == shift_immediate_spec(ShiftKind::Ror, value, amount, carry_in),
{
    if amount == 0 {
        let c: u32 = if carry_in {
            1
        } else {
            0
        };
        ShiftResult { value: (c << 31u32) | (value >> 1u32), carry_out: bit(value, 0) }
    } else {
        ror_register(value, amount)
    }
}

fn ror_register(value: u32, amount: u8) -> (r: ShiftResult)
    ensures
        r == ror_spec(value, amount),
{
    let rotate = amount & 0x1f;
    assert(rotate < 32) by (bit_vector)
        requires
            rotate == amount & 0x1f,
    ;
    if rotate == 0 {
        ShiftResult { value, carry_out: bit(value, 31) }
    } else {
        ShiftResult { value: rotate_right(value, rotate as u32), carry_out: bit(value, rotate - 1) }
    }
}

/// `value` rotated right by `r` bit positions, `r` in 1..=31.
pub fn rotate_right(value: u32, r: u32) -> (out: u32)
    requires
        1 <= r < 32,
    ensures
        out == rotate_right_spec(value, r),
{
    (value >> r) | (value << (32 - r))
}

fn sign_fill(value: u32) -> (r: u32)
    ensures
        r == sign_fill_spec(value),
{
    if bit(value, 31) {
        u32::MAX
    } else {
        0
    }
}

fn bit(value: u32, index: u8) -> (r: bool)
    requires
        index < 32,
    ensures
        r == bit_of(value, index as u32),
{
    let i = index as u32;
    proof {
        lemma_shift_bits(value, index, i, 0);
    }
    ((value >> i) & 1) != 0
}

/// Bit-level facts behind the shifter: a shift by a byte amount is the shift
/// by the same word amount; bit `k` is the parity of the word shifted right
/// `k` places; a left shift by `n` only sees the low `32 - n` bits; a
/// rotation adds the bits rotated in above the bits shifted down; RRX puts
/// the carry above the halved word; a byte's low five bits are clear only
/// on multiples of 32.
proof fn lemma_shift_bits(x: u32, n: u8, k: u32, m: u8)
    by (bit_vector)
    requires
        n < 32,
        k < 32,
    ensures
        x >> n == x >> (n as u32),
        x << n == x << (n as u32),
        n & 0x1f == n,
        (((x >> k) & 1) != 0) == ((x >> k) & 1 == 1),
        ((x >> k) & 1 == 1) == ((x >> k) % 2 == 1),
        1 <= n ==> x << (n as u32) == ((x & (((1u32 << ((32 - n) as u32)) - 1) as u32)) << (n as u32)),
        1 <= n ==> (x >> (n as u32)) | (x << ((32 - n) as u32)) == (x >> (n as u32)) + ((x & (((1u32
            << (n as u32)) - 1) as u32)) << ((32 - n) as u32)),
        ((1u32 << 31u32) | (x >> 1u32)) == (x >> 1u32) + 0x8000_0000,
        ((0u32 << 31u32) | (x >> 1u32)) == x >> 1u32,
        (m & 0x1f == 0) == (m == 0 || m == 32 || m == 64 || m == 96 || m == 128 || m == 160 || m == 192
            || m == 224),
{
}

/// `1 << k` is 2^k.
proof fn lemma_one_shl(k: u32)
    requires
        k < 32,
    ensures
        (1u32 << k) == pow2(k as nat),
{
    vstd::bits::lemma_u32_pow2_no_overflow(k as nat);
    vstd::bits::lemma_u32_shl_is_mul(1, k);
}

/// The low `32 - n` bits of `x` moved up `n` places: `x * 2^n` wrapped to
/// 32 bits, and the bits `x % 2^n` moved up `32 - n` places without loss.
#[verifier::spinoff_prover]
#[verifier::rlimit(40)]
proof fn lemma_low_bits_up(x: u32, n: u32)
    requires
        1 <= n < 32,
    ensures
        ((x & (((1u32 << ((32 - n) as u32)) - 1) as u32)) << n) == (x as int * (pow2(n as nat) as int)) % 0x1_0000_0000,
        ((x & (((1u32 << n) - 1) as u32)) << ((32 - n) as u32)) == (x as int % (pow2(n as nat) as int)) * (pow2((32 - n) as nat) as int),
{
    let m = (32 - n) as u32;
    lemma_one_shl(m);
    lemma_one_shl(n);
    vstd::arithmetic::power2::lemma_pow2_adds(m as nat, n as nat);
    vstd::arithmetic::power2::lemma2_to64();
    let pm = pow2(m as nat) as int;
    let pn = pow2(n as nat) as int;
    assert(pm * pn == 0x1_0000_0000);
    assert(pm > 0 && pn > 0);
    let lo = x & (((1u32 << m) - 1) as u32);
    vstd::bits::lemma_u32_low_bits_mask_is_mod(x, m as nat);
    assert(lo as int == x as int % pm);
    assert(lo as int * pn < 0x1_0000_0000) by (nonlinear_arith)
        requires
            0 <= lo < pm,
            pn > 0,
            pm * pn == 0x1_0000_0000,
    ;
    vstd::bits::lemma_u32_shl_is_mul(lo, n);
    let q = x as int / pm;
    vstd::arithmetic::div_mod::lemma_fundamental_div_mod(x as int, pm);
    assert(x as int * pn == q * 0x1_0000_0000 + lo as int * pn) by (nonlinear_arith)
        requires
            x as int == pm * q + lo as int,
            pm * pn == 0x1_0000_0000,
    ;
    vstd::arithmetic::div_mod::lemma_mod_multiples_vanish(q, lo as int * pn, 0x1_0000_0000);
    vstd::arithmetic::div_mod::lemma_small_mod((lo as int * pn) as nat, 0x1_0000_0000);
    let lo2 = x & (((1u32 << n) - 1) as u32);
    vstd::bits::lemma_u32_low_bits_mask_is_mod(x, n as nat);
    assert(lo2 as int == x as int % pn);
    assert(lo2 as int * pm < 0x1_0000_0000) by (nonlinear_arith)
        requires
            0 <= lo2 < pn,
            pm > 0,
            pm * pn == 0x1_0000_0000,
    ;
    vstd::bits::lemma_u32_shl_is_mul(lo2, m);
}

/// The barrel shifter's immediate shifts by 1 to 31 places, as arithmetic:
/// LSL multiplies by 2^n (wrapping) and carries out the last bit shifted
/// out, bit `32 - n`; LSR divides by 2^n and carries out bit `n - 1`; ASR
/// divides a non-negative word by 2^n and fills a negative one's vacated
/// top bits with ones, carrying out bit `n - 1`; ROR moves the low `n`
/// bits to the top, carrying out bit `n - 1`.
#[verifier::spinoff_prover]
#[verifier::rlimit(40)]
pub proof fn lemma_shifter_arithmetic(x: u32, n: u8, c: bool)
    requires
        1 <= n < 32,
    ensures
        shift_immediate_spec(ShiftKind::Lsl, x, n, c).value == (x as int * (pow2(n as nat) as int)) % 0x1_0000_0000,
        shift_immediate_spec(ShiftKind::Lsl, x, n, c).carry_out == ((x as int / (pow2((32 - n) as nat) as int)) % 2 == 1),
        shift_immediate_spec(ShiftKind::Lsr, x, n, c).value == x as int / (pow2(n as nat) as int),
        shift_immediate_spec(ShiftKind::Lsr, x, n, c).carry_out == ((x as int / (pow2((n - 1) as nat) as int)) % 2 == 1),
        shift_immediate_spec(ShiftKind::Asr, x, n, c).value == (if x < 0x8000_0000 {
            x as int / (pow2(n as nat) as int)
        } else {
            0xffff_ffff - (0xffff_ffff - x as int) / (pow2(n as nat) as int)
        }),
        shift_immediate_spec(ShiftKind::Asr, x, n, c).carry_out == ((x as int / (pow2((n - 1) as nat) as int)) % 2 == 1),
        shift_immediate_spec(ShiftKind::Ror, x, n, c).value == x as int / (pow2(n as nat) as int) + (x as int % (pow2(n as nat) as int)) * (pow2((32 - n) as nat) as int),
        shift_immediate_spec(ShiftKind::Ror, x, n, c).carry_out == ((x as int / (pow2((n - 1) as nat) as int)) % 2 == 1),
        rotate_right_spec(x, n as u32) == x as int / (pow2(n as nat) as int) + (x as int % (pow2(n as nat) as int)) * (pow2((32 - n) as nat) as int),
{
    let k = n as u32;
    lemma_shift_bits(x, n, (32 - n) as u32, 0);
    lemma_shift_bits(x, n, (n - 1) as u32, 0);
    lemma_shift_bits(!x, n, 0, 0);
    lemma_low_bits_up(x, k);
    vstd::bits::lemma_u32_shr_is_div(x, k);
    vstd::bits::lemma_u32_shr_is_div(x, (32 - n) as u32);
    vstd::bits::lemma_u32_shr_is_div(x, (n - 1) as u32);
    vstd::bits::lemma_u32_shr_is_div(!x, k);
    lemma_not_is_complement(x);
    lemma_not_is_complement(!x >> k);
    crate::arm7tdmi::psr::lemma_sign_bit(x);
}

/// Shifts by a register amount: 1 to 31 places shift as the immediate
/// forms do; 0 passes the word and the carry through; 32 places clear the
/// word for LSL (carrying bit 0) and LSR (carrying bit 31); more clear the
/// word and the carry; ASR by 32 or more fills the word with its sign,
/// carrying it; ROR by a multiple of 32 keeps the word, carrying bit 31.
#[verifier::spinoff_prover]
#[verifier::rlimit(40)]
pub proof fn lemma_register_shifts(kind: ShiftKind, x: u32, n: u8, c: bool)
    ensures
        1 <= n < 32 ==> shift_register_spec(kind, x, n, c) == shift_immediate_spec(kind, x, n, c),
        n == 0 ==> shift_register_spec(kind, x, n, c) == (ShiftResult { value: x, carry_out: c }),
        n == 32 ==> shift_register_spec(ShiftKind::Lsl, x, n, c) == (ShiftResult { value: 0, carry_out: x % 2 == 1 }),
        n == 32 ==> shift_register_spec(ShiftKind::Lsr, x, n, c) == (ShiftResult { value: 0, carry_out: x >= 0x8000_0000 }),
        n > 32 ==> shift_register_spec(ShiftKind::Lsl, x, n, c) == (ShiftResult { value: 0, carry_out: false }),
        n > 32 ==> shift_register_spec(ShiftKind::Lsr, x, n, c) == (ShiftResult { value: 0, carry_out: false }),
        n >= 32 ==> shift_register_spec(ShiftKind::Asr, x, n, c) == (ShiftResult {
            value: if x >= 0x8000_0000 { 0xffff_ffff } else { 0 },
            carry_out: x >= 0x8000_0000,
        }),
        (n != 0 && n % 32 == 0) ==> shift_register_spec(ShiftKind::Ror, x, n, c) == (ShiftResult { value: x, carry_out: x >= 0x8000_0000 }),
{
    crate::arm7tdmi::psr::lemma_sign_bit(x);
    lemma_shift_bits(x, 1, 0, 0);
    vstd::bits::lemma_u32_shr_is_div(x, 0);
    vstd::arithmetic::power2::lemma2_to64();
    lemma_shift_bits(x, 0, 0, n);
}

/// The immediate encodings of amount 0: LSL #0 passes the word and the
/// carry through; LSR #32 gives 0 and carries out bit 31; ASR #32 gives all
/// ones for a negative word and 0 otherwise, carrying out bit 31; RRX
/// halves the word, puts the incoming carry in bit 31 and carries out bit 0.
pub proof fn lemma_shifter_amount_zero(x: u32, c: bool)
    ensures
        shift_immediate_spec(ShiftKind::Lsl, x, 0, c) == (ShiftResult { value: x, carry_out: c }),
        shift_immediate_spec(ShiftKind::Lsr, x, 0, c) == (ShiftResult { value: 0, carry_out: x >= 0x8000_0000 }),
        shift_immediate_spec(ShiftKind::Asr, x, 0, c) == (ShiftResult {
            value: if x >= 0x8000_0000 { 0xffff_ffff } else { 0 },
            carry_out: x >= 0x8000_0000,
        }),
        shift_immediate_spec(ShiftKind::Ror, x, 0, c).value == x as int / 2 + (if c { 0x8000_0000int } else { 0 }),
        shift_immediate_spec(ShiftKind::Ror, x, 0, c).carry_out == (x % 2 == 1),
{
    crate::arm7tdmi::psr::lemma_sign_bit(x);
    lemma_shift_bits(x, 1, 0, 0);
    vstd::bits::lemma_u32_shr_is_div(x, 1);
    vstd::bits::lemma_u32_shr_is_div(x, 0);
    vstd::arithmetic::power2::lemma2_to64();
}

} // verus!
