//! Reading and writing bit fields of unsigned integers.
use vstd::prelude::*;
use vstd::arithmetic::power2::{pow2, lemma_pow2_pos, lemma2_to64};
use vstd::bits::low_bits_mask;
use vstd::bits::{lemma_u8_shr_is_div, lemma_u8_low_bits_mask_is_mod, lemma_u8_shl_is_mul, lemma_u8_pow2_no_overflow};
use vstd::bits::{lemma_u16_shr_is_div, lemma_u16_low_bits_mask_is_mod, lemma_u16_shl_is_mul, lemma_u16_pow2_no_overflow};
use vstd::bits::{lemma_u32_shr_is_div, lemma_u32_low_bits_mask_is_mod, lemma_u32_shl_is_mul, lemma_u32_pow2_no_overflow};
use vstd::bits::{lemma_u64_shr_is_div, lemma_u64_low_bits_mask_is_mod, lemma_u64_shl_is_mul, lemma_u64_pow2_no_overflow};

verus! {

/// The `length`-bit field of `x` that starts at bit `shift`, read as a number.
pub open spec fn field(x: nat, shift: nat, length: nat) -> nat {
    (x / pow2(shift)) % pow2(length)
}

/// Whether bit `i` of `x` is set.
pub open spec fn bit_set(x: nat, i: nat) -> bool {
    field(x, i, 1) == 1
}

/// Reading a bit field.
pub trait GetBits: Sized {
    /// The number of bits of the type.
    spec fn width() -> nat;

    /// The value as a natural number.
    spec fn value(&self) -> nat;

    /// The field of `length` bits at `shift`, as the type computes it.
    spec fn field_of(&self, shift: Self, length: Self) -> Self;

    /// Bits `shift..shift + length` of `self`, moved down to bit 0.
    fn get_bits(&self, shift: Self, length: Self) -> (r: Self)
        requires
            shift.value() < Self::width(),
            length.value() < Self::width(),
        ensures
            r == self.field_of(shift, length),
            r.value() == field(self.value(), shift.value(), length.value()),
    ;

    /// Whether bit `shift` of `self` is set.
    fn get_bit(&self, shift: Self) -> (r: bool)
        requires
            shift.value() < Self::width(),
        ensures
            r == bit_set(self.value(), shift.value()),
    ;
}

/// Writing a bit field.
pub trait SetBits: Sized {
    /// The number of bits of the type.
    spec fn width() -> nat;

    /// The value as a natural number.
    spec fn value(&self) -> nat;

    /// `self` with the field of `length` bits at `shift` replaced by the low bits of `val`.
    spec fn with_field(&self, shift: Self, length: Self, val: Self) -> Self;

    /// Replaces bits `shift..shift + length` by the low bits of `val`; bits that would
    /// land at or above the width of the type are dropped.
    fn set_bits(&mut self, shift: Self, length: Self, val: Self)
        requires
            shift.value() < Self::width(),
            length.value() < Self::width(),
        ensures
            *final(self) == old(self).with_field(shift, length, val),
            forall|i: nat|
                i < Self::width() ==> #[trigger] bit_set(final(self).value(), i) == if shift.value()
                    <= i < shift.value() + length.value() {
                    bit_set(val.value(), (i - shift.value()) as nat)
                } else {
                    bit_set(old(self).value(), i)
                },
    ;

    /// Sets bit `shift` to `enable`, leaving the other bits as they were.
    fn set_bit(&mut self, shift: Self, enable: bool)
        requires
            shift.value() < Self::width(),
        ensures
            forall|i: nat|
                i < Self::width() ==> #[trigger] bit_set(final(self).value(), i) == if i
                    == shift.value() {
                    enable
                } else {
                    bit_set(old(self).value(), i)
                },
    ;
}

/// Mask of the low `length` bits.
pub open spec fn low_mask_u8(length: u8) -> u8 {
    ((1u8 << length) - 1) as u8
}

/// The field of `length` bits at `shift` of `x`, in bit operations.
pub open spec fn field_u8(x: u8, shift: u8, length: u8) -> u8 {
    (x >> shift) & low_mask_u8(length)
}

/// `x` with the field of `length` bits at `shift` replaced by the low bits of `val`.
pub open spec fn with_field_u8(x: u8, shift: u8, length: u8, val: u8) -> u8 {
    (x & !(low_mask_u8(length) << shift)) | ((val << shift) & (low_mask_u8(length) << shift))
}

/// Facts about bit fields of a `u8` that the bit vector solver proves.
proof fn lemma_bv_u8(x: u8, shift: u8, length: u8, val: u8, j: u8, k: u8)
    by (bit_vector)
    requires
        shift < 8,
        length < 8,
        j < 8,
    ensures
        1u8 << length >= 1,
        field_u8(x, shift, 1) == ((x >> shift) & 1u8),
        shift <= j && j < shift + length && k == j - shift ==> ((with_field_u8(x, shift, length, val) >> j) & 1u8) == ((val >> k) & 1u8),
        !(shift <= j && j < shift + length) ==> ((with_field_u8(x, shift, length, val) >> j) & 1u8) == ((x >> j) & 1u8),
        x <= 1 ==> (x >> 0u8) & 1u8 == x,
        shift + length <= 8 ==> field_u8(with_field_u8(x, shift, length, val), shift, length) == field_u8(val, 0, length),
{
}

pub proof fn lemma_bit_u8(x: u8, i: u8)
    requires
        i < 8,
    ensures
        bit_set(x as nat, i as nat) == ((x >> i) & 1u8 == 1u8),
{
    lemma_u8_shr_is_div(x, i);
    lemma_u8_low_bits_mask_is_mod(x >> i, 1);
    lemma2_to64();
}

pub proof fn lemma_field_u8(x: u8, shift: u8, length: u8)
    requires
        shift < 8,
        length < 8,
    ensures
        field_u8(x, shift, length) as nat == field(x as nat, shift as nat, length as nat),
{
    lemma_u8_shr_is_div(x, shift);
    lemma_u8_pow2_no_overflow(length as nat);
    lemma_u8_shl_is_mul(1, length);
    lemma_u8_low_bits_mask_is_mod(x >> shift, length as nat);
}

impl GetBits for u8 {
    open spec fn width() -> nat {
        8
    }

    open spec fn value(&self) -> nat {
        *self as nat
    }

    open spec fn field_of(&self, shift: u8, length: u8) -> u8 {
        field_u8(*self, shift, length)
    }

    fn get_bits(&self, shift: u8, length: u8) -> (r: u8) {
        proof {
            lemma_field_u8(*self, shift, length);
        }
        proof {
            lemma_bv_u8(0, 0, length, 0, 0, 0);
        }
        let mask = (1u8 << length) - 1;
        (*self >> shift) & mask
    }

    fn get_bit(&self, shift: u8) -> (r: bool) {
        proof {
            lemma_bit_u8(*self, shift);
            lemma_field_u8(*self, shift, 1);
        }
        proof {
            lemma_bv_u8(*self, shift, 1, 0, 0, 0);
        }
        self.get_bits(shift, 1) == 1
    }
}

impl SetBits for u8 {
    open spec fn width() -> nat {
        8
    }

    open spec fn value(&self) -> nat {
        *self as nat
    }

    open spec fn with_field(&self, shift: u8, length: u8, val: u8) -> u8 {
        with_field_u8(*self, shift, length, val)
    }

    fn set_bits(&mut self, shift: u8, length: u8, val: u8)
        ensures
            forall|i: nat|
                i < 8 ==> #[trigger] bit_set(*final(self) as nat, i) == if shift <= i < shift
                    + length {
                    bit_set(val as nat, (i - shift) as nat)
                } else {
                    bit_set(*old(self) as nat, i)
                },
    {
        let x = *self;
        proof {
            lemma_bv_u8(0, 0, length, 0, 0, 0);
        }
        let mut mask = (1u8 << length) - 1;
        mask <<= shift;
        *self &= !mask;
        *self |= (val << shift) & mask;
        let r = *self;
        assert(r == with_field_u8(x, shift, length, val));
        assert forall|i: nat| i < 8 implies #[trigger] bit_set(r as nat, i) == if shift <= i
            < shift + length {
            bit_set(val as nat, (i - shift) as nat)
        } else {
            bit_set(x as nat, i)
        } by {
            let j = i as u8;
            lemma_bit_u8(r, j);
            lemma_bit_u8(x, j);
            if shift <= i < shift + length {
                let k = (j - shift) as u8;
                lemma_bit_u8(val, k);
                lemma_bv_u8(x, shift, length, val, j, k);
            } else {
                lemma_bv_u8(x, shift, length, val, j, 0);
            }
        }
    }

    fn set_bit(&mut self, shift: u8, enable: bool)
        ensures
            *final(self) == with_field_u8(*old(self), shift, 1, if enable {
                1
            } else {
                0
            }),
            forall|i: nat|
                i < 8 ==> #[trigger] bit_set(*final(self) as nat, i) == if i == shift {
                    enable
                } else {
                    bit_set(*old(self) as nat, i)
                },
    {
        let v: u8 = if enable {
            1
        } else {
            0
        };
        proof {
            lemma_bit_u8(v, 0);
        }
        proof {
            lemma_bv_u8(v, 0, 0, 0, 0, 0);
        }
        self.set_bits(shift, 1, v);
    }
}

/// Mask of the low `length` bits.
pub open spec fn low_mask_u16(length: u16) -> u16 {
    ((1u16 << length) - 1) as u16
}

/// The field of `length` bits at `shift` of `x`, in bit operations.
pub open spec fn field_u16(x: u16, shift: u16, length: u16) -> u16 {
    (x >> shift) & low_mask_u16(length)
}

/// `x` with the field of `length` bits at `shift` replaced by the low bits of `val`.
pub open spec fn with_field_u16(x: u16, shift: u16, length: u16, val: u16) -> u16 {
    (x & !(low_mask_u16(length) << shift)) | ((val << shift) & (low_mask_u16(length) << shift))
}

/// Facts about bit fields of a `u16` that the bit vector solver proves.
proof fn lemma_bv_u16(x: u16, shift: u16, length: u16, val: u16, j: u16, k: u16)
    by (bit_vector)
    requires
        shift < 16,
        length < 16,
        j < 16,
    ensures
        1u16 << length >= 1,
        field_u16(x, shift, 1) == ((x >> shift) & 1u16),
        shift <= j && j < shift + length && k == j - shift ==> ((with_field_u16(x, shift, length, val) >> j) & 1u16) == ((val >> k) & 1u16),
        !(shift <= j && j < shift + length) ==> ((with_field_u16(x, shift, length, val) >> j) & 1u16) == ((x >> j) & 1u16),
        x <= 1 ==> (x >> 0u16) & 1u16 == x,
        shift + length <= 16 ==> field_u16(with_field_u16(x, shift, length, val), shift, length) == field_u16(val, 0, length),
{
}

pub proof fn lemma_bit_u16(x: u16, i: u16)
    requires
        i < 16,
    ensures
        bit_set(x as nat, i as nat) == ((x >> i) & 1u16 == 1u16),
{
    lemma_u16_shr_is_div(x, i);
    lemma_u16_low_bits_mask_is_mod(x >> i, 1);
    lemma2_to64();
}

pub proof fn lemma_field_u16(x: u16, shift: u16, length: u16)
    requires
        shift < 16,
        length < 16,
    ensures
        field_u16(x, shift, length) as nat == field(x as nat, shift as nat, length as nat),
{
    lemma_u16_shr_is_div(x, shift);
    lemma_u16_pow2_no_overflow(length as nat);
    lemma_u16_shl_is_mul(1, length);
    lemma_u16_low_bits_mask_is_mod(x >> shift, length as nat);
}

impl GetBits for u16 {
    open spec fn width() -> nat {
        16
    }

    open spec fn value(&self) -> nat {
        *self as nat
    }

    open spec fn field_of(&self, shift: u16, length: u16) -> u16 {
        field_u16(*self, shift, length)
    }

    fn get_bits(&self, shift: u16, length: u16) -> (r: u16) {
        proof {
            lemma_field_u16(*self, shift, length);
        }
        proof {
            lemma_bv_u16(0, 0, length, 0, 0, 0);
        }
        let mask = (1u16 << length) - 1;
        (*self >> shift) & mask
    }

    fn get_bit(&self, shift: u16) -> (r: bool) {
        proof {
            lemma_bit_u16(*self, shift);
            lemma_field_u16(*self, shift, 1);
        }
        proof {
            lemma_bv_u16(*self, shift, 1, 0, 0, 0);
        }
        self.get_bits(shift, 1) == 1
    }
}

impl SetBits for u16 {
    open spec fn width() -> nat {
        16
    }

    open spec fn value(&self) -> nat {
        *self as nat
    }

    open spec fn with_field(&self, shift: u16, length: u16, val: u16) -> u16 {
        with_field_u16(*self, shift, length, val)
    }

    fn set_bits(&mut self, shift: u16, length: u16, val: u16)
        ensures
            forall|i: nat|
                i < 16 ==> #[trigger] bit_set(*final(self) as nat, i) == if shift <= i < shift
                    + length {
                    bit_set(val as nat, (i - shift) as nat)
                } else {
                    bit_set(*old(self) as nat, i)
                },
    {
        let x = *self;
        proof {
            lemma_bv_u16(0, 0, length, 0, 0, 0);
        }
        let mut mask = (1u16 << length) - 1;
        mask <<= shift;
        *self &= !mask;
        *self |= (val << shift) & mask;
        let r = *self;
        assert(r == with_field_u16(x, shift, length, val));
        assert forall|i: nat| i < 16 implies #[trigger] bit_set(r as nat, i) == if shift <= i
            < shift + length {
            bit_set(val as nat, (i - shift) as nat)
        } else {
            bit_set(x as nat, i)
        } by {
            let j = i as u16;
            lemma_bit_u16(r, j);
            lemma_bit_u16(x, j);
            if shift <= i < shift + length {
                let k = (j - shift) as u16;
                lemma_bit_u16(val, k);
                lemma_bv_u16(x, shift, length, val, j, k);
            } else {
                lemma_bv_u16(x, shift, length, val, j, 0);
            }
        }
    }

    fn set_bit(&mut self, shift: u16, enable: bool)
        ensures
            *final(self) == with_field_u16(*old(self), shift, 1, if enable {
                1
            } else {
                0
            }),
            forall|i: nat|
                i < 16 ==> #[trigger] bit_set(*final(self) as nat, i) == if i == shift {
                    enable
                } else {
                    bit_set(*old(self) as nat, i)
                },
    {
        let v: u16 = if enable {
            1
        } else {
            0
        };
        proof {
            lemma_bit_u16(v, 0);
        }
        proof {
            lemma_bv_u16(v, 0, 0, 0, 0, 0);
        }
        self.set_bits(shift, 1, v);
    }
}

/// Mask of the low `length` bits.
pub open spec fn low_mask_u32(length: u32) -> u32 {
    ((1u32 << length) - 1) as u32
}

/// The field of `length` bits at `shift` of `x`, in bit operations.
pub open spec fn field_u32(x: u32, shift: u32, length: u32) -> u32 {
    (x >> shift) & low_mask_u32(length)
}

/// `x` with the field of `length` bits at `shift` replaced by the low bits of `val`.
pub open spec fn with_field_u32(x: u32, shift: u32, length: u32, val: u32) -> u32 {
    (x & !(low_mask_u32(length) << shift)) | ((val << shift) & (low_mask_u32(length) << shift))
}

/// Facts about bit fields of a `u32` that the bit vector solver proves.
proof fn lemma_bv_u32(x: u32, shift: u32, length: u32, val: u32, j: u32, k: u32)
    by (bit_vector)
    requires
        shift < 32,
        length < 32,
        j < 32,
    ensures
        1u32 << length >= 1,
        field_u32(x, shift, 1) == ((x >> shift) & 1u32),
        shift <= j && j < shift + length && k == j - shift ==> ((with_field_u32(x, shift, length, val) >> j) & 1u32) == ((val >> k) & 1u32),
        !(shift <= j && j < shift + length) ==> ((with_field_u32(x, shift, length, val) >> j) & 1u32) == ((x >> j) & 1u32),
        x <= 1 ==> (x >> 0u32) & 1u32 == x,
        shift + length <= 32 ==> field_u32(with_field_u32(x, shift, length, val), shift, length) == field_u32(val, 0, length),
{
}

pub proof fn lemma_bit_u32(x: u32, i: u32)
    requires
        i < 32,
    ensures
        bit_set(x as nat, i as nat) == ((x >> i) & 1u32 == 1u32),
{
    lemma_u32_shr_is_div(x, i);
    lemma_u32_low_bits_mask_is_mod(x >> i, 1);
    lemma2_to64();
}

pub proof fn lemma_field_u32(x: u32, shift: u32, length: u32)
    requires
        shift < 32,
        length < 32,
    ensures
        field_u32(x, shift, length) as nat == field(x as nat, shift as nat, length as nat),
{
    lemma_u32_shr_is_div(x, shift);
    lemma_u32_pow2_no_overflow(length as nat);
    lemma_u32_shl_is_mul(1, length);
    lemma_u32_low_bits_mask_is_mod(x >> shift, length as nat);
}

impl GetBits for u32 {
    open spec fn width() -> nat {
        32
    }

    open spec fn value(&self) -> nat {
        *self as nat
    }

    open spec fn field_of(&self, shift: u32, length: u32) -> u32 {
        field_u32(*self, shift, length)
    }

    fn get_bits(&self, shift: u32, length: u32) -> (r: u32) {
        proof {
            lemma_field_u32(*self, shift, length);
        }
        proof {
            lemma_bv_u32(0, 0, length, 0, 0, 0);
        }
        let mask = (1u32 << length) - 1;
        (*self >> shift) & mask
    }

    fn get_bit(&self, shift: u32) -> (r: bool) {
        proof {
            lemma_bit_u32(*self, shift);
            lemma_field_u32(*self, shift, 1);
        }
        proof {
            lemma_bv_u32(*self, shift, 1, 0, 0, 0);
        }
        self.get_bits(shift, 1) == 1
    }
}

impl SetBits for u32 {
    open spec fn width() -> nat {
        32
    }

    open spec fn value(&self) -> nat {
        *self as nat
    }

    open spec fn with_field(&self, shift: u32, length: u32, val: u32) -> u32 {
        with_field_u32(*self, shift, length, val)
    }

    fn set_bits(&mut self, shift: u32, length: u32, val: u32)
        ensures
            forall|i: nat|
                i < 32 ==> #[trigger] bit_set(*final(self) as nat, i) == if shift <= i < shift
                    + length {
                    bit_set(val as nat, (i - shift) as nat)
                } else {
                    bit_set(*old(self) as nat, i)
                },
    {
        let x = *self;
        proof {
            lemma_bv_u32(0, 0, length, 0, 0, 0);
        }
        let mut mask = (1u32 << length) - 1;
        mask <<= shift;
        *self &= !mask;
        *self |= (val << shift) & mask;
        let r = *self;
        assert(r == with_field_u32(x, shift, length, val));
        assert forall|i: nat| i < 32 implies #[trigger] bit_set(r as nat, i) == if shift <= i
            < shift + length {
            bit_set(val as nat, (i - shift) as nat)
        } else {
            bit_set(x as nat, i)
        } by {
            let j = i as u32;
            lemma_bit_u32(r, j);
            lemma_bit_u32(x, j);
            if shift <= i < shift + length {
                let k = (j - shift) as u32;
                lemma_bit_u32(val, k);
                lemma_bv_u32(x, shift, length, val, j, k);
            } else {
                lemma_bv_u32(x, shift, length, val, j, 0);
            }
        }
    }

    fn set_bit(&mut self, shift: u32, enable: bool)
        ensures
            *final(self) == with_field_u32(*old(self), shift, 1, if enable {
                1
            } else {
                0
            }),
            forall|i: nat|
                i < 32 ==> #[trigger] bit_set(*final(self) as nat, i) == if i == shift {
                    enable
                } else {
                    bit_set(*old(self) as nat, i)
                },
    {
        let v: u32 = if enable {
            1
        } else {
            0
        };
        proof {
            lemma_bit_u32(v, 0);
        }
        proof {
            lemma_bv_u32(v, 0, 0, 0, 0, 0);
        }
        self.set_bits(shift, 1, v);
    }
}

/// Mask of the low `length` bits.
pub open spec fn low_mask_u64(length: u64) -> u64 {
    ((1u64 << length) - 1) as u64
}

/// The field of `length` bits at `shift` of `x`, in bit operations.
pub open spec fn field_u64(x: u64, shift: u64, length: u64) -> u64 {
    (x >> shift) & low_mask_u64(length)
}

/// `x` with the field of `length` bits at `shift` replaced by the low bits of `val`.
pub open spec fn with_field_u64(x: u64, shift: u64, length: u64, val: u64) -> u64 {
    (x & !(low_mask_u64(length) << shift)) | ((val << shift) & (low_mask_u64(length) << shift))
}

/// Facts about bit fields of a `u64` that the bit vector solver proves.
proof fn lemma_bv_u64(x: u64, shift: u64, length: u64, val: u64, j: u64, k: u64)
    by (bit_vector)
    requires
        shift < 64,
        length < 64,
        j < 64,
    ensures
        1u64 << length >= 1,
        field_u64(x, shift, 1) == ((x >> shift) & 1u64),
        shift <= j && j < shift + length && k == j - shift ==> ((with_field_u64(x, shift, length, val) >> j) & 1u64) == ((val >> k) & 1u64),
        !(shift <= j && j < shift + length) ==> ((with_field_u64(x, shift, length, val) >> j) & 1u64) == ((x >> j) & 1u64),
        x <= 1 ==> (x >> 0u64) & 1u64 == x,
        shift + length <= 64 ==> field_u64(with_field_u64(x, shift, length, val), shift, length) == field_u64(val, 0, length),
{
}

pub proof fn lemma_bit_u64(x: u64, i: u64)
    requires
        i < 64,
    ensures
        bit_set(x as nat, i as nat) == ((x >> i) & 1u64 == 1u64),
{
    lemma_u64_shr_is_div(x, i);
    lemma_u64_low_bits_mask_is_mod(x >> i, 1);
    lemma2_to64();
}

pub proof fn lemma_field_u64(x: u64, shift: u64, length: u64)
    requires
        shift < 64,
        length < 64,
    ensures
        field_u64(x, shift, length) as nat == field(x as nat, shift as nat, length as nat),
{
    lemma_u64_shr_is_div(x, shift);
    lemma_u64_pow2_no_overflow(length as nat);
    lemma_u64_shl_is_mul(1, length);
    lemma_u64_low_bits_mask_is_mod(x >> shift, length as nat);
}

impl GetBits for u64 {
    open spec fn width() -> nat {
        64
    }

    open spec fn value(&self) -> nat {
        *self as nat
    }

    open spec fn field_of(&self, shift: u64, length: u64) -> u64 {
        field_u64(*self, shift, length)
    }

    fn get_bits(&self, shift: u64, length: u64) -> (r: u64) {
        proof {
            lemma_field_u64(*self, shift, length);
        }
        proof {
            lemma_bv_u64(0, 0, length, 0, 0, 0);
        }
        let mask = (1u64 << length) - 1;
        (*self >> shift) & mask
    }

    fn get_bit(&self, shift: u64) -> (r: bool) {
        proof {
            lemma_bit_u64(*self, shift);
            lemma_field_u64(*self, shift, 1);
        }
        proof {
            lemma_bv_u64(*self, shift, 1, 0, 0, 0);
        }
        self.get_bits(shift, 1) == 1
    }
}

impl SetBits for u64 {
    open spec fn width() -> nat {
        64
    }

    open spec fn value(&self) -> nat {
        *self as nat
    }

    open spec fn with_field(&self, shift: u64, length: u64, val: u64) -> u64 {
        with_field_u64(*self, shift, length, val)
    }

    fn set_bits(&mut self, shift: u64, length: u64, val: u64)
        ensures
            forall|i: nat|
                i < 64 ==> #[trigger] bit_set(*final(self) as nat, i) == if shift <= i < shift
                    + length {
                    bit_set(val as nat, (i - shift) as nat)
                } else {
                    bit_set(*old(self) as nat, i)
                },
    {
        let x = *self;
        proof {
            lemma_bv_u64(0, 0, length, 0, 0, 0);
        }
        let mut mask = (1u64 << length) - 1;
        mask <<= shift;
        *self &= !mask;
        *self |= (val << shift) & mask;
        let r = *self;
        assert(r == with_field_u64(x, shift, length, val));
        assert forall|i: nat| i < 64 implies #[trigger] bit_set(r as nat, i) == if shift <= i
            < shift + length {
            bit_set(val as nat, (i - shift) as nat)
        } else {
            bit_set(x as nat, i)
        } by {
            let j = i as u64;
            lemma_bit_u64(r, j);
            lemma_bit_u64(x, j);
            if shift <= i < shift + length {
                let k = (j - shift) as u64;
                lemma_bit_u64(val, k);
                lemma_bv_u64(x, shift, length, val, j, k);
            } else {
                lemma_bv_u64(x, shift, length, val, j, 0);
            }
        }
    }

    fn set_bit(&mut self, shift: u64, enable: bool)
        ensures
            *final(self) == with_field_u64(*old(self), shift, 1, if enable {
                1
            } else {
                0
            }),
            forall|i: nat|
                i < 64 ==> #[trigger] bit_set(*final(self) as nat, i) == if i == shift {
                    enable
                } else {
                    bit_set(*old(self) as nat, i)
                },
    {
        let v: u64 = if enable {
            1
        } else {
            0
        };
        proof {
            lemma_bit_u64(v, 0);
        }
        proof {
            lemma_bv_u64(v, 0, 0, 0, 0, 0);
        }
        self.set_bits(shift, 1, v);
    }
}

/// Reading back a field of a `u8` gives the low bits of the value that was
/// written there, as long as the field fits in the type.
pub proof fn law_get_bits_after_set_bits_u8(x: u8, shift: u8, length: u8, val: u8)
    requires
        shift < 8,
        length < 8,
        shift + length <= 8,
    ensures
        field_u8(with_field_u8(x, shift, length, val), shift, length) == field_u8(val, 0, length),
{
    lemma_bv_u8(x, shift, length, val, 0, 0);
}

/// Reading back a field of a `u16` gives the low bits of the value that was
/// written there, as long as the field fits in the type.
pub proof fn law_get_bits_after_set_bits_u16(x: u16, shift: u16, length: u16, val: u16)
    requires
        shift < 16,
        length < 16,
        shift + length <= 16,
    ensures
        field_u16(with_field_u16(x, shift, length, val), shift, length) == field_u16(val, 0, length),
{
    lemma_bv_u16(x, shift, length, val, 0, 0);
}

/// Reading back a field of a `u32` gives the low bits of the value that was
/// written there, as long as the field fits in the type.
pub proof fn law_get_bits_after_set_bits_u32(x: u32, shift: u32, length: u32, val: u32)
    requires
        shift < 32,
        length < 32,
        shift + length <= 32,
    ensures
        field_u32(with_field_u32(x, shift, length, val), shift, length) == field_u32(val, 0, length),
{
    lemma_bv_u32(x, shift, length, val, 0, 0);
}

/// Reading back a field of a `u64` gives the low bits of the value that was
/// written there, as long as the field fits in the type.
pub proof fn law_get_bits_after_set_bits_u64(x: u64, shift: u64, length: u64, val: u64)
    requires
        shift < 64,
        length < 64,
        shift + length <= 64,
    ensures
        field_u64(with_field_u64(x, shift, length, val), shift, length) == field_u64(val, 0, length),
{
    lemma_bv_u64(x, shift, length, val, 0, 0);
}

} // verus!
