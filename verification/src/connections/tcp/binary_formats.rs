//! The two IEEE 754 binary interchange formats that a length prefix may use,
//! handled as bit patterns: how a pattern is read as a length, and which
//! pattern stands for a length exactly.

use vstd::prelude::*;
use vstd::arithmetic::power2::{
    pow2,
    lemma_pow2_pos,
    lemma_pow2_unfold,
    lemma_pow2_adds,
    lemma_pow2_strictly_increases,
    lemma2_to64,
    lemma2_to64_rest,
};
use vstd::arithmetic::div_mod::{
    lemma_fundamental_div_mod,
    lemma_fundamental_div_mod_converse,
    lemma_div_by_multiple,
};
use vstd::arithmetic::mul::{
    lemma_mul_inequality,
    lemma_mul_strict_inequality,
    lemma_mul_strict_inequality_converse,
    lemma_mul_inequality_converse,
};

verus! {

/// The layout of a binary interchange format: from the least significant bit
/// up, a fraction of `fraction_bits` bits, a biased exponent below
/// `exponent_limit`, and one sign bit.
#[derive(PartialEq, Eq, Structural, Clone, Copy, Debug)]
pub struct BinaryFormat {
    pub fraction_bits: u32,
    pub scale: u64,
    pub exponent_limit: u64,
    pub bias: u64,
}

/// The position of the highest set bit of `n`; 0 for 0.
pub open spec fn floor_log2(n: nat) -> nat
    decreases n,
{
    if n <= 1 {
        0
    } else {
        1 + floor_log2(n / 2)
    }
}

impl BinaryFormat {
    /// The 32-bit format: 23 fraction bits, exponent bias 127.
    pub open spec fn single_spec() -> BinaryFormat {
        BinaryFormat { fraction_bits: 23, scale: 0x80_0000, exponent_limit: 0x100, bias: 127 }
    }

    /// The 64-bit format: 52 fraction bits, exponent bias 1023.
    pub open spec fn double_spec() -> BinaryFormat {
        BinaryFormat {
            fraction_bits: 52,
            scale: 0x10_0000_0000_0000,
            exponent_limit: 0x800,
            bias: 1023,
        }
    }

    /// One of the two formats.
    pub open spec fn wf(self) -> bool {
        self == Self::single_spec() || self == Self::double_spec()
    }

    /// The number of bit patterns of the format.
    pub open spec fn patterns(self) -> nat {
        (2 * self.scale * self.exponent_limit) as nat
    }

    /// The fraction field of `bits`.
    pub open spec fn fraction(self, bits: nat) -> nat {
        bits % (self.scale as nat)
    }

    /// The biased exponent field of `bits`.
    pub open spec fn exponent(self, bits: nat) -> nat {
        (bits / (self.scale as nat)) % (self.exponent_limit as nat)
    }

    /// Whether the sign bit of `bits` is set.
    pub open spec fn negative(self, bits: nat) -> bool {
        (bits / (self.scale as nat)) / (self.exponent_limit as nat) >= 1
    }

    /// The integer part of a number at least one with unbiased exponent
    /// `power` and fraction field `fraction`: the significand, moved by the
    /// exponent, with what falls below the unit dropped.
    pub open spec fn magnitude(self, power: nat, fraction: nat) -> nat {
        let significand = self.scale as nat + fraction;
        if power >= self.fraction_bits {
            significand * pow2((power - self.fraction_bits) as nat)
        } else {
            significand / pow2((self.fraction_bits - power) as nat)
        }
    }

    /// The length that the pattern `bits` states: the number it stands for,
    /// rounded toward zero and held within `usize`; 0 for a negative number
    /// and for a pattern that is no number.
    pub open spec fn length(self, bits: nat) -> usize {
        let exponent = self.exponent(bits);
        let fraction = self.fraction(bits);
        if exponent == self.exponent_limit - 1 {
            if fraction == 0 && !self.negative(bits) {
                usize::MAX
            } else {
                0
            }
        } else if self.negative(bits) || exponent < self.bias {
            0
        } else {
            let whole = self.magnitude((exponent - self.bias) as nat, fraction);
            if whole > usize::MAX {
                usize::MAX
            } else {
                whole as usize
            }
        }
    }

    /// Whether the format holds `n` exactly: its significant bits span no
    /// more than the fraction and the implied leading bit.
    pub open spec fn exact(self, n: nat) -> bool {
        n == 0 || floor_log2(n) <= self.fraction_bits || n % pow2(
            (floor_log2(n) - self.fraction_bits) as nat,
        ) == 0
    }

    /// The pattern that stands for `n`, where the format holds `n` exactly.
    pub open spec fn bits_of(self, n: nat) -> nat {
        if n == 0 {
            0
        } else {
            let top = floor_log2(n);
            let significand = if top >= self.fraction_bits {
                n / pow2((top - self.fraction_bits) as nat)
            } else {
                n * pow2((self.fraction_bits - top) as nat)
            };
            ((top + self.bias) * self.scale + (significand - self.scale)) as nat
        }
    }

    /// The 32-bit format.
    pub fn single() -> (format: BinaryFormat)
        ensures
            format == Self::single_spec(),
    {
        BinaryFormat { fraction_bits: 23, scale: 0x80_0000, exponent_limit: 0x100, bias: 127 }
    }

    /// The 64-bit format.
    pub fn double() -> (format: BinaryFormat)
        ensures
            format == Self::double_spec(),
    {
        BinaryFormat {
            fraction_bits: 52,
            scale: 0x10_0000_0000_0000,
            exponent_limit: 0x800,
            bias: 1023,
        }
    }

    /// Reads the pattern `bits` as a length.
    pub fn to_length(&self, bits: u64) -> (length: usize)
        requires
            self.wf(),
            bits < self.patterns(),
        ensures
            length == self.length(bits as nat),
    {
        proof {
            lemma_format_scale(*self);
        }
        let fraction: u64 = bits % self.scale;
        let upper: u64 = bits / self.scale;
        let exponent: u64 = upper % self.exponent_limit;
        let negative: bool = upper / self.exponent_limit >= 1;
        if exponent == self.exponent_limit - 1 {
            if fraction == 0 && !negative {
                usize::MAX
            } else {
                0
            }
        } else if negative || exponent < self.bias {
            0
        } else {
            let power: u64 = exponent - self.bias;
            let significand: u64 = self.scale + fraction;
            if power >= 64 {
                proof {
                    let shift = (power - self.fraction_bits) as nat;
                    lemma_pow2_adds(self.fraction_bits as nat, shift);
                    lemma_pow2_pos(shift);
                    lemma_mul_inequality(self.scale as int, significand as int, pow2(shift) as int);
                    if power > 64 {
                        lemma_pow2_strictly_increases(64, power as nat);
                    }
                    lemma2_to64();
                }
                usize::MAX
            } else if power >= self.fraction_bits as u64 {
                let factor: u128 = power_of_two((power - self.fraction_bits as u64) as u32);
                proof {
                    lemma_pow2_strictly_increases((power - self.fraction_bits) as nat, 64);
                    lemma2_to64();
                    assert(significand * factor < 0x1_0000_0000_0000_0000
                        * 0x1_0000_0000_0000_0000) by (nonlinear_arith)
                        requires
                            0 <= significand < 0x1_0000_0000_0000_0000,
                            0 <= factor < 0x1_0000_0000_0000_0000,
                    ;
                }
                let whole: u128 = significand as u128 * factor;
                if whole > usize::MAX as u128 {
                    usize::MAX
                } else {
                    whole as usize
                }
            } else {
                let divisor: u128 = power_of_two((self.fraction_bits as u64 - power) as u32);
                let whole: u128 = significand as u128 / divisor;
                if whole > usize::MAX as u128 {
                    usize::MAX
                } else {
                    whole as usize
                }
            }
        }
    }

    /// Whether the format holds `n` exactly.
    pub fn holds(&self, n: usize) -> (exact: bool)
        requires
            self.wf(),
        ensures
            exact == self.exact(n as nat),
    {
        if n == 0 {
            return true;
        }
        let top: u32 = highest_bit(n);
        if top <= self.fraction_bits {
            true
        } else {
            let divisor: u128 = power_of_two(top - self.fraction_bits);
            n as u128 % divisor == 0
        }
    }

    /// The pattern that stands for the length `n`.
    pub fn from_length(&self, n: usize) -> (bits: u64)
        requires
            self.wf(),
            self.exact(n as nat),
        ensures
            bits == self.bits_of(n as nat),
            bits < self.patterns(),
            2 * bits < self.patterns(),
    {
        proof {
            lemma_format_scale(*self);
        }
        if n == 0 {
            return 0;
        }
        let top: u32 = highest_bit(n);
        proof {
            lemma_significand_bounds(*self, n as nat);
        }
        let significand: u128 = if top >= self.fraction_bits {
            n as u128 / power_of_two(top - self.fraction_bits)
        } else {
            let factor: u128 = power_of_two(self.fraction_bits - top);
            proof {
                lemma_pow2_strictly_increases((self.fraction_bits - top) as nat, 64);
                lemma2_to64();
                assert(n * factor < 0x1_0000_0000_0000_0000 * 0x1_0000_0000_0000_0000)
                    by (nonlinear_arith)
                    requires
                        0 <= n < 0x1_0000_0000_0000_0000,
                        0 <= factor < 0x1_0000_0000_0000_0000,
                ;
            }
            n as u128 * factor
        };
        let exponent: u64 = top as u64 + self.bias;
        assert(exponent * self.scale + (significand - self.scale) < (exponent + 1) * self.scale)
            by (nonlinear_arith)
            requires
                self.scale <= significand < 2 * self.scale,
        ;
        assert((exponent + 1) * self.scale <= (self.exponent_limit - 1) * self.scale)
            by (nonlinear_arith)
            requires
                exponent + 1 <= self.exponent_limit - 1,
                self.scale > 0,
        ;
        assert((self.exponent_limit - 1) * self.scale < self.exponent_limit * self.scale)
            by (nonlinear_arith)
            requires
                self.scale > 0,
        ;
        assert(exponent * self.scale >= 0) by (nonlinear_arith)
            requires
                exponent >= 0,
                self.scale > 0,
        ;
        exponent * self.scale + (significand as u64 - self.scale)
    }
}

/// The scale of a format is two to the number of its fraction bits.
pub proof fn lemma_format_scale(format: BinaryFormat)
    requires
        format.wf(),
    ensures
        format.scale == pow2(format.fraction_bits as nat),
        format.patterns() == 2 * (format.exponent_limit * format.scale),
        0 < format.patterns() <= 0x1_0000_0000_0000_0000,
        format.fraction_bits < 64,
        64 + format.bias < format.exponent_limit - 1,
{
    lemma2_to64();
    lemma2_to64_rest();
    if format == BinaryFormat::single_spec() {
        assert(format.patterns() == 0x1_0000_0000);
    } else {
        assert(format.patterns() == 0x1_0000_0000_0000_0000);
    }
}

/// A positive number lies between the power of two at its highest bit and
/// the next one.
pub proof fn lemma_floor_log2_bounds(n: nat)
    requires
        n >= 1,
    ensures
        pow2(floor_log2(n)) <= n < pow2(floor_log2(n) + 1),
    decreases n,
{
    if n == 1 {
        lemma2_to64();
    } else {
        lemma_floor_log2_bounds(n / 2);
        lemma_pow2_unfold(floor_log2(n));
        lemma_pow2_unfold(floor_log2(n) + 1);
    }
}

/// A number below two to the 64 has its highest bit below position 64.
pub proof fn lemma_floor_log2_small(n: nat)
    requires
        1 <= n < 0x1_0000_0000_0000_0000,
    ensures
        floor_log2(n) < 64,
{
    lemma_floor_log2_bounds(n);
    if floor_log2(n) >= 64 {
        lemma2_to64();
        if floor_log2(n) > 64 {
            lemma_pow2_strictly_increases(64, floor_log2(n));
        }
    }
}

/// The significand of a length that the format holds exactly: what is left
/// of it once its highest bit stands just above the fraction.
pub open spec fn significand_of(format: BinaryFormat, n: nat) -> nat {
    let top = floor_log2(n);
    if top >= format.fraction_bits {
        n / pow2((top - format.fraction_bits) as nat)
    } else {
        n * pow2((format.fraction_bits - top) as nat)
    }
}

/// The significand of a positive length that the format holds exactly has
/// its leading bit just above the fraction, and gives the length back when
/// it is moved by the exponent.
pub proof fn lemma_significand_bounds(format: BinaryFormat, n: nat)
    requires
        format.wf(),
        n >= 1,
        format.exact(n),
    ensures
        format.scale <= significand_of(format, n) < 2 * format.scale,
        format.magnitude(floor_log2(n), (significand_of(format, n) - format.scale) as nat) == n,
{
    lemma_format_scale(format);
    lemma_floor_log2_bounds(n);
    let top = floor_log2(n);
    let fraction_bits = format.fraction_bits as nat;
    let scale = format.scale as int;
    let significand = significand_of(format, n) as int;
    lemma_pow2_unfold(top + 1);
    if top >= fraction_bits {
        let shift = (top - fraction_bits) as nat;
        let unit = pow2(shift) as int;
        lemma_pow2_pos(shift);
        lemma_pow2_adds(fraction_bits, shift);
        assert(pow2(top) == scale * unit);
        if top > fraction_bits {
            assert(n % pow2(shift) == 0);
        } else {
            lemma2_to64();
            assert(unit == 1);
        }
        lemma_fundamental_div_mod(n as int, unit);
        assert(n == unit * significand);
        assert(unit * significand == significand * unit) by (nonlinear_arith);
        assert(scale * unit <= significand * unit);
        lemma_mul_inequality_converse(scale, significand, unit);
        assert(significand * unit < (2 * scale) * unit) by (nonlinear_arith)
            requires
                significand * unit < 2 * (scale * unit),
        ;
        lemma_mul_strict_inequality_converse(significand, 2 * scale, unit);
    } else {
        let shift = (fraction_bits - top) as nat;
        let unit = pow2(shift) as int;
        lemma_pow2_pos(shift);
        lemma_pow2_adds(top, shift);
        assert(scale == pow2(top) * unit);
        lemma_mul_inequality(pow2(top) as int, n as int, unit);
        lemma_mul_strict_inequality(n as int, (2 * pow2(top)) as int, unit);
        assert((2 * pow2(top)) * unit == 2 * (pow2(top) * unit)) by (nonlinear_arith);
        assert(significand == n * unit);
        lemma_div_by_multiple(n as int, unit);
    }
}

/// Round trip: the pattern that stands for a length is read back as that
/// length, for every length that the format holds exactly.
pub proof fn lemma_length_round_trip(format: BinaryFormat, n: nat)
    requires
        format.wf(),
        n <= usize::MAX,
        format.exact(n),
    ensures
        format.bits_of(n) < format.patterns(),
        format.length(format.bits_of(n)) == n,
{
    lemma_format_scale(format);
    if n == 0 {
        // Every field of the pattern of zero is zero.
        assert(0nat / (format.scale as nat) == 0);
        assert(0nat % (format.scale as nat) == 0);
        assert(0nat / (format.exponent_limit as nat) == 0);
        assert(0nat % (format.exponent_limit as nat) == 0);
    } else {
        lemma_significand_bounds(format, n);
        lemma_floor_log2_small(n);
        let scale = format.scale as int;
        let limit = format.exponent_limit as int;
        let significand = significand_of(format, n) as int;
        let bits = format.bits_of(n) as int;
        let exponent = floor_log2(n) + format.bias;
        assert(exponent * scale >= 0) by (nonlinear_arith)
            requires
                exponent >= 0,
                scale > 0,
        ;
        // The fields of the pattern are the exponent and the fraction it
        // was made of, and its sign bit is clear.
        lemma_fundamental_div_mod_converse(bits, scale, exponent as int, significand - scale);
        vstd::arithmetic::div_mod::lemma_small_mod(exponent as nat, limit as nat);
        vstd::arithmetic::div_mod::lemma_basic_div(exponent as int, limit);
        assert(format.exponent(bits as nat) == exponent);
        assert(!format.negative(bits as nat));
        // The pattern is one of the format.
        assert(bits < (exponent + 1) * scale) by (nonlinear_arith)
            requires
                bits == exponent * scale + (significand - scale),
                significand < 2 * scale,
        ;
        assert((exponent + 1) * scale <= limit * scale) by (nonlinear_arith)
            requires
                exponent + 1 <= limit,
                scale > 0,
        ;
    }
}

/// Two to the `power`.
fn power_of_two(power: u32) -> (result: u128)
    requires
        power < 127,
    ensures
        result == pow2(power as nat),
        result > 0,
{
    let mut result: u128 = 1;
    let mut done: u32 = 0;
    proof {
        lemma2_to64();
    }
    while done < power
        invariant
            done <= power < 127,
            result == pow2(done as nat),
            result > 0,
        decreases power - done,
    {
        proof {
            lemma_pow2_unfold((done + 1) as nat);
            lemma_pow2_strictly_increases((done + 1) as nat, 127);
            lemma_pow2_127();
        }
        result = result * 2;
        done = done + 1;
    }
    result
}

/// Two to the 127 fits in 128 bits.
proof fn lemma_pow2_127()
    ensures
        pow2(127) == 0x8000_0000_0000_0000_0000_0000_0000_0000,
{
    lemma2_to64();
    lemma2_to64_rest();
    lemma_pow2_adds(64, 63);
}

/// The position of the highest set bit of `n`.
fn highest_bit(n: usize) -> (top: u32)
    requires
        n >= 1,
    ensures
        top == floor_log2(n as nat),
        top < 64,
{
    proof {
        lemma_floor_log2_small(n as nat);
    }
    let mut rest: usize = n;
    let mut top: u32 = 0;
    while rest > 1
        invariant
            rest >= 1,
            top + floor_log2(rest as nat) == floor_log2(n as nat),
            floor_log2(n as nat) < 64,
        decreases rest,
    {
        rest = rest / 2;
        top = top + 1;
    }
    top
}

} // verus!
