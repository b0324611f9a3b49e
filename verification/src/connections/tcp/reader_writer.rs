//! The length-prefix codec: how a prefix of a configured numeric format and
//! byte order is laid out on the wire, and how it is read back.

use vstd::prelude::*;
use vstd::arithmetic::div_mod::{lemma_fundamental_div_mod, lemma_fundamental_div_mod_converse};
use crate::connections::{BytesOptions, OrderOptions, ReadValue};
use crate::connections::tcp::binary_formats::{BinaryFormat, lemma_length_round_trip, lemma_format_scale};

verus! {

/// 256 raised to `width`: the number of values that `width` bytes can hold.
pub open spec fn radix_power(width: nat) -> nat
    decreases width,
{
    if width == 0 {
        1
    } else {
        256 * radix_power((width - 1) as nat)
    }
}

/// The `width` base-256 digits of `raw`, least significant first.
pub open spec fn little_endian(raw: nat, width: nat) -> Seq<u8>
    decreases width,
{
    if width == 0 {
        Seq::empty()
    } else {
        seq![(raw % 256) as u8] + little_endian(raw / 256, (width - 1) as nat)
    }
}

/// The number whose base-256 digits, least significant first, are `digits`.
pub open spec fn little_endian_value(digits: Seq<u8>) -> nat
    decreases digits.len(),
{
    if digits.len() == 0 {
        0
    } else {
        digits[0] as nat + 256 * little_endian_value(digits.drop_first())
    }
}

/// The unsigned number that stands for the signed `v` in `width` bytes.
pub open spec fn twos_complement(v: int, width: nat) -> nat {
    if v >= 0 {
        v as nat
    } else {
        (v + radix_power(width)) as nat
    }
}

/// The signed number that the unsigned `raw` stands for in `width` bytes.
pub open spec fn from_twos_complement(raw: nat, width: nat) -> int {
    if 2 * raw >= radix_power(width) {
        raw - radix_power(width)
    } else {
        raw as int
    }
}

/// The unsigned number whose digits go on the wire for `value`.
pub open spec fn raw_bits(value: ReadValue) -> nat {
    match value {
        ReadValue::U8(v) => v as nat,
        ReadValue::U16(v) => v as nat,
        ReadValue::U32(v) => v as nat,
        ReadValue::U64(v) => v as nat,
        ReadValue::U128(v) => v as nat,
        ReadValue::I8(v) => twos_complement(v as int, 1),
        ReadValue::I16(v) => twos_complement(v as int, 2),
        ReadValue::I32(v) => twos_complement(v as int, 4),
        ReadValue::I64(v) => twos_complement(v as int, 8),
        ReadValue::I128(v) => twos_complement(v as int, 16),
        ReadValue::F32(bits) => bits as nat,
        ReadValue::F64(bits) => bits as nat,
    }
}

/// The value of format `bytes` whose wire digits spell `raw`.
pub open spec fn value_of_raw(raw: nat, bytes: BytesOptions) -> ReadValue {
    match bytes {
        BytesOptions::U8 => ReadValue::U8(raw as u8),
        BytesOptions::U16 => ReadValue::U16(raw as u16),
        BytesOptions::U32 => ReadValue::U32(raw as u32),
        BytesOptions::U64 => ReadValue::U64(raw as u64),
        BytesOptions::U128 => ReadValue::U128(raw as u128),
        BytesOptions::I8 => ReadValue::I8(from_twos_complement(raw, 1) as i8),
        BytesOptions::I16 => ReadValue::I16(from_twos_complement(raw, 2) as i16),
        BytesOptions::I32 => ReadValue::I32(from_twos_complement(raw, 4) as i32),
        BytesOptions::I64 => ReadValue::I64(from_twos_complement(raw, 8) as i64),
        BytesOptions::I128 => ReadValue::I128(from_twos_complement(raw, 16) as i128),
        BytesOptions::F32 => ReadValue::F32(raw as u32),
        BytesOptions::F64 => ReadValue::F64(raw as u64),
    }
}

/// The bytes that stand on the wire for `value` in byte order `order`.
pub open spec fn encoded(value: ReadValue, order: OrderOptions) -> Seq<u8> {
    let digits = little_endian(raw_bits(value), value.format().width());
    match order {
        OrderOptions::LittleEndian => digits,
        OrderOptions::BigEndian => digits.reverse(),
    }
}

/// The value of format `bytes` that `wire` spells in byte order `order`.
pub open spec fn decoded(wire: Seq<u8>, bytes: BytesOptions, order: OrderOptions) -> ReadValue {
    let digits = match order {
        OrderOptions::LittleEndian => wire,
        OrderOptions::BigEndian => wire.reverse(),
    };
    value_of_raw(little_endian_value(digits), bytes)
}

/// The widths in use, written out.
pub proof fn lemma_radix_powers()
    ensures
        radix_power(0) == 1,
        radix_power(1) == 0x100,
        radix_power(2) == 0x1_0000,
        radix_power(4) == 0x1_0000_0000,
        radix_power(8) == 0x1_0000_0000_0000_0000,
        radix_power(16) == 0x1_0000_0000_0000_0000_0000_0000_0000_0000,
{
    reveal_with_fuel(radix_power, 17);
}

/// More bytes hold more values.
pub proof fn lemma_radix_power_grows(low: nat, high: nat)
    requires
        low <= high,
    ensures
        0 < radix_power(low) <= radix_power(high),
    decreases high,
{
    if high == 0 {
    } else if low == high {
        lemma_radix_power_grows(0, (high - 1) as nat);
    } else {
        lemma_radix_power_grows(low, (high - 1) as nat);
    }
}

/// A prefix of `width` digits is `width` bytes long.
pub proof fn lemma_little_endian_len(raw: nat, width: nat)
    ensures
        little_endian(raw, width).len() == width,
    decreases width,
{
    if width > 0 {
        lemma_little_endian_len(raw / 256, (width - 1) as nat);
    }
}

/// Digits spell a number below the radix power of their count.
pub proof fn lemma_little_endian_value_bound(digits: Seq<u8>)
    ensures
        little_endian_value(digits) < radix_power(digits.len()),
    decreases digits.len(),
{
    if digits.len() > 0 {
        lemma_little_endian_value_bound(digits.drop_first());
    }
}

/// Reading the digits of a number that fits gives the number back.
pub proof fn lemma_digits_round_trip(raw: nat, width: nat)
    requires
        raw < radix_power(width),
    ensures
        little_endian_value(little_endian(raw, width)) == raw,
    decreases width,
{
    if width > 0 {
        let rest = little_endian(raw / 256, (width - 1) as nat);
        let digits = little_endian(raw, width);
        assert(digits.drop_first() =~= rest);
        lemma_digits_round_trip(raw / 256, (width - 1) as nat);
    }
}

/// The digits of the number that `digits` spell are `digits`.
pub proof fn lemma_value_round_trip(digits: Seq<u8>)
    ensures
        little_endian(little_endian_value(digits), digits.len()) == digits,
    decreases digits.len(),
{
    if digits.len() > 0 {
        let tail = digits.drop_first();
        lemma_value_round_trip(tail);
        let raw = little_endian_value(digits);
        assert(raw % 256 == digits[0] as nat);
        assert(raw / 256 == little_endian_value(tail));
        assert(little_endian(raw, digits.len()) =~= digits);
    }
}

/// Every value fits its own format.
pub proof fn lemma_raw_bits_fit(value: ReadValue)
    ensures
        raw_bits(value) < radix_power(value.format().width()),
        value_of_raw(raw_bits(value), value.format()) == value,
{
    lemma_radix_powers();
}

/// Round trip: what was written for a value is read back as that value, in
/// each of the twelve formats and in either byte order.
pub proof fn lemma_round_trip(value: ReadValue, order: OrderOptions)
    ensures
        encoded(value, order).len() == value.format().width(),
        decoded(encoded(value, order), value.format(), order) == value,
{
    let width = value.format().width();
    let digits = little_endian(raw_bits(value), width);
    lemma_little_endian_len(raw_bits(value), width);
    lemma_raw_bits_fit(value);
    lemma_digits_round_trip(raw_bits(value), width);
    assert(digits.reverse().reverse() =~= digits);
}

/// Round trip the other way: writing what was read from `wire` gives `wire`
/// back, whenever `wire` has the width of the format.
pub proof fn lemma_wire_round_trip(wire: Seq<u8>, bytes: BytesOptions, order: OrderOptions)
    requires
        wire.len() == bytes.width(),
    ensures
        decoded(wire, bytes, order).format() == bytes,
        encoded(decoded(wire, bytes, order), order) == wire,
{
    let digits = match order {
        OrderOptions::LittleEndian => wire,
        OrderOptions::BigEndian => wire.reverse(),
    };
    let raw = little_endian_value(digits);
    lemma_little_endian_value_bound(digits);
    lemma_value_round_trip(digits);
    lemma_radix_powers();
    assert(raw_bits(value_of_raw(raw, bytes)) == raw);
    assert(wire.reverse().reverse() =~= wire);
}

/// The unsigned number whose digits go on the wire for `value`.
fn raw_of(value: &ReadValue) -> (raw: u128)
    ensures
        raw == raw_bits(*value),
{
    proof {
        lemma_radix_powers();
    }
    match value {
        ReadValue::U8(v) => *v as u128,
        ReadValue::U16(v) => *v as u128,
        ReadValue::U32(v) => *v as u128,
        ReadValue::U64(v) => *v as u128,
        ReadValue::U128(v) => *v,
        ReadValue::I8(v) => if *v >= 0 {
            *v as u128
        } else {
            (*v as i128 + 0x100) as u128
        },
        ReadValue::I16(v) => if *v >= 0 {
            *v as u128
        } else {
            (*v as i128 + 0x1_0000) as u128
        },
        ReadValue::I32(v) => if *v >= 0 {
            *v as u128
        } else {
            (*v as i128 + 0x1_0000_0000) as u128
        },
        ReadValue::I64(v) => if *v >= 0 {
            *v as u128
        } else {
            (*v as i128 + 0x1_0000_0000_0000_0000) as u128
        },
        ReadValue::I128(v) => if *v >= 0 {
            *v as u128
        } else {
            (*v - i128::MIN) as u128 + 0x8000_0000_0000_0000_0000_0000_0000_0000
        },
        ReadValue::F32(bits) => *bits as u128,
        ReadValue::F64(bits) => *bits as u128,
    }
}

/// The value of format `bytes` whose wire digits spell `raw`.
fn value_from_raw(raw: u128, bytes: &BytesOptions) -> (value: ReadValue)
    requires
        raw < radix_power(bytes.width()),
    ensures
        value == value_of_raw(raw as nat, *bytes),
{
    proof {
        lemma_radix_powers();
    }
    match bytes {
        BytesOptions::U8 => ReadValue::U8(raw as u8),
        BytesOptions::U16 => ReadValue::U16(raw as u16),
        BytesOptions::U32 => ReadValue::U32(raw as u32),
        BytesOptions::U64 => ReadValue::U64(raw as u64),
        BytesOptions::U128 => ReadValue::U128(raw),
        BytesOptions::I8 => if raw >= 0x80 {
            ReadValue::I8((raw as i128 - 0x100) as i8)
        } else {
            ReadValue::I8(raw as i8)
        },
        BytesOptions::I16 => if raw >= 0x8000 {
            ReadValue::I16((raw as i128 - 0x1_0000) as i16)
        } else {
            ReadValue::I16(raw as i16)
        },
        BytesOptions::I32 => if raw >= 0x8000_0000 {
            ReadValue::I32((raw as i128 - 0x1_0000_0000) as i32)
        } else {
            ReadValue::I32(raw as i32)
        },
        BytesOptions::I64 => if raw >= 0x8000_0000_0000_0000 {
            ReadValue::I64((raw as i128 - 0x1_0000_0000_0000_0000) as i64)
        } else {
            ReadValue::I64(raw as i64)
        },
        BytesOptions::I128 => if raw >= 0x8000_0000_0000_0000_0000_0000_0000_0000 {
            ReadValue::I128((raw - 0x8000_0000_0000_0000_0000_0000_0000_0000) as i128 + i128::MIN)
        } else {
            ReadValue::I128(raw as i128)
        },
        BytesOptions::F32 => ReadValue::F32(raw as u32),
        BytesOptions::F64 => ReadValue::F64(raw as u64),
    }
}

/// The bytes of `bytes` in the opposite order.
fn reversed(bytes: &Vec<u8>) -> (out: Vec<u8>)
    ensures
        out@ == bytes@.reverse(),
{
    let mut out: Vec<u8> = Vec::new();
    let mut left: usize = bytes.len();
    while left > 0
        invariant
            left <= bytes.len(),
            out.len() == bytes.len() - left,
            forall|i: int| 0 <= i < out.len() ==> out[i] == bytes[bytes.len() - 1 - i],
        decreases left,
    {
        left = left - 1;
        out.push(bytes[left]);
    }
    assert(out@ =~= bytes@.reverse());
    out
}

/// Lays a length prefix out as the bytes to put on the wire: the value's
/// digits in its own format, in the byte order asked for (which changes
/// nothing for the one-byte formats).
pub fn write_from_settings(value: &ReadValue, order: &OrderOptions) -> (wire: Vec<u8>)
    ensures
        wire@ == encoded(*value, *order),
        wire@.len() == value.format().width(),
{
    let width: usize = match value {
        ReadValue::U8(_) | ReadValue::I8(_) => 1,
        ReadValue::U16(_) | ReadValue::I16(_) => 2,
        ReadValue::U32(_) | ReadValue::I32(_) | ReadValue::F32(_) => 4,
        ReadValue::U64(_) | ReadValue::I64(_) | ReadValue::F64(_) => 8,
        ReadValue::U128(_) | ReadValue::I128(_) => 16,
    };
    let raw: u128 = raw_of(value);
    let mut rest: u128 = raw;
    let mut digits: Vec<u8> = Vec::new();
    while digits.len() < width
        invariant
            digits.len() <= width,
            digits@ + little_endian(rest as nat, (width - digits.len()) as nat) == little_endian(
                raw as nat,
                width as nat,
            ),
        decreases width - digits.len(),
    {
        let ghost before = digits@;
        let ghost remaining = (width - digits.len()) as nat;
        let digit: u8 = (rest % 256) as u8;
        digits.push(digit);
        rest = rest / 256;
        assert(before + little_endian((rest * 256 + digit) as nat, remaining) =~= digits@
            + little_endian(rest as nat, (remaining - 1) as nat)) by {
            assert((rest * 256 + digit) / 256 == rest);
            assert((rest * 256 + digit) % 256 == digit);
        }
    }
    assert(digits@ =~= little_endian(raw as nat, width as nat));
    proof {
        lemma_little_endian_len(raw as nat, width as nat);
    }
    match order {
        OrderOptions::LittleEndian => digits,
        OrderOptions::BigEndian => reversed(&digits),
    }
}

/// Reads a length prefix of format `bytes` and byte order `order` from the
/// bytes taken off the wire. `None` exactly when `wire` does not hold the
/// format's width in bytes: a prefix that was cut short.
pub fn read_from_settings(wire: &[u8], bytes: &BytesOptions, order: &OrderOptions) -> (value:
    Option<ReadValue>)
    ensures
        wire@.len() != bytes.width() ==> value is None,
        wire@.len() == bytes.width() ==> value == Some(decoded(wire@, *bytes, *order)),
{
    let width: usize = bytes.byte_width();
    if wire.len() != width {
        return None;
    }
    let ghost digits = match order {
        OrderOptions::LittleEndian => wire@,
        OrderOptions::BigEndian => wire@.reverse(),
    };
    let mut raw: u128 = 0;
    let mut taken: usize = 0;
    while taken < width
        invariant
            taken <= width,
            width == wire@.len(),
            width <= 16,
            digits.len() == width,
            digits == match order {
                OrderOptions::LittleEndian => wire@,
                OrderOptions::BigEndian => wire@.reverse(),
            },
            raw == little_endian_value(digits.subrange(width - taken, width as int)),
        decreases width - taken,
    {
        let ghost tail = digits.subrange(width - taken, width as int);
        let ghost longer = digits.subrange(width - taken - 1, width as int);
        let digit: u8 = match order {
            OrderOptions::LittleEndian => wire[width - taken - 1],
            OrderOptions::BigEndian => wire[taken],
        };
        proof {
            assert(longer.drop_first() =~= tail);
            assert(longer[0] == digit);
            lemma_little_endian_value_bound(tail);
            lemma_little_endian_value_bound(longer);
            lemma_radix_power_grows(longer.len(), 16);
            lemma_radix_powers();
        }
        raw = raw * 256 + digit as u128;
        taken = taken + 1;
    }
    proof {
        assert(digits.subrange(0, width as int) =~= digits);
        lemma_little_endian_value_bound(digits);
    }
    Some(value_from_raw(raw, bytes))
}

/// The number `v` as `usize` keeps it: itself where it fits, and else what
/// two's-complement truncation leaves of it.
pub open spec fn wrapped(v: int) -> usize {
    (v % (usize::MAX + 1)) as usize
}

/// The length that a prefix states. An integer is taken as it is where
/// `usize` holds it, and truncated to the width of `usize` where not; a
/// binary floating-point pattern is rounded toward zero and held within
/// `usize`.
pub open spec fn length_of(value: ReadValue) -> usize {
    match value {
        ReadValue::U8(v) => wrapped(v as int),
        ReadValue::U16(v) => wrapped(v as int),
        ReadValue::U32(v) => wrapped(v as int),
        ReadValue::U64(v) => wrapped(v as int),
        ReadValue::U128(v) => wrapped(v as int),
        ReadValue::I8(v) => wrapped(v as int),
        ReadValue::I16(v) => wrapped(v as int),
        ReadValue::I32(v) => wrapped(v as int),
        ReadValue::I64(v) => wrapped(v as int),
        ReadValue::I128(v) => wrapped(v as int),
        ReadValue::F32(bits) => BinaryFormat::single_spec().length(bits as nat),
        ReadValue::F64(bits) => BinaryFormat::double_spec().length(bits as nat),
    }
}

/// Whether the format `bytes` holds the length `number` exactly.
pub open spec fn representable(number: nat, bytes: BytesOptions) -> bool {
    match bytes {
        BytesOptions::U8 => number <= u8::MAX,
        BytesOptions::U16 => number <= u16::MAX,
        BytesOptions::U32 => number <= u32::MAX,
        BytesOptions::U64 => number <= u64::MAX,
        BytesOptions::U128 => number <= u128::MAX,
        BytesOptions::I8 => number <= i8::MAX,
        BytesOptions::I16 => number <= i16::MAX,
        BytesOptions::I32 => number <= i32::MAX,
        BytesOptions::I64 => number <= i64::MAX,
        BytesOptions::I128 => number <= i128::MAX,
        BytesOptions::F32 => BinaryFormat::single_spec().exact(number),
        BytesOptions::F64 => BinaryFormat::double_spec().exact(number),
    }
}

/// The prefix of format `bytes` that states the length `number`.
pub open spec fn value_for(number: nat, bytes: BytesOptions) -> ReadValue {
    match bytes {
        BytesOptions::U8 => ReadValue::U8(number as u8),
        BytesOptions::U16 => ReadValue::U16(number as u16),
        BytesOptions::U32 => ReadValue::U32(number as u32),
        BytesOptions::U64 => ReadValue::U64(number as u64),
        BytesOptions::U128 => ReadValue::U128(number as u128),
        BytesOptions::I8 => ReadValue::I8(number as i8),
        BytesOptions::I16 => ReadValue::I16(number as i16),
        BytesOptions::I32 => ReadValue::I32(number as i32),
        BytesOptions::I64 => ReadValue::I64(number as i64),
        BytesOptions::I128 => ReadValue::I128(number as i128),
        BytesOptions::F32 => ReadValue::F32(BinaryFormat::single_spec().bits_of(number) as u32),
        BytesOptions::F64 => ReadValue::F64(BinaryFormat::double_spec().bits_of(number) as u64),
    }
}

/// A number that `usize` holds is kept as it is.
pub proof fn lemma_wrapped_small(v: int)
    requires
        0 <= v <= usize::MAX,
    ensures
        wrapped(v) == v,
{
    vstd::arithmetic::div_mod::lemma_small_mod(v as nat, (usize::MAX + 1) as nat);
}

/// Round trip of a length: the prefix made for a length states that length,
/// in every format that holds the length exactly.
pub proof fn lemma_stated_length(number: nat, bytes: BytesOptions)
    requires
        number <= usize::MAX,
        representable(number, bytes),
    ensures
        value_for(number, bytes).format() == bytes,
        length_of(value_for(number, bytes)) == number,
{
    lemma_wrapped_small(number as int);
    match bytes {
        BytesOptions::F32 => {
            lemma_length_round_trip(BinaryFormat::single_spec(), number);
        },
        BytesOptions::F64 => {
            lemma_length_round_trip(BinaryFormat::double_spec(), number);
        },
        _ => {},
    }
}

/// The unsigned `v` as `usize` keeps it.
fn wrap_unsigned(v: u128) -> (length: usize)
    ensures
        length == wrapped(v as int),
{
    (v % (usize::MAX as u128 + 1)) as usize
}

/// The signed `v` as `usize` keeps it.
fn wrap_signed(v: i128) -> (length: usize)
    ensures
        length == wrapped(v as int),
{
    if v >= 0 {
        wrap_unsigned(v as u128)
    } else {
        let modulus: u128 = usize::MAX as u128 + 1;
        let below: u128 = (-(v + 1)) as u128;
        let rest: u128 = below % modulus;
        proof {
            let quotient = below as int / modulus as int;
            lemma_fundamental_div_mod(below as int, modulus as int);
            assert(v as int == (-quotient - 1) * modulus + (modulus - 1 - rest)) by (nonlinear_arith)
                requires
                    below == modulus * quotient + rest,
                    v == -below - 1,
            ;
            lemma_fundamental_div_mod_converse(
                v as int,
                modulus as int,
                -quotient - 1,
                modulus - 1 - rest,
            );
        }
        (modulus - 1 - rest) as usize
    }
}

/// The length that a prefix states.
pub fn read_value_to_usize(value: ReadValue) -> (length: usize)
    ensures
        length == length_of(value),
{
    match value {
        ReadValue::U8(v) => wrap_unsigned(v as u128),
        ReadValue::U16(v) => wrap_unsigned(v as u128),
        ReadValue::U32(v) => wrap_unsigned(v as u128),
        ReadValue::U64(v) => wrap_unsigned(v as u128),
        ReadValue::U128(v) => wrap_unsigned(v),
        ReadValue::I8(v) => wrap_signed(v as i128),
        ReadValue::I16(v) => wrap_signed(v as i128),
        ReadValue::I32(v) => wrap_signed(v as i128),
        ReadValue::I64(v) => wrap_signed(v as i128),
        ReadValue::I128(v) => wrap_signed(v),
        ReadValue::F32(bits) => {
            let format = BinaryFormat::single();
            proof {
                lemma_format_scale(format);
            }
            format.to_length(bits as u64)
        },
        ReadValue::F64(bits) => {
            let format = BinaryFormat::double();
            proof {
                lemma_format_scale(format);
            }
            format.to_length(bits)
        },
    }
}

/// Whether the format `bytes` holds the length `number` exactly, so that a
/// prefix can state it.
pub fn fits(number: usize, bytes: BytesOptions) -> (held: bool)
    ensures
        held == representable(number as nat, bytes),
{
    match bytes {
        BytesOptions::U8 => number <= 0xff,
        BytesOptions::U16 => number <= 0xffff,
        BytesOptions::U32 => number <= 0xffff_ffff,
        BytesOptions::U64 => true,
        BytesOptions::U128 => true,
        BytesOptions::I8 => number <= 0x7f,
        BytesOptions::I16 => number <= 0x7fff,
        BytesOptions::I32 => number <= 0x7fff_ffff,
        BytesOptions::I64 => number as u64 <= 0x7fff_ffff_ffff_ffff,
        BytesOptions::I128 => true,
        BytesOptions::F32 => BinaryFormat::single().holds(number),
        BytesOptions::F64 => BinaryFormat::double().holds(number),
    }
}

/// The prefix of format `bytes` that states the length `number`. A length
/// that the format does not hold is the caller's error.
pub fn value_from_number(number: usize, bytes: BytesOptions) -> (value: ReadValue)
    requires
        representable(number as nat, bytes),
    ensures
        value == value_for(number as nat, bytes),
        value.format() == bytes,
        length_of(value) == number,
{
    proof {
        lemma_stated_length(number as nat, bytes);
    }
    match bytes {
        BytesOptions::U8 => ReadValue::U8(number as u8),
        BytesOptions::U16 => ReadValue::U16(number as u16),
        BytesOptions::U32 => ReadValue::U32(number as u32),
        BytesOptions::U64 => ReadValue::U64(number as u64),
        BytesOptions::U128 => ReadValue::U128(number as u128),
        BytesOptions::I8 => ReadValue::I8(number as i8),
        BytesOptions::I16 => ReadValue::I16(number as i16),
        BytesOptions::I32 => ReadValue::I32(number as i32),
        BytesOptions::I64 => ReadValue::I64(number as i64),
        BytesOptions::I128 => ReadValue::I128(number as i128),
        BytesOptions::F32 => {
            let format = BinaryFormat::single();
            proof {
                lemma_format_scale(format);
            }
            ReadValue::F32(format.from_length(number) as u32)
        },
        BytesOptions::F64 => {
            let format = BinaryFormat::double();
            ReadValue::F64(format.from_length(number))
        },
    }
}

} // verus!
