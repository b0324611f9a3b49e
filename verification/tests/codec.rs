use inator::add;
use inator::connections::tcp::binary_formats::BinaryFormat;
use inator::connections::tcp::reader_writer::{
    fits, read_from_settings, read_value_to_usize, value_from_number, write_from_settings,
};
use inator::connections::{BytesOptions, OrderOptions, ReadValue};

const FORMATS: [BytesOptions; 12] = [
    BytesOptions::U8,
    BytesOptions::U16,
    BytesOptions::U32,
    BytesOptions::U64,
    BytesOptions::U128,
    BytesOptions::I8,
    BytesOptions::I16,
    BytesOptions::I32,
    BytesOptions::I64,
    BytesOptions::I128,
    BytesOptions::F32,
    BytesOptions::F64,
];

const ORDERS: [OrderOptions; 2] = [OrderOptions::LittleEndian, OrderOptions::BigEndian];

fn samples() -> Vec<ReadValue> {
    vec![
        ReadValue::U8(0),
        ReadValue::U8(0xab),
        ReadValue::U8(u8::MAX),
        ReadValue::U16(0),
        ReadValue::U16(0x1234),
        ReadValue::U16(u16::MAX),
        ReadValue::U32(0),
        ReadValue::U32(0x0102_0304),
        ReadValue::U32(u32::MAX),
        ReadValue::U64(0),
        ReadValue::U64(0x0102_0304_0506_0708),
        ReadValue::U64(u64::MAX),
        ReadValue::U128(0),
        ReadValue::U128(0x0102_0304_0506_0708_090a_0b0c_0d0e_0f10),
        ReadValue::U128(u128::MAX),
        ReadValue::I8(0),
        ReadValue::I8(-1),
        ReadValue::I8(i8::MIN),
        ReadValue::I8(i8::MAX),
        ReadValue::I16(-2),
        ReadValue::I16(i16::MIN),
        ReadValue::I16(i16::MAX),
        ReadValue::I32(-3),
        ReadValue::I32(i32::MIN),
        ReadValue::I32(i32::MAX),
        ReadValue::I64(-4),
        ReadValue::I64(i64::MIN),
        ReadValue::I64(i64::MAX),
        ReadValue::I128(-5),
        ReadValue::I128(i128::MIN),
        ReadValue::I128(i128::MAX),
        ReadValue::F32(0),
        ReadValue::F32(1.5f32.to_bits()),
        ReadValue::F32(u32::MAX),
        ReadValue::F64(0),
        ReadValue::F64(1.5f64.to_bits()),
        ReadValue::F64(u64::MAX),
    ]
}

fn format_of(value: &ReadValue) -> BytesOptions {
    match value {
        ReadValue::U8(_) => BytesOptions::U8,
        ReadValue::U16(_) => BytesOptions::U16,
        ReadValue::U32(_) => BytesOptions::U32,
        ReadValue::U64(_) => BytesOptions::U64,
        ReadValue::U128(_) => BytesOptions::U128,
        ReadValue::I8(_) => BytesOptions::I8,
        ReadValue::I16(_) => BytesOptions::I16,
        ReadValue::I32(_) => BytesOptions::I32,
        ReadValue::I64(_) => BytesOptions::I64,
        ReadValue::I128(_) => BytesOptions::I128,
        ReadValue::F32(_) => BytesOptions::F32,
        ReadValue::F64(_) => BytesOptions::F64,
    }
}

fn std_bytes(value: &ReadValue, order: &OrderOptions) -> Vec<u8> {
    let little = matches!(order, OrderOptions::LittleEndian);
    match value {
        ReadValue::U8(v) => v.to_le_bytes().to_vec(),
        ReadValue::U16(v) => if little { v.to_le_bytes().to_vec() } else { v.to_be_bytes().to_vec() },
        ReadValue::U32(v) => if little { v.to_le_bytes().to_vec() } else { v.to_be_bytes().to_vec() },
        ReadValue::U64(v) => if little { v.to_le_bytes().to_vec() } else { v.to_be_bytes().to_vec() },
        ReadValue::U128(v) => if little { v.to_le_bytes().to_vec() } else { v.to_be_bytes().to_vec() },
        ReadValue::I8(v) => v.to_le_bytes().to_vec(),
        ReadValue::I16(v) => if little { v.to_le_bytes().to_vec() } else { v.to_be_bytes().to_vec() },
        ReadValue::I32(v) => if little { v.to_le_bytes().to_vec() } else { v.to_be_bytes().to_vec() },
        ReadValue::I64(v) => if little { v.to_le_bytes().to_vec() } else { v.to_be_bytes().to_vec() },
        ReadValue::I128(v) => if little { v.to_le_bytes().to_vec() } else { v.to_be_bytes().to_vec() },
        ReadValue::F32(bits) => {
            let v = f32::from_bits(*bits);
            if little { v.to_le_bytes().to_vec() } else { v.to_be_bytes().to_vec() }
        }
        ReadValue::F64(bits) => {
            let v = f64::from_bits(*bits);
            if little { v.to_le_bytes().to_vec() } else { v.to_be_bytes().to_vec() }
        }
    }
}

#[test]
fn add_sums() {
    assert_eq!(add(2, 2), 4);
    assert_eq!(add(0, u64::MAX), u64::MAX);
}

#[test]
fn defaults_are_u32_little_endian() {
    assert_eq!(BytesOptions::default(), BytesOptions::U32);
    assert_eq!(OrderOptions::default(), OrderOptions::LittleEndian);
}

#[test]
fn widths_of_the_twelve_formats() {
    let widths: Vec<usize> = FORMATS.iter().map(|f| f.byte_width()).collect();
    assert_eq!(widths, vec![1, 2, 4, 8, 16, 1, 2, 4, 8, 16, 4, 8]);
}

#[test]
fn written_bytes_are_exact() {
    let le = OrderOptions::LittleEndian;
    let be = OrderOptions::BigEndian;
    assert_eq!(write_from_settings(&ReadValue::U32(0x0102_0304), &le), vec![4, 3, 2, 1]);
    assert_eq!(write_from_settings(&ReadValue::U32(0x0102_0304), &be), vec![1, 2, 3, 4]);
    assert_eq!(write_from_settings(&ReadValue::I16(-2), &le), vec![0xfe, 0xff]);
    assert_eq!(write_from_settings(&ReadValue::I16(-2), &be), vec![0xff, 0xfe]);
    assert_eq!(write_from_settings(&ReadValue::U8(7), &be), vec![7]);
    assert_eq!(write_from_settings(&ReadValue::I8(-128), &le), vec![0x80]);
    assert_eq!(
        write_from_settings(&ReadValue::U64(5), &be),
        vec![0, 0, 0, 0, 0, 0, 0, 5]
    );
    assert_eq!(
        write_from_settings(&ReadValue::F32(1.0f32.to_bits()), &be),
        vec![0x3f, 0x80, 0, 0]
    );
}

#[test]
fn written_bytes_agree_with_the_standard_library() {
    for value in samples() {
        for order in ORDERS {
            assert_eq!(write_from_settings(&value, &order), std_bytes(&value, &order));
        }
    }
}

#[test]
fn round_trip_in_every_format_and_order() {
    for value in samples() {
        for order in ORDERS {
            let wire = write_from_settings(&value, &order);
            assert_eq!(wire.len(), format_of(&value).byte_width());
            assert_eq!(read_from_settings(&wire, &format_of(&value), &order), Some(value));
        }
    }
}

#[test]
fn a_prefix_cut_short_is_not_read() {
    for format in FORMATS {
        for order in ORDERS {
            let width = format.byte_width();
            assert_eq!(read_from_settings(&vec![0u8; width - 1], &format, &order), None);
            assert_eq!(read_from_settings(&vec![0u8; width + 1], &format, &order), None);
            assert!(read_from_settings(&vec![0u8; width], &format, &order).is_some());
        }
    }
}

#[test]
fn lengths_of_integers() {
    assert_eq!(read_value_to_usize(ReadValue::U8(200)), 200);
    assert_eq!(read_value_to_usize(ReadValue::U16(60_000)), 60_000);
    assert_eq!(read_value_to_usize(ReadValue::U32(70_000)), 70_000);
    assert_eq!(read_value_to_usize(ReadValue::U64(5)), 5);
    assert_eq!(read_value_to_usize(ReadValue::U128(9)), 9);
    assert_eq!(read_value_to_usize(ReadValue::I8(100)), 100);
    assert_eq!(read_value_to_usize(ReadValue::I64(1 << 40)), 1 << 40);
    assert_eq!(read_value_to_usize(ReadValue::I128(12)), 12);
}

#[test]
fn lengths_out_of_range_are_truncated() {
    assert_eq!(read_value_to_usize(ReadValue::I8(-1)), -1i8 as usize);
    assert_eq!(read_value_to_usize(ReadValue::I16(-2)), -2i16 as usize);
    assert_eq!(read_value_to_usize(ReadValue::I32(i32::MIN)), i32::MIN as usize);
    assert_eq!(read_value_to_usize(ReadValue::I64(i64::MIN)), i64::MIN as usize);
    assert_eq!(read_value_to_usize(ReadValue::I128(i128::MIN)), i128::MIN as usize);
    assert_eq!(read_value_to_usize(ReadValue::I128(-7)), -7i128 as usize);
    assert_eq!(read_value_to_usize(ReadValue::U128(u128::MAX)), u128::MAX as usize);
    assert_eq!(
        read_value_to_usize(ReadValue::U128((1u128 << 64) + 3)),
        ((1u128 << 64) + 3) as usize
    );
}

fn single_patterns() -> Vec<u32> {
    let mut patterns = vec![
        0,
        0x8000_0000,
        1,
        0x007f_ffff,
        0x0080_0000,
        0x3f7f_ffff,
        0x3f80_0000,
        0x3fc0_0000,
        0x4000_0000,
        0x4b7f_ffff,
        0x4b80_0000,
        0x5f00_0000,
        0x5f7f_ffff,
        0x5f80_0000,
        0x7f7f_ffff,
        0x7f80_0000,
        0xff80_0000,
        0x7fc0_0000,
        0xffc0_0000,
        0x7f80_0001,
        0xbf80_0000,
        0xc2c8_0000,
        u32::MAX,
    ];
    let mut state: u32 = 0x1234_5678;
    for _ in 0..2000 {
        state = state.wrapping_mul(1_664_525).wrapping_add(1_013_904_223);
        patterns.push(state);
    }
    patterns
}

fn double_patterns() -> Vec<u64> {
    let mut patterns = vec![
        0,
        0x8000_0000_0000_0000,
        1,
        0x000f_ffff_ffff_ffff,
        0x0010_0000_0000_0000,
        0x3fef_ffff_ffff_ffff,
        0x3ff0_0000_0000_0000,
        0x3ff8_0000_0000_0000,
        0x4000_0000_0000_0000,
        0x433f_ffff_ffff_ffff,
        0x4340_0000_0000_0000,
        0x43e0_0000_0000_0000,
        0x43ef_ffff_ffff_ffff,
        0x43f0_0000_0000_0000,
        0x7fef_ffff_ffff_ffff,
        0x7ff0_0000_0000_0000,
        0xfff0_0000_0000_0000,
        0x7ff8_0000_0000_0000,
        0x7ff0_0000_0000_0001,
        0xbff0_0000_0000_0000,
        u64::MAX,
    ];
    let mut state: u64 = 0x1234_5678_9abc_def0;
    for _ in 0..2000 {
        state = state
            .wrapping_mul(6_364_136_223_846_793_005)
            .wrapping_add(1_442_695_040_888_963_407);
        patterns.push(state);
    }
    patterns
}

#[test]
fn lengths_of_binary_patterns_agree_with_the_standard_library() {
    for bits in single_patterns() {
        assert_eq!(
            read_value_to_usize(ReadValue::F32(bits)),
            f32::from_bits(bits) as usize,
            "pattern {:#x}",
            bits
        );
    }
    for bits in double_patterns() {
        assert_eq!(
            read_value_to_usize(ReadValue::F64(bits)),
            f64::from_bits(bits) as usize,
            "pattern {:#x}",
            bits
        );
    }
}

#[test]
fn lengths_of_binary_patterns_are_exact() {
    assert_eq!(read_value_to_usize(ReadValue::F32(0x3f80_0000)), 1);
    assert_eq!(read_value_to_usize(ReadValue::F32(0x3fc0_0000)), 1);
    assert_eq!(read_value_to_usize(ReadValue::F32(0x42c8_0000)), 100);
    assert_eq!(read_value_to_usize(ReadValue::F32(0xbf80_0000)), 0);
    assert_eq!(read_value_to_usize(ReadValue::F32(0x7fc0_0000)), 0);
    assert_eq!(read_value_to_usize(ReadValue::F32(0x7f80_0000)), usize::MAX);
    assert_eq!(read_value_to_usize(ReadValue::F32(0xff80_0000)), 0);
    assert_eq!(read_value_to_usize(ReadValue::F64(0x4059_0000_0000_0000)), 100);
    assert_eq!(read_value_to_usize(ReadValue::F64(0x7ff0_0000_0000_0000)), usize::MAX);
    assert_eq!(read_value_to_usize(ReadValue::F64(0x7ff8_0000_0000_0000)), 0);
}

fn lengths() -> Vec<usize> {
    let mut lengths = vec![0, 1, 2, 3, 100, 127, 128, 255, 256, 32_767, 32_768, 65_535, 65_536];
    for shift in 0..(usize::BITS as usize) {
        lengths.push(1usize << shift);
        lengths.push((1usize << shift) + 1);
        lengths.push((1usize << shift) - 1);
        lengths.push(3usize << shift.min(usize::BITS as usize - 2));
    }
    lengths.push(usize::MAX);
    lengths.push((1usize << 24) + 2);
    lengths.push((1usize << 25) + 2);
    lengths
}

#[test]
fn fits_says_which_lengths_a_format_holds() {
    assert!(fits(255, BytesOptions::U8));
    assert!(!fits(256, BytesOptions::U8));
    assert!(fits(127, BytesOptions::I8));
    assert!(!fits(128, BytesOptions::I8));
    assert!(fits(65_535, BytesOptions::U16));
    assert!(!fits(65_536, BytesOptions::U16));
    assert!(fits(32_767, BytesOptions::I16));
    assert!(!fits(32_768, BytesOptions::I16));
    assert!(fits(usize::MAX, BytesOptions::U128));
    assert!(fits(usize::MAX, BytesOptions::I128));
    assert!(fits(1 << 24, BytesOptions::F32));
    assert!(!fits((1 << 24) + 1, BytesOptions::F32));
    assert!(fits((1 << 24) + 2, BytesOptions::F32));
    assert!(!fits((1 << 25) + 2, BytesOptions::F32));
    assert!(fits(1 << 40, BytesOptions::F32));
    for length in lengths() {
        assert_eq!(fits(length, BytesOptions::F32), (length as f32) as usize as u128 == length as u128
            && (length as f32) < 2f32.powi(usize::BITS as i32), "length {}", length);
        assert_eq!(fits(length, BytesOptions::F64), (length as f64) as usize as u128 == length as u128
            && (length as f64) < 2f64.powi(usize::BITS as i32), "length {}", length);
        assert_eq!(fits(length, BytesOptions::U32), length as u128 <= u32::MAX as u128);
        assert_eq!(fits(length, BytesOptions::I32), length as u128 <= i32::MAX as u128);
        assert_eq!(fits(length, BytesOptions::U64), length as u128 <= u64::MAX as u128);
        assert_eq!(fits(length, BytesOptions::I64), length as u128 <= i64::MAX as u128);
    }
}

#[test]
fn a_length_is_stated_and_read_back() {
    for length in lengths() {
        for format in FORMATS {
            if fits(length, format) {
                let value = value_from_number(length, format);
                assert_eq!(format_of(&value), format);
                assert_eq!(read_value_to_usize(value), length);
            }
        }
    }
}

#[test]
fn stated_lengths_are_exact() {
    assert_eq!(value_from_number(200, BytesOptions::U8), ReadValue::U8(200));
    assert_eq!(value_from_number(100, BytesOptions::I8), ReadValue::I8(100));
    assert_eq!(value_from_number(60_000, BytesOptions::U16), ReadValue::U16(60_000));
    assert_eq!(value_from_number(70_000, BytesOptions::I32), ReadValue::I32(70_000));
    assert_eq!(value_from_number(70_000, BytesOptions::U128), ReadValue::U128(70_000));
    assert_eq!(value_from_number(0, BytesOptions::F32), ReadValue::F32(0));
    assert_eq!(value_from_number(1, BytesOptions::F32), ReadValue::F32(0x3f80_0000));
    assert_eq!(value_from_number(3, BytesOptions::F32), ReadValue::F32(0x4040_0000));
    assert_eq!(value_from_number(100, BytesOptions::F64), ReadValue::F64(0x4059_0000_0000_0000));
}

#[test]
fn stated_lengths_in_binary_formats_agree_with_the_standard_library() {
    for length in lengths() {
        if fits(length, BytesOptions::F32) {
            assert_eq!(
                value_from_number(length, BytesOptions::F32),
                ReadValue::F32((length as f32).to_bits())
            );
        }
        if fits(length, BytesOptions::F64) {
            assert_eq!(
                value_from_number(length, BytesOptions::F64),
                ReadValue::F64((length as f64).to_bits())
            );
        }
    }
}

#[test]
fn the_two_binary_formats() {
    let single = BinaryFormat::single();
    assert_eq!((single.fraction_bits, single.scale, single.exponent_limit, single.bias),
        (23, 1 << 23, 256, 127));
    let double = BinaryFormat::double();
    assert_eq!((double.fraction_bits, double.scale, double.exponent_limit, double.bias),
        (52, 1 << 52, 2048, 1023));
    assert!(single.holds(1 << 24));
    assert!(!single.holds((1 << 24) + 1));
    assert_eq!(single.from_length(2), 0x4000_0000);
    assert_eq!(single.to_length(0x4000_0000), 2);
    assert_eq!(double.from_length(2), 0x4000_0000_0000_0000);
    assert_eq!(double.to_length(0x4000_0000_0000_0000), 2);
}
