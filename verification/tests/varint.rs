use ferrumc::encoding::cursor::Cursor;
use ferrumc::error::CodecError;
use ferrumc::encoding::varint::{
    encode_varint, read_varint, write_varint, write_varint_value, DecodeStep, VarInt,
    VarIntDecoder,
};

#[test]
fn read_varint_valid_input() {
    let mut cursor = Cursor::new(vec![0x80, 0x80, 0x80, 0x80, 0x08]);
    let result = read_varint(&mut cursor);
    assert_eq!(result.unwrap(), VarInt::new(-2147483648));
}

#[test]
fn read_varint_too_big() {
    let mut cursor = Cursor::new(vec![0b10000000; 6]);
    let result = read_varint(&mut cursor);
    assert!(result.is_err());
}

#[test]
fn write_varint_valid_input() {
    let mut cursor = Cursor::new(Vec::new());
    let result = write_varint(2097151, &mut cursor);
    assert!(result.is_ok());
    assert_eq!(cursor.into_inner(), vec![0xff, 0xff, 0x7f]);
}

#[test]
fn write_varint_zero() {
    let mut cursor = Cursor::new(Vec::new());
    let result = write_varint(0, &mut cursor);
    assert!(result.is_ok());
    assert_eq!(cursor.into_inner(), vec![0b00000000]);
}

#[test]
fn read_varint_empty_input() {
    let mut cursor = Cursor::new(vec![]);
    let result = read_varint(&mut cursor);
    assert!(result.is_err());
}

#[test]
fn read_varint_single_byte() {
    let mut cursor = Cursor::new(vec![0b00000001]);
    let result = read_varint(&mut cursor);
    assert_eq!(result.unwrap(), VarInt::new(1));
}

#[test]
fn write_varint_negative_input() {
    let mut cursor = Cursor::new(Vec::new());
    let result = write_varint(-1, &mut cursor);
    assert!(result.is_ok());
    assert_eq!(cursor.into_inner(), vec![0xff, 0xff, 0xff, 0xff, 0x0f]);
}

#[test]
fn new_records_the_signed_width() {
    let cases: [(i32, usize); 16] = [
        (0, 1),
        (127, 1),
        (-128, 1),
        (128, 2),
        (-129, 2),
        (16383, 2),
        (-16384, 2),
        (16384, 3),
        (2097151, 3),
        (-2097152, 3),
        (2097152, 4),
        (268435455, 4),
        (-268435456, 4),
        (268435456, 5),
        (i32::MAX, 5),
        (i32::MIN, 5),
    ];
    for (value, width) in cases {
        let v = VarInt::new(value);
        assert_eq!(v.val(), value);
        assert_eq!(v.len(), width, "width of {}", value);
    }
}

#[test]
fn conversions_keep_the_value() {
    let v: VarInt = 767.into();
    assert_eq!(v, VarInt::new(767));
    let back: i32 = v.into();
    assert_eq!(back, 767);
    let index: usize = VarInt::new(5).into();
    assert_eq!(index, 5);
    let wrapped: usize = VarInt::new(-1).into();
    assert_eq!(wrapped, usize::MAX);
    let wrapped: usize = VarInt::new(i32::MIN).into();
    assert_eq!(wrapped, i32::MIN as usize);
}

#[test]
fn default_is_zero_without_bytes() {
    let v = VarInt::default();
    assert_eq!(v.val(), 0);
    assert_eq!(v.len(), 0);
    assert_ne!(v, VarInt::new(0));
}

#[test]
fn encode_uses_the_fewest_bytes() {
    assert_eq!(encode_varint(0), vec![0x00]);
    assert_eq!(encode_varint(1), vec![0x01]);
    assert_eq!(encode_varint(127), vec![0x7f]);
    assert_eq!(encode_varint(128), vec![0x80, 0x01]);
    assert_eq!(encode_varint(255), vec![0xff, 0x01]);
    assert_eq!(encode_varint(25565), vec![0xdd, 0xc7, 0x01]);
    assert_eq!(encode_varint(2097151), vec![0xff, 0xff, 0x7f]);
    assert_eq!(encode_varint(i32::MAX), vec![0xff, 0xff, 0xff, 0xff, 0x07]);
    assert_eq!(encode_varint(-1), vec![0xff, 0xff, 0xff, 0xff, 0x0f]);
    assert_eq!(encode_varint(i32::MIN), vec![0x80, 0x80, 0x80, 0x80, 0x08]);
}

#[test]
fn read_reports_the_bytes_it_took() {
    let mut cursor = Cursor::new(vec![0xdd, 0xc7, 0x01, 0x55]);
    let v = read_varint(&mut cursor).unwrap();
    assert_eq!(v.val(), 25565);
    assert_eq!(v.len(), 3);
    assert_eq!(cursor.position(), 3);
    let v = read_varint(&mut cursor).unwrap();
    assert_eq!(v.val(), 0x55);
    assert_eq!(cursor.position(), 4);
}

#[test]
fn read_of_a_negative_number_differs_from_new() {
    let mut cursor = Cursor::new(vec![0xff, 0xff, 0xff, 0xff, 0x0f]);
    let v = read_varint(&mut cursor).unwrap();
    assert_eq!(v.val(), -1);
    assert_eq!(v.len(), 5);
    assert_ne!(v, VarInt::new(-1));
}

#[test]
fn read_drops_the_bits_beyond_32() {
    let mut cursor = Cursor::new(vec![0x80, 0x80, 0x80, 0x80, 0x7f]);
    let v = read_varint(&mut cursor).unwrap();
    assert_eq!(v.val(), 0xf000_0000u32 as i32);
}

#[test]
fn read_accepts_padded_encodings() {
    let mut cursor = Cursor::new(vec![0x81, 0x80, 0x00]);
    let v = read_varint(&mut cursor).unwrap();
    assert_eq!(v.val(), 1);
    assert_eq!(v.len(), 3);
}

#[test]
fn read_errors_tell_truncation_from_overlength() {
    let mut cursor = Cursor::new(vec![0x80, 0x80]);
    assert!(matches!(read_varint(&mut cursor), Err(CodecError::Io(_))));
    assert_eq!(cursor.position(), 2);
    let mut cursor = Cursor::new(vec![0x80, 0x80, 0x80, 0x80, 0x80, 0x01]);
    match read_varint(&mut cursor) {
        Err(CodecError::Generic(message)) => assert_eq!(message, "VarInt is too big"),
        other => panic!("unexpected: {:?}", other),
    }
    assert_eq!(cursor.position(), 5);
}

#[test]
fn every_boundary_survives_the_round_trip() {
    let values = [
        0,
        1,
        127,
        128,
        16383,
        16384,
        2097151,
        2097152,
        268435455,
        268435456,
        i32::MAX,
        -1,
        -128,
        -129,
        i32::MIN,
    ];
    for value in values {
        let mut cursor = Cursor::new(Vec::new());
        write_varint(value, &mut cursor).unwrap();
        let bytes = cursor.into_inner();
        let mut cursor = Cursor::new(bytes.clone());
        let v = read_varint(&mut cursor).unwrap();
        assert_eq!(v.val(), value);
        assert_eq!(v.len(), bytes.len());
        assert_eq!(cursor.remaining_len(), 0);
    }
}

#[test]
fn decoder_takes_bytes_one_at_a_time() {
    let mut decoder = VarIntDecoder::new();
    assert_eq!(decoder.push(0xff), DecodeStep::NeedMore);
    match decoder.push(0x05) {
        DecodeStep::Done(v) => {
            assert_eq!(v.val(), 767);
            assert_eq!(v.len(), 2);
        }
        other => panic!("unexpected: {:?}", other),
    }
    // Afresh after an integer.
    match decoder.push(0x01) {
        DecodeStep::Done(v) => assert_eq!(v, VarInt::new(1)),
        other => panic!("unexpected: {:?}", other),
    }
    for _ in 0..4 {
        assert_eq!(decoder.push(0x80), DecodeStep::NeedMore);
    }
    assert_eq!(decoder.push(0x80), DecodeStep::TooBig);
    // Afresh after an overlong one.
    assert_eq!(decoder.push(0x00), DecodeStep::Done(VarInt::new(0)));
}

#[test]
fn write_varint_takes_a_varint_too() {
    let mut cursor = Cursor::new(Vec::new());
    write_varint(VarInt::new(300), &mut cursor).unwrap();
    assert_eq!(cursor.into_inner(), vec![0xac, 0x02]);
}

#[test]
fn to_text_prints_the_integer() {
    assert_eq!(VarInt::new(0).to_text(), "0");
    assert_eq!(VarInt::new(7).to_text(), "7");
    assert_eq!(VarInt::new(10).to_text(), "10");
    assert_eq!(VarInt::new(767).to_text(), "767");
    assert_eq!(VarInt::new(-1).to_text(), "-1");
    assert_eq!(VarInt::new(-2097152).to_text(), "-2097152");
    assert_eq!(VarInt::new(i32::MAX).to_text(), "2147483647");
    assert_eq!(VarInt::new(i32::MIN).to_text(), "-2147483648");
    assert_eq!(VarInt::default().to_text(), "0");
    for value in [1, 9, 99, 100, 1005, -40, 123456789] {
        assert_eq!(VarInt::new(value).to_text(), value.to_string());
    }
}

#[test]
fn write_varint_value_writes_at_the_position() {
    let mut cursor = Cursor::new(vec![9, 9, 9, 9]);
    cursor.set_position(1);
    write_varint_value(300, &mut cursor).unwrap();
    assert_eq!(cursor.position(), 3);
    assert_eq!(cursor.into_inner(), vec![9, 0xac, 0x02, 9]);

    let mut cursor = Cursor::new(Vec::new());
    cursor.set_position(usize::MAX - 1);
    assert!(matches!(
        write_varint_value(300, &mut cursor),
        Err(CodecError::Io(_))
    ));
    assert_eq!(cursor.into_inner(), Vec::<u8>::new());
}
