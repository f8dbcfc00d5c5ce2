use minceraft::raw::{
    read_bitset, read_bool, read_byte, read_byte_array, read_chat, read_identifier, read_int,
    read_long, read_position, read_short, read_string, read_unsigned_byte, read_unsigned_short,
    read_uuid, write_bitset, write_bool, write_byte, write_byte_array, write_chat,
    write_identifier, write_int, write_long, write_position, write_short, write_string,
    write_unsigned_byte, write_unsigned_short, write_uuid, Uuid,
};
use minceraft::{Error, FormatError, Reader};

#[test]
fn fixed_width_integers_are_big_endian() {
    let mut w = Vec::new();
    write_short(&mut w, -2).unwrap();
    write_unsigned_short(&mut w, 0x1234).unwrap();
    write_int(&mut w, 0x01020304).unwrap();
    write_long(&mut w, -1).unwrap();
    write_byte(&mut w, -128).unwrap();
    write_unsigned_byte(&mut w, 200).unwrap();
    assert_eq!(
        w,
        vec![0xFF, 0xFE, 0x12, 0x34, 1, 2, 3, 4, 0xFF, 0xFF, 0xFF, 0xFF, 0xFF, 0xFF, 0xFF, 0xFF, 0x80, 200]
    );
    let mut r = Reader::new(&w);
    assert_eq!(read_short(&mut r).unwrap(), -2);
    assert_eq!(read_unsigned_short(&mut r).unwrap(), 0x1234);
    assert_eq!(read_int(&mut r).unwrap(), 0x01020304);
    assert_eq!(read_long(&mut r).unwrap(), -1);
    assert_eq!(read_byte(&mut r).unwrap(), -128);
    assert_eq!(read_unsigned_byte(&mut r).unwrap(), 200);
    assert_eq!(r.remaining(), 0);
}

#[test]
fn integer_extremes_round_trip() {
    let mut w = Vec::new();
    write_int(&mut w, i32::MIN).unwrap();
    write_int(&mut w, i32::MAX).unwrap();
    write_long(&mut w, i64::MIN).unwrap();
    write_short(&mut w, i16::MIN).unwrap();
    let mut r = Reader::new(&w);
    assert_eq!(read_int(&mut r).unwrap(), i32::MIN);
    assert_eq!(read_int(&mut r).unwrap(), i32::MAX);
    assert_eq!(read_long(&mut r).unwrap(), i64::MIN);
    assert_eq!(read_short(&mut r).unwrap(), i16::MIN);
}

#[test]
fn short_input_is_eof() {
    let b = vec![1, 2, 3];
    let mut r = Reader::new(&b);
    assert_eq!(read_int(&mut r), Err(Error::UnexpectedEof));
}

#[test]
fn bool_round_trip_and_rejection() {
    let mut w = Vec::new();
    write_bool(&mut w, true).unwrap();
    write_bool(&mut w, false).unwrap();
    assert_eq!(w, vec![1, 0]);
    let mut r = Reader::new(&w);
    assert!(read_bool(&mut r).unwrap());
    assert!(!read_bool(&mut r).unwrap());
    let b = vec![2];
    let mut r = Reader::new(&b);
    assert_eq!(read_bool(&mut r), Err(Error::Format(FormatError::NotABool(2))));
}

#[test]
fn string_round_trip() {
    for s in ["", "hello", "héllo wörld ✓", "𝄞"] {
        let mut w = Vec::new();
        write_string(&mut w, &s.to_string()).unwrap();
        assert_eq!(w[0] as usize, s.len());
        let mut r = Reader::new(&w);
        assert_eq!(read_string(&mut r).unwrap(), s);
        assert_eq!(r.remaining(), 0);
    }
}

#[test]
fn string_layout() {
    let mut w = Vec::new();
    write_string(&mut w, &"abc".to_string()).unwrap();
    assert_eq!(w, vec![3, b'a', b'b', b'c']);
}

#[test]
fn invalid_utf8_is_format_error() {
    let b = vec![2, 0xC3, 0x28];
    let mut r = Reader::new(&b);
    assert_eq!(read_string(&mut r), Err(Error::Format(FormatError::InvalidUtf8)));
}

#[test]
fn negative_string_length_is_format_error() {
    let b = vec![0xFF, 0xFF, 0xFF, 0xFF, 0x0F];
    let mut r = Reader::new(&b);
    assert_eq!(read_string(&mut r), Err(Error::Format(FormatError::NegativeLength(-1))));
}

#[test]
fn chat_and_identifier_limits() {
    let long = "a".repeat(32768);
    let mut w = Vec::new();
    assert_eq!(
        write_identifier(&mut w, &long),
        Err(Error::Format(FormatError::StringTooLong { max: 32767, len: 32768 }))
    );
    assert!(w.is_empty());
    write_chat(&mut w, &long).unwrap();
    let mut r = Reader::new(&w);
    assert_eq!(
        read_identifier(&mut r),
        Err(Error::Format(FormatError::StringTooLong { max: 32767, len: 32768 }))
    );
    let mut r = Reader::new(&w);
    assert_eq!(read_chat(&mut r).unwrap(), long);
    let too_long = "b".repeat(262145);
    let mut w = Vec::new();
    assert_eq!(
        write_chat(&mut w, &too_long),
        Err(Error::Format(FormatError::StringTooLong { max: 262144, len: 262145 }))
    );
    let mut w = Vec::new();
    write_string(&mut w, &too_long).unwrap();
    let mut r = Reader::new(&w);
    assert_eq!(
        read_chat(&mut r),
        Err(Error::Format(FormatError::StringTooLong { max: 262144, len: 262145 }))
    );
    let id = "minecraft:stone".to_string();
    let mut w = Vec::new();
    write_identifier(&mut w, &id).unwrap();
    let mut r = Reader::new(&w);
    assert_eq!(read_identifier(&mut r).unwrap(), id);
}

#[test]
fn byte_array_round_trip() {
    let v = vec![9u8, 8, 7];
    let mut w = Vec::new();
    write_byte_array(&mut w, &v).unwrap();
    assert_eq!(w, vec![3, 9, 8, 7]);
    let mut r = Reader::new(&w);
    assert_eq!(read_byte_array(&mut r).unwrap(), v);
}

#[test]
fn bitset_round_trip() {
    let v = vec![1i64, -1, i64::MAX];
    let mut w = Vec::new();
    write_bitset(&mut w, &v).unwrap();
    assert_eq!(w.len(), 1 + 24);
    assert_eq!(&w[..9], &[3, 0, 0, 0, 0, 0, 0, 0, 1]);
    let mut r = Reader::new(&w);
    assert_eq!(read_bitset(&mut r).unwrap(), v);
    let short = vec![2, 0, 0, 0, 0, 0, 0, 0, 1, 0];
    let mut r = Reader::new(&short);
    assert_eq!(read_bitset(&mut r), Err(Error::UnexpectedEof));
}

#[test]
fn uuid_round_trip() {
    let u = Uuid(0x0123_4567_89ab_cdef_fedc_ba98_7654_3210);
    let mut w = Vec::new();
    write_uuid(&mut w, u).unwrap();
    assert_eq!(w.len(), 16);
    assert_eq!(w[0], 0x01);
    assert_eq!(w[15], 0x10);
    let mut r = Reader::new(&w);
    assert_eq!(read_uuid(&mut r).unwrap(), u);
}

#[test]
fn position_layout_and_round_trip() {
    let mut w = Vec::new();
    write_position(&mut w, 1, 2, 3).unwrap();
    let word: u64 = (1u64 << 38) | (3u64 << 12) | 2;
    assert_eq!(w, word.to_be_bytes().to_vec());
    for (x, y, z) in [(1, 2, 3), (-1, -1, -1), (-33554432, -2048, 33554431), (33554431, 2047, -33554432), (0, 0, 0)] {
        let mut w = Vec::new();
        write_position(&mut w, x, y, z).unwrap();
        let mut r = Reader::new(&w);
        assert_eq!(read_position(&mut r).unwrap(), (x, y, z));
    }
}

#[test]
fn position_fields_are_sign_extended() {
    let w = u64::MAX.to_be_bytes().to_vec();
    let mut r = Reader::new(&w);
    assert_eq!(read_position(&mut r).unwrap(), (-1, -1, -1));
    let word: u64 = (1u64 << 63) | (1u64 << 37) | (1u64 << 11);
    let w = word.to_be_bytes().to_vec();
    let mut r = Reader::new(&w);
    assert_eq!(read_position(&mut r).unwrap(), (-33554432, -2048, -33554432));
}
