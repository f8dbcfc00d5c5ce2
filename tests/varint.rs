use minceraft::raw::{read_var_int, read_var_long, write_var_int, write_var_long};
use minceraft::{Error, FormatError, Reader};

fn var_int(v: i32) -> Vec<u8> {
    let mut w = Vec::new();
    write_var_int(&mut w, v).unwrap();
    w
}

#[test]
fn var_int_boundaries() {
    assert_eq!(var_int(0), vec![0x00]);
    assert_eq!(var_int(-1), vec![0xFF, 0xFF, 0xFF, 0xFF, 0x0F]);
    assert_eq!(var_int(127), vec![0x7F]);
    assert_eq!(var_int(128), vec![0x80, 0x01]);
    assert_eq!(var_int(255), vec![0xFF, 0x01]);
    assert_eq!(var_int(2147483647), vec![0xFF, 0xFF, 0xFF, 0xFF, 0x07]);
    assert_eq!(var_int(-2147483648), vec![0x80, 0x80, 0x80, 0x80, 0x08]);
}

#[test]
fn var_int_round_trip_values() {
    for v in [0, 1, -1, 127, 128, 300, 25565, -2147483648, 2147483647, 1 << 20] {
        let b = var_int(v);
        let mut r = Reader::new(&b);
        assert_eq!(read_var_int(&mut r).unwrap(), v);
        assert_eq!(r.remaining(), 0);
    }
}

#[test]
fn var_int_leaves_following_bytes() {
    let b = vec![0xAC, 0x02, 0x55];
    let mut r = Reader::new(&b);
    assert_eq!(read_var_int(&mut r).unwrap(), 300);
    assert_eq!(r.remaining(), 1);
}

#[test]
fn var_int_overlong_is_format_error() {
    let b = vec![0x80, 0x80, 0x80, 0x80, 0x80, 0x80];
    let mut r = Reader::new(&b);
    assert_eq!(read_var_int(&mut r), Err(Error::Format(FormatError::VarIntTooLong)));
    let b = vec![0xFF; 7];
    let mut r = Reader::new(&b);
    assert_eq!(read_var_int(&mut r), Err(Error::Format(FormatError::VarIntTooLong)));
}

#[test]
fn var_int_truncated_input_is_eof() {
    let b = vec![0x80, 0x80];
    let mut r = Reader::new(&b);
    assert_eq!(read_var_int(&mut r), Err(Error::UnexpectedEof));
    let b: Vec<u8> = vec![];
    let mut r = Reader::new(&b);
    assert_eq!(read_var_int(&mut r), Err(Error::UnexpectedEof));
}

#[test]
fn var_long_boundaries_and_round_trip() {
    let mut w = Vec::new();
    write_var_long(&mut w, -1).unwrap();
    assert_eq!(w, vec![0xFF, 0xFF, 0xFF, 0xFF, 0xFF, 0xFF, 0xFF, 0xFF, 0xFF, 0x01]);
    for v in [0i64, 1, -1, 127, 128, i64::MAX, i64::MIN, 1 << 40] {
        let mut w = Vec::new();
        write_var_long(&mut w, v).unwrap();
        let mut r = Reader::new(&w);
        assert_eq!(read_var_long(&mut r).unwrap(), v);
        assert_eq!(r.remaining(), 0);
    }
}

#[test]
fn var_long_overlong_is_format_error() {
    let b = vec![0x80; 11];
    let mut r = Reader::new(&b);
    assert_eq!(read_var_long(&mut r), Err(Error::Format(FormatError::VarLongTooLong)));
}

