use minceraft::packet::{frame_length, RawPacket};
use minceraft::raw::{read_var_int, write_var_int};
use minceraft::types::VarInt;
use minceraft::{Error, FormatError, Reader};
use std::io::Read;

fn pack(id: i32, data: &[u8], threshold: i32) -> Vec<u8> {
    let p = RawPacket { id: VarInt(id), data: data.to_vec() };
    let mut w = Vec::new();
    p.pack(&mut w, threshold).unwrap();
    w
}

fn unpack(b: &[u8], threshold: i32) -> Result<RawPacket, Error> {
    let mut r = Reader::new(b);
    RawPacket::unpack(&mut r, threshold)
}

fn var_int(v: i32) -> Vec<u8> {
    let mut w = Vec::new();
    write_var_int(&mut w, v).unwrap();
    w
}

#[test]
fn frame_round_trip_uncompressed() {
    let w = pack(0x21, &[1, 2, 3], -1);
    assert_eq!(w, vec![4, 0x21, 1, 2, 3]);
    let p = unpack(&w, -1).unwrap();
    assert_eq!(p.id, VarInt(0x21));
    assert_eq!(p.data, vec![1, 2, 3]);
    assert_eq!(pack(0x21, &[1, 2, 3], -7), w);
}

#[test]
fn frame_round_trip_empty_payload() {
    let w = pack(0, &[], -1);
    assert_eq!(w, vec![1, 0]);
    let p = unpack(&w, -1).unwrap();
    assert_eq!(p.id, VarInt(0));
    assert!(p.data.is_empty());
}

#[test]
fn frame_round_trip_below_threshold() {
    let payload: Vec<u8> = (0..20).collect();
    let w = pack(5, &payload, 50);
    let mut r = Reader::new(&w);
    let len = read_var_int(&mut r).unwrap();
    assert_eq!(len as usize, w.len() - 1);
    assert_eq!(read_var_int(&mut r).unwrap(), 0);
    let mut body = vec![5u8];
    body.extend_from_slice(&payload);
    assert_eq!(&w[2..], &body[..]);
    let p = unpack(&w, 50).unwrap();
    assert_eq!(p.id, VarInt(5));
    assert_eq!(p.data, payload);
}

#[test]
fn frame_round_trip_above_threshold() {
    let payload: Vec<u8> = (0..99u32).map(|i| (i % 7) as u8).collect();
    let w = pack(0, &payload, 2);
    let mut r = Reader::new(&w);
    let len = read_var_int(&mut r).unwrap();
    assert_eq!(len as usize, r.remaining());
    assert_eq!(read_var_int(&mut r).unwrap(), 100);
    let compressed = r.read_to_end();
    let mut inflated = Vec::new();
    flate2::read::ZlibDecoder::new(&compressed[..]).read_to_end(&mut inflated).unwrap();
    let mut body = vec![0u8];
    body.extend_from_slice(&payload);
    assert_eq!(inflated, body);
    let p = unpack(&w, 2).unwrap();
    assert_eq!(p.id, VarInt(0));
    assert_eq!(p.data, payload);
}

#[test]
fn oversize_data_length_is_rejected() {
    let mut inner = var_int(2097153);
    inner.extend_from_slice(&[0x78, 0x9c, 0x01]);
    let mut frame = var_int(inner.len() as i32);
    frame.extend_from_slice(&inner);
    assert_eq!(
        unpack(&frame, 0).err(),
        Some(Error::Format(FormatError::DataLengthAboveMaximum(2097153)))
    );
}

#[test]
fn data_length_below_threshold_is_rejected() {
    let mut inner = var_int(10);
    inner.extend_from_slice(&[1, 2, 3]);
    let mut frame = var_int(inner.len() as i32);
    frame.extend_from_slice(&inner);
    assert_eq!(
        unpack(&frame, 64).err(),
        Some(Error::Format(FormatError::DataLengthBelowThreshold { data_length: 10, threshold: 64 }))
    );
}

#[test]
fn corrupt_zlib_is_compression_error() {
    let mut inner = var_int(100);
    inner.extend_from_slice(&[1, 2, 3, 4, 5]);
    let mut frame = var_int(inner.len() as i32);
    frame.extend_from_slice(&inner);
    assert_eq!(unpack(&frame, 0).err(), Some(Error::Compression));
}

#[test]
fn inflated_length_must_match() {
    let body = pack(3, &[9; 40], 0);
    let mut r = Reader::new(&body);
    read_var_int(&mut r).unwrap();
    read_var_int(&mut r).unwrap();
    let compressed = r.read_to_end();
    let mut inner = var_int(50);
    inner.extend_from_slice(&compressed);
    let mut frame = var_int(inner.len() as i32);
    frame.extend_from_slice(&inner);
    assert_eq!(
        unpack(&frame, 0).err(),
        Some(Error::Format(FormatError::DataLengthMismatch { declared: 50, actual: 41 }))
    );
}

#[test]
fn truncated_frame_is_eof() {
    assert_eq!(unpack(&[5, 0, 1], -1).err(), Some(Error::UnexpectedEof));
}

#[test]
fn negative_frame_length_is_rejected() {
    let frame = var_int(-3);
    assert_eq!(unpack(&frame, -1).err(), Some(Error::Format(FormatError::NegativeLength(-3))));
}

#[test]
fn frames_are_read_one_after_another() {
    let mut w = pack(1, &[10, 11], 0);
    w.extend_from_slice(&pack(2, &[12; 30], 0));
    let mut r = Reader::new(&w);
    let a = RawPacket::unpack(&mut r, 0).unwrap();
    let b = RawPacket::unpack(&mut r, 0).unwrap();
    assert_eq!((a.id, a.data), (VarInt(1), vec![10, 11]));
    assert_eq!((b.id, b.data), (VarInt(2), vec![12; 30]));
    assert_eq!(r.remaining(), 0);
}

#[test]
fn deflated_frame_layout() {
    let mut w = Vec::new();
    RawPacket::write_deflated_frame(&mut w, 300, &[7, 8, 9]).unwrap();
    assert_eq!(w, vec![5, 0xAC, 0x02, 7, 8, 9]);
}

#[test]
fn frame_length_needs_whole_var_int() {
    assert_eq!(frame_length(&[]), Ok(None));
    assert_eq!(frame_length(&[0x80]), Ok(None));
    assert_eq!(frame_length(&[0xAC, 0x02]), Ok(Some(300)));
    assert_eq!(frame_length(&[0x05]), Ok(Some(5)));
    assert_eq!(frame_length(&[0xFF, 0xFF, 0xFF, 0xFF, 0x0F]), Err(Error::Format(FormatError::NegativeLength(-1))));
    assert_eq!(frame_length(&[0x80; 5]), Err(Error::Format(FormatError::VarIntTooLong)));
}

#[test]
fn packed_length_over_threshold_compresses_repetitive_body() {
    let payload = vec![0u8; 1000];
    let w = pack(0x10, &payload, 256);
    assert!(w.len() < 100);
    let p = unpack(&w, 256).unwrap();
    assert_eq!(p.id, VarInt(0x10));
    assert_eq!(p.data, payload);
}

#[test]
fn stored_frame_at_threshold_boundary() {
    let w = pack(1, &[0; 9], 10);
    let mut r = Reader::new(&w);
    read_var_int(&mut r).unwrap();
    assert_eq!(read_var_int(&mut r).unwrap(), 10);
    let w = pack(1, &[0; 8], 10);
    let mut r = Reader::new(&w);
    read_var_int(&mut r).unwrap();
    assert_eq!(read_var_int(&mut r).unwrap(), 0);
}

#[test]
fn failed_frame_is_still_consumed() {
    let mut inner = var_int(2097153);
    inner.extend_from_slice(&[1, 2, 3]);
    let mut frame = var_int(inner.len() as i32);
    frame.extend_from_slice(&inner);
    frame.extend_from_slice(&[0xEE, 0xEF]);
    let mut r = Reader::new(&frame);
    assert!(RawPacket::unpack(&mut r, 0).is_err());
    assert_eq!(r.remaining(), 2);
}

#[test]
fn deflated_packing_succeeds_for_large_bodies() {
    let payload: Vec<u8> = (0..5000u32).map(|i| (i * 31 % 251) as u8).collect();
    let w = pack(0x44, &payload, 0);
    let p = unpack(&w, 0).unwrap();
    assert_eq!(p.id, VarInt(0x44));
    assert_eq!(p.data, payload);
}
