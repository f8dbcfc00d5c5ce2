use minceraft::containers::{LengthInferredVecU8, LengthPrefixedVec, ShortPrefixedVec, VarIntPrefixedVec};
use minceraft::packet::{Packet, RawPacket};
use minceraft::protocol::{
    ChatMessage, ChatPosition, Difficulty, Dimension, Gamemode, Respawn,
    EncryptionRequest, Handshake, HandshakeState, LoginSuccess, Ping, Request, SetCompression,
    SpawnObjectInner, SpawnObjectVelocity, SpawnPosition, TimeUpdate, UseBed,
};
use minceraft::raw::write_var_int;
use minceraft::types::{Angle, Decoder, Encoder, Position, VarInt, VarLong};
use minceraft::{Error, FormatError, Reader};

fn encode<T: Encoder>(v: &T) -> Vec<u8> {
    let mut w = Vec::new();
    v.write_to(&mut w).unwrap();
    w
}

fn decode<T: Decoder>(b: &[u8]) -> Result<T, Error> {
    let mut r = Reader::new(b);
    T::read_from(&mut r)
}

#[test]
fn option_round_trip() {
    let w = encode(&Some(5i32));
    assert_eq!(w, vec![1, 0, 0, 0, 5]);
    assert_eq!(decode::<Option<i32>>(&w).unwrap(), Some(5));
    let w = encode(&None::<i32>);
    assert_eq!(w, vec![0]);
    assert_eq!(decode::<Option<i32>>(&w).unwrap(), None);
}

#[test]
fn var_types_through_traits() {
    let w = encode(&VarInt(300));
    assert_eq!(w, vec![0xAC, 0x02]);
    assert_eq!(decode::<VarInt>(&w).unwrap(), VarInt(300));
    let w = encode(&VarLong(-2));
    assert_eq!(decode::<VarLong>(&w).unwrap(), VarLong(-2));
    assert_eq!(i32::from(VarInt::from(7)), 7);
    assert_eq!(i64::from(VarLong::from(-7i64)), -7);
}

#[test]
fn angle_and_position_through_traits() {
    let w = encode(&Angle(64));
    assert_eq!(w, vec![64]);
    assert_eq!(decode::<Angle>(&w).unwrap(), Angle(64));
    let p = Position { x: -5, y: 70, z: 1000 };
    let w = encode(&p);
    assert_eq!(decode::<Position>(&w).unwrap(), p);
}

#[test]
fn length_prefixed_round_trip() {
    let v: VarIntPrefixedVec<i16> = LengthPrefixedVec::new(vec![1, -2, 3]);
    let w = encode(&v);
    assert_eq!(w, vec![3, 0, 1, 0xFF, 0xFE, 0, 3]);
    let back = decode::<VarIntPrefixedVec<i16>>(&w).unwrap();
    assert_eq!(back.into_vec(), vec![1, -2, 3]);
    let s: ShortPrefixedVec<String> = LengthPrefixedVec::new(vec!["a".to_string(), "bc".to_string()]);
    let w = encode(&s);
    assert_eq!(w, vec![0, 2, 1, b'a', 2, b'b', b'c']);
    let back = decode::<ShortPrefixedVec<String>>(&w).unwrap();
    assert_eq!(back.0, vec!["a".to_string(), "bc".to_string()]);
}

#[test]
fn sequence_cap_is_enforced() {
    let mut w = Vec::new();
    write_var_int(&mut w, (1 << 20) + 1).unwrap();
    let r = decode::<VarIntPrefixedVec<u8>>(&w);
    assert_eq!(r.err(), Some(Error::Format(FormatError::ArrayTooLarge(1048577))));
}

#[test]
fn sequence_at_cap_reads_elements() {
    let mut w = Vec::new();
    write_var_int(&mut w, 1 << 20).unwrap();
    w.extend(std::iter::repeat(7u8).take(1 << 20));
    let v = decode::<VarIntPrefixedVec<u8>>(&w).unwrap();
    assert_eq!(v.0.len(), 1 << 20);
}

#[test]
fn sequence_stops_at_first_failing_element() {
    let w = vec![2, 1, 5];
    assert_eq!(decode::<VarIntPrefixedVec<bool>>(&w).err(), Some(Error::Format(FormatError::NotABool(5))));
    let w = vec![3, 1, 0];
    assert_eq!(decode::<VarIntPrefixedVec<bool>>(&w).err(), Some(Error::UnexpectedEof));
}

#[test]
fn prefix_that_cannot_hold_length() {
    let v: LengthPrefixedVec<u8, u8> = LengthPrefixedVec::new(vec![0; 256]);
    let mut w = Vec::new();
    assert_eq!(v.write_to(&mut w), Err(Error::Format(FormatError::LengthOutOfRange(256))));
}

#[test]
fn length_inferred_takes_the_rest() {
    let b = vec![1, 2, 3];
    let v = decode::<LengthInferredVecU8>(&b).unwrap();
    assert_eq!(v.0, b);
    assert_eq!(encode(&v), b);
}

#[test]
fn handshake_round_trip_and_layout() {
    let h = Handshake {
        protocol_version: 47,
        server_address: "localhost".to_string(),
        server_port: 25565,
        next_state: HandshakeState::Status,
    };
    let raw = h.encode().unwrap();
    assert_eq!(raw.id, VarInt(0));
    let mut expected = vec![47, 9];
    expected.extend_from_slice(b"localhost");
    expected.extend_from_slice(&[0x63, 0xDD, 1]);
    assert_eq!(raw.data, expected);
    let back = Handshake::decode(raw).unwrap();
    assert_eq!(back.protocol_version, 47);
    assert_eq!(back.server_address, "localhost");
    assert_eq!(back.server_port, 25565);
    assert_eq!(back.next_state, HandshakeState::Status);
}

#[test]
fn unknown_discriminant_names_the_enum() {
    let b = vec![3];
    assert_eq!(
        decode::<HandshakeState>(&b).err(),
        Some(Error::Format(FormatError::UnknownDiscriminant { name: "HandshakeState", value: 3 }))
    );
    assert_eq!(decode::<HandshakeState>(&[2]).unwrap(), HandshakeState::Login);
    assert_eq!(decode::<HandshakeState>(&[1]).unwrap(), HandshakeState::Status);
}

#[test]
fn field_failure_is_annotated() {
    let raw = RawPacket { id: VarInt(0), data: vec![47, 1, b'a', 0x63, 0xDD, 3] };
    let e = Handshake::decode(raw).err().unwrap();
    assert!(e.is_format());
    match e {
        Error::Field { container, field, source } => {
            assert_eq!(container, "Handshake");
            assert_eq!(field, "next_state");
            assert_eq!(
                *source,
                Error::Format(FormatError::UnknownDiscriminant { name: "HandshakeState", value: 3 })
            );
        }
        other => panic!("unexpected error {:?}", other),
    }
    let raw = RawPacket { id: VarInt(0), data: vec![47, 5, b'a'] };
    let e = Handshake::decode(raw).err().unwrap();
    assert!(!e.is_format());
    assert!(matches!(e, Error::Field { field: "server_address", .. }));
}

#[test]
fn login_and_status_packets() {
    let p = EncryptionRequest {
        server_id: String::new(),
        public_key: LengthPrefixedVec::new(vec![1, 2]),
        verify_token: LengthPrefixedVec::new(vec![3]),
    };
    let raw = p.encode().unwrap();
    assert_eq!(raw.id, VarInt(1));
    assert_eq!(raw.data, vec![0, 2, 1, 2, 1, 3]);
    let back = EncryptionRequest::decode(raw).unwrap();
    assert_eq!(back.public_key.0, vec![1, 2]);
    assert_eq!(back.verify_token.0, vec![3]);

    let raw = SetCompression { threshold: 256 }.encode().unwrap();
    assert_eq!((raw.id, raw.data.clone()), (VarInt(3), vec![0x80, 0x02]));
    assert_eq!(SetCompression::decode(raw).unwrap().threshold, 256);

    let raw = LoginSuccess { uuid: "u".to_string(), username: "steve".to_string() }.encode().unwrap();
    let back = LoginSuccess::decode(raw).unwrap();
    assert_eq!(back.username, "steve");

    let raw = Request {}.encode().unwrap();
    assert_eq!((raw.id, raw.data.len()), (VarInt(0), 0));
    let raw = Ping { payload: 0x0102 }.encode().unwrap();
    assert_eq!(raw.data, vec![0, 0, 0, 0, 0, 0, 1, 2]);
    assert_eq!(Ping::decode(raw).unwrap().payload, 0x0102);
}

#[test]
fn play_packets() {
    let raw = TimeUpdate { world_age: 1, time_of_day: 2 }.encode().unwrap();
    assert_eq!(raw.id, VarInt(3));
    let back = TimeUpdate::decode(raw).unwrap();
    assert_eq!((back.world_age, back.time_of_day), (1, 2));
    let raw = SpawnPosition { position: Position { x: 1, y: 64, z: -1 } }.encode().unwrap();
    assert_eq!(SpawnPosition::decode(raw).unwrap().position, Position { x: 1, y: 64, z: -1 });
    let raw = UseBed { eid: 9, location: Position { x: 0, y: 0, z: 0 } }.encode().unwrap();
    assert_eq!(raw.data[0], 9);
    assert_eq!(raw.data.len(), 9);
}

#[test]
fn spawn_object_inner() {
    let with = SpawnObjectInner { data: 1, velocity: Some(SpawnObjectVelocity { x: 1, y: -1, z: 2 }) };
    let w = encode(&with);
    assert_eq!(w, vec![0, 0, 0, 1, 0, 1, 0xFF, 0xFF, 0, 2]);
    assert_eq!(decode::<SpawnObjectInner>(&w).unwrap(), with);
    let without = SpawnObjectInner { data: 0, velocity: None };
    let w = encode(&without);
    assert_eq!(w, vec![0, 0, 0, 0]);
    assert_eq!(decode::<SpawnObjectInner>(&w).unwrap(), without);
    let missing = SpawnObjectInner { data: 3, velocity: None };
    let mut w = Vec::new();
    assert_eq!(
        missing.write_to(&mut w),
        Err(Error::Format(FormatError::MissingField { container: "SpawnObjectInner", field: "velocity" }))
    );
}

#[test]
fn enums_with_byte_discriminants() {
    assert_eq!(encode(&Dimension::Nether), vec![0xFF]);
    assert_eq!(decode::<Dimension>(&[0xFF]).unwrap(), Dimension::Nether);
    assert_eq!(decode::<Dimension>(&[1]).unwrap(), Dimension::End);
    assert_eq!(
        decode::<Dimension>(&[2]).err(),
        Some(Error::Format(FormatError::UnknownDiscriminant { name: "Dimension", value: 2 }))
    );
    assert_eq!(
        decode::<Gamemode>(&[3]).err(),
        Some(Error::Format(FormatError::UnknownDiscriminant { name: "Gamemode", value: 3 }))
    );
    let raw = Respawn {
        dimension: Dimension::Overworld,
        difficulty: Difficulty::Hard,
        gamemode: Gamemode::Creative,
        level_type: "flat".to_string(),
    }
    .encode()
    .unwrap();
    assert_eq!(raw.id, VarInt(7));
    assert_eq!(raw.data, vec![0, 3, 1, 4, b'f', b'l', b'a', b't']);
    let back = Respawn::decode(raw).unwrap();
    assert_eq!(back.difficulty, Difficulty::Hard);
    let raw = ChatMessage { json: "{}".to_string(), position: ChatPosition::Hotbar }.encode().unwrap();
    assert_eq!(raw.data, vec![2, b'{', b'}', 2]);
    assert_eq!(ChatMessage::decode(raw).unwrap().position, ChatPosition::Hotbar);
}

#[test]
fn entity_packets() {
    let raw = minceraft::protocol::EntityLook { eid: 300, yaw: Angle(1), pitch: Angle(2), on_ground: true }
        .encode()
        .unwrap();
    assert_eq!(raw.id, VarInt(0x16));
    assert_eq!(raw.data, vec![0xAC, 0x02, 1, 2, 1]);
    let raw = minceraft::protocol::UpdateEntityStatus { eid: 1, status: minceraft::protocol::EntityStatus::LivingEntityDead }
        .encode()
        .unwrap();
    assert_eq!(raw.data, vec![0, 0, 0, 1, 3]);
    assert_eq!(
        decode::<minceraft::protocol::EntityStatus>(&[5]).err(),
        Some(Error::Format(FormatError::UnknownDiscriminant { name: "EntityStatus", value: 5 }))
    );
    let raw = minceraft::protocol::DestroyEntities { eids: LengthPrefixedVec::new(vec![VarInt(1), VarInt(128)]) }
        .encode()
        .unwrap();
    assert_eq!(raw.data, vec![2, 1, 0x80, 0x01]);
    let back = minceraft::protocol::DestroyEntities::decode(raw).unwrap();
    assert_eq!(back.eids.0, vec![VarInt(1), VarInt(128)]);
}

#[test]
fn handshake_with_unknown_next_state_names_the_enum() {
    let raw = RawPacket { id: VarInt(0), data: vec![0x2F, 0x00, 0x63, 0xDD, 0x03] };
    assert_eq!(
        Handshake::decode(raw).err(),
        Some(Error::Field {
            container: "Handshake",
            field: "next_state",
            source: Box::new(Error::Format(FormatError::UnknownDiscriminant { name: "HandshakeState", value: 3 })),
        })
    );
}

#[test]
fn refused_sequence_leaves_reader_after_length() {
    let mut w = Vec::new();
    write_var_int(&mut w, (1 << 20) + 1).unwrap();
    w.extend_from_slice(&[9, 9]);
    let mut r = Reader::new(&w);
    assert!(VarIntPrefixedVec::<u8>::read_from(&mut r).is_err());
    assert_eq!(r.remaining(), 2);
}
