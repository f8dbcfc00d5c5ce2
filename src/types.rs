//! The value types of the protocol and their encoders and decoders.
use crate::error::Error;
use crate::laws::{
    lemma_bool_round_trip, lemma_longs_round_trip, lemma_position_word_round_trip,
    lemma_signed_round_trip, lemma_string_round_trip, lemma_unsigned_round_trip,
    lemma_var_int_round_trip, lemma_var_long_round_trip,
};
use crate::raw::{
    lemma_pow_values, read_bitset, read_bool, read_byte, read_int, read_long, read_position,
    read_short, read_string, read_unsigned_byte, read_unsigned_short, read_uuid, read_var_int,
    read_var_long, write_bitset, write_bool, write_byte, write_byte_array, write_int, write_long,
    write_position, write_short, write_string, write_unsigned_byte, write_unsigned_short,
    write_uuid, write_var_int, write_var_long, Uuid, MAX_PREFIXED_LENGTH,
};
use crate::reader::Reader;
use crate::wire::{
    be_bytes, bool_byte, fixed_bytes, longs_bytes, parse_bool, parse_longs, parse_signed,
    parse_string, parse_unsigned, parse_var_int, parse_var_long, position_in_range,
    position_of_word, position_word, prefixed_bytes, string_bytes, var_int_bytes,
    var_long_bytes,
};
use vstd::utf8::encode_utf8;
use vstd::prelude::*;

verus! {

/// A type that writes itself to a byte sink.
pub trait Encoder: DeepView + Sized {
    /// Whether the value with this model can be written.
    spec fn encodable(v: Self::V) -> bool;

    /// The bytes written for the value with this model.
    spec fn encoding(v: Self::V) -> Seq<u8>;

    /// Appends the value's encoding; on failure, what was there stays in front.
    fn write_to(&self, w: &mut Vec<u8>) -> (r: Result<(), Error>)
        ensures
            r is Ok <==> Self::encodable(self.deep_view()),
            r is Ok ==> final(w)@ == old(w)@ + Self::encoding(self.deep_view()),
            old(w)@.is_prefix_of(final(w)@),
    ;
}

/// A type that reads itself from a byte source.
pub trait Decoder: DeepView + Sized {
    /// The model of the value at the front of `b` and the number of bytes it
    /// takes, or `None` where `b` does not start with one.
    spec fn parse(b: Seq<u8>) -> Option<(Self::V, nat)>;

    /// The error of decoding `b`, where `parse` finds no value.
    spec fn parse_error(b: Seq<u8>) -> Error;

    /// Reads one value; fails exactly where `parse` finds none, with the
    /// error that `parse_error` gives.
    fn read_from(r: &mut Reader) -> (res: Result<Self, Error>)
        ensures
            match Self::parse(old(r)@) {
                Some((v, n)) => res matches Ok(x) && x.deep_view() == v && n <= old(r)@.len()
                    && final(r)@ == old(r)@.skip(n as int),
                None => res == Err::<Self, Error>(Self::parse_error(old(r)@)),
            },
    ;
}

/// A type whose decoder takes back what its encoder writes.
pub trait Codec: Encoder + Decoder + DeepView {
    /// The values that the wire format carries unchanged.
    spec fn wire_valid(v: <Self as DeepView>::V) -> bool;

    /// Decoding the encoding of a value gives the value back and consumes
    /// exactly its encoding, whatever bytes follow.
    proof fn lemma_round_trip(v: <Self as DeepView>::V, rest: Seq<u8>)
        requires
            Self::encodable(v),
            Self::wire_valid(v),
        ensures
            Self::parse(Self::encoding(v) + rest) == Some((v, Self::encoding(v).len())),
    ;
}


impl Encoder for i8 {
    open spec fn encodable(v: i8) -> bool {
        true
    }

    open spec fn encoding(v: i8) -> Seq<u8> {
        fixed_bytes(v as int, 1)
    }

    fn write_to(&self, w: &mut Vec<u8>) -> (r: Result<(), Error>) {
        write_byte(w, *self)
    }
}

impl Decoder for i8 {
    open spec fn parse(b: Seq<u8>) -> Option<(i8, nat)> {
        match parse_signed(b, 1) {
            Ok((v, n)) => Some((v as i8, n)),
            Err(_) => None,
        }
    }

    open spec fn parse_error(b: Seq<u8>) -> Error {
        match parse_signed(b, 1) {
            Err(e) => e,
            Ok(_) => Error::UnexpectedEof,
        }
    }

    fn read_from(r: &mut Reader) -> (res: Result<i8, Error>) {
        read_byte(r)
    }
}

impl Codec for i8 {
    open spec fn wire_valid(v: i8) -> bool {
        true
    }

    proof fn lemma_round_trip(v: i8, rest: Seq<u8>) {
        lemma_pow_values();
        lemma_signed_round_trip(v as int, 1, rest);
    }
}

impl Encoder for u16 {
    open spec fn encodable(v: u16) -> bool {
        true
    }

    open spec fn encoding(v: u16) -> Seq<u8> {
        be_bytes(v as nat, 2)
    }

    fn write_to(&self, w: &mut Vec<u8>) -> (r: Result<(), Error>) {
        write_unsigned_short(w, *self)
    }
}

impl Decoder for u16 {
    open spec fn parse(b: Seq<u8>) -> Option<(u16, nat)> {
        match parse_unsigned(b, 2) {
            Ok((v, n)) => Some((v as u16, n)),
            Err(_) => None,
        }
    }

    open spec fn parse_error(b: Seq<u8>) -> Error {
        match parse_unsigned(b, 2) {
            Err(e) => e,
            Ok(_) => Error::UnexpectedEof,
        }
    }

    fn read_from(r: &mut Reader) -> (res: Result<u16, Error>) {
        read_unsigned_short(r)
    }
}

impl Codec for u16 {
    open spec fn wire_valid(v: u16) -> bool {
        true
    }

    proof fn lemma_round_trip(v: u16, rest: Seq<u8>) {
        lemma_pow_values();
        lemma_unsigned_round_trip(v as nat, 2, rest);
    }
}

impl Encoder for i16 {
    open spec fn encodable(v: i16) -> bool {
        true
    }

    open spec fn encoding(v: i16) -> Seq<u8> {
        fixed_bytes(v as int, 2)
    }

    fn write_to(&self, w: &mut Vec<u8>) -> (r: Result<(), Error>) {
        write_short(w, *self)
    }
}

impl Decoder for i16 {
    open spec fn parse(b: Seq<u8>) -> Option<(i16, nat)> {
        match parse_signed(b, 2) {
            Ok((v, n)) => Some((v as i16, n)),
            Err(_) => None,
        }
    }

    open spec fn parse_error(b: Seq<u8>) -> Error {
        match parse_signed(b, 2) {
            Err(e) => e,
            Ok(_) => Error::UnexpectedEof,
        }
    }

    fn read_from(r: &mut Reader) -> (res: Result<i16, Error>) {
        read_short(r)
    }
}

impl Codec for i16 {
    open spec fn wire_valid(v: i16) -> bool {
        true
    }

    proof fn lemma_round_trip(v: i16, rest: Seq<u8>) {
        lemma_pow_values();
        lemma_signed_round_trip(v as int, 2, rest);
    }
}

impl Encoder for i32 {
    open spec fn encodable(v: i32) -> bool {
        true
    }

    open spec fn encoding(v: i32) -> Seq<u8> {
        fixed_bytes(v as int, 4)
    }

    fn write_to(&self, w: &mut Vec<u8>) -> (r: Result<(), Error>) {
        write_int(w, *self)
    }
}

impl Decoder for i32 {
    open spec fn parse(b: Seq<u8>) -> Option<(i32, nat)> {
        match parse_signed(b, 4) {
            Ok((v, n)) => Some((v as i32, n)),
            Err(_) => None,
        }
    }

    open spec fn parse_error(b: Seq<u8>) -> Error {
        match parse_signed(b, 4) {
            Err(e) => e,
            Ok(_) => Error::UnexpectedEof,
        }
    }

    fn read_from(r: &mut Reader) -> (res: Result<i32, Error>) {
        read_int(r)
    }
}

impl Codec for i32 {
    open spec fn wire_valid(v: i32) -> bool {
        true
    }

    proof fn lemma_round_trip(v: i32, rest: Seq<u8>) {
        lemma_pow_values();
        lemma_signed_round_trip(v as int, 4, rest);
    }
}

impl Encoder for i64 {
    open spec fn encodable(v: i64) -> bool {
        true
    }

    open spec fn encoding(v: i64) -> Seq<u8> {
        fixed_bytes(v as int, 8)
    }

    fn write_to(&self, w: &mut Vec<u8>) -> (r: Result<(), Error>) {
        write_long(w, *self)
    }
}

impl Decoder for i64 {
    open spec fn parse(b: Seq<u8>) -> Option<(i64, nat)> {
        match parse_signed(b, 8) {
            Ok((v, n)) => Some((v as i64, n)),
            Err(_) => None,
        }
    }

    open spec fn parse_error(b: Seq<u8>) -> Error {
        match parse_signed(b, 8) {
            Err(e) => e,
            Ok(_) => Error::UnexpectedEof,
        }
    }

    fn read_from(r: &mut Reader) -> (res: Result<i64, Error>) {
        read_long(r)
    }
}

impl Codec for i64 {
    open spec fn wire_valid(v: i64) -> bool {
        true
    }

    proof fn lemma_round_trip(v: i64, rest: Seq<u8>) {
        lemma_pow_values();
        lemma_signed_round_trip(v as int, 8, rest);
    }
}

impl Encoder for u8 {
    open spec fn encodable(v: u8) -> bool {
        true
    }

    open spec fn encoding(v: u8) -> Seq<u8> {
        seq![v]
    }

    fn write_to(&self, w: &mut Vec<u8>) -> (r: Result<(), Error>) {
        let r = write_unsigned_byte(w, *self);
        assert(w@ =~= old(w)@ + seq![*self]);
        r
    }
}

impl Decoder for u8 {
    open spec fn parse(b: Seq<u8>) -> Option<(u8, nat)> {
        if b.len() > 0 {
            Some((b[0], 1))
        } else {
            None
        }
    }

    open spec fn parse_error(b: Seq<u8>) -> Error {
        Error::UnexpectedEof
    }

    fn read_from(r: &mut Reader) -> (res: Result<u8, Error>) {
        read_unsigned_byte(r)
    }
}

impl Codec for u8 {
    open spec fn wire_valid(v: u8) -> bool {
        true
    }

    proof fn lemma_round_trip(v: u8, rest: Seq<u8>) {
    }
}

impl Encoder for bool {
    open spec fn encodable(v: bool) -> bool {
        true
    }

    open spec fn encoding(v: bool) -> Seq<u8> {
        seq![bool_byte(v)]
    }

    fn write_to(&self, w: &mut Vec<u8>) -> (r: Result<(), Error>) {
        let r = write_bool(w, *self);
        assert(w@ =~= old(w)@ + seq![bool_byte(*self)]);
        r
    }
}

impl Decoder for bool {
    open spec fn parse(b: Seq<u8>) -> Option<(bool, nat)> {
        match parse_bool(b) {
            Ok((v, n)) => Some((v, n)),
            Err(_) => None,
        }
    }

    open spec fn parse_error(b: Seq<u8>) -> Error {
        match parse_bool(b) {
            Err(e) => e,
            Ok(_) => Error::UnexpectedEof,
        }
    }

    fn read_from(r: &mut Reader) -> (res: Result<bool, Error>) {
        read_bool(r)
    }
}

impl Codec for bool {
    open spec fn wire_valid(v: bool) -> bool {
        true
    }

    proof fn lemma_round_trip(v: bool, rest: Seq<u8>) {
        lemma_bool_round_trip(v, rest);
    }
}

impl Encoder for String {
    open spec fn encodable(v: Seq<char>) -> bool {
        encode_utf8(v).len() <= MAX_PREFIXED_LENGTH
    }

    open spec fn encoding(v: Seq<char>) -> Seq<u8> {
        string_bytes(v)
    }

    fn write_to(&self, w: &mut Vec<u8>) -> (r: Result<(), Error>) {
        write_string(w, self)
    }
}

impl Decoder for String {
    open spec fn parse(b: Seq<u8>) -> Option<(Seq<char>, nat)> {
        match parse_string(b, MAX_PREFIXED_LENGTH as nat) {
            Ok((v, n)) => Some((v, n)),
            Err(_) => None,
        }
    }

    open spec fn parse_error(b: Seq<u8>) -> Error {
        match parse_string(b, MAX_PREFIXED_LENGTH as nat) {
            Err(e) => e,
            Ok(_) => Error::UnexpectedEof,
        }
    }

    fn read_from(r: &mut Reader) -> (res: Result<String, Error>) {
        read_string(r)
    }
}

impl Codec for String {
    open spec fn wire_valid(v: Seq<char>) -> bool {
        true
    }

    proof fn lemma_round_trip(v: Seq<char>, rest: Seq<u8>) {
        lemma_string_round_trip(v, MAX_PREFIXED_LENGTH as nat, rest);
    }
}

/// A 32-bit integer written as 1 to 5 bytes of 7-bit groups.
#[derive(Debug, Clone, Copy, PartialEq, Eq, Structural)]
pub struct VarInt(pub i32);

/// A 64-bit integer written as 1 to 10 bytes of 7-bit groups.
#[derive(Debug, Clone, Copy, PartialEq, Eq, Structural)]
pub struct VarLong(pub i64);



impl DeepView for VarInt {
    type V = i32;

    open spec fn deep_view(&self) -> i32 {
        self.0
    }
}

impl Encoder for VarInt {
    open spec fn encodable(v: i32) -> bool {
        true
    }

    open spec fn encoding(v: i32) -> Seq<u8> {
        var_int_bytes(v)
    }

    fn write_to(&self, w: &mut Vec<u8>) -> (r: Result<(), Error>) {
        write_var_int(w, self.0)
    }
}

impl Decoder for VarInt {
    open spec fn parse(b: Seq<u8>) -> Option<(i32, nat)> {
        match parse_var_int(b) {
            Ok((v, n)) => Some((v, n)),
            Err(_) => None,
        }
    }

    open spec fn parse_error(b: Seq<u8>) -> Error {
        match parse_var_int(b) {
            Err(e) => e,
            Ok(_) => Error::UnexpectedEof,
        }
    }

    fn read_from(r: &mut Reader) -> (res: Result<VarInt, Error>) {
        proof {
            crate::raw::lemma_var_end_bound(r@, 0, 5);
        }
        Ok(VarInt(read_var_int(r)?))
    }
}

impl Codec for VarInt {
    open spec fn wire_valid(v: i32) -> bool {
        true
    }

    proof fn lemma_round_trip(v: i32, rest: Seq<u8>) {
        lemma_var_int_round_trip(v, rest);
    }
}

impl DeepView for VarLong {
    type V = i64;

    open spec fn deep_view(&self) -> i64 {
        self.0
    }
}

impl Encoder for VarLong {
    open spec fn encodable(v: i64) -> bool {
        true
    }

    open spec fn encoding(v: i64) -> Seq<u8> {
        var_long_bytes(v)
    }

    fn write_to(&self, w: &mut Vec<u8>) -> (r: Result<(), Error>) {
        write_var_long(w, self.0)
    }
}

impl Decoder for VarLong {
    open spec fn parse(b: Seq<u8>) -> Option<(i64, nat)> {
        match parse_var_long(b) {
            Ok((v, n)) => Some((v, n)),
            Err(_) => None,
        }
    }

    open spec fn parse_error(b: Seq<u8>) -> Error {
        match parse_var_long(b) {
            Err(e) => e,
            Ok(_) => Error::UnexpectedEof,
        }
    }

    fn read_from(r: &mut Reader) -> (res: Result<VarLong, Error>) {
        proof {
            crate::raw::lemma_var_end_bound(r@, 0, 10);
        }
        Ok(VarLong(read_var_long(r)?))
    }
}

impl Codec for VarLong {
    open spec fn wire_valid(v: i64) -> bool {
        true
    }

    proof fn lemma_round_trip(v: i64, rest: Seq<u8>) {
        lemma_var_long_round_trip(v, rest);
    }
}

impl DeepView for Uuid {
    type V = u128;

    open spec fn deep_view(&self) -> u128 {
        self.0
    }
}

impl Encoder for Uuid {
    open spec fn encodable(v: u128) -> bool {
        true
    }

    open spec fn encoding(v: u128) -> Seq<u8> {
        be_bytes(v as nat, 16)
    }

    fn write_to(&self, w: &mut Vec<u8>) -> (r: Result<(), Error>) {
        write_uuid(w, *self)
    }
}

impl Decoder for Uuid {
    open spec fn parse(b: Seq<u8>) -> Option<(u128, nat)> {
        match parse_unsigned(b, 16) {
            Ok((v, n)) => Some((v as u128, n)),
            Err(_) => None,
        }
    }

    open spec fn parse_error(b: Seq<u8>) -> Error {
        match parse_unsigned(b, 16) {
            Err(e) => e,
            Ok(_) => Error::UnexpectedEof,
        }
    }

    fn read_from(r: &mut Reader) -> (res: Result<Uuid, Error>) {
        read_uuid(r)
    }
}

impl Codec for Uuid {
    open spec fn wire_valid(v: u128) -> bool {
        true
    }

    proof fn lemma_round_trip(v: u128, rest: Seq<u8>) {
        lemma_pow_values();
        lemma_unsigned_round_trip(v as nat, 16, rest);
    }
}

/// A rotation in steps of 1/256 of a full turn.
#[derive(Debug, Clone, Copy, PartialEq, Eq, Structural)]
pub struct Angle(pub u8);

impl DeepView for Angle {
    type V = u8;

    open spec fn deep_view(&self) -> u8 {
        self.0
    }
}

impl Encoder for Angle {
    open spec fn encodable(v: u8) -> bool {
        true
    }

    open spec fn encoding(v: u8) -> Seq<u8> {
        seq![v]
    }

    fn write_to(&self, w: &mut Vec<u8>) -> (r: Result<(), Error>) {
        self.0.write_to(w)
    }
}

impl Decoder for Angle {
    open spec fn parse(b: Seq<u8>) -> Option<(u8, nat)> {
        <u8 as Decoder>::parse(b)
    }

    open spec fn parse_error(b: Seq<u8>) -> Error {
        Error::UnexpectedEof
    }

    fn read_from(r: &mut Reader) -> (res: Result<Angle, Error>) {
        Ok(Angle(u8::read_from(r)?))
    }
}

impl Codec for Angle {
    open spec fn wire_valid(v: u8) -> bool {
        true
    }

    proof fn lemma_round_trip(v: u8, rest: Seq<u8>) {
    }
}

/// A block position: `x` and `z` of 26 bits and `y` of 12 bits, packed
/// into one 64-bit word.
#[derive(Debug, Clone, Copy, PartialEq, Eq, Structural)]
pub struct Position {
    pub x: i32,
    pub y: i32,
    pub z: i32,
}

impl DeepView for Position {
    type V = (i32, i32, i32);

    open spec fn deep_view(&self) -> (i32, i32, i32) {
        (self.x, self.y, self.z)
    }
}

impl Encoder for Position {
    open spec fn encodable(v: (i32, i32, i32)) -> bool {
        true
    }

    open spec fn encoding(v: (i32, i32, i32)) -> Seq<u8> {
        be_bytes(position_word(v.0 as int, v.1 as int, v.2 as int), 8)
    }

    fn write_to(&self, w: &mut Vec<u8>) -> (r: Result<(), Error>) {
        write_position(w, self.x, self.y, self.z)
    }
}

impl Decoder for Position {
    open spec fn parse(b: Seq<u8>) -> Option<((i32, i32, i32), nat)> {
        match parse_unsigned(b, 8) {
            Ok((w, n)) => Some(
                (
                    (
                        position_of_word(w).0 as i32,
                        position_of_word(w).1 as i32,
                        position_of_word(w).2 as i32,
                    ),
                    n,
                ),
            ),
            Err(_) => None,
        }
    }

    open spec fn parse_error(b: Seq<u8>) -> Error {
        match parse_unsigned(b, 8) {
            Err(e) => e,
            Ok(_) => Error::UnexpectedEof,
        }
    }

    fn read_from(r: &mut Reader) -> (res: Result<Position, Error>) {
        let (x, y, z) = read_position(r)?;
        Ok(Position { x, y, z })
    }
}

impl Codec for Position {
    /// Each coordinate fits its field.
    open spec fn wire_valid(v: (i32, i32, i32)) -> bool {
        position_in_range(v.0 as int, v.1 as int, v.2 as int)
    }

    proof fn lemma_round_trip(v: (i32, i32, i32), rest: Seq<u8>) {
        lemma_pow_values();
        lemma_position_word_round_trip(v.0 as int, v.1 as int, v.2 as int);
        lemma_unsigned_round_trip(position_word(v.0 as int, v.1 as int, v.2 as int), 8, rest);
    }
}

impl<T: Encoder> Encoder for Option<T> {
    open spec fn encodable(v: Option<T::V>) -> bool {
        match v {
            Some(x) => T::encodable(x),
            None => true,
        }
    }

    /// A presence flag, then the value when there is one.
    open spec fn encoding(v: Option<T::V>) -> Seq<u8> {
        match v {
            Some(x) => seq![1u8] + T::encoding(x),
            None => seq![0u8],
        }
    }

    fn write_to(&self, w: &mut Vec<u8>) -> (r: Result<(), Error>) {
        write_bool(w, self.is_some())?;
        match self {
            Some(v) => {
                let ghost mid = w@;
                let r = v.write_to(w);
                assert(r is Ok ==> w@ =~= old(w)@ + (seq![1u8] + T::encoding(v.deep_view())));
                assert(old(w)@.is_prefix_of(w@)) by {
                    assert(old(w)@.is_prefix_of(mid));
                    assert(mid.is_prefix_of(w@));
                    assert(old(w)@ =~= w@.subrange(0, old(w)@.len() as int)) by {
                        assert(mid.subrange(0, old(w)@.len() as int) =~= w@.subrange(0, old(w)@.len() as int));
                    }
                }
                r
            },
            None => {
                assert(w@ =~= old(w)@ + seq![0u8]);
                Ok(())
            },
        }
    }
}

impl<T: Decoder> Decoder for Option<T> {
    open spec fn parse(b: Seq<u8>) -> Option<(Option<T::V>, nat)> {
        match parse_bool(b) {
            Err(_) => None,
            Ok((false, n)) => Some((None, n)),
            Ok((true, n)) => match T::parse(b.skip(n as int)) {
                Some((x, m)) => Some((Some(x), n + m)),
                None => None,
            },
        }
    }

    /// The flag's error, or the value's.
    open spec fn parse_error(b: Seq<u8>) -> Error {
        match parse_bool(b) {
            Err(e) => e,
            Ok((true, n)) => T::parse_error(b.skip(n as int)),
            Ok((false, _)) => Error::UnexpectedEof,
        }
    }

    fn read_from(r: &mut Reader) -> (res: Result<Option<T>, Error>) {
        let ghost b = r@;
        let present = read_bool(r)?;
        if present {
            let v = T::read_from(r)?;
            assert(r@ =~= b.skip(1 + (b.len() - 1 - r@.len())));
            Ok(Some(v))
        } else {
            Ok(None)
        }
    }
}

impl<T: Codec> Codec for Option<T> {
    open spec fn wire_valid(v: Option<T::V>) -> bool {
        match v {
            Some(x) => T::wire_valid(x),
            None => true,
        }
    }

    proof fn lemma_round_trip(v: Option<T::V>, rest: Seq<u8>) {
        match v {
            Some(x) => {
                T::lemma_round_trip(x, rest);
                assert((seq![1u8] + T::encoding(x) + rest).skip(1) =~= T::encoding(x) + rest);
            },
            None => {
            },
        }
    }
}

/// A bit set: its count of longs as a VarInt, then each long.
impl Encoder for Vec<i64> {
    open spec fn encodable(v: Seq<i64>) -> bool {
        v.len() <= MAX_PREFIXED_LENGTH
    }

    open spec fn encoding(v: Seq<i64>) -> Seq<u8> {
        var_int_bytes(v.len() as i32) + longs_bytes(v)
    }

    fn write_to(&self, w: &mut Vec<u8>) -> (r: Result<(), Error>) {
        assert(self.deep_view() =~= self@);
        write_bitset(w, self)
    }
}

impl Decoder for Vec<i64> {
    open spec fn parse(b: Seq<u8>) -> Option<(Seq<i64>, nat)> {
        match parse_longs(b) {
            Ok((v, n)) => Some((v, n)),
            Err(_) => None,
        }
    }

    open spec fn parse_error(b: Seq<u8>) -> Error {
        match parse_longs(b) {
            Err(e) => e,
            Ok(_) => Error::UnexpectedEof,
        }
    }

    fn read_from(r: &mut Reader) -> (res: Result<Vec<i64>, Error>) {
        proof {
            crate::raw::lemma_var_end_bound(r@, 0, 5);
        }
        let v = read_bitset(r)?;
        assert(v.deep_view() =~= v@);
        Ok(v)
    }
}

impl Codec for Vec<i64> {
    open spec fn wire_valid(v: Seq<i64>) -> bool {
        true
    }

    proof fn lemma_round_trip(v: Seq<i64>, rest: Seq<u8>) {
        lemma_longs_round_trip(v, rest);
        assert(var_int_bytes(v.len() as i32) + longs_bytes(v) + rest =~= (var_int_bytes(v.len() as i32)
            + longs_bytes(v)) + rest);
    }
}

/// A byte array: its length as a VarInt, then the bytes.
impl Encoder for Vec<u8> {
    open spec fn encodable(v: Seq<u8>) -> bool {
        v.len() <= MAX_PREFIXED_LENGTH
    }

    open spec fn encoding(v: Seq<u8>) -> Seq<u8> {
        prefixed_bytes(v)
    }

    fn write_to(&self, w: &mut Vec<u8>) -> (r: Result<(), Error>) {
        assert(self.deep_view() =~= self@);
        write_byte_array(w, self)
    }
}


impl From<i32> for VarInt {
    fn from(v: i32) -> (r: VarInt) {
        VarInt(v)
    }
}

impl vstd::std_specs::convert::FromSpecImpl<i32> for VarInt {
    open spec fn obeys_from_spec() -> bool {
        true
    }

    open spec fn from_spec(v: i32) -> VarInt {
        VarInt(v)
    }
}

impl From<VarInt> for i32 {
    fn from(v: VarInt) -> (r: i32) {
        v.0
    }
}

impl vstd::std_specs::convert::FromSpecImpl<VarInt> for i32 {
    open spec fn obeys_from_spec() -> bool {
        true
    }

    open spec fn from_spec(v: VarInt) -> i32 {
        v.0
    }
}

impl From<i64> for VarLong {
    fn from(v: i64) -> (r: VarLong) {
        VarLong(v)
    }
}

impl vstd::std_specs::convert::FromSpecImpl<i64> for VarLong {
    open spec fn obeys_from_spec() -> bool {
        true
    }

    open spec fn from_spec(v: i64) -> VarLong {
        VarLong(v)
    }
}

impl From<VarLong> for i64 {
    fn from(v: VarLong) -> (r: i64) {
        v.0
    }
}

impl vstd::std_specs::convert::FromSpecImpl<VarLong> for i64 {
    open spec fn obeys_from_spec() -> bool {
        true
    }

    open spec fn from_spec(v: VarLong) -> i64 {
        v.0
    }
}

/// A message type that one variant of an enum of messages wraps.
pub trait VariantOf<Enum>: Sized {
    /// The id that tells which variant of the enum is this one.
    fn discriminant_id() -> u32;

    /// This type's value, where `e` is its variant.
    fn destructure(e: Enum) -> Option<Self>;
}

} // verus!
