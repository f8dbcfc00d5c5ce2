//! The mathematical wire format: what each encoding is, as sequences of bytes.
use crate::error::{Error, FormatError};
use vstd::prelude::*;
use vstd::utf8::{decode_utf8, encode_utf8, valid_utf8};

verus! {

/// Largest number of bytes of a VarInt.
pub const VAR_INT_MAX_BYTES: usize = 5;

/// Largest number of bytes of a VarLong.
pub const VAR_LONG_MAX_BYTES: usize = 10;

/// `256` to the power `k`.
pub open spec fn pow256(k: nat) -> nat
    decreases k,
{
    if k == 0 {
        1
    } else {
        256 * pow256((k - 1) as nat)
    }
}

/// `128` to the power `k`.
pub open spec fn pow128(k: nat) -> nat
    decreases k,
{
    if k == 0 {
        1
    } else {
        128 * pow128((k - 1) as nat)
    }
}

/// The unsigned bit pattern of `v` in `width` bytes (two's complement).
pub open spec fn unsigned_of(v: int, width: nat) -> int {
    if v >= 0 {
        v
    } else {
        v + pow256(width)
    }
}

/// The signed value of the `width`-byte pattern `n` (two's complement).
pub open spec fn signed_of(n: int, width: nat) -> int {
    if 2 * n < pow256(width) {
        n
    } else {
        n - pow256(width)
    }
}

/// Base-128 groups of `n`, least significant first; every byte but the last
/// carries the continuation bit `0x80`.
pub open spec fn var_bytes(n: nat) -> Seq<u8>
    decreases n,
{
    if n < 128 {
        seq![n as u8]
    } else {
        seq![(n % 128 + 128) as u8] + var_bytes(n / 128)
    }
}

/// The wire form of a VarInt.
pub open spec fn var_int_bytes(v: i32) -> Seq<u8> {
    var_bytes(unsigned_of(v as int, 4) as nat)
}

/// The wire form of a VarLong.
pub open spec fn var_long_bytes(v: i64) -> Seq<u8> {
    var_bytes(unsigned_of(v as int, 8) as nat)
}

/// One past the index of the first byte without the continuation bit, looking
/// at the bytes of `b` from `i` up to (not including) `max`.
pub open spec fn var_end(b: Seq<u8>, i: nat, max: nat) -> Option<nat>
    decreases max - i,
{
    if i >= max || i >= b.len() {
        None
    } else if b[i as int] < 128 {
        Some(i + 1)
    } else {
        var_end(b, i + 1, max)
    }
}

/// The number held by the 7-bit groups of `b[i..k]`, least significant first.
pub open spec fn group_value(b: Seq<u8>, i: nat, k: nat) -> nat
    decreases k - i,
{
    if i >= k {
        0
    } else {
        (b[i as int] % 128) as nat + 128 * group_value(b, i + 1, k)
    }
}

/// Decoding a VarInt at the front of `b`: the value and the number of bytes it takes.
pub open spec fn parse_var_int(b: Seq<u8>) -> Result<(i32, nat), Error> {
    match var_end(b, 0, 5) {
        Some(k) => Ok((signed_of((group_value(b, 0, k) % pow256(4)) as int, 4) as i32, k)),
        None => if b.len() >= 5 {
            Err(Error::Format(FormatError::VarIntTooLong))
        } else {
            Err(Error::UnexpectedEof)
        },
    }
}

/// Decoding a VarLong at the front of `b`: the value and the number of bytes it takes.
pub open spec fn parse_var_long(b: Seq<u8>) -> Result<(i64, nat), Error> {
    match var_end(b, 0, 10) {
        Some(k) => Ok((signed_of((group_value(b, 0, k) % pow256(8)) as int, 8) as i64, k)),
        None => if b.len() >= 10 {
            Err(Error::Format(FormatError::VarLongTooLong))
        } else {
            Err(Error::UnexpectedEof)
        },
    }
}

/// `n` in `width` bytes, most significant first (taken modulo `256^width`).
pub open spec fn be_bytes(n: nat, width: nat) -> Seq<u8>
    decreases width,
{
    if width == 0 {
        Seq::empty()
    } else {
        be_bytes(n / 256, (width - 1) as nat).push((n % 256) as u8)
    }
}

/// The number whose big-endian bytes are `b`.
pub open spec fn be_value(b: Seq<u8>) -> nat
    decreases b.len(),
{
    if b.len() == 0 {
        0
    } else {
        be_value(b.drop_last()) * 256 + b.last() as nat
    }
}

/// The wire form of a fixed-width integer `v` of `width` bytes.
pub open spec fn fixed_bytes(v: int, width: nat) -> Seq<u8> {
    be_bytes(unsigned_of(v, width) as nat, width)
}

/// The signed integer of `width` bytes at the front of `b`.
pub open spec fn parse_signed(b: Seq<u8>, width: nat) -> Result<(int, nat), Error> {
    if b.len() < width {
        Err(Error::UnexpectedEof)
    } else {
        Ok((signed_of(be_value(b.take(width as int)) as int, width), width))
    }
}

/// The unsigned integer of `width` bytes at the front of `b`.
pub open spec fn parse_unsigned(b: Seq<u8>, width: nat) -> Result<(nat, nat), Error> {
    if b.len() < width {
        Err(Error::UnexpectedEof)
    } else {
        Ok((be_value(b.take(width as int)), width))
    }
}

/// Largest number of bytes of a chat string.
pub const MAX_CHAT_LENGTH: usize = 262144;

/// Largest number of bytes of an identifier string.
pub const MAX_IDENTIFIER_LENGTH: usize = 32767;

/// The byte of a boolean.
pub open spec fn bool_byte(v: bool) -> u8 {
    if v {
        1
    } else {
        0
    }
}

/// Decoding a boolean: only the bytes 0 and 1 are booleans.
pub open spec fn parse_bool(b: Seq<u8>) -> Result<(bool, nat), Error> {
    if b.len() == 0 {
        Err(Error::UnexpectedEof)
    } else if b[0] == 0 {
        Ok((false, 1))
    } else if b[0] == 1 {
        Ok((true, 1))
    } else {
        Err(Error::Format(FormatError::NotABool(b[0])))
    }
}

/// Bytes preceded by their count as a VarInt.
pub open spec fn prefixed_bytes(b: Seq<u8>) -> Seq<u8> {
    var_int_bytes(b.len() as i32) + b
}

/// Decoding a VarInt count followed by that many bytes.
pub open spec fn parse_prefixed_bytes(b: Seq<u8>) -> Result<(Seq<u8>, nat), Error> {
    match parse_var_int(b) {
        Err(e) => Err(e),
        Ok((n, k)) => if n < 0 {
            Err(Error::Format(FormatError::NegativeLength(n as i64)))
        } else if b.len() < k + n {
            Err(Error::UnexpectedEof)
        } else {
            Ok((b.subrange(k as int, k + n), k + n as nat))
        },
    }
}

/// The wire form of a string: its UTF-8 bytes preceded by their count.
pub open spec fn string_bytes(s: Seq<char>) -> Seq<u8> {
    prefixed_bytes(encode_utf8(s))
}

/// Decoding a string whose UTF-8 form has at most `max` bytes.
pub open spec fn parse_string(b: Seq<u8>, max: nat) -> Result<(Seq<char>, nat), Error> {
    match parse_prefixed_bytes(b) {
        Err(e) => Err(e),
        Ok((body, k)) => if !valid_utf8(body) {
            Err(Error::Format(FormatError::InvalidUtf8))
        } else if body.len() > max {
            Err(Error::Format(FormatError::StringTooLong { max: max as usize, len: body.len() as usize }))
        } else {
            Ok((decode_utf8(body), k))
        },
    }
}

/// The wire form of a sequence of longs: the count as a VarInt, then each long.
pub open spec fn longs_bytes(v: Seq<i64>) -> Seq<u8>
    decreases v.len(),
{
    if v.len() == 0 {
        Seq::empty()
    } else {
        longs_bytes(v.drop_last()) + fixed_bytes(v.last() as int, 8)
    }
}

/// The long at index `i` of the longs that start at `b[k]`.
pub open spec fn long_at(b: Seq<u8>, k: int, i: int) -> i64 {
    signed_of(be_value(b.subrange(k + 8 * i, k + 8 * i + 8)) as int, 8) as i64
}

/// Decoding a VarInt count followed by that many longs.
pub open spec fn parse_longs(b: Seq<u8>) -> Result<(Seq<i64>, nat), Error> {
    match parse_var_int(b) {
        Err(e) => Err(e),
        Ok((n, k)) => if n < 0 {
            Err(Error::Format(FormatError::NegativeLength(n as i64)))
        } else if b.len() < k + 8 * n {
            Err(Error::UnexpectedEof)
        } else {
            Ok((Seq::new(n as nat, |i: int| long_at(b, k as int, i)), k + 8 * n as nat))
        },
    }
}

/// `v` modulo `m`: the low bits of `v` in two's complement when `m` is a power of two.
pub open spec fn low_bits(v: int, m: int) -> int {
    v % m
}

/// Sign extension of a field of width `2 * half` from its unsigned value `a`.
pub open spec fn sign_extend(a: int, half: int) -> int {
    if a >= half {
        a - 2 * half
    } else {
        a
    }
}

/// The 64-bit word of a position: `x` in the high 26 bits, `z` in the middle
/// 26 bits and `y` in the low 12 bits.
pub open spec fn position_word(x: int, y: int, z: int) -> nat {
    (low_bits(x, 0x400_0000) * 0x40_0000_0000 + low_bits(z, 0x400_0000) * 0x1000 + low_bits(y, 0x1000)) as nat
}

/// The coordinates held by a position word.
pub open spec fn position_of_word(w: nat) -> (int, int, int) {
    (
        sign_extend((w / 0x40_0000_0000) as int, 0x200_0000),
        sign_extend((w % 0x1000) as int, 0x800),
        sign_extend(((w / 0x1000) % 0x400_0000) as int, 0x200_0000),
    )
}

/// Whether each coordinate fits its field.
pub open spec fn position_in_range(x: int, y: int, z: int) -> bool {
    -0x200_0000 <= x < 0x200_0000 && -0x800 <= y < 0x800 && -0x200_0000 <= z < 0x200_0000
}

} // verus!
