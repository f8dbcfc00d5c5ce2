//! Reading and writing the protocol's primitive encodings.
use crate::error::{Error, FormatError};
use crate::reader::Reader;
use crate::wire::{
    be_bytes, be_value, bool_byte, fixed_bytes, group_value, long_at, longs_bytes, low_bits,
    parse_bool, parse_longs, parse_prefixed_bytes, parse_signed, parse_string, parse_unsigned,
    parse_var_int, parse_var_long, position_of_word, position_word, pow128, pow256,
    prefixed_bytes, string_bytes, var_bytes, var_end, var_int_bytes, var_long_bytes,
    MAX_CHAT_LENGTH, MAX_IDENTIFIER_LENGTH, VAR_INT_MAX_BYTES, VAR_LONG_MAX_BYTES,
};
use vstd::prelude::*;
use vstd::utf8::{decode_utf8, encode_utf8, valid_utf8};

verus! {

pub proof fn lemma_pow_values()
    ensures
        pow256(1) == 0x100,
        pow256(2) == 0x1_0000,
        pow256(4) == 0x1_0000_0000,
        pow256(8) == 0x1_0000_0000_0000_0000,
        pow128(9) == 0x8000_0000_0000_0000,
        pow128(10) == 0x40_0000_0000_0000_0000,
        pow256(15) == 0x1_0000_0000_0000_0000_0000_0000_0000_00,
        pow256(16) == 0x1_0000_0000_0000_0000_0000_0000_0000_0000,
{
    reveal_with_fuel(pow256, 17);
    reveal_with_fuel(pow128, 11);
}

proof fn lemma_pow128_mono(a: nat, b: nat)
    requires
        a <= b,
    ensures
        pow128(a) <= pow128(b),
    decreases b,
{
    if a < b {
        lemma_pow128_mono(a, (b - 1) as nat);
    }
}

proof fn lemma_group_value_prefix(b: Seq<u8>, c: Seq<u8>, i: nat, k: nat)
    requires
        b.len() >= k,
        c.len() >= k,
        forall|j: int| 0 <= j < k ==> b[j] == c[j],
    ensures
        group_value(b, i, k) == group_value(c, i, k),
    decreases k - i,
{
    if i < k {
        lemma_group_value_prefix(b, c, i + 1, k);
    }
}

pub proof fn lemma_var_end_bound(b: Seq<u8>, i: nat, max: nat)
    ensures
        var_end(b, i, max) matches Some(k) ==> i < k <= b.len() && k <= max,
    decreases max - i,
{
    if i < max && i < b.len() && b[i as int] >= 128 {
        lemma_var_end_bound(b, i + 1, max);
    }
}

/// Appends the base-128 groups of `n`.
fn write_var(w: &mut Vec<u8>, n: u64)
    ensures
        final(w)@ == old(w)@ + var_bytes(n as nat),
{
    let mut x = n;
    while x >= 128
        invariant
            old(w)@ + var_bytes(n as nat) == w@ + var_bytes(x as nat),
        decreases x,
    {
        let ghost before = w@;
        w.push((x % 128 + 128) as u8);
        assert(var_bytes(x as nat) == seq![(x % 128 + 128) as u8] + var_bytes((x / 128) as nat));
        assert(before + var_bytes(x as nat) =~= w@ + var_bytes((x / 128) as nat));
        x = x / 128;
    }
    let ghost before = w@;
    w.push(x as u8);
    assert(before + var_bytes(x as nat) =~= w@);
}

/// Reads the 7-bit groups of a variable-length integer of at most `max` bytes
/// and returns the number they hold.
fn read_var(r: &mut Reader, max: usize, long: bool) -> (res: Result<(u128, Ghost<nat>), Error>)
    requires
        max == 5 || max == 10,
        long <==> max == 10,
    ensures
        match var_end(old(r)@, 0, max as nat) {
            Some(k) => res matches Ok((v, gk)) && gk@ == k && v == group_value(old(r)@, 0, k)
                && v < pow128(k)
                && final(r)@ == old(r)@.skip(k as int) && k <= max,
            None => res matches Err(e) && (if old(r)@.len() >= max {
                e == (if long {
                    Error::Format(FormatError::VarLongTooLong)
                } else {
                    Error::Format(FormatError::VarIntTooLong)
                })
            } else {
                e == Error::UnexpectedEof
            }),
        },
{
    let ghost b = r@;
    let mut bytes: Vec<u8> = Vec::new();
    let mut done = false;
    while !done
        invariant
            max == 5 || max == 10,
            long <==> max == 10,
            b == old(r)@,
            bytes.len() <= b.len(),
            bytes@ == b.take(bytes.len() as int),
            r@ == b.skip(bytes.len() as int),
            !done ==> bytes.len() < max,
            !done ==> forall|j: int| 0 <= j < bytes.len() ==> bytes[j] >= 128,
            !done ==> var_end(b, 0, max as nat) == var_end(b, bytes.len() as nat, max as nat),
            done ==> bytes.len() <= max && var_end(b, 0, max as nat) == Some(bytes.len() as nat),
        decreases max - bytes.len() + (if done { 0int } else { 1int }),
    {
        let ghost len0 = bytes.len() as nat;
        let byte = match r.read_u8() {
            Ok(x) => x,
            Err(e) => {
                assert(var_end(b, len0, max as nat) == None::<nat>);
                return Err(e);
            },
        };
        bytes.push(byte);
        assert(bytes@ =~= b.take(bytes.len() as int));
        assert(r@ =~= b.skip(bytes.len() as int));
        if byte < 128 {
            done = true;
        } else if bytes.len() == max {
            assert(var_end(b, bytes.len() as nat, max as nat) == None::<nat>);
            if long {
                return Err(Error::Format(FormatError::VarLongTooLong));
            } else {
                return Err(Error::Format(FormatError::VarIntTooLong));
            }
        }
    }
    let k = bytes.len();
    let mut acc: u128 = 0;
    let mut j = k;
    proof {
        lemma_pow_values();
    }
    while j > 0
        invariant
            j <= k,
            k <= max <= 10,
            k == bytes.len(),
            acc == group_value(bytes@, j as nat, k as nat),
            acc < pow128((k - j) as nat),
            pow128(9) == 0x8000_0000_0000_0000,
        decreases j,
    {
        proof {
            lemma_pow128_mono((k - j) as nat, 9);
        }
        j = j - 1;
        acc = (bytes[j] % 128) as u128 + 128 * acc;
    }
    proof {
        lemma_group_value_prefix(bytes@, b, 0, k as nat);
    }
    Ok((acc, Ghost(k as nat)))
}

/// Writes a VarInt: the unsigned pattern of `v` in 7-bit groups.
pub fn write_var_int(t: &mut Vec<u8>, v: i32) -> (r: Result<(), Error>)
    ensures
        r is Ok,
        final(t)@ == old(t)@ + var_int_bytes(v),
{
    proof {
        lemma_pow_values();
    }
    let n: u64 = if v >= 0 {
        v as u64
    } else {
        (v as i64 + 0x1_0000_0000) as u64
    };
    write_var(t, n);
    Ok(())
}

/// Reads a VarInt; more than five bytes is a format error.
pub fn read_var_int(t: &mut Reader) -> (r: Result<i32, Error>)
    ensures
        match parse_var_int(old(t)@) {
            Ok((v, k)) => r == Ok::<i32, Error>(v) && final(t)@ == old(t)@.skip(k as int),
            Err(e) => r == Err::<i32, Error>(e),
        },
{
    proof {
        lemma_pow_values();
    }
    let (g, Ghost(k)) = read_var(t, VAR_INT_MAX_BYTES, false)?;
    assert(g < 0x8_0000_0000) by {
        reveal_with_fuel(pow128, 6);
        lemma_pow128_mono(k, 5);
    }
    let m: u128 = g % 0x1_0000_0000;
    let v: i32 = if m < 0x8000_0000 {
        m as i32
    } else {
        (m as i64 - 0x1_0000_0000) as i32
    };
    Ok(v)
}

/// Writes a VarLong: the unsigned pattern of `v` in 7-bit groups.
pub fn write_var_long(t: &mut Vec<u8>, v: i64) -> (r: Result<(), Error>)
    ensures
        r is Ok,
        final(t)@ == old(t)@ + var_long_bytes(v),
{
    proof {
        lemma_pow_values();
    }
    let n: u64 = if v >= 0 {
        v as u64
    } else {
        (v as i128 + 0x1_0000_0000_0000_0000) as u64
    };
    write_var(t, n);
    Ok(())
}

/// Reads a VarLong; more than ten bytes is a format error.
pub fn read_var_long(t: &mut Reader) -> (r: Result<i64, Error>)
    ensures
        match parse_var_long(old(t)@) {
            Ok((v, k)) => r == Ok::<i64, Error>(v) && final(t)@ == old(t)@.skip(k as int),
            Err(e) => r == Err::<i64, Error>(e),
        },
{
    proof {
        lemma_pow_values();
    }
    let (g, Ghost(k)) = read_var(t, VAR_LONG_MAX_BYTES, true)?;
    assert(g < 0x40_0000_0000_0000_0000) by {
        lemma_pow128_mono(k, 10);
    }
    let m: u128 = g % 0x1_0000_0000_0000_0000;
    let v: i64 = if m < 0x8000_0000_0000_0000 {
        m as i64
    } else {
        (m as i128 - 0x1_0000_0000_0000_0000) as i64
    };
    Ok(v)
}

/// Appends `n` as `width` big-endian bytes.
fn write_be(w: &mut Vec<u8>, n: u128, width: usize)
    ensures
        final(w)@ == old(w)@ + be_bytes(n as nat, width as nat),
    decreases width,
{
    if width > 0 {
        write_be(w, n / 256, width - 1);
        w.push((n % 256) as u8);
        assert(w@ =~= old(w)@ + be_bytes(n as nat, width as nat));
    } else {
        assert(w@ =~= old(w)@ + be_bytes(n as nat, width as nat));
    }
}

proof fn lemma_be_value_bound(b: Seq<u8>)
    ensures
        be_value(b) < pow256(b.len()),
    decreases b.len(),
{
    if b.len() > 0 {
        lemma_be_value_bound(b.drop_last());
    }
}

/// Reads `width` big-endian bytes as an unsigned number.
fn read_be(r: &mut Reader, width: usize) -> (res: Result<u128, Error>)
    requires
        width <= 16,
    ensures
        match parse_unsigned(old(r)@, width as nat) {
            Ok((v, k)) => res == Ok::<u128, Error>(v as u128) && v < pow256(width as nat)
                && final(r)@ == old(r)@.skip(k as int),
            Err(e) => res == Err::<u128, Error>(e),
        },
{
    let bytes = r.read_exact(width)?;
    let mut acc: u128 = 0;
    let mut i: usize = 0;
    proof {
        lemma_pow_values();
    }
    while i < width
        invariant
            i <= width <= 16,
            bytes.len() == width,
            acc == be_value(bytes@.take(i as int)),
            pow256(15) == 0x1_0000_0000_0000_0000_0000_0000_0000_00,
        decreases width - i,
    {
        proof {
            lemma_be_value_bound(bytes@.take(i as int));
            lemma_pow256_mono(i as nat, 15);
            assert(bytes@.take(i + 1).drop_last() =~= bytes@.take(i as int));
        }
        acc = acc * 256 + bytes[i] as u128;
        i = i + 1;
    }
    proof {
        assert(bytes@.take(width as int) =~= bytes@);
        lemma_be_value_bound(bytes@);
    }
    Ok(acc)
}

proof fn lemma_pow256_mono(a: nat, b: nat)
    requires
        a <= b,
    ensures
        pow256(a) <= pow256(b),
        pow256(b) > 0,
    decreases b,
{
    if b > 0 {
        lemma_pow256_mono(if a < b { a } else { (b - 1) as nat }, (b - 1) as nat);
    }
}

/// Writes a boolean as the byte 1 or 0.
pub fn write_bool(t: &mut Vec<u8>, v: bool) -> (r: Result<(), Error>)
    ensures
        r is Ok,
        final(t)@ == old(t)@.push(bool_byte(v)),
{
    t.push(if v { 1u8 } else { 0u8 });
    Ok(())
}

/// Reads a boolean; a byte other than 0 or 1 is a format error.
pub fn read_bool(t: &mut Reader) -> (r: Result<bool, Error>)
    ensures
        match parse_bool(old(t)@) {
            Ok((v, k)) => r == Ok::<bool, Error>(v) && final(t)@ == old(t)@.skip(k as int),
            Err(e) => r == Err::<bool, Error>(e),
        },
{
    let i = t.read_u8()?;
    if i == 0 {
        Ok(false)
    } else if i == 1 {
        Ok(true)
    } else {
        Err(Error::Format(FormatError::NotABool(i)))
    }
}

/// Writes a signed byte.
pub fn write_byte(t: &mut Vec<u8>, v: i8) -> (r: Result<(), Error>)
    ensures
        r is Ok,
        final(t)@ == old(t)@ + fixed_bytes(v as int, 1),
{
    proof {
        lemma_pow_values();
    }
    let n: u128 = if v >= 0 {
        v as u128
    } else {
        (v as i16 + 0x100) as u128
    };
    write_be(t, n, 1);
    Ok(())
}

/// Reads a signed byte.
pub fn read_byte(t: &mut Reader) -> (r: Result<i8, Error>)
    ensures
        match parse_signed(old(t)@, 1) {
            Ok((v, k)) => r == Ok::<i8, Error>(v as i8) && final(t)@ == old(t)@.skip(k as int),
            Err(e) => r == Err::<i8, Error>(e),
        },
{
    proof {
        lemma_pow_values();
    }
    let n = read_be(t, 1)?;
    Ok(if n < 0x80 {
        n as i8
    } else {
        (n as i16 - 0x100) as i8
    })
}

/// Writes an unsigned byte.
pub fn write_unsigned_byte(t: &mut Vec<u8>, v: u8) -> (r: Result<(), Error>)
    ensures
        r is Ok,
        final(t)@ == old(t)@.push(v),
{
    t.push(v);
    Ok(())
}

/// Reads an unsigned byte.
pub fn read_unsigned_byte(t: &mut Reader) -> (r: Result<u8, Error>)
    ensures
        old(t)@.len() > 0 ==> r == Ok::<u8, Error>(old(t)@[0]) && final(t)@ == old(t)@.skip(1),
        old(t)@.len() == 0 ==> r == Err::<u8, Error>(Error::UnexpectedEof),
{
    t.read_u8()
}

/// Writes a big-endian signed short.
pub fn write_short(t: &mut Vec<u8>, v: i16) -> (r: Result<(), Error>)
    ensures
        r is Ok,
        final(t)@ == old(t)@ + fixed_bytes(v as int, 2),
{
    proof {
        lemma_pow_values();
    }
    let n: u128 = if v >= 0 {
        v as u128
    } else {
        (v as i32 + 0x1_0000) as u128
    };
    write_be(t, n, 2);
    Ok(())
}

/// Reads a big-endian signed short.
pub fn read_short(t: &mut Reader) -> (r: Result<i16, Error>)
    ensures
        match parse_signed(old(t)@, 2) {
            Ok((v, k)) => r == Ok::<i16, Error>(v as i16) && final(t)@ == old(t)@.skip(k as int),
            Err(e) => r == Err::<i16, Error>(e),
        },
{
    proof {
        lemma_pow_values();
    }
    let n = read_be(t, 2)?;
    Ok(if n < 0x8000 {
        n as i16
    } else {
        (n as i32 - 0x1_0000) as i16
    })
}

/// Writes a big-endian unsigned short.
pub fn write_unsigned_short(t: &mut Vec<u8>, v: u16) -> (r: Result<(), Error>)
    ensures
        r is Ok,
        final(t)@ == old(t)@ + be_bytes(v as nat, 2),
{
    write_be(t, v as u128, 2);
    Ok(())
}

/// Reads a big-endian unsigned short.
pub fn read_unsigned_short(t: &mut Reader) -> (r: Result<u16, Error>)
    ensures
        match parse_unsigned(old(t)@, 2) {
            Ok((v, k)) => r == Ok::<u16, Error>(v as u16) && final(t)@ == old(t)@.skip(k as int),
            Err(e) => r == Err::<u16, Error>(e),
        },
{
    proof {
        lemma_pow_values();
    }
    let n = read_be(t, 2)?;
    Ok(n as u16)
}

/// Writes a big-endian signed int.
pub fn write_int(t: &mut Vec<u8>, v: i32) -> (r: Result<(), Error>)
    ensures
        r is Ok,
        final(t)@ == old(t)@ + fixed_bytes(v as int, 4),
{
    proof {
        lemma_pow_values();
    }
    let n: u128 = if v >= 0 {
        v as u128
    } else {
        (v as i64 + 0x1_0000_0000) as u128
    };
    write_be(t, n, 4);
    Ok(())
}

/// Reads a big-endian signed int.
pub fn read_int(t: &mut Reader) -> (r: Result<i32, Error>)
    ensures
        match parse_signed(old(t)@, 4) {
            Ok((v, k)) => r == Ok::<i32, Error>(v as i32) && final(t)@ == old(t)@.skip(k as int),
            Err(e) => r == Err::<i32, Error>(e),
        },
{
    proof {
        lemma_pow_values();
    }
    let n = read_be(t, 4)?;
    Ok(if n < 0x8000_0000 {
        n as i32
    } else {
        (n as i64 - 0x1_0000_0000) as i32
    })
}

/// Writes a big-endian signed long.
pub fn write_long(t: &mut Vec<u8>, v: i64) -> (r: Result<(), Error>)
    ensures
        r is Ok,
        final(t)@ == old(t)@ + fixed_bytes(v as int, 8),
{
    proof {
        lemma_pow_values();
    }
    let n: u128 = if v >= 0 {
        v as u128
    } else {
        (v as i128 + 0x1_0000_0000_0000_0000) as u128
    };
    write_be(t, n, 8);
    Ok(())
}

/// Reads a big-endian signed long.
pub fn read_long(t: &mut Reader) -> (r: Result<i64, Error>)
    ensures
        match parse_signed(old(t)@, 8) {
            Ok((v, k)) => r == Ok::<i64, Error>(v as i64) && final(t)@ == old(t)@.skip(k as int),
            Err(e) => r == Err::<i64, Error>(e),
        },
{
    proof {
        lemma_pow_values();
    }
    let n = read_be(t, 8)?;
    Ok(if n < 0x8000_0000_0000_0000 {
        n as i64
    } else {
        (n as i128 - 0x1_0000_0000_0000_0000) as i64
    })
}

/// Largest count that a VarInt length prefix can carry.
pub const MAX_PREFIXED_LENGTH: usize = 0x7fff_ffff;

/// A UUID, held as its 128 bits; on the wire, 16 big-endian bytes.
#[derive(Debug, Clone, Copy, PartialEq, Eq)]
pub struct Uuid(pub u128);

/// Appends the bytes of `b`.
pub fn append_bytes(t: &mut Vec<u8>, b: &[u8])
    ensures
        final(t)@ == old(t)@ + b@,
{
    let mut i: usize = 0;
    while i < b.len()
        invariant
            i <= b@.len(),
            t@ == old(t)@ + b@.take(i as int),
        decreases b.len() - i,
    {
        t.push(b[i]);
        i = i + 1;
        assert(t@ =~= old(t)@ + b@.take(i as int));
    }
    assert(b@.take(i as int) =~= b@);
}

/// Writes `b` preceded by its length as a VarInt.
fn write_prefixed(t: &mut Vec<u8>, b: &[u8]) -> (r: Result<(), Error>)
    ensures
        b@.len() <= MAX_PREFIXED_LENGTH ==> r is Ok && final(t)@ == old(t)@ + prefixed_bytes(b@),
        b@.len() > MAX_PREFIXED_LENGTH ==> r == Err::<(), Error>(
            Error::Format(FormatError::LengthOutOfRange(b@.len() as usize)),
        ) && final(t)@ == old(t)@,
{
    let len = b.len();
    if len > MAX_PREFIXED_LENGTH {
        return Err(Error::Format(FormatError::LengthOutOfRange(len)));
    }
    write_var_int(t, len as i32)?;
    append_bytes(t, b);
    assert(final(t)@ =~= old(t)@ + prefixed_bytes(b@));
    Ok(())
}

/// Reads a VarInt count and then that many bytes.
fn read_prefixed(t: &mut Reader) -> (r: Result<Vec<u8>, Error>)
    ensures
        match parse_prefixed_bytes(old(t)@) {
            Ok((v, k)) => r matches Ok(x) && x@ == v && final(t)@ == old(t)@.skip(k as int),
            Err(e) => r == Err::<Vec<u8>, Error>(e),
        },
{
    let ghost b = t@;
    let n = read_var_int(t)?;
    if n < 0 {
        return Err(Error::Format(FormatError::NegativeLength(n as i64)));
    }
    let ghost k: int = match parse_var_int(b) {
        Ok((_, k)) => k as int,
        Err(_) => 0,
    };
    proof {
        lemma_var_end_bound(b, 0, 5);
    }
    assert(t@ =~= b.skip(k));
    let v = t.read_exact(n as usize)?;
    assert(v@ =~= b.subrange(k, k + n));
    assert(t@ =~= b.skip(k + n));
    Ok(v)
}

/// Relies on `String::from_utf8`: it accepts exactly the valid UTF-8 byte
/// sequences and keeps the characters they encode.
#[verifier::external_body]
fn string_from_utf8(b: Vec<u8>) -> (r: Option<String>)
    ensures
        r is Some <==> valid_utf8(b@),
        r matches Some(s) ==> s@ == decode_utf8(b@),
{
    String::from_utf8(b).ok()
}

/// Reads a string whose UTF-8 form has at most `max` bytes.
fn read_string_bounded(t: &mut Reader, max: usize) -> (r: Result<String, Error>)
    ensures
        match parse_string(old(t)@, max as nat) {
            Ok((v, k)) => r matches Ok(x) && x@ == v && final(t)@ == old(t)@.skip(k as int),
            Err(e) => r == Err::<String, Error>(e),
        },
{
    let bytes = read_prefixed(t)?;
    let len = bytes.len();
    let s = match string_from_utf8(bytes) {
        Some(s) => s,
        None => return Err(Error::Format(FormatError::InvalidUtf8)),
    };
    if len > max {
        return Err(Error::Format(FormatError::StringTooLong { max, len }));
    }
    Ok(s)
}

/// Writes a string whose UTF-8 form has at most `max` bytes.
fn write_string_bounded(t: &mut Vec<u8>, v: &String, max: usize) -> (r: Result<(), Error>)
    requires
        max <= MAX_PREFIXED_LENGTH,
    ensures
        encode_utf8(v@).len() <= max ==> r is Ok && final(t)@ == old(t)@ + string_bytes(v@),
        encode_utf8(v@).len() > max ==> r == Err::<(), Error>(
            Error::Format(FormatError::StringTooLong { max, len: encode_utf8(v@).len() as usize }),
        ) && final(t)@ == old(t)@,
{
    let b = v.as_str().as_bytes();
    let len = b.len();
    if len > max {
        return Err(Error::Format(FormatError::StringTooLong { max, len }));
    }
    write_prefixed(t, b)
}

/// Writes a string: its UTF-8 byte count as a VarInt, then the bytes.
pub fn write_string(t: &mut Vec<u8>, v: &String) -> (r: Result<(), Error>)
    ensures
        encode_utf8(v@).len() <= MAX_PREFIXED_LENGTH ==> r is Ok && final(t)@ == old(t)@ + string_bytes(v@),
        encode_utf8(v@).len() > MAX_PREFIXED_LENGTH ==> r == Err::<(), Error>(
            Error::Format(FormatError::LengthOutOfRange(encode_utf8(v@).len() as usize)),
        ) && final(t)@ == old(t)@,
{
    write_prefixed(t, v.as_str().as_bytes())
}

/// Reads a string; bytes that are not UTF-8 are a format error.
pub fn read_string(t: &mut Reader) -> (r: Result<String, Error>)
    ensures
        match parse_string(old(t)@, MAX_PREFIXED_LENGTH as nat) {
            Ok((v, k)) => r matches Ok(x) && x@ == v && final(t)@ == old(t)@.skip(k as int),
            Err(e) => r == Err::<String, Error>(e),
        },
{
    read_string_bounded(t, MAX_PREFIXED_LENGTH)
}

/// Writes a chat message, at most 262144 bytes.
pub fn write_chat(t: &mut Vec<u8>, v: &String) -> (r: Result<(), Error>)
    ensures
        encode_utf8(v@).len() <= MAX_CHAT_LENGTH ==> r is Ok && final(t)@ == old(t)@ + string_bytes(v@),
        encode_utf8(v@).len() > MAX_CHAT_LENGTH ==> r == Err::<(), Error>(
            Error::Format(FormatError::StringTooLong { max: MAX_CHAT_LENGTH, len: encode_utf8(v@).len() as usize }),
        ) && final(t)@ == old(t)@,
{
    write_string_bounded(t, v, MAX_CHAT_LENGTH)
}

/// Reads a chat message, at most 262144 bytes.
pub fn read_chat(t: &mut Reader) -> (r: Result<String, Error>)
    ensures
        match parse_string(old(t)@, MAX_CHAT_LENGTH as nat) {
            Ok((v, k)) => r matches Ok(x) && x@ == v && final(t)@ == old(t)@.skip(k as int),
            Err(e) => r == Err::<String, Error>(e),
        },
{
    read_string_bounded(t, MAX_CHAT_LENGTH)
}

/// Writes an identifier, at most 32767 bytes.
pub fn write_identifier(t: &mut Vec<u8>, v: &String) -> (r: Result<(), Error>)
    ensures
        encode_utf8(v@).len() <= MAX_IDENTIFIER_LENGTH ==> r is Ok && final(t)@ == old(t)@ + string_bytes(v@),
        encode_utf8(v@).len() > MAX_IDENTIFIER_LENGTH ==> r == Err::<(), Error>(
            Error::Format(FormatError::StringTooLong { max: MAX_IDENTIFIER_LENGTH, len: encode_utf8(v@).len() as usize }),
        ) && final(t)@ == old(t)@,
{
    write_string_bounded(t, v, MAX_IDENTIFIER_LENGTH)
}

/// Reads an identifier, at most 32767 bytes.
pub fn read_identifier(t: &mut Reader) -> (r: Result<String, Error>)
    ensures
        match parse_string(old(t)@, MAX_IDENTIFIER_LENGTH as nat) {
            Ok((v, k)) => r matches Ok(x) && x@ == v && final(t)@ == old(t)@.skip(k as int),
            Err(e) => r == Err::<String, Error>(e),
        },
{
    read_string_bounded(t, MAX_IDENTIFIER_LENGTH)
}

/// Writes a byte array preceded by its length as a VarInt.
pub fn write_byte_array(t: &mut Vec<u8>, v: &Vec<u8>) -> (r: Result<(), Error>)
    ensures
        v@.len() <= MAX_PREFIXED_LENGTH ==> r is Ok && final(t)@ == old(t)@ + prefixed_bytes(v@),
        v@.len() > MAX_PREFIXED_LENGTH ==> r == Err::<(), Error>(
            Error::Format(FormatError::LengthOutOfRange(v@.len() as usize)),
        ) && final(t)@ == old(t)@,
{
    write_prefixed(t, v.as_slice())
}

/// Reads a byte array preceded by its length as a VarInt.
pub fn read_byte_array(t: &mut Reader) -> (r: Result<Vec<u8>, Error>)
    ensures
        match parse_prefixed_bytes(old(t)@) {
            Ok((v, k)) => r matches Ok(x) && x@ == v && final(t)@ == old(t)@.skip(k as int),
            Err(e) => r == Err::<Vec<u8>, Error>(e),
        },
{
    read_prefixed(t)
}

/// Writes a UUID as 16 big-endian bytes.
pub fn write_uuid(t: &mut Vec<u8>, v: Uuid) -> (r: Result<(), Error>)
    ensures
        r is Ok,
        final(t)@ == old(t)@ + be_bytes(v.0 as nat, 16),
{
    write_be(t, v.0, 16);
    Ok(())
}

/// Reads a UUID from 16 big-endian bytes.
pub fn read_uuid(t: &mut Reader) -> (r: Result<Uuid, Error>)
    ensures
        match parse_unsigned(old(t)@, 16) {
            Ok((v, k)) => r == Ok::<Uuid, Error>(Uuid(v as u128)) && final(t)@ == old(t)@.skip(k as int),
            Err(e) => r == Err::<Uuid, Error>(e),
        },
{
    let n = read_be(t, 16)?;
    Ok(Uuid(n))
}

/// Writes a bit set: its count of longs as a VarInt, then each long.
pub fn write_bitset(t: &mut Vec<u8>, v: &Vec<i64>) -> (r: Result<(), Error>)
    ensures
        v@.len() <= MAX_PREFIXED_LENGTH ==> r is Ok && final(t)@ == old(t)@ + var_int_bytes(v@.len() as i32)
            + longs_bytes(v@),
        v@.len() > MAX_PREFIXED_LENGTH ==> r == Err::<(), Error>(
            Error::Format(FormatError::LengthOutOfRange(v@.len() as usize)),
        ) && final(t)@ == old(t)@,
{
    let len = v.len();
    if len > MAX_PREFIXED_LENGTH {
        return Err(Error::Format(FormatError::LengthOutOfRange(len)));
    }
    write_var_int(t, len as i32)?;
    let ghost head = t@;
    let mut i: usize = 0;
    while i < len
        invariant
            len == v@.len(),
            i <= len,
            t@ == head + longs_bytes(v@.take(i as int)),
        decreases len - i,
    {
        write_long(t, v[i])?;
        proof {
            assert(v@.take(i + 1).drop_last() =~= v@.take(i as int));
        }
        i = i + 1;
        assert(t@ =~= head + longs_bytes(v@.take(i as int)));
    }
    assert(v@.take(len as int) =~= v@);
    Ok(())
}

/// Reads a bit set: a VarInt count of longs, then each long.
pub fn read_bitset(t: &mut Reader) -> (r: Result<Vec<i64>, Error>)
    ensures
        match parse_longs(old(t)@) {
            Ok((v, k)) => r matches Ok(x) && x@ == v && final(t)@ == old(t)@.skip(k as int),
            Err(e) => r == Err::<Vec<i64>, Error>(e),
        },
{
    let ghost b = t@;
    let mut data: Vec<i64> = Vec::new();
    let n = read_var_int(t)?;
    if n < 0 {
        return Err(Error::Format(FormatError::NegativeLength(n as i64)));
    }
    let ghost k: int = match parse_var_int(b) {
        Ok((_, k)) => k as int,
        Err(_) => 0,
    };
    proof {
        lemma_var_end_bound(b, 0, 5);
    }
    let len = n as usize;
    let mut i: usize = 0;
    while i < len
        invariant
            i <= len,
            len == n,
            n >= 0,
            b == old(t)@,
            parse_var_int(b) == Ok::<(i32, nat), Error>((n, k as nat)),
            0 <= k <= b.len(),
            k + 8 * i <= b.len(),
            t@ == b.skip(k + 8 * i),
            data@ == Seq::new(i as nat, |j: int| long_at(b, k, j)),
        decreases len - i,
    {
        let ghost before = t@;
        let x = match read_long(t) {
            Ok(x) => x,
            Err(e) => {
                assert(before.len() == b.len() - (k + 8 * i));
                assert(b.len() < k + 8 * n);
                assert(e == Error::UnexpectedEof);
                assert(parse_longs(b) == Err::<(Seq<i64>, nat), Error>(Error::UnexpectedEof));
                return Err(e);
            },
        };
        assert(before.take(8) =~= b.subrange(k + 8 * i, k + 8 * i + 8));
        data.push(x);
        assert(t@ =~= b.skip(k + 8 * (i + 1)));
        i = i + 1;
        assert(data@ =~= Seq::new(i as nat, |j: int| long_at(b, k, j)));
    }
    Ok(data)
}

/// Writes a position as one big-endian 64-bit word: `x` in the high 26 bits,
/// `z` in the middle 26 bits and `y` in the low 12 bits.
pub fn write_position(t: &mut Vec<u8>, x: i32, y: i32, z: i32) -> (r: Result<(), Error>)
    ensures
        r is Ok,
        final(t)@ == old(t)@ + be_bytes(position_word(x as int, y as int, z as int), 8),
{
    let xu: u128 = (x as i64 + 0x8000_0000) as u128 % 0x400_0000;
    let zu: u128 = (z as i64 + 0x8000_0000) as u128 % 0x400_0000;
    let yu: u128 = (y as i64 + 0x8000_0000) as u128 % 0x1000;
    assert(xu == low_bits(x as int, 0x400_0000));
    assert(zu == low_bits(z as int, 0x400_0000));
    assert(yu == low_bits(y as int, 0x1000));
    let word: u128 = xu * 0x40_0000_0000 + zu * 0x1000 + yu;
    write_be(t, word, 8);
    Ok(())
}

/// Reads a position word; each field is sign-extended from its width.
pub fn read_position(t: &mut Reader) -> (r: Result<(i32, i32, i32), Error>)
    ensures
        match parse_unsigned(old(t)@, 8) {
            Ok((w, k)) => r == Ok::<(i32, i32, i32), Error>(
                (
                    position_of_word(w).0 as i32,
                    position_of_word(w).1 as i32,
                    position_of_word(w).2 as i32,
                ),
            ) && final(t)@ == old(t)@.skip(k as int),
            Err(e) => r == Err::<(i32, i32, i32), Error>(e),
        },
{
    proof {
        lemma_pow_values();
    }
    let w = read_be(t, 8)?;
    let xa = w / 0x40_0000_0000;
    let ya = w % 0x1000;
    let za = (w / 0x1000) % 0x400_0000;
    let x: i32 = if xa >= 0x200_0000 {
        (xa as i64 - 0x400_0000) as i32
    } else {
        xa as i32
    };
    let y: i32 = if ya >= 0x800 {
        (ya as i64 - 0x1000) as i32
    } else {
        ya as i32
    };
    let z: i32 = if za >= 0x200_0000 {
        (za as i64 - 0x400_0000) as i32
    } else {
        za as i32
    };
    Ok((x, y, z))
}

} // verus!
