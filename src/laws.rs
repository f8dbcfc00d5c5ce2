//! What holds across encoders and decoders: each decoder takes back what its
//! encoder wrote, whatever bytes follow.
use crate::error::{Error, FormatError};
use crate::packet::{
    frame, is_deflated, pack_inner, packet_body, parse_body, parse_frame, parse_packet,
    MAX_DATA_LENGTH,
};
use crate::raw::{lemma_pow_values, MAX_PREFIXED_LENGTH};
use crate::wire::{
    be_bytes, be_value, bool_byte, fixed_bytes, group_value, long_at, longs_bytes, low_bits,
    parse_bool, parse_longs, parse_prefixed_bytes, parse_signed, parse_string, parse_unsigned,
    parse_var_int, parse_var_long, position_in_range, position_of_word, position_word, pow128,
    pow256, prefixed_bytes, string_bytes, unsigned_of, var_bytes, var_end, var_int_bytes,
    var_long_bytes,
};
use vstd::prelude::*;
use vstd::utf8::{encode_utf8, encode_utf8_decode_utf8, encode_utf8_valid_utf8};

verus! {

proof fn lemma_var_end_shift(x: u8, t: Seq<u8>, i: nat, max: nat)
    ensures
        var_end(seq![x] + t, i + 1, max + 1) == (match var_end(t, i, max) {
            Some(k) => Some(k + 1),
            None => None::<nat>,
        }),
    decreases max - i,
{
    let s = seq![x] + t;
    if i < max && i < t.len() {
        assert(s[i + 1int] == t[i as int]);
        if t[i as int] >= 128 {
            lemma_var_end_shift(x, t, i + 1, max);
        }
    }
}

proof fn lemma_group_value_shift(x: u8, t: Seq<u8>, i: nat, k: nat)
    requires
        k <= t.len(),
    ensures
        group_value(seq![x] + t, i + 1, k + 1) == group_value(t, i, k),
    decreases k - i,
{
    let s = seq![x] + t;
    if i < k {
        assert(s[i + 1int] == t[i as int]);
        lemma_group_value_shift(x, t, i + 1, k);
    }
}

proof fn lemma_var_bytes_len(n: nat, m: nat)
    requires
        m >= 1,
        n < pow128(m),
    ensures
        1 <= var_bytes(n).len() <= m,
    decreases n,
{
    if n >= 128 {
        assert(pow128(m) == 128 * pow128((m - 1) as nat));
        reveal_with_fuel(pow128, 2);
        lemma_var_bytes_len(n / 128, (m - 1) as nat);
    }
}

/// The 7-bit groups of `n` are read back as `n`, whatever follows them.
proof fn lemma_var_bytes_round_trip(n: nat, rest: Seq<u8>, max: nat)
    requires
        var_bytes(n).len() <= max,
    ensures
        var_end(var_bytes(n) + rest, 0, max) == Some(var_bytes(n).len()),
        group_value(var_bytes(n) + rest, 0, var_bytes(n).len()) == n,
    decreases n,
{
    let s = var_bytes(n) + rest;
    if n < 128 {
        assert(s[0] == n as u8);
        assert(group_value(s, 1, 1) == 0);
        assert(group_value(s, 0, 1) == (s[0] % 128) as nat + 128 * group_value(s, 1, 1));
    } else {
        let x = (n % 128 + 128) as u8;
        let t = var_bytes(n / 128) + rest;
        assert(s =~= seq![x] + t);
        lemma_var_bytes_round_trip(n / 128, rest, (max - 1) as nat);
        lemma_var_end_shift(x, t, 0, (max - 1) as nat);
        lemma_group_value_shift(x, t, 0, var_bytes(n / 128).len());
        assert(s[0] == x);
        assert(x % 128 == n % 128);
        let k = var_bytes(n).len();
        assert(k == 1 + var_bytes(n / 128).len());
        assert(group_value(s, 0, k) == (s[0] % 128) as nat + 128 * group_value(s, 1, k));
    }
}

/// A VarInt is read back as the value written, whatever bytes follow it.
pub proof fn lemma_var_int_round_trip(v: i32, rest: Seq<u8>)
    ensures
        parse_var_int(var_int_bytes(v) + rest) == Ok::<(i32, nat), Error>((v, var_int_bytes(v).len())),
        1 <= var_int_bytes(v).len() <= 5,
{
    lemma_pow_values();
    reveal_with_fuel(pow128, 6);
    let n = unsigned_of(v as int, 4) as nat;
    lemma_var_bytes_len(n, 5);
    lemma_var_bytes_round_trip(n, rest, 5);
}

/// A VarLong is read back as the value written, whatever bytes follow it.
pub proof fn lemma_var_long_round_trip(v: i64, rest: Seq<u8>)
    ensures
        parse_var_long(var_long_bytes(v) + rest) == Ok::<(i64, nat), Error>((v, var_long_bytes(v).len())),
        1 <= var_long_bytes(v).len() <= 10,
{
    lemma_pow_values();
    let n = unsigned_of(v as int, 8) as nat;
    lemma_var_bytes_len(n, 10);
    lemma_var_bytes_round_trip(n, rest, 10);
}

/// A VarInt whose first five bytes all carry the continuation bit is a
/// format error, never a truncated value.
pub proof fn lemma_var_int_overlong(b: Seq<u8>)
    requires
        b.len() >= 5,
        forall|i: int| 0 <= i < 5 ==> b[i] >= 128,
    ensures
        parse_var_int(b) == Err::<(i32, nat), Error>(Error::Format(FormatError::VarIntTooLong)),
{
    reveal_with_fuel(var_end, 6);
}

/// A VarLong whose first ten bytes all carry the continuation bit is a
/// format error.
pub proof fn lemma_var_long_overlong(b: Seq<u8>)
    requires
        b.len() >= 10,
        forall|i: int| 0 <= i < 10 ==> b[i] >= 128,
    ensures
        parse_var_long(b) == Err::<(i64, nat), Error>(Error::Format(FormatError::VarLongTooLong)),
{
    reveal_with_fuel(var_end, 11);
}

proof fn lemma_be_round_trip(n: nat, width: nat)
    requires
        n < pow256(width),
    ensures
        be_bytes(n, width).len() == width,
        be_value(be_bytes(n, width)) == n,
    decreases width,
{
    if width > 0 {
        lemma_be_round_trip(n / 256, (width - 1) as nat);
        let b = be_bytes(n, width);
        assert(b.drop_last() =~= be_bytes(n / 256, (width - 1) as nat));
    }
}

/// An unsigned number of `width` big-endian bytes is read back as written.
pub proof fn lemma_unsigned_round_trip(n: nat, width: nat, rest: Seq<u8>)
    requires
        n < pow256(width),
    ensures
        be_bytes(n, width).len() == width,
        parse_unsigned(be_bytes(n, width) + rest, width) == Ok::<(nat, nat), Error>((n, width)),
{
    lemma_be_round_trip(n, width);
    assert((be_bytes(n, width) + rest).take(width as int) =~= be_bytes(n, width));
}

/// A signed number of `width` big-endian bytes is read back as written.
pub proof fn lemma_signed_round_trip(v: int, width: nat, rest: Seq<u8>)
    requires
        width >= 1,
        -pow256(width) <= 2 * v < pow256(width),
    ensures
        fixed_bytes(v, width).len() == width,
        parse_signed(fixed_bytes(v, width) + rest, width) == Ok::<(int, nat), Error>((v, width)),
{
    let n = unsigned_of(v, width);
    lemma_be_round_trip(n as nat, width);
    assert((fixed_bytes(v, width) + rest).take(width as int) =~= fixed_bytes(v, width));
}

proof fn lemma_parse_body_round_trip(id: i32, data: Seq<u8>)
    ensures
        parse_body(packet_body(id, data)) == Ok::<(i32, Seq<u8>), Error>((id, data)),
{
    lemma_var_int_round_trip(id, data);
    assert(packet_body(id, data).skip(var_int_bytes(id).len() as int) =~= data);
}

proof fn lemma_frame_round_trip(inner: Seq<u8>, rest: Seq<u8>)
    requires
        inner.len() <= MAX_PREFIXED_LENGTH,
    ensures
        parse_frame(frame(inner) + rest) == Ok::<(Seq<u8>, nat), Error>((inner, frame(inner).len())),
{
    let n = inner.len() as i32;
    lemma_var_int_round_trip(n, inner + rest);
    assert(frame(inner) + rest =~= var_int_bytes(n) + (inner + rest));
    let k = var_int_bytes(n).len();
    assert((frame(inner) + rest).subrange(k as int, k + n) =~= inner);
}

/// With compression disabled (any negative threshold), unpacking a packed
/// frame gives back the packet id and payload, and consumes exactly the frame.
pub proof fn lemma_pack_unpack_uncompressed(id: i32, data: Seq<u8>, threshold: i32, rest: Seq<u8>)
    requires
        threshold < 0,
        pack_inner(id, data, threshold).len() <= MAX_PREFIXED_LENGTH,
    ensures
        pack_inner(id, data, threshold) == packet_body(id, data),
        parse_packet(frame(pack_inner(id, data, threshold)) + rest, threshold) == Ok::<
            (i32, Seq<u8>, nat),
            Error,
        >((id, data, frame(pack_inner(id, data, threshold)).len())),
{
    let inner = pack_inner(id, data, threshold);
    lemma_frame_round_trip(inner, rest);
    lemma_parse_body_round_trip(id, data);
}

/// With compression enabled and a body shorter than the threshold, the
/// packed frame declares a data length of 0 and stores the body raw;
/// unpacking it gives back the packet id and payload.
pub proof fn lemma_pack_unpack_stored(id: i32, data: Seq<u8>, threshold: i32, rest: Seq<u8>)
    requires
        threshold >= 0,
        packet_body(id, data).len() < threshold,
    ensures
        !is_deflated(packet_body(id, data), threshold),
        pack_inner(id, data, threshold) == seq![0u8] + packet_body(id, data),
        parse_packet(frame(pack_inner(id, data, threshold)) + rest, threshold) == Ok::<
            (i32, Seq<u8>, nat),
            Error,
        >((id, data, frame(pack_inner(id, data, threshold)).len())),
{
    let body = packet_body(id, data);
    let inner = pack_inner(id, data, threshold);
    assert(var_int_bytes(0) =~= seq![0u8]) by {
        lemma_pow_values();
    }
    lemma_frame_round_trip(inner, rest);
    lemma_var_int_round_trip(0, body);
    assert(inner.skip(1) =~= body);
    lemma_parse_body_round_trip(id, data);
}

/// A boolean is read back as written.
pub proof fn lemma_bool_round_trip(v: bool, rest: Seq<u8>)
    ensures
        parse_bool(seq![bool_byte(v)] + rest) == Ok::<(bool, nat), Error>((v, 1)),
{
}

/// Bytes behind a VarInt count are read back as written.
pub proof fn lemma_prefixed_round_trip(b: Seq<u8>, rest: Seq<u8>)
    requires
        b.len() <= MAX_PREFIXED_LENGTH,
    ensures
        parse_prefixed_bytes(prefixed_bytes(b) + rest) == Ok::<(Seq<u8>, nat), Error>((b, prefixed_bytes(b).len())),
{
    let n = b.len() as i32;
    lemma_var_int_round_trip(n, b + rest);
    assert(prefixed_bytes(b) + rest =~= var_int_bytes(n) + (b + rest));
    let k = var_int_bytes(n).len();
    assert((prefixed_bytes(b) + rest).subrange(k as int, k + n) =~= b);
}

/// A string whose UTF-8 form fits `max` bytes is read back as written.
pub proof fn lemma_string_round_trip(s: Seq<char>, max: nat, rest: Seq<u8>)
    requires
        encode_utf8(s).len() <= max,
        max <= MAX_PREFIXED_LENGTH,
    ensures
        parse_string(string_bytes(s) + rest, max) == Ok::<(Seq<char>, nat), Error>((s, string_bytes(s).len())),
{
    lemma_prefixed_round_trip(encode_utf8(s), rest);
    encode_utf8_valid_utf8(s);
    encode_utf8_decode_utf8(s);
}

proof fn lemma_longs_bytes_layout(v: Seq<i64>)
    ensures
        longs_bytes(v).len() == 8 * v.len(),
        forall|i: int| 0 <= i < v.len() ==> #[trigger] longs_bytes(v).subrange(8 * i, 8 * i + 8) == fixed_bytes(v[i] as int, 8),
    decreases v.len(),
{
    lemma_pow_values();
    if v.len() > 0 {
        let u = v.drop_last();
        lemma_longs_bytes_layout(u);
        lemma_signed_round_trip(v.last() as int, 8, Seq::empty());
        assert forall|i: int| 0 <= i < v.len() implies #[trigger] longs_bytes(v).subrange(8 * i, 8 * i + 8)
            == fixed_bytes(v[i] as int, 8) by {
            if i < u.len() {
                assert(longs_bytes(v).subrange(8 * i, 8 * i + 8) =~= longs_bytes(u).subrange(8 * i, 8 * i + 8));
            } else {
                assert(longs_bytes(v).subrange(8 * i, 8 * i + 8) =~= fixed_bytes(v.last() as int, 8));
            }
        }
    }
}

/// A sequence of longs behind a VarInt count is read back as written.
pub proof fn lemma_longs_round_trip(v: Seq<i64>, rest: Seq<u8>)
    requires
        v.len() <= MAX_PREFIXED_LENGTH,
    ensures
        parse_longs(var_int_bytes(v.len() as i32) + longs_bytes(v) + rest) == Ok::<(Seq<i64>, nat), Error>(
            (v, (var_int_bytes(v.len() as i32) + longs_bytes(v)).len()),
        ),
{
    lemma_pow_values();
    let n = v.len() as i32;
    let lb = longs_bytes(v);
    let b = var_int_bytes(n) + lb + rest;
    lemma_var_int_round_trip(n, lb + rest);
    assert(b =~= var_int_bytes(n) + (lb + rest));
    lemma_longs_bytes_layout(v);
    let k = var_int_bytes(n).len() as int;
    assert forall|i: int| 0 <= i < v.len() implies long_at(b, k, i) == v[i] by {
        assert(b.subrange(k + 8 * i, k + 8 * i + 8) =~= lb.subrange(8 * i, 8 * i + 8));
        lemma_signed_round_trip(v[i] as int, 8, Seq::empty());
        assert(fixed_bytes(v[i] as int, 8) + Seq::<u8>::empty() =~= fixed_bytes(v[i] as int, 8));
        assert(fixed_bytes(v[i] as int, 8).take(8) =~= fixed_bytes(v[i] as int, 8));
    }
    assert(Seq::new(v.len(), |i: int| long_at(b, k, i)) =~= v);
}

/// The coordinates of a position in range are read back as written.
pub proof fn lemma_position_word_round_trip(x: int, y: int, z: int)
    requires
        position_in_range(x, y, z),
    ensures
        position_word(x, y, z) < 0x1_0000_0000_0000_0000,
        position_of_word(position_word(x, y, z)) == (x, y, z),
{
    let xa = low_bits(x, 0x400_0000);
    let za = low_bits(z, 0x400_0000);
    let ya = low_bits(y, 0x1000);
    assert(xa == if x >= 0 { x } else { x + 0x400_0000 });
    assert(za == if z >= 0 { z } else { z + 0x400_0000 });
    assert(ya == if y >= 0 { y } else { y + 0x1000 });
    let w = position_word(x, y, z);
    assert(w == xa * 0x40_0000_0000 + za * 0x1000 + ya);
    assert(w / 0x40_0000_0000 == xa) by (nonlinear_arith)
        requires
            w == xa * 0x40_0000_0000 + za * 0x1000 + ya,
            0 <= xa < 0x400_0000,
            0 <= za < 0x400_0000,
            0 <= ya < 0x1000,
    ;
    assert(w % 0x1000 == ya) by (nonlinear_arith)
        requires
            w == xa * 0x40_0000_0000 + za * 0x1000 + ya,
            0 <= xa < 0x400_0000,
            0 <= za < 0x400_0000,
            0 <= ya < 0x1000,
    ;
    assert(w / 0x1000 == xa * 0x400_0000 + za) by (nonlinear_arith)
        requires
            w == xa * 0x40_0000_0000 + za * 0x1000 + ya,
            0 <= xa < 0x400_0000,
            0 <= za < 0x400_0000,
            0 <= ya < 0x1000,
    ;
    assert((xa * 0x400_0000 + za) % 0x400_0000 == za) by (nonlinear_arith)
        requires
            0 <= xa < 0x400_0000,
            0 <= za < 0x400_0000,
    ;
}

/// A compressed frame that declares a data length above the protocol
/// maximum is a format error, whatever bytes it carries: the answer does not
/// depend on what those bytes inflate to.
pub proof fn lemma_oversize_data_length(d: i32, carried: Seq<u8>, threshold: i32, rest: Seq<u8>)
    requires
        d > MAX_DATA_LENGTH,
        threshold >= 0,
        (var_int_bytes(d) + carried).len() <= MAX_PREFIXED_LENGTH,
    ensures
        parse_packet(frame(var_int_bytes(d) + carried) + rest, threshold) matches Err(Error::Format(_)),
        threshold <= d ==> parse_packet(frame(var_int_bytes(d) + carried) + rest, threshold) == Err::<
            (i32, Seq<u8>, nat),
            Error,
        >(Error::Format(FormatError::DataLengthAboveMaximum(d))),
{
    let inner = var_int_bytes(d) + carried;
    lemma_frame_round_trip(inner, rest);
    lemma_var_int_round_trip(d, carried);
}

} // verus!
