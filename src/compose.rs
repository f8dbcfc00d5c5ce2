//! Codecs of records built from the codecs of their fields, in declaration
//! order: field order is wire order, and the first field that fails to
//! decode stops the record, with the field named in the error.
use crate::error::Error;
use crate::reader::Reader;
use crate::types::{Codec, Decoder, Encoder};
use vstd::prelude::*;

verus! {

/// Two fields, one after the other.
pub open spec fn encoding2<A: Encoder, B: Encoder>(a: A::V, b: B::V) -> Seq<u8> {
    A::encoding(a) + B::encoding(b)
}

/// Three fields, one after the other.
pub open spec fn encoding3<A: Encoder, B: Encoder, C: Encoder>(a: A::V, b: B::V, c: C::V) -> Seq<u8> {
    A::encoding(a) + encoding2::<B, C>(b, c)
}

/// Four fields, one after the other.
pub open spec fn encoding4<A: Encoder, B: Encoder, C: Encoder, D: Encoder>(
    a: A::V,
    b: B::V,
    c: C::V,
    d: D::V,
) -> Seq<u8> {
    A::encoding(a) + encoding3::<B, C, D>(b, c, d)
}

/// Decoding two fields one after the other.
pub open spec fn parse2<A: Decoder, B: Decoder>(s: Seq<u8>) -> Option<(A::V, B::V, nat)> {
    match A::parse(s) {
        None => None,
        Some((a, k)) => match B::parse(s.skip(k as int)) {
            None => None,
            Some((b, j)) => Some((a, b, k + j)),
        },
    }
}

/// Decoding three fields one after the other.
pub open spec fn parse3<A: Decoder, B: Decoder, C: Decoder>(s: Seq<u8>) -> Option<(A::V, B::V, C::V, nat)> {
    match A::parse(s) {
        None => None,
        Some((a, k)) => match parse2::<B, C>(s.skip(k as int)) {
            None => None,
            Some((b, c, j)) => Some((a, b, c, k + j)),
        },
    }
}

/// Decoding four fields one after the other.
pub open spec fn parse4<A: Decoder, B: Decoder, C: Decoder, D: Decoder>(s: Seq<u8>) -> Option<
    (A::V, B::V, C::V, D::V, nat),
> {
    match A::parse(s) {
        None => None,
        Some((a, k)) => match parse3::<B, C, D>(s.skip(k as int)) {
            None => None,
            Some((b, c, d, j)) => Some((a, b, c, d, k + j)),
        },
    }
}

/// The error of a field that failed to decode, with the field and its
/// container named.
pub open spec fn field_error(container: &'static str, field: &'static str, e: Error) -> Error {
    Error::Field { container, field, source: Box::new(e) }
}

/// The error of decoding two fields: that of the first that fails.
pub open spec fn parse2_error<A: Decoder, B: Decoder>(
    s: Seq<u8>,
    container: &'static str,
    fa: &'static str,
    fb: &'static str,
) -> Error {
    match A::parse(s) {
        None => field_error(container, fa, A::parse_error(s)),
        Some((_, k)) => field_error(container, fb, B::parse_error(s.skip(k as int))),
    }
}

/// The error of decoding three fields: that of the first that fails.
pub open spec fn parse3_error<A: Decoder, B: Decoder, C: Decoder>(
    s: Seq<u8>,
    container: &'static str,
    fa: &'static str,
    fb: &'static str,
    fc: &'static str,
) -> Error {
    match A::parse(s) {
        None => field_error(container, fa, A::parse_error(s)),
        Some((_, k)) => parse2_error::<B, C>(s.skip(k as int), container, fb, fc),
    }
}

/// The error of decoding four fields: that of the first that fails.
pub open spec fn parse4_error<A: Decoder, B: Decoder, C: Decoder, D: Decoder>(
    s: Seq<u8>,
    container: &'static str,
    fa: &'static str,
    fb: &'static str,
    fc: &'static str,
    fd: &'static str,
) -> Error {
    match A::parse(s) {
        None => field_error(container, fa, A::parse_error(s)),
        Some((_, k)) => parse3_error::<B, C, D>(s.skip(k as int), container, fb, fc, fd),
    }
}

pub proof fn lemma_round_trip2<A: Codec, B: Codec>(a: A::V, b: B::V, rest: Seq<u8>)
    requires
        A::encodable(a) && A::wire_valid(a),
        B::encodable(b) && B::wire_valid(b),
    ensures
        parse2::<A, B>(encoding2::<A, B>(a, b) + rest) == Some((a, b, encoding2::<A, B>(a, b).len())),
{
    let s = encoding2::<A, B>(a, b) + rest;
    A::lemma_round_trip(a, B::encoding(b) + rest);
    B::lemma_round_trip(b, rest);
    assert(s =~= A::encoding(a) + (B::encoding(b) + rest));
    assert(s.skip(A::encoding(a).len() as int) =~= B::encoding(b) + rest);
}

pub proof fn lemma_round_trip3<A: Codec, B: Codec, C: Codec>(a: A::V, b: B::V, c: C::V, rest: Seq<u8>)
    requires
        A::encodable(a) && A::wire_valid(a),
        B::encodable(b) && B::wire_valid(b),
        C::encodable(c) && C::wire_valid(c),
    ensures
        parse3::<A, B, C>(encoding3::<A, B, C>(a, b, c) + rest) == Some(
            (a, b, c, encoding3::<A, B, C>(a, b, c).len()),
        ),
{
    let s = encoding3::<A, B, C>(a, b, c) + rest;
    let t = encoding2::<B, C>(b, c) + rest;
    A::lemma_round_trip(a, t);
    lemma_round_trip2::<B, C>(b, c, rest);
    assert(s =~= A::encoding(a) + t);
    assert(s.skip(A::encoding(a).len() as int) =~= t);
}

pub proof fn lemma_round_trip4<A: Codec, B: Codec, C: Codec, D: Codec>(
    a: A::V,
    b: B::V,
    c: C::V,
    d: D::V,
    rest: Seq<u8>,
)
    requires
        A::encodable(a) && A::wire_valid(a),
        B::encodable(b) && B::wire_valid(b),
        C::encodable(c) && C::wire_valid(c),
        D::encodable(d) && D::wire_valid(d),
    ensures
        parse4::<A, B, C, D>(encoding4::<A, B, C, D>(a, b, c, d) + rest) == Some(
            (a, b, c, d, encoding4::<A, B, C, D>(a, b, c, d).len()),
        ),
{
    let s = encoding4::<A, B, C, D>(a, b, c, d) + rest;
    let t = encoding3::<B, C, D>(b, c, d) + rest;
    A::lemma_round_trip(a, t);
    lemma_round_trip3::<B, C, D>(b, c, d, rest);
    assert(s =~= A::encoding(a) + t);
    assert(s.skip(A::encoding(a).len() as int) =~= t);
}

pub proof fn lemma_prefix_trans(a: Seq<u8>, b: Seq<u8>, c: Seq<u8>)
    requires
        a.is_prefix_of(b),
        b.is_prefix_of(c),
    ensures
        a.is_prefix_of(c),
{
    assert(a =~= c.subrange(0, a.len() as int)) by {
        assert(b.subrange(0, a.len() as int) =~= c.subrange(0, a.len() as int));
    }
}

/// Writes two fields in order.
pub fn write2<A: Encoder, B: Encoder>(w: &mut Vec<u8>, a: &A, b: &B) -> (r: Result<(), Error>)
    ensures
        r is Ok <==> A::encodable(a.deep_view()) && B::encodable(b.deep_view()),
        r is Ok ==> final(w)@ == old(w)@ + encoding2::<A, B>(a.deep_view(), b.deep_view()),
        old(w)@.is_prefix_of(final(w)@),
{
    let ra = a.write_to(w);
    if ra.is_err() {
        return ra;
    }
    let ghost mid = w@;
    let rb = b.write_to(w);
    proof {
        lemma_prefix_trans(old(w)@, mid, w@);
    }
    assert(rb is Ok ==> w@ =~= old(w)@ + encoding2::<A, B>(a.deep_view(), b.deep_view()));
    rb
}

/// Writes three fields in order.
pub fn write3<A: Encoder, B: Encoder, C: Encoder>(w: &mut Vec<u8>, a: &A, b: &B, c: &C) -> (r: Result<(), Error>)
    ensures
        r is Ok <==> A::encodable(a.deep_view()) && B::encodable(b.deep_view()) && C::encodable(c.deep_view()),
        r is Ok ==> final(w)@ == old(w)@ + encoding3::<A, B, C>(a.deep_view(), b.deep_view(), c.deep_view()),
        old(w)@.is_prefix_of(final(w)@),
{
    let ra = a.write_to(w);
    if ra.is_err() {
        return ra;
    }
    let ghost mid = w@;
    let rb = write2(w, b, c);
    proof {
        lemma_prefix_trans(old(w)@, mid, w@);
    }
    assert(rb is Ok ==> w@ =~= old(w)@ + encoding3::<A, B, C>(a.deep_view(), b.deep_view(), c.deep_view()));
    rb
}

/// Writes four fields in order.
pub fn write4<A: Encoder, B: Encoder, C: Encoder, D: Encoder>(
    w: &mut Vec<u8>,
    a: &A,
    b: &B,
    c: &C,
    d: &D,
) -> (r: Result<(), Error>)
    ensures
        r is Ok <==> A::encodable(a.deep_view()) && B::encodable(b.deep_view()) && C::encodable(c.deep_view())
            && D::encodable(d.deep_view()),
        r is Ok ==> final(w)@ == old(w)@ + encoding4::<A, B, C, D>(
            a.deep_view(),
            b.deep_view(),
            c.deep_view(),
            d.deep_view(),
        ),
        old(w)@.is_prefix_of(final(w)@),
{
    let ra = a.write_to(w);
    if ra.is_err() {
        return ra;
    }
    let ghost mid = w@;
    let rb = write3(w, b, c, d);
    proof {
        lemma_prefix_trans(old(w)@, mid, w@);
    }
    assert(rb is Ok ==> w@ =~= old(w)@ + encoding4::<A, B, C, D>(
        a.deep_view(),
        b.deep_view(),
        c.deep_view(),
        d.deep_view(),
    ));
    rb
}

/// Reads one field; a failure is reported with the field and its container named.
pub fn read_field<T: Decoder>(r: &mut Reader, container: &'static str, field: &'static str) -> (res: Result<T, Error>)
    ensures
        match T::parse(old(r)@) {
            Some((v, n)) => res matches Ok(x) && x.deep_view() == v && n <= old(r)@.len()
                && final(r)@ == old(r)@.skip(n as int),
            None => res == Err::<T, Error>(field_error(container, field, T::parse_error(old(r)@))),
        },
{
    match T::read_from(r) {
        Ok(v) => Ok(v),
        Err(e) => Err(Error::Field { container, field, source: Box::new(e) }),
    }
}

/// Reads two fields in order.
pub fn read2<A: Decoder, B: Decoder>(
    r: &mut Reader,
    container: &'static str,
    fa: &'static str,
    fb: &'static str,
) -> (res: Result<(A, B), Error>)
    ensures
        match parse2::<A, B>(old(r)@) {
            Some((a, b, n)) => res matches Ok((x, y)) && x.deep_view() == a && y.deep_view() == b && n
                <= old(r)@.len() && final(r)@ == old(r)@.skip(n as int),
            None => res == Err::<(A, B), Error>(parse2_error::<A, B>(old(r)@, container, fa, fb)),
        },
{
    let ghost s = r@;
    let x = read_field::<A>(r, container, fa)?;
    let ghost k = (s.len() - r@.len()) as nat;
    assert(r@ =~= s.skip(k as int));
    let y = read_field::<B>(r, container, fb)?;
    assert(r@ =~= s.skip((k + (s.skip(k as int).len() - r@.len())) as int));
    Ok((x, y))
}

/// Reads three fields in order.
pub fn read3<A: Decoder, B: Decoder, C: Decoder>(
    r: &mut Reader,
    container: &'static str,
    fa: &'static str,
    fb: &'static str,
    fc: &'static str,
) -> (res: Result<(A, B, C), Error>)
    ensures
        match parse3::<A, B, C>(old(r)@) {
            Some((a, b, c, n)) => res matches Ok((x, y, z)) && x.deep_view() == a && y.deep_view() == b
                && z.deep_view() == c && n <= old(r)@.len() && final(r)@ == old(r)@.skip(n as int),
            None => res == Err::<(A, B, C), Error>(parse3_error::<A, B, C>(old(r)@, container, fa, fb, fc)),
        },
{
    let ghost s = r@;
    let x = read_field::<A>(r, container, fa)?;
    let ghost k = (s.len() - r@.len()) as nat;
    assert(r@ =~= s.skip(k as int));
    let (y, z) = read2::<B, C>(r, container, fb, fc)?;
    assert(r@ =~= s.skip((k + (s.skip(k as int).len() - r@.len())) as int));
    Ok((x, y, z))
}

/// Reads four fields in order.
pub fn read4<A: Decoder, B: Decoder, C: Decoder, D: Decoder>(
    r: &mut Reader,
    container: &'static str,
    fa: &'static str,
    fb: &'static str,
    fc: &'static str,
    fd: &'static str,
) -> (res: Result<(A, B, C, D), Error>)
    ensures
        match parse4::<A, B, C, D>(old(r)@) {
            Some((a, b, c, d, n)) => res matches Ok((x, y, z, u)) && x.deep_view() == a && y.deep_view()
                == b && z.deep_view() == c && u.deep_view() == d && n <= old(r)@.len() && final(r)@
                == old(r)@.skip(n as int),
            None => res == Err::<(A, B, C, D), Error>(
                parse4_error::<A, B, C, D>(old(r)@, container, fa, fb, fc, fd),
            ),
        },
{
    let ghost s = r@;
    let x = read_field::<A>(r, container, fa)?;
    let ghost k = (s.len() - r@.len()) as nat;
    assert(r@ =~= s.skip(k as int));
    let (y, z, u) = read3::<B, C, D>(r, container, fb, fc, fd)?;
    assert(r@ =~= s.skip((k + (s.skip(k as int).len() - r@.len())) as int));
    Ok((x, y, z, u))
}

} // verus!
