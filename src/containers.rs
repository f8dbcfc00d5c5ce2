//! Sequences behind a length prefix, and trailing byte arrays.
use crate::compose::lemma_prefix_trans;
use crate::error::{Error, FormatError};
use crate::raw::{append_bytes, MAX_PREFIXED_LENGTH};
use crate::reader::Reader;
use crate::types::{Codec, Decoder, Encoder, VarInt};
use crate::wire::var_int_bytes;
use core::marker::PhantomData;
use vstd::prelude::*;

verus! {

/// Largest number of elements that a length-prefixed sequence may declare.
pub const MAX_LENGTH: usize = 1048576;

/// A type that can carry the length of a sequence.
pub trait LengthPrefix: Codec {
    /// The prefix for a length `n`, where the type can carry it.
    spec fn prefix_for(n: nat) -> Option<<Self as DeepView>::V>;

    /// The length that a prefix carries, where it carries one.
    spec fn length_of(p: <Self as DeepView>::V) -> Option<nat>;

    fn from_length(n: usize) -> (r: Option<Self>)
        ensures
            match Self::prefix_for(n as nat) {
                Some(p) => r matches Some(x) && x.deep_view() == p,
                None => r is None,
            },
    ;

    fn to_length(&self) -> (r: Option<usize>)
        ensures
            match Self::length_of(self.deep_view()) {
                Some(n) => r == Some(n as usize) && n <= usize::MAX,
                None => r is None,
            },
    ;

    /// The prefix for a length carries that length and can be written.
    proof fn lemma_prefix_length(n: nat)
        requires
            Self::prefix_for(n) is Some,
        ensures
            Self::prefix_for(n) matches Some(p) && Self::length_of(p) == Some(n) && Self::encodable(p)
                && Self::wire_valid(p),
    ;
}

impl LengthPrefix for VarInt {
    open spec fn prefix_for(n: nat) -> Option<i32> {
        if n <= MAX_PREFIXED_LENGTH {
            Some(n as i32)
        } else {
            None
        }
    }

    open spec fn length_of(p: i32) -> Option<nat> {
        if p >= 0 {
            Some(p as nat)
        } else {
            None
        }
    }

    fn from_length(n: usize) -> (r: Option<VarInt>) {
        if n <= MAX_PREFIXED_LENGTH {
            Some(VarInt(n as i32))
        } else {
            None
        }
    }

    fn to_length(&self) -> (r: Option<usize>) {
        if self.0 >= 0 {
            Some(self.0 as usize)
        } else {
            None
        }
    }

    proof fn lemma_prefix_length(n: nat) {
    }
}

impl LengthPrefix for u16 {
    open spec fn prefix_for(n: nat) -> Option<u16> {
        if n <= 0xffff {
            Some(n as u16)
        } else {
            None
        }
    }

    open spec fn length_of(p: u16) -> Option<nat> {
        Some(p as nat)
    }

    fn from_length(n: usize) -> (r: Option<u16>) {
        if n <= 0xffff {
            Some(n as u16)
        } else {
            None
        }
    }

    fn to_length(&self) -> (r: Option<usize>) {
        Some(*self as usize)
    }

    proof fn lemma_prefix_length(n: nat) {
    }
}

impl LengthPrefix for u8 {
    open spec fn prefix_for(n: nat) -> Option<u8> {
        if n <= 0xff {
            Some(n as u8)
        } else {
            None
        }
    }

    open spec fn length_of(p: u8) -> Option<nat> {
        Some(p as nat)
    }

    fn from_length(n: usize) -> (r: Option<u8>) {
        if n <= 0xff {
            Some(n as u8)
        } else {
            None
        }
    }

    fn to_length(&self) -> (r: Option<usize>) {
        Some(*self as usize)
    }

    proof fn lemma_prefix_length(n: nat) {
    }
}

/// The encodings of the elements of `v`, one after another.
pub open spec fn items_bytes<T: Encoder>(v: Seq<T::V>) -> Seq<u8>
    decreases v.len(),
{
    if v.len() == 0 {
        Seq::empty()
    } else {
        items_bytes::<T>(v.drop_last()) + T::encoding(v.last())
    }
}

/// Decoding `n` elements one after another from the front of `b`.
pub open spec fn parse_items<T: Decoder>(b: Seq<u8>, n: nat) -> Option<(Seq<T::V>, nat)>
    decreases n,
{
    if n == 0 {
        Some((Seq::empty(), 0))
    } else {
        match parse_items::<T>(b, (n - 1) as nat) {
            None => None,
            Some((v, m)) => match T::parse(b.skip(m as int)) {
                None => None,
                Some((x, j)) => Some((v.push(x), m + j)),
            },
        }
    }
}

/// The error of decoding `n` elements: that of the first that fails.
pub open spec fn items_error<T: Decoder>(b: Seq<u8>, n: nat) -> Error
    decreases n,
{
    if n == 0 {
        Error::UnexpectedEof
    } else {
        match parse_items::<T>(b, (n - 1) as nat) {
            None => items_error::<T>(b, (n - 1) as nat),
            Some((_, m)) => T::parse_error(b.skip(m as int)),
        }
    }
}

proof fn lemma_items_error<T: Decoder>(b: Seq<u8>, i: nat, m: nat, n: nat)
    requires
        i < n,
        parse_items::<T>(b, i) matches Some((_, mm)) && mm == m,
        T::parse(b.skip(m as int)) is None,
    ensures
        items_error::<T>(b, n) == T::parse_error(b.skip(m as int)),
    decreases n,
{
    if n - 1 > i {
        lemma_parse_items_none::<T>(b, i + 1, (n - 1) as nat);
        lemma_items_error::<T>(b, i, m, (n - 1) as nat);
    }
}

proof fn lemma_parse_items_none<T: Decoder>(b: Seq<u8>, n: nat, n2: nat)
    requires
        n <= n2,
        parse_items::<T>(b, n) is None,
    ensures
        parse_items::<T>(b, n2) is None,
    decreases n2,
{
    if n < n2 {
        lemma_parse_items_none::<T>(b, n, (n2 - 1) as nat);
    }
}

proof fn lemma_items_round_trip<T: Codec>(v: Seq<T::V>, rest: Seq<u8>)
    requires
        forall|i: int| 0 <= i < v.len() ==> T::encodable(#[trigger] v[i]) && T::wire_valid(v[i]),
    ensures
        parse_items::<T>(items_bytes::<T>(v) + rest, v.len()) == Some((v, items_bytes::<T>(v).len())),
    decreases v.len(),
{
    if v.len() > 0 {
        let u = v.drop_last();
        let x = v.last();
        let tail = T::encoding(x) + rest;
        assert(items_bytes::<T>(v) + rest =~= items_bytes::<T>(u) + tail);
        assert forall|i: int| 0 <= i < u.len() implies T::encodable(#[trigger] u[i]) && T::wire_valid(u[i]) by {
            assert(u[i] == v[i]);
        }
        lemma_items_round_trip::<T>(u, tail);
        T::lemma_round_trip(x, rest);
        assert((items_bytes::<T>(u) + tail).skip(items_bytes::<T>(u).len() as int) =~= tail);
        assert(u.push(x) =~= v);
    }
}

/// A sequence of `T` behind its length, written as a `P`.
#[derive(Debug)]
pub struct LengthPrefixedVec<P, T>(pub Vec<T>, pub PhantomData<P>);

pub type VarIntPrefixedVec<T> = LengthPrefixedVec<VarInt, T>;

pub type ShortPrefixedVec<T> = LengthPrefixedVec<u16, T>;

/// A sequence of `T` behind its length, written as a `U`.
pub type Array<T, U> = LengthPrefixedVec<U, T>;

pub type VarIntPrefixedArray<T> = LengthPrefixedVec<VarInt, T>;

pub type ShortPrefixedArray<T> = LengthPrefixedVec<u8, T>;

impl<P, T: DeepView> DeepView for LengthPrefixedVec<P, T> {
    type V = Seq<T::V>;

    open spec fn deep_view(&self) -> Seq<T::V> {
        self.0.deep_view()
    }
}

impl<P, T> LengthPrefixedVec<P, T> {
    pub fn new(items: Vec<T>) -> (r: Self)
        ensures
            r.0 == items,
    {
        LengthPrefixedVec(items, PhantomData)
    }

    pub fn into_vec(self) -> (r: Vec<T>)
        ensures
            r == self.0,
    {
        self.0
    }
}

impl<P: LengthPrefix, T: Decoder> LengthPrefixedVec<P, T> {
    /// The sequence at the front of `b` and the bytes it takes.
    pub open spec fn parse_seq(b: Seq<u8>) -> Option<(Seq<T::V>, nat)> {
        match P::parse(b) {
            None => None,
            Some((p, k)) => match P::length_of(p) {
                None => None,
                Some(n) => if n > MAX_LENGTH {
                    None
                } else {
                    match parse_items::<T>(b.skip(k as int), n) {
                        Some((v, m)) => Some((v, k + m)),
                        None => None,
                    }
                },
            },
        }
    }

    /// The error of decoding the sequence at the front of `b`.
    pub open spec fn parse_seq_error(b: Seq<u8>) -> Error {
        match P::parse(b) {
            None => P::parse_error(b),
            Some((p, k)) => match P::length_of(p) {
                None => Error::Format(FormatError::LengthOutOfRange(0)),
                Some(n) => if n > MAX_LENGTH {
                    Error::Format(FormatError::ArrayTooLarge(n as usize))
                } else {
                    items_error::<T>(b.skip(k as int), n)
                },
            },
        }
    }

    /// Reads the length, refuses one above the cap before reading any
    /// element, then reads the elements in order, stopping at the first
    /// that fails.
    pub fn read_seq(r: &mut Reader) -> (res: Result<Self, Error>)
        ensures
            match Self::parse_seq(old(r)@) {
                Some((v, n)) => res matches Ok(x) && x.deep_view() == v && n <= old(r)@.len()
                    && final(r)@ == old(r)@.skip(n as int),
                None => res == Err::<Self, Error>(Self::parse_seq_error(old(r)@)),
            },
            P::parse(old(r)@) matches Some((p, k)) ==> (P::length_of(p) matches Some(n) ==> (n > MAX_LENGTH
                ==> res == Err::<Self, Error>(Error::Format(FormatError::ArrayTooLarge(n as usize)))
                && final(r)@ == old(r)@.skip(k as int))),
    {
        let ghost b = r@;
        let p = P::read_from(r)?;
        let ghost k: nat = (b.len() - r@.len()) as nat;
        let len = match p.to_length() {
            Some(n) => n,
            None => return Err(Error::Format(FormatError::LengthOutOfRange(0))),
        };
        if len > MAX_LENGTH {
            return Err(Error::Format(FormatError::ArrayTooLarge(len)));
        }
        let mut items: Vec<T> = Vec::new();
        let mut i: usize = 0;
        let ghost mut m: nat = 0;
        while i < len
            invariant
                i <= len <= MAX_LENGTH,
                b == old(r)@,
                k <= b.len(),
                P::parse(b) == Some((p.deep_view(), k)),
                P::length_of(p.deep_view()) == Some(len as nat),
                parse_items::<T>(b.skip(k as int), i as nat) == Some((items.deep_view(), m)),
                k + m <= b.len(),
                r@ == b.skip((k + m) as int),
            decreases len - i,
        {
            let ghost before = r@;
            let x = match T::read_from(r) {
                Ok(x) => x,
                Err(e) => {
                    proof {
                        assert(b.skip(k as int).skip(m as int) =~= b.skip((k + m) as int));
                        lemma_parse_items_none::<T>(b.skip(k as int), (i + 1) as nat, len as nat);
                        lemma_items_error::<T>(b.skip(k as int), i as nat, m, len as nat);
                    }
                    return Err(e);
                },
            };
            let ghost j: nat = (before.len() - r@.len()) as nat;
            proof {
                assert(b.skip(k as int).skip(m as int) =~= b.skip((k + m) as int));
                assert(r@ =~= b.skip((k + m + j) as int));
            }
            let ghost old_items = items.deep_view();
            items.push(x);
            assert(items.deep_view() =~= old_items.push(x.deep_view()));
            proof {
                m = m + j;
            }
            i = i + 1;
        }
        Ok(LengthPrefixedVec(items, PhantomData))
    }
}

impl<P: LengthPrefix, T: Encoder> Encoder for LengthPrefixedVec<P, T> {
    open spec fn encodable(v: Seq<T::V>) -> bool {
        &&& P::prefix_for(v.len()) is Some
        &&& forall|i: int| 0 <= i < v.len() ==> T::encodable(#[trigger] v[i])
    }

    /// The length as a `P`, then each element in order.
    open spec fn encoding(v: Seq<T::V>) -> Seq<u8> {
        match P::prefix_for(v.len()) {
            Some(p) => P::encoding(p) + items_bytes::<T>(v),
            None => Seq::empty(),
        }
    }

    fn write_to(&self, w: &mut Vec<u8>) -> (r: Result<(), Error>) {
        let len = self.0.len();
        let ghost dv = self.deep_view();
        let p = match P::from_length(len) {
            Some(p) => p,
            None => return Err(Error::Format(FormatError::LengthOutOfRange(len))),
        };
        proof {
            P::lemma_prefix_length(len as nat);
        }
        p.write_to(w)?;
        let ghost head = w@;
        let mut i: usize = 0;
        while i < len
            invariant
                i <= len,
                len == self.0@.len(),
                dv == self.deep_view(),
                dv.len() == len,
                head == old(w)@ + P::encoding(p.deep_view()),
                w@ == head + items_bytes::<T>(dv.take(i as int)),
                forall|j: int| 0 <= j < i ==> T::encodable(#[trigger] dv[j]),
            decreases len - i,
        {
            let ghost before = w@;
            let res = self.0[i].write_to(w);
            assert(self.0[i as int].deep_view() == dv[i as int]);
            match res {
                Ok(()) => {},
                Err(e) => {
                    proof {
                        assert(old(w)@.is_prefix_of(before));
                        lemma_prefix_trans(old(w)@, before, w@);
                    }
                    return Err(e);
                },
            }
            proof {
                assert(dv.take(i + 1).drop_last() =~= dv.take(i as int));
            }
            i = i + 1;
            assert(w@ =~= head + items_bytes::<T>(dv.take(i as int)));
        }
        assert(dv.take(len as int) =~= dv);
        assert(w@ =~= old(w)@ + Self::encoding(dv));
        Ok(())
    }
}

impl<P: LengthPrefix, T: Decoder> Decoder for LengthPrefixedVec<P, T> {
    open spec fn parse(b: Seq<u8>) -> Option<(Seq<T::V>, nat)> {
        Self::parse_seq(b)
    }

    open spec fn parse_error(b: Seq<u8>) -> Error {
        Self::parse_seq_error(b)
    }

    fn read_from(r: &mut Reader) -> (res: Result<Self, Error>) {
        Self::read_seq(r)
    }
}

impl<P: LengthPrefix, T: Codec> Codec for LengthPrefixedVec<P, T> {
    /// At most the cap of elements, each of which the wire carries unchanged.
    open spec fn wire_valid(v: Seq<T::V>) -> bool {
        &&& v.len() <= MAX_LENGTH
        &&& forall|i: int| 0 <= i < v.len() ==> T::wire_valid(#[trigger] v[i])
    }

    proof fn lemma_round_trip(v: Seq<T::V>, rest: Seq<u8>) {
        P::lemma_prefix_length(v.len());
        let p = P::prefix_for(v.len())->Some_0;
        let ib = items_bytes::<T>(v);
        P::lemma_round_trip(p, ib + rest);
        assert(P::encoding(p) + ib + rest =~= P::encoding(p) + (ib + rest));
        lemma_items_round_trip::<T>(v, rest);
        assert((P::encoding(p) + ib + rest).skip(P::encoding(p).len() as int) =~= ib + rest);
    }
}

/// Bytes that take up the rest of the input, with no length in front:
/// only the last field of a packet can be one.
#[derive(Debug)]
pub struct LengthInferredVecU8(pub Vec<u8>);

pub type LengthInferredByteArray = LengthInferredVecU8;

impl DeepView for LengthInferredVecU8 {
    type V = Seq<u8>;

    open spec fn deep_view(&self) -> Seq<u8> {
        self.0@
    }
}

impl Encoder for LengthInferredVecU8 {
    open spec fn encodable(v: Seq<u8>) -> bool {
        true
    }

    open spec fn encoding(v: Seq<u8>) -> Seq<u8> {
        v
    }

    fn write_to(&self, w: &mut Vec<u8>) -> (r: Result<(), Error>) {
        append_bytes(w, self.0.as_slice());
        Ok(())
    }
}

impl Decoder for LengthInferredVecU8 {
    /// Everything that is left.
    open spec fn parse(b: Seq<u8>) -> Option<(Seq<u8>, nat)> {
        Some((b, b.len()))
    }

    /// Never used: the rest of the input always decodes.
    open spec fn parse_error(b: Seq<u8>) -> Error {
        Error::UnexpectedEof
    }

    fn read_from(r: &mut Reader) -> (res: Result<LengthInferredVecU8, Error>) {
        let v = r.read_to_end();
        assert(r@ =~= old(r)@.skip(old(r)@.len() as int));
        Ok(LengthInferredVecU8(v))
    }
}

/// A trailing byte array is read back as written when nothing follows it.
pub proof fn lemma_length_inferred_round_trip(v: Seq<u8>)
    ensures
        LengthInferredVecU8::parse(LengthInferredVecU8::encoding(v)) == Some((v, v.len())),
{
}

/// A sequence that declares more elements than the cap is refused, whatever
/// bytes follow the length.
pub proof fn lemma_sequence_cap<T: Decoder>(n: i32, rest: Seq<u8>)
    requires
        n > MAX_LENGTH,
    ensures
        LengthPrefixedVec::<VarInt, T>::parse(var_int_bytes(n) + rest) is None,
{
    crate::laws::lemma_var_int_round_trip(n, rest);
}

} // verus!
