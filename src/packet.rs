//! The outer frame: length prefix, optional zlib compression, packet id.
use crate::error::{Error, FormatError};
use crate::raw::{append_bytes, lemma_var_end_bound, read_var_int, write_var_int, MAX_PREFIXED_LENGTH};
use crate::reader::Reader;
use crate::types::{Decoder, Encoder, VarInt};
use crate::wire::{parse_var_int, var_int_bytes};
use vstd::prelude::*;

verus! {

/// Largest data length that a compressed frame may declare.
pub const MAX_DATA_LENGTH: i32 = 2097152;

/// The bytes that zlib deflate at the default level makes of `b`.
pub uninterp spec fn zlib_deflated(b: Seq<u8>) -> Seq<u8>;

/// What zlib inflate makes of `b`: `None` where `b` is not a zlib stream.
pub uninterp spec fn zlib_inflated(b: Seq<u8>) -> Option<Seq<u8>>;

/// Relies on flate2's `bufread::ZlibEncoder` at `Compression::default()`:
/// the stream it produces depends on the input bytes alone, and reading it
/// from a slice into a `Vec` does not fail (the compressor fails only on a
/// bad parameter or a failed write to its output).
#[verifier::external_body]
fn zlib_deflate(b: &[u8]) -> (r: Option<Vec<u8>>)
    ensures
        r is Some,
        r matches Some(z) ==> z@ == zlib_deflated(b@),
{
    let mut encoder = flate2::bufread::ZlibEncoder::new(b, flate2::Compression::default());
    let mut out = Vec::new();
    match std::io::Read::read_to_end(&mut encoder, &mut out) {
        Ok(_) => Some(out),
        Err(_) => None,
    }
}

/// Relies on flate2's `bufread::ZlibDecoder`: whether `b` inflates, and to
/// what, depends on the input bytes alone.
#[verifier::external_body]
fn zlib_inflate(b: &[u8]) -> (r: Option<Vec<u8>>)
    ensures
        r is Some <==> zlib_inflated(b@) is Some,
        r matches Some(v) ==> zlib_inflated(b@) == Some(v@),
{
    let mut decoder = flate2::bufread::ZlibDecoder::new(b);
    let mut out = Vec::new();
    match std::io::Read::read_to_end(&mut decoder, &mut out) {
        Ok(_) => Some(out),
        Err(_) => None,
    }
}

/// A length-prefixed frame around `inner`.
pub open spec fn frame(inner: Seq<u8>) -> Seq<u8> {
    var_int_bytes(inner.len() as i32) + inner
}

/// The packet id followed by the payload.
pub open spec fn packet_body(id: i32, data: Seq<u8>) -> Seq<u8> {
    var_int_bytes(id) + data
}

/// Whether a frame with this body under this threshold is deflated.
pub open spec fn is_deflated(body: Seq<u8>, threshold: i32) -> bool {
    threshold >= 0 && body.len() >= threshold
}

/// What the frame's length prefix covers.
pub open spec fn pack_inner(id: i32, data: Seq<u8>, threshold: i32) -> Seq<u8> {
    let body = packet_body(id, data);
    if threshold < 0 {
        body
    } else if body.len() < threshold {
        var_int_bytes(0) + body
    } else {
        var_int_bytes(body.len() as i32) + zlib_deflated(body)
    }
}

/// The packet id and payload of a frame body.
pub open spec fn parse_body(b: Seq<u8>) -> Result<(i32, Seq<u8>), Error> {
    match parse_var_int(b) {
        Ok((id, k)) => Ok((id, b.skip(k as int))),
        Err(e) => Err(e),
    }
}

/// The packet id and payload of what a frame's length prefix covers.
pub open spec fn parse_inner(inner: Seq<u8>, threshold: i32) -> Result<(i32, Seq<u8>), Error> {
    if threshold < 0 {
        parse_body(inner)
    } else {
        match parse_var_int(inner) {
            Err(e) => Err(e),
            Ok((dl, k)) => {
                let rest = inner.skip(k as int);
                if dl == 0 {
                    parse_body(rest)
                } else if dl < threshold {
                    Err(Error::Format(FormatError::DataLengthBelowThreshold { data_length: dl, threshold }))
                } else if dl > MAX_DATA_LENGTH {
                    Err(Error::Format(FormatError::DataLengthAboveMaximum(dl)))
                } else {
                    match zlib_inflated(rest) {
                        None => Err(Error::Compression),
                        Some(body) => if body.len() != dl {
                            Err(Error::Format(FormatError::DataLengthMismatch { declared: dl, actual: body.len() as usize }))
                        } else {
                            parse_body(body)
                        },
                    }
                }
            },
        }
    }
}

/// The bytes that a frame's length prefix covers, and the bytes the frame takes.
pub open spec fn parse_frame(b: Seq<u8>) -> Result<(Seq<u8>, nat), Error> {
    match parse_var_int(b) {
        Err(e) => Err(e),
        Ok((len, k)) => if len < 0 {
            Err(Error::Format(FormatError::NegativeLength(len as i64)))
        } else if b.len() < k + len {
            Err(Error::UnexpectedEof)
        } else {
            Ok((b.subrange(k as int, k + len), k + len as nat))
        },
    }
}

/// Decoding a whole frame: packet id, payload, and the bytes the frame takes.
pub open spec fn parse_packet(b: Seq<u8>, threshold: i32) -> Result<(i32, Seq<u8>, nat), Error> {
    match parse_frame(b) {
        Err(e) => Err(e),
        Ok((inner, n)) => match parse_inner(inner, threshold) {
            Err(e) => Err(e),
            Ok((id, data)) => Ok((id, data, n)),
        },
    }
}

/// A message type: a record with a fixed packet id.
pub trait Packet: Encoder + Decoder {
    /// The packet id.
    spec fn packet_id() -> i32;

    fn id() -> (r: VarInt)
        ensures
            r.0 == Self::packet_id(),
    ;

    /// The packet's id and its fields' bytes.
    fn encode(&self) -> (r: Result<RawPacket, Error>)
        ensures
            r is Ok <==> Self::encodable(self.deep_view()),
            r matches Ok(p) ==> p.id.0 == Self::packet_id() && p.data@ == Self::encoding(self.deep_view()),
    {
        let mut buf: Vec<u8> = Vec::new();
        self.write_to(&mut buf)?;
        Ok(RawPacket { id: Self::id(), data: buf })
    }

    /// Reads the packet's fields from a raw packet's payload.
    fn decode(raw: RawPacket) -> (r: Result<Self, Error>)
        ensures
            match Self::parse(raw.data@) {
                Some((v, _)) => r matches Ok(x) && x.deep_view() == v,
                None => r is Err,
            },
    {
        let mut rd = Reader::new(raw.data.as_slice());
        Self::read_from(&mut rd)
    }
}

/// A packet id and its encoded fields: what a frame carries once the framing
/// is removed.
#[derive(Debug)]
pub struct RawPacket {
    pub id: VarInt,
    pub data: Vec<u8>,
}

/// Writes `inner` with its length prefix.
fn write_frame(w: &mut Vec<u8>, inner: &[u8]) -> (r: Result<(), Error>)
    ensures
        inner@.len() <= MAX_PREFIXED_LENGTH ==> r is Ok && final(w)@ == old(w)@ + frame(inner@),
        inner@.len() > MAX_PREFIXED_LENGTH ==> r == Err::<(), Error>(
            Error::Format(FormatError::LengthOutOfRange(inner@.len() as usize)),
        ) && final(w)@ == old(w)@,
{
    let len = inner.len();
    if len > MAX_PREFIXED_LENGTH {
        return Err(Error::Format(FormatError::LengthOutOfRange(len)));
    }
    write_var_int(w, len as i32)?;
    append_bytes(w, inner);
    assert(final(w)@ =~= old(w)@ + frame(inner@));
    Ok(())
}

impl RawPacket {
    /// The packet id followed by the payload.
    fn body(&self) -> (b: Vec<u8>)
        ensures
            b@ == packet_body(self.id.0, self.data@),
    {
        let mut b: Vec<u8> = Vec::new();
        write_var_int(&mut b, self.id.0);
        append_bytes(&mut b, self.data.as_slice());
        assert(b@ =~= packet_body(self.id.0, self.data@));
        b
    }

    /// Reads the packet id and payload from a frame body.
    pub fn from_body(body: &[u8]) -> (r: Result<RawPacket, Error>)
        ensures
            match parse_body(body@) {
                Ok((id, data)) => r matches Ok(p) && p.id.0 == id && p.data@ == data,
                Err(e) => r == Err::<RawPacket, Error>(e),
            },
    {
        let mut rd = Reader::new(body);
        let id = read_var_int(&mut rd)?;
        let data = rd.read_to_end();
        Ok(RawPacket { id: VarInt(id), data })
    }

    /// Writes a frame whose body was deflated: the body's length, then the
    /// deflated bytes, all behind the frame's length prefix.
    pub fn write_deflated_frame(w: &mut Vec<u8>, body_len: usize, deflated: &[u8]) -> (r: Result<(), Error>)
        ensures
            body_len <= MAX_PREFIXED_LENGTH && var_int_bytes(body_len as i32).len() + deflated@.len()
                <= MAX_PREFIXED_LENGTH ==> r is Ok && final(w)@ == old(w)@ + frame(
                var_int_bytes(body_len as i32) + deflated@,
            ),
            body_len > MAX_PREFIXED_LENGTH ==> r == Err::<(), Error>(
                Error::Format(FormatError::LengthOutOfRange(body_len)),
            ) && final(w)@ == old(w)@,
            r is Ok <==> body_len <= MAX_PREFIXED_LENGTH && var_int_bytes(body_len as i32).len()
                + deflated@.len() <= MAX_PREFIXED_LENGTH,
            r is Ok ==> body_len <= MAX_PREFIXED_LENGTH && final(w)@ == old(w)@ + frame(
                var_int_bytes(body_len as i32) + deflated@,
            ),
            r is Err ==> final(w)@ == old(w)@,
            r is Err ==> r matches Err(Error::Format(FormatError::LengthOutOfRange(_))),
    {
        if body_len > MAX_PREFIXED_LENGTH {
            return Err(Error::Format(FormatError::LengthOutOfRange(body_len)));
        }
        let mut inner: Vec<u8> = Vec::new();
        write_var_int(&mut inner, body_len as i32);
        append_bytes(&mut inner, deflated);
        assert(inner@ =~= var_int_bytes(body_len as i32) + deflated@);
        write_frame(w, inner.as_slice())
    }

    /// Writes the frame with no compression: the length, then the body.
    pub fn pack_without_compression(&self, w: &mut Vec<u8>) -> (r: Result<(), Error>)
        ensures
            packet_body(self.id.0, self.data@).len() <= MAX_PREFIXED_LENGTH ==> r is Ok && final(w)@
                == old(w)@ + frame(packet_body(self.id.0, self.data@)),
            packet_body(self.id.0, self.data@).len() > MAX_PREFIXED_LENGTH ==> r == Err::<(), Error>(
                Error::Format(FormatError::LengthOutOfRange(packet_body(self.id.0, self.data@).len() as usize)),
            ) && final(w)@ == old(w)@,
    {
        let body = self.body();
        write_frame(w, body.as_slice())
    }

    /// Writes the frame with compression enabled at `threshold`: a body
    /// shorter than the threshold is stored behind a zero data length, a
    /// longer one is deflated behind its length.
    pub fn pack_with_compression(&self, w: &mut Vec<u8>, threshold: i32) -> (r: Result<(), Error>)
        requires
            threshold >= 0,
        ensures
            ({
                let body = packet_body(self.id.0, self.data@);
                let inner = pack_inner(self.id.0, self.data@, threshold);
                &&& r is Ok <==> body.len() <= MAX_PREFIXED_LENGTH && inner.len() <= MAX_PREFIXED_LENGTH
                &&& r is Ok ==> final(w)@ == old(w)@ + frame(inner)
                &&& r is Err ==> final(w)@ == old(w)@
                &&& r is Err ==> r matches Err(Error::Format(FormatError::LengthOutOfRange(_)))
            }),
    {
        let body = self.body();
        let data_len = body.len();
        if data_len < threshold as usize {
            let mut inner: Vec<u8> = Vec::new();
            write_var_int(&mut inner, 0);
            append_bytes(&mut inner, body.as_slice());
            assert(inner@ =~= pack_inner(self.id.0, self.data@, threshold));
            write_frame(w, inner.as_slice())
        } else {
            let deflated = match zlib_deflate(body.as_slice()) {
                Some(z) => z,
                None => return Err(Error::Compression),
            };
            let r = RawPacket::write_deflated_frame(w, data_len, deflated.as_slice());
            proof {
                if data_len <= MAX_PREFIXED_LENGTH {
                    assert(var_int_bytes(data_len as i32) + deflated@ =~= pack_inner(self.id.0, self.data@, threshold));
                }
            }
            r
        }
    }

    /// Writes the frame: compressed framing when `threshold` is at least 0,
    /// plain framing when it is negative.
    pub fn pack(&self, w: &mut Vec<u8>, threshold: i32) -> (r: Result<(), Error>)
        ensures
            ({
                let body = packet_body(self.id.0, self.data@);
                let inner = pack_inner(self.id.0, self.data@, threshold);
                &&& r is Ok <==> body.len() <= MAX_PREFIXED_LENGTH && inner.len() <= MAX_PREFIXED_LENGTH
                &&& r is Ok ==> final(w)@ == old(w)@ + frame(inner)
                &&& r is Err ==> final(w)@ == old(w)@
                &&& r is Err ==> r matches Err(Error::Format(FormatError::LengthOutOfRange(_)))
            }),
    {
        if threshold >= 0 {
            self.pack_with_compression(w, threshold)
        } else {
            self.pack_without_compression(w)
        }
    }

    /// Reads one frame: its length, then exactly that many bytes.
    fn unpack_helper(r: &mut Reader) -> (res: Result<Vec<u8>, Error>)
        ensures
            match parse_frame(old(r)@) {
                Ok((inner, n)) => res matches Ok(v) && v@ == inner && final(r)@ == old(r)@.skip(n as int),
                Err(e) => res == Err::<Vec<u8>, Error>(e),
            },
    {
        let ghost b = r@;
        let len = read_var_int(r)?;
        if len < 0 {
            return Err(Error::Format(FormatError::NegativeLength(len as i64)));
        }
        let ghost k: int = match parse_var_int(b) {
            Ok((_, k)) => k as int,
            Err(_) => 0,
        };
        proof {
            lemma_parse_var_int_len(b);
        }
        assert(r@ =~= b.skip(k));
        let v = r.read_exact(len as usize)?;
        assert(v@ =~= b.subrange(k, k + len));
        assert(r@ =~= b.skip(k + len));
        Ok(v)
    }

    /// Reads one frame with no compression.
    pub fn unpack_without_compression(r: &mut Reader) -> (res: Result<RawPacket, Error>)
        ensures
            match parse_packet(old(r)@, -1i32) {
                Ok((id, data, n)) => res matches Ok(p) && p.id.0 == id && p.data@ == data
                    && final(r)@ == old(r)@.skip(n as int),
                Err(e) => res == Err::<RawPacket, Error>(e),
            },
            parse_frame(old(r)@) matches Ok((_, n)) ==> final(r)@ == old(r)@.skip(n as int),
    {
        let inner = RawPacket::unpack_helper(r)?;
        RawPacket::from_body(inner.as_slice())
    }

    /// Reads one frame with compression enabled at `threshold`.
    pub fn unpack_with_compression(r: &mut Reader, threshold: i32) -> (res: Result<RawPacket, Error>)
        requires
            threshold >= 0,
        ensures
            match parse_packet(old(r)@, threshold) {
                Ok((id, data, n)) => res matches Ok(p) && p.id.0 == id && p.data@ == data
                    && final(r)@ == old(r)@.skip(n as int),
                Err(e) => res == Err::<RawPacket, Error>(e),
            },
            parse_frame(old(r)@) matches Ok((_, n)) ==> final(r)@ == old(r)@.skip(n as int),
    {
        let inner = RawPacket::unpack_helper(r)?;
        let mut rd = Reader::new(inner.as_slice());
        let data_len = read_var_int(&mut rd)?;
        let rest = rd.read_to_end();
        proof {
            lemma_parse_var_int_len(inner@);
            let k = match parse_var_int(inner@) {
                Ok((_, k)) => k as int,
                Err(_) => 0,
            };
            assert(rest@ =~= inner@.skip(k));
        }
        if data_len == 0 {
            return RawPacket::from_body(rest.as_slice());
        }
        if data_len < threshold {
            return Err(Error::Format(FormatError::DataLengthBelowThreshold { data_length: data_len, threshold }));
        }
        if data_len > MAX_DATA_LENGTH {
            return Err(Error::Format(FormatError::DataLengthAboveMaximum(data_len)));
        }
        let body = match zlib_inflate(rest.as_slice()) {
            Some(b) => b,
            None => return Err(Error::Compression),
        };
        if body.len() != data_len as usize {
            return Err(Error::Format(FormatError::DataLengthMismatch { declared: data_len, actual: body.len() }));
        }
        RawPacket::from_body(body.as_slice())
    }

    /// Reads one frame: compressed framing when `threshold` is at least 0,
    /// plain framing when it is negative.
    pub fn unpack(r: &mut Reader, threshold: i32) -> (res: Result<RawPacket, Error>)
        ensures
            match parse_packet(old(r)@, threshold) {
                Ok((id, data, n)) => res matches Ok(p) && p.id.0 == id && p.data@ == data
                    && final(r)@ == old(r)@.skip(n as int),
                Err(e) => res == Err::<RawPacket, Error>(e),
            },
            parse_frame(old(r)@) matches Ok((_, n)) ==> final(r)@ == old(r)@.skip(n as int),
    {
        if threshold >= 0 {
            RawPacket::unpack_with_compression(r, threshold)
        } else {
            RawPacket::unpack_without_compression(r)
        }
    }
}

/// Given the bytes of a stream read so far, whether they hold a whole frame
/// length: `Some(n)` once they do, `None` while more bytes are needed.
pub fn frame_length(prefix: &[u8]) -> (r: Result<Option<usize>, Error>)
    ensures
        match parse_var_int(prefix@) {
            Ok((len, _)) => if len < 0 {
                r == Err::<Option<usize>, Error>(Error::Format(FormatError::NegativeLength(len as i64)))
            } else {
                r == Ok::<Option<usize>, Error>(Some(len as usize))
            },
            Err(Error::UnexpectedEof) => r == Ok::<Option<usize>, Error>(None),
            Err(e) => r == Err::<Option<usize>, Error>(e),
        },
{
    let mut rd = Reader::new(prefix);
    match read_var_int(&mut rd) {
        Ok(len) => if len < 0 {
            Err(Error::Format(FormatError::NegativeLength(len as i64)))
        } else {
            Ok(Some(len as usize))
        },
        Err(Error::UnexpectedEof) => Ok(None),
        Err(e) => Err(e),
    }
}

proof fn lemma_parse_var_int_len(b: Seq<u8>)
    ensures
        parse_var_int(b) matches Ok((_, k)) ==> 0 < k <= b.len() && k <= 5,
{
    lemma_var_end_bound(b, 0, 5);
}

} // verus!
