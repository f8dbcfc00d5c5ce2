//! NBT blobs, carried through the codec opaque.
use crate::error::{Error, FormatError};
use crate::reader::Reader;
use vstd::prelude::*;

verus! {

#[verifier::external_type_specification]
#[verifier::external_body]
pub struct ExBlob(nbt::Blob);

/// Deepest nesting of lists and compounds accepted in a blob.
pub const NBT_MAX_DEPTH: usize = 512;

/// The big-endian 16-bit number at `b[i..i + 2]`.
pub open spec fn u16_at(b: Seq<u8>, i: int) -> nat {
    (b[i] as nat) * 0x100 + b[i + 1] as nat
}

/// The big-endian 32-bit number at `b[i..i + 4]`.
pub open spec fn u32_at(b: Seq<u8>, i: int) -> nat {
    (b[i] as nat) * 0x100_0000 + (b[i + 1] as nat) * 0x1_0000 + (b[i + 2] as nat) * 0x100 + b[i + 3] as nat
}

/// Where a value of `w` bytes that starts at `i` ends.
pub open spec fn nbt_fixed_end(b: Seq<u8>, i: nat, w: nat) -> Option<nat> {
    if i + w > b.len() {
        None
    } else {
        Some(i + w)
    }
}

/// Where a string that starts at `i` ends: a 16-bit byte count, then the bytes.
pub open spec fn nbt_string_end(b: Seq<u8>, i: nat) -> Option<nat> {
    if i + 2 > b.len() {
        None
    } else if i + 2 + u16_at(b, i as int) > b.len() {
        None
    } else {
        Some(i + 2 + u16_at(b, i as int))
    }
}

/// Where an array of elements of `w` bytes that starts at `i` ends: a
/// 32-bit count that must not be negative, then the elements.
pub open spec fn nbt_array_end(b: Seq<u8>, i: nat, w: nat) -> Option<nat> {
    if i + 4 > b.len() {
        None
    } else if u32_at(b, i as int) >= 0x8000_0000 {
        None
    } else if i + 4 + u32_at(b, i as int) * w > b.len() {
        None
    } else {
        Some(i + 4 + u32_at(b, i as int) * w)
    }
}

/// Where the payload of a tag of type `t` that starts at `i` ends, with
/// lists and compounds nested at most `d` deep; `None` where the bytes do
/// not hold one, or hold one with a negative count or deeper nesting.
pub open spec fn nbt_payload_end(b: Seq<u8>, i: nat, t: u8, d: nat) -> Option<nat>
    decreases d, b.len() - i, 0int,
{
    if i > b.len() {
        None
    } else if t == 1 {
        nbt_fixed_end(b, i, 1)
    } else if t == 2 {
        nbt_fixed_end(b, i, 2)
    } else if t == 3 || t == 5 {
        nbt_fixed_end(b, i, 4)
    } else if t == 4 || t == 6 {
        nbt_fixed_end(b, i, 8)
    } else if t == 7 {
        nbt_array_end(b, i, 1)
    } else if t == 11 {
        nbt_array_end(b, i, 4)
    } else if t == 12 {
        nbt_array_end(b, i, 8)
    } else if t == 8 {
        nbt_string_end(b, i)
    } else if t == 9 {
        if d == 0 || i + 5 > b.len() {
            None
        } else if u32_at(b, i + 1int) >= 0x8000_0000 || (b[i as int] == 0 && u32_at(b, i + 1int) > 0) {
            None
        } else {
            nbt_list_end(b, i + 5, b[i as int], u32_at(b, i + 1int), (d - 1) as nat)
        }
    } else if t == 10 {
        if d == 0 {
            None
        } else {
            nbt_compound_end(b, i, (d - 1) as nat)
        }
    } else {
        None
    }
}

/// Where `n` payloads of type `t` that start at `i` end.
pub open spec fn nbt_list_end(b: Seq<u8>, i: nat, t: u8, n: nat, d: nat) -> Option<nat>
    decreases d, b.len() - i, n,
{
    if i > b.len() {
        None
    } else if n == 0 {
        Some(i)
    } else {
        match nbt_payload_end(b, i, t, d) {
            None => None,
            Some(k) => if k < i || k > b.len() {
                None
            } else {
                nbt_list_end(b, k, t, (n - 1) as nat, d)
            },
        }
    }
}

/// Where the entries of a compound that start at `i` end: each a type,
/// a name and a payload, up to a type of 0.
pub open spec fn nbt_compound_end(b: Seq<u8>, i: nat, d: nat) -> Option<nat>
    decreases d, b.len() - i, 0int,
{
    if i >= b.len() {
        None
    } else if b[i as int] == 0 {
        Some(i + 1)
    } else {
        match nbt_string_end(b, i + 1) {
            None => None,
            Some(j) => match nbt_payload_end(b, j, b[i as int], d) {
                None => None,
                Some(k) => if k <= i || k > b.len() {
                    None
                } else {
                    nbt_compound_end(b, k, d)
                },
            },
        }
    }
}

/// Where a blob at the front of `b` ends: the compound type, a name, and a
/// compound payload.
pub open spec fn nbt_blob_end(b: Seq<u8>) -> Option<nat> {
    if b.len() == 0 || b[0] != 0x0a {
        None
    } else {
        match nbt_string_end(b, 1) {
            None => None,
            Some(j) => nbt_payload_end(b, j, 0x0a, NBT_MAX_DEPTH as nat),
        }
    }
}

fn u16_at_exec(b: &[u8], i: usize) -> (r: u64)
    requires
        i + 2 <= b@.len(),
    ensures
        r == u16_at(b@, i as int),
{
    b[i] as u64 * 0x100 + b[i + 1] as u64
}

fn u32_at_exec(b: &[u8], i: usize) -> (r: u64)
    requires
        i + 4 <= b@.len(),
    ensures
        r == u32_at(b@, i as int),
        r < 0x1_0000_0000,
{
    b[i] as u64 * 0x100_0000 + b[i + 1] as u64 * 0x1_0000 + b[i + 2] as u64 * 0x100 + b[i + 3] as u64
}

fn fixed_end(b: &[u8], i: usize, w: usize) -> (r: Option<usize>)
    requires
        w <= 8,
    ensures
        match nbt_fixed_end(b@, i as nat, w as nat) {
            Some(e) => r is Some && e <= b@.len(),
            None => r is None,
        },
        r matches Some(x) ==> nbt_fixed_end(b@, i as nat, w as nat) == Some(x as nat),
{
    if i > b.len() || b.len() - i < w {
        None
    } else {
        Some(i + w)
    }
}

fn string_end(b: &[u8], i: usize) -> (r: Option<usize>)
    ensures
        match nbt_string_end(b@, i as nat) {
            Some(e) => r is Some && e <= b@.len(),
            None => r is None,
        },
        r matches Some(x) ==> nbt_string_end(b@, i as nat) == Some(x as nat),
{
    if i > b.len() || b.len() - i < 2 {
        return None;
    }
    let n = u16_at_exec(b, i);
    if n > (b.len() - i - 2) as u64 {
        None
    } else {
        Some(i + 2 + n as usize)
    }
}

fn array_end(b: &[u8], i: usize, w: usize) -> (r: Option<usize>)
    requires
        w == 1 || w == 4 || w == 8,
    ensures
        match nbt_array_end(b@, i as nat, w as nat) {
            Some(e) => r is Some && e <= b@.len(),
            None => r is None,
        },
        r matches Some(x) ==> nbt_array_end(b@, i as nat, w as nat) == Some(x as nat),
{
    if i > b.len() || b.len() - i < 4 {
        return None;
    }
    let n = u32_at_exec(b, i);
    if n >= 0x8000_0000 {
        return None;
    }
    assert(n * w <= 0x4_0000_0000) by (nonlinear_arith)
        requires
            n < 0x8000_0000,
            w <= 8,
    ;
    let size: u64 = n * w as u64;
    if size > (b.len() - i - 4) as u64 {
        None
    } else {
        Some(i + 4 + size as usize)
    }
}

fn payload_end(b: &[u8], i: usize, t: u8, d: usize) -> (r: Option<usize>)
    ensures
        match nbt_payload_end(b@, i as nat, t, d as nat) {
            Some(e) => r is Some && e <= b@.len(),
            None => r is None,
        },
        r matches Some(x) ==> nbt_payload_end(b@, i as nat, t, d as nat) == Some(x as nat),
    decreases d, 0int,
{
    if i > b.len() {
        None
    } else if t == 1 {
        fixed_end(b, i, 1)
    } else if t == 2 {
        fixed_end(b, i, 2)
    } else if t == 3 || t == 5 {
        fixed_end(b, i, 4)
    } else if t == 4 || t == 6 {
        fixed_end(b, i, 8)
    } else if t == 7 {
        array_end(b, i, 1)
    } else if t == 11 {
        array_end(b, i, 4)
    } else if t == 12 {
        array_end(b, i, 8)
    } else if t == 8 {
        string_end(b, i)
    } else if t == 9 {
        if d == 0 || b.len() - i < 5 {
            return None;
        }
        let et = b[i];
        let n = u32_at_exec(b, i + 1);
        if n >= 0x8000_0000 || (et == 0 && n > 0) {
            return None;
        }
        list_end(b, i + 5, et, n, d - 1)
    } else if t == 10 {
        if d == 0 {
            None
        } else {
            compound_end(b, i, d - 1)
        }
    } else {
        None
    }
}

fn list_end(b: &[u8], i: usize, t: u8, n: u64, d: usize) -> (r: Option<usize>)
    requires
        i <= b@.len(),
    ensures
        match nbt_list_end(b@, i as nat, t, n as nat, d as nat) {
            Some(e) => r is Some && e <= b@.len(),
            None => r is None,
        },
        r matches Some(x) ==> nbt_list_end(b@, i as nat, t, n as nat, d as nat) == Some(x as nat),
    decreases d, 1int,
{
    let mut cur = i;
    let mut left = n;
    while left > 0
        invariant
            cur <= b@.len(),
            nbt_list_end(b@, i as nat, t, n as nat, d as nat) == nbt_list_end(
                b@,
                cur as nat,
                t,
                left as nat,
                d as nat,
            ),
        decreases left,
    {
        let ghost before = nbt_list_end(b@, cur as nat, t, left as nat, d as nat);
        assert(before == match nbt_payload_end(b@, cur as nat, t, d as nat) {
            None => None,
            Some(k) => if k < cur || k > b@.len() {
                None
            } else {
                nbt_list_end(b@, k, t, (left - 1) as nat, d as nat)
            },
        });
        match payload_end(b, cur, t, d) {
            None => return None,
            Some(k) => {
                if k < cur {
                    return None;
                }
                cur = k;
            },
        }
        left = left - 1;
    }
    Some(cur)
}

fn compound_end(b: &[u8], i: usize, d: usize) -> (r: Option<usize>)
    ensures
        match nbt_compound_end(b@, i as nat, d as nat) {
            Some(e) => r is Some && e <= b@.len(),
            None => r is None,
        },
        r matches Some(x) ==> nbt_compound_end(b@, i as nat, d as nat) == Some(x as nat),
    decreases d, 1int,
{
    let mut cur = i;
    loop
        invariant
            nbt_compound_end(b@, i as nat, d as nat) == nbt_compound_end(b@, cur as nat, d as nat),
        decreases b@.len() - cur,
    {
        if cur >= b.len() {
            return None;
        }
        let t = b[cur];
        assert(nbt_compound_end(b@, cur as nat, d as nat) == if t == 0 {
            Some((cur + 1) as nat)
        } else {
            match nbt_string_end(b@, (cur + 1) as nat) {
                None => None,
                Some(j) => match nbt_payload_end(b@, j, t, d as nat) {
                    None => None,
                    Some(k) => if k <= cur || k > b@.len() {
                        None
                    } else {
                        nbt_compound_end(b@, k, d as nat)
                    },
                },
            }
        });
        if t == 0 {
            return Some(cur + 1);
        }
        let j = match string_end(b, cur + 1) {
            None => return None,
            Some(j) => j,
        };
        match payload_end(b, j, t, d) {
            None => return None,
            Some(k) => {
                if k <= cur {
                    return None;
                }
                cur = k;
            },
        }
    }
}

/// Where the NBT blob at the front of `b` ends, where `b` starts with one
/// whose counts are not negative and whose nesting is within the limit.
pub fn blob_end(b: &[u8]) -> (r: Option<usize>)
    ensures
        match nbt_blob_end(b@) {
            Some(e) => r is Some && e <= b@.len(),
            None => r is None,
        },
        r matches Some(x) ==> nbt_blob_end(b@) == Some(x as nat),
{
    if b.len() == 0 || b[0] != 0x0a {
        return None;
    }
    match string_end(b, 1) {
        None => None,
        Some(j) => payload_end(b, j, 0x0a, NBT_MAX_DEPTH),
    }
}

/// The number of bytes left unread after one NBT blob at the front of `b`,
/// or `None` where `b` does not start with one.
pub uninterp spec fn nbt_unread(b: Seq<u8>) -> Option<nat>;

/// Relies on hematite-nbt's `Blob::from_reader` over a byte slice: it reads
/// one blob from the front, advancing the slice past it; how far depends on
/// the bytes alone. It sizes arrays and lists by their counts before reading
/// them and recurses once per level of nesting, so it is only handed blobs
/// whose counts are not negative, whose elements are all there, and whose
/// nesting is bounded.
#[verifier::external_body]
fn blob_from_bytes(b: &[u8]) -> (r: Option<(nbt::Blob, usize)>)
    requires
        nbt_blob_end(b@) is Some,
    ensures
        r is None <==> nbt_unread(b@) is None,
        r matches Some((_, rest)) ==> rest <= b@.len() && nbt_unread(b@) == Some(rest as nat),
{
    let mut s = b;
    match nbt::Blob::from_reader(&mut s) {
        Ok(blob) => Some((blob, s.len())),
        Err(_) => None,
    }
}

/// Relies on hematite-nbt's `Blob::to_writer` into a `Vec`, which only
/// appends to it.
#[verifier::external_body]
fn blob_to_bytes(blob: &nbt::Blob, w: &mut Vec<u8>) -> (r: bool)
    ensures
        old(w)@.is_prefix_of(final(w)@),
{
    blob.to_writer(w).is_ok()
}

/// The bytes that one NBT blob at the front of `b` takes, where its layout
/// is sound and the blob reads.
pub open spec fn nbt_len(b: Seq<u8>) -> Option<nat> {
    if nbt_blob_end(b) is None {
        None
    } else {
        match nbt_unread(b) {
        Some(rest) => if rest <= b.len() {
            Some((b.len() - rest) as nat)
        } else {
            None
        },
        None => None,
        }
    }
}

/// Reads one NBT blob; bytes that do not form one are a format error.
pub fn read_nbt(t: &mut Reader) -> (r: Result<nbt::Blob, Error>)
    ensures
        match nbt_len(old(t)@) {
            Some(n) => r is Ok && final(t)@ == old(t)@.skip(n as int),
            None => r == Err::<nbt::Blob, Error>(Error::Format(FormatError::InvalidNbt)),
        },
{
    let ghost b = t@;
    let rest = t.peek_rest();
    if blob_end(rest.as_slice()).is_none() {
        return Err(Error::Format(FormatError::InvalidNbt));
    }
    match blob_from_bytes(rest.as_slice()) {
        Some((blob, unread)) => {
            let n = rest.len() - unread;
            let _ = t.read_exact(n);
            assert(t@ =~= b.skip(n as int));
            Ok(blob)
        },
        None => Err(Error::Format(FormatError::InvalidNbt)),
    }
}

/// Skips one NBT blob.
pub fn skip_nbt(t: &mut Reader) -> (r: Result<(), Error>)
    ensures
        match nbt_len(old(t)@) {
            Some(n) => r is Ok && final(t)@ == old(t)@.skip(n as int),
            None => r == Err::<(), Error>(Error::Format(FormatError::InvalidNbt)),
        },
{
    read_nbt(t)?;
    Ok(())
}

/// Writes one NBT blob; a failure leaves what was there in front.
pub fn write_nbt(t: &mut Vec<u8>, v: &nbt::Blob) -> (r: Result<(), Error>)
    ensures
        old(t)@.is_prefix_of(final(t)@),
{
    if blob_to_bytes(v, t) {
        Ok(())
    } else {
        Err(Error::Format(FormatError::InvalidNbt))
    }
}

} // verus!
