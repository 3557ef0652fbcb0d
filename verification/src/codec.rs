//! Primitives of the wire format: base-128 varints, length-delimited
//! payloads, UTF-8 strings, little-endian 64-bit values and signed 32-bit
//! values carried in varints.
//!
//! Every primitive comes in three parts: a spec function giving the bytes a
//! value encodes to, a spec function parsing a value out of a byte sequence
//! at a position, and a lemma that parsing an encoding finds the original
//! value again.  Executable encoders and decoders are proved against those
//! spec functions.

use vstd::prelude::*;

verus! {

use vstd::arithmetic::div_mod::lemma_fundamental_div_mod;
use vstd::bytes::{spec_u64_from_le_bytes, spec_u64_to_le_bytes, lemma_auto_spec_u64_to_from_le_bytes, u64_from_le_bytes, u64_to_le_bytes};
use vstd::slice::{slice_index_get, slice_subrange, slice_to_vec};
use vstd::utf8::{decode_utf8, encode_utf8, valid_utf8};

/// Wire type of a value carried as a varint.
pub const WIRE_VARINT: u64 = 0;

/// Wire type of a little-endian 64-bit value.
pub const WIRE_FIXED64: u64 = 1;

/// Wire type of a length-delimited payload.
pub const WIRE_LEN: u64 = 2;

// ---------------------------------------------------------------------------
// varints
// ---------------------------------------------------------------------------

/// The base-128 little-endian encoding of `n`: seven value bits per byte,
/// the high bit set on every byte but the last.
pub open spec fn varint_bytes(n: u64) -> Seq<u8>
    decreases n,
{
    if n < 128 {
        seq![n as u8]
    } else {
        seq![((n % 128) + 128) as u8] + varint_bytes(n / 128)
    }
}

/// Parses a varint from `b` at `pos`.  Yields the value and the position
/// just past it, or `None` when the bytes run out or the value would not
/// fit in a `u64`.
pub open spec fn parse_varint(b: Seq<u8>, pos: int) -> Option<(u64, int)>
    decreases b.len() - pos,
{
    if pos < 0 || pos >= b.len() {
        None
    } else if b[pos] < 128 {
        Some((b[pos] as u64, pos + 1))
    } else {
        match parse_varint(b, pos + 1) {
            None => None,
            Some((hi, end)) => {
                let v = (b[pos] - 128) + 128 * (hi as int);
                if v > u64::MAX {
                    None
                } else {
                    Some((v as u64, end))
                }
            },
        }
    }
}

/// Parsing at a position where the bytes of `varint_bytes(n)` lie finds
/// `n` and stops just past them.
pub proof fn lemma_parse_varint_encoded(b: Seq<u8>, pos: int, n: u64)
    requires
        0 <= pos,
        pos + varint_bytes(n).len() <= b.len(),
        b.subrange(pos, pos + varint_bytes(n).len() as int) == varint_bytes(n),
    ensures
        parse_varint(b, pos) == Some((n, pos + varint_bytes(n).len() as int)),
    decreases n,
{
    let vb = varint_bytes(n);
    assert(b[pos] == vb[0]);
    if n < 128 {
        assert(vb == seq![n as u8]);
    } else {
        let tail = varint_bytes(n / 128);
        assert(vb == seq![((n % 128) + 128) as u8] + tail);
        assert(b[pos] == ((n % 128) + 128) as u8);
        assert(b[pos] >= 128);
        assert(b.subrange(pos + 1, pos + 1 + tail.len() as int) =~= tail) by {
            assert forall|i: int| 0 <= i < tail.len() implies b[pos + 1 + i] == tail[i] by {
                assert(b.subrange(pos, pos + vb.len() as int)[i + 1] == vb[i + 1]);
            }
        }
        lemma_parse_varint_encoded(b, pos + 1, n / 128);
        lemma_fundamental_div_mod(n as int, 128);
    }
}

/// Appends `varint_bytes(n)` to `buf`.
pub fn encode_varint(buf: &mut Vec<u8>, n: u64)
    ensures
        final(buf)@ == old(buf)@ + varint_bytes(n),
    decreases n,
{
    if n < 128 {
        buf.push(n as u8);
        assert(final(buf)@ =~= old(buf)@ + varint_bytes(n));
    } else {
        buf.push(((n % 128) + 128) as u8);
        encode_varint(buf, n / 128);
        assert(final(buf)@ =~= old(buf)@ + varint_bytes(n));
    }
}

/// Reads a varint from `b` at `pos`, as `parse_varint` describes.
pub fn decode_varint(b: &[u8], pos: usize) -> (r: Option<(u64, usize)>)
    ensures
        match r {
            Some((n, end)) => parse_varint(b@, pos as int) == Some((n, end as int))
                && pos < end <= b@.len(),
            None => parse_varint(b@, pos as int) is None,
        },
    decreases b@.len() - pos,
{
    if pos >= b.len() {
        return None;
    }
    let byte = *slice_index_get(b, pos);
    if byte < 128 {
        Some((byte as u64, pos + 1))
    } else {
        match decode_varint(b, pos + 1) {
            None => None,
            Some((hi, end)) => {
                let low = (byte - 128) as u64;
                match hi.checked_mul(128) {
                    None => {
                        proof {
                            assert((b@[pos as int] - 128) + 128 * (hi as int) > u64::MAX);
                        }
                        None
                    },
                    Some(shifted) => match shifted.checked_add(low) {
                        None => None,
                        Some(v) => Some((v, end)),
                    },
                }
            },
        }
    }
}

// ---------------------------------------------------------------------------
// raw bytes
// ---------------------------------------------------------------------------

/// Appends all of `b` to `buf`.
pub fn append_bytes(buf: &mut Vec<u8>, b: &[u8])
    ensures
        final(buf)@ == old(buf)@ + b@,
{
    let mut i: usize = 0;
    while i < b.len()
        invariant
            i <= b@.len(),
            buf@ == old(buf)@ + b@.subrange(0, i as int),
        decreases b@.len() - i,
    {
        buf.push(*slice_index_get(b, i));
        assert(buf@ =~= old(buf)@ + b@.subrange(0, i + 1));
        i = i + 1;
    }
    assert(buf@ =~= old(buf)@ + b@);
}

/// Within a region of `b` known to hold `chunk`, any subrange of the
/// region equals the same subrange of `chunk`.
pub proof fn lemma_chunk_at(b: Seq<u8>, pos: int, chunk: Seq<u8>, i: int, j: int)
    requires
        0 <= pos,
        pos + chunk.len() <= b.len(),
        b.subrange(pos, pos + chunk.len() as int) == chunk,
        0 <= i <= j <= chunk.len(),
    ensures
        b.subrange(pos + i, pos + j) == chunk.subrange(i, j),
{
    assert forall|k: int| 0 <= k < j - i implies #[trigger] chunk.subrange(i, j)[k]
        == b.subrange(pos + i, pos + j)[k] by {
        assert(b.subrange(pos, pos + chunk.len() as int)[i + k] == chunk[i + k]);
    }
    assert(b.subrange(pos + i, pos + j) =~= chunk.subrange(i, j));
}

// ---------------------------------------------------------------------------
// single-byte field tags
// ---------------------------------------------------------------------------

/// The tag byte announcing field number `field` with wire type `wire`.
/// All messages of this crate keep their field numbers below 16, so a tag
/// is always a single byte with its high bit clear.
pub open spec fn tag_byte(field: u64, wire: u64) -> u8
    recommends
        1 <= field <= 15,
        wire <= 2,
{
    (field * 8 + wire) as u8
}

/// Appends the tag byte for (`field`, `wire`) to `buf`.
pub fn encode_tag(buf: &mut Vec<u8>, field: u64, wire: u64)
    requires
        1 <= field <= 15,
        wire <= 2,
    ensures
        final(buf)@ == old(buf)@ + seq![tag_byte(field, wire)],
{
    buf.push((field * 8 + wire) as u8);
    assert(final(buf)@ =~= old(buf)@ + seq![tag_byte(field, wire)]);
}

// ---------------------------------------------------------------------------
// length-delimited payloads
// ---------------------------------------------------------------------------

/// A payload preceded by its byte length as a varint.
pub open spec fn len_delim_bytes(payload: Seq<u8>) -> Seq<u8>
    recommends
        payload.len() <= u64::MAX,
{
    varint_bytes(payload.len() as u64) + payload
}

/// Parses a length-delimited payload from `b` at `pos`: the byte length as
/// a varint, then that many bytes.
pub open spec fn parse_len_delim(b: Seq<u8>, pos: int) -> Option<(Seq<u8>, int)> {
    match parse_varint(b, pos) {
        None => None,
        Some((len, p)) => if p + len <= b.len() {
            Some((b.subrange(p, p + len), p + len))
        } else {
            None
        },
    }
}

/// Parsing at a position where `len_delim_bytes(payload)` lies finds
/// `payload` and stops just past it.
pub proof fn lemma_parse_len_delim_encoded(b: Seq<u8>, pos: int, payload: Seq<u8>)
    requires
        0 <= pos,
        payload.len() <= u64::MAX,
        pos + len_delim_bytes(payload).len() <= b.len(),
        b.subrange(pos, pos + len_delim_bytes(payload).len() as int) == len_delim_bytes(payload),
    ensures
        parse_len_delim(b, pos) == Some((payload, pos + len_delim_bytes(payload).len() as int)),
{
    let lv = varint_bytes(payload.len() as u64);
    let whole = len_delim_bytes(payload);
    assert(b.subrange(pos, pos + lv.len() as int) =~= lv) by {
        assert forall|i: int| 0 <= i < lv.len() implies b[pos + i] == lv[i] by {
            assert(b.subrange(pos, pos + whole.len() as int)[i] == whole[i]);
        }
    }
    lemma_parse_varint_encoded(b, pos, payload.len() as u64);
    let p = pos + lv.len() as int;
    assert(b.subrange(p, p + payload.len() as int) =~= payload) by {
        assert forall|i: int| 0 <= i < payload.len() implies b[p + i] == payload[i] by {
            assert(b.subrange(pos, pos + whole.len() as int)[lv.len() + i] == whole[lv.len() + i]);
        }
    }
}

/// Reads a length-delimited payload from `b` at `pos` and returns its
/// bounds `(start, end)` within `b`, as `parse_len_delim` describes.
pub fn decode_len_delim(b: &[u8], pos: usize) -> (r: Option<(usize, usize)>)
    ensures
        match r {
            Some((start, end)) => {
                &&& parse_len_delim(b@, pos as int) == Some((
                    b@.subrange(start as int, end as int),
                    end as int,
                ))
                &&& pos < end <= b@.len()
                &&& start <= end
            },
            None => parse_len_delim(b@, pos as int) is None,
        },
{
    match decode_varint(b, pos) {
        None => None,
        Some((len, p)) => {
            if len > (b.len() - p) as u64 {
                None
            } else {
                let start = p;
                let end = p + (len as usize);
                Some((start, end))
            }
        },
    }
}

// ---------------------------------------------------------------------------
// strings
// ---------------------------------------------------------------------------

/// A character sequence whose UTF-8 encoding has a length a varint can
/// carry.  Every string held in memory satisfies this; the bound only
/// matters for the unbounded values of pure specifications.
pub open spec fn str_wf(s: Seq<char>) -> bool {
    encode_utf8(s).len() <= u64::MAX
}

/// A string on the wire: its UTF-8 bytes, length-delimited.
pub open spec fn string_bytes(s: Seq<char>) -> Seq<u8>
    recommends
        str_wf(s),
{
    len_delim_bytes(encode_utf8(s))
}

/// Parses a length-delimited string from `b` at `pos`; the payload must be
/// valid UTF-8.
pub open spec fn parse_string(b: Seq<u8>, pos: int) -> Option<(Seq<char>, int)> {
    match parse_len_delim(b, pos) {
        None => None,
        Some((payload, p)) => if valid_utf8(payload) {
            Some((decode_utf8(payload), p))
        } else {
            None
        },
    }
}

/// Parsing at a position where `string_bytes(s)` lies finds `s` back.
pub proof fn lemma_parse_string_encoded(b: Seq<u8>, pos: int, s: Seq<char>)
    requires
        0 <= pos,
        str_wf(s),
        pos + string_bytes(s).len() <= b.len(),
        b.subrange(pos, pos + string_bytes(s).len() as int) == string_bytes(s),
    ensures
        parse_string(b, pos) == Some((s, pos + string_bytes(s).len() as int)),
{
    lemma_parse_len_delim_encoded(b, pos, encode_utf8(s));
    vstd::utf8::encode_utf8_valid_utf8(s);
    vstd::utf8::encode_utf8_decode_utf8(s);
}

/// Relies on `String::from_utf8`: it returns `Ok` exactly on valid UTF-8
/// input, and the returned string's bytes are the input bytes.
#[verifier::external_body]
fn string_from_utf8(v: Vec<u8>) -> (r: Option<String>)
    ensures
        r is Some <==> valid_utf8(v@),
        r matches Some(s) ==> s@ == decode_utf8(v@),
{
    String::from_utf8(v).ok()
}

/// Appends `string_bytes(s@)` to `buf`.
pub fn encode_string(buf: &mut Vec<u8>, s: &str)
    ensures
        final(buf)@ == old(buf)@ + string_bytes(s@),
{
    let bytes: &[u8] = s.as_bytes();
    encode_varint(buf, bytes.len() as u64);
    append_bytes(buf, bytes);
    assert(final(buf)@ =~= old(buf)@ + string_bytes(s@));
}

/// Reads a length-delimited string from `b` at `pos`, as `parse_string`
/// describes.
pub fn decode_string(b: &[u8], pos: usize) -> (r: Option<(String, usize)>)
    ensures
        match r {
            Some((s, end)) => parse_string(b@, pos as int) matches Some((sv, e))
                && sv == s@ && e == end as int && pos < end <= b@.len(),
            None => parse_string(b@, pos as int) is None,
        },
{
    match decode_len_delim(b, pos) {
        None => None,
        Some((start, end)) => {
            let payload = slice_subrange(b, start, end);
            let owned = slice_to_vec(payload);
            match string_from_utf8(owned) {
                None => None,
                Some(s) => Some((s, end)),
            }
        },
    }
}

// ---------------------------------------------------------------------------
// 64-bit little-endian values
// ---------------------------------------------------------------------------

/// Parses eight little-endian bytes from `b` at `pos` as a `u64`.
pub open spec fn parse_fixed64(b: Seq<u8>, pos: int) -> Option<(u64, int)> {
    if 0 <= pos && pos + 8 <= b.len() {
        Some((spec_u64_from_le_bytes(b.subrange(pos, pos + 8)), pos + 8))
    } else {
        None
    }
}

/// Parsing at a position where `spec_u64_to_le_bytes(n)` lies finds `n`.
pub proof fn lemma_parse_fixed64_encoded(b: Seq<u8>, pos: int, n: u64)
    requires
        0 <= pos,
        pos + spec_u64_to_le_bytes(n).len() <= b.len(),
        b.subrange(pos, pos + spec_u64_to_le_bytes(n).len() as int) == spec_u64_to_le_bytes(n),
    ensures
        spec_u64_to_le_bytes(n).len() == 8,
        parse_fixed64(b, pos) == Some((n, pos + 8)),
{
    lemma_auto_spec_u64_to_from_le_bytes();
}

/// Appends the eight little-endian bytes of `n` to `buf`.
pub fn encode_fixed64(buf: &mut Vec<u8>, n: u64)
    ensures
        final(buf)@ == old(buf)@ + spec_u64_to_le_bytes(n),
{
    let bytes = u64_to_le_bytes(n);
    append_bytes(buf, bytes.as_slice());
}

/// Reads eight little-endian bytes from `b` at `pos`, as `parse_fixed64`
/// describes.
pub fn decode_fixed64(b: &[u8], pos: usize) -> (r: Option<(u64, usize)>)
    ensures
        match r {
            Some((n, end)) => parse_fixed64(b@, pos as int) == Some((n, end as int))
                && pos < end <= b@.len(),
            None => parse_fixed64(b@, pos as int) is None,
        },
{
    if pos >= b.len() || b.len() - pos < 8 {
        return None;
    }
    let sub = slice_subrange(b, pos, pos + 8);
    let n = u64_from_le_bytes(sub);
    Some((n, pos + 8))
}

// ---------------------------------------------------------------------------
// signed 32-bit values in varints
// ---------------------------------------------------------------------------

/// The 64-bit two's-complement image of `v`, as a signed 32-bit wire value
/// is carried in a varint.
pub open spec fn sint32_as_u64(v: i32) -> u64 {
    if v >= 0 {
        v as u64
    } else {
        (v + 0x1_0000_0000_0000_0000) as u64
    }
}

/// The signed 32-bit value a varint carries, when it carries one.
pub open spec fn u64_as_sint32(n: u64) -> Option<i32> {
    if n < 0x8000_0000 {
        Some(n as i32)
    } else if n >= 0xFFFF_FFFF_8000_0000 {
        Some((n - 0x1_0000_0000_0000_0000) as i32)
    } else {
        None
    }
}

/// Reading the image of `v` back yields `v`.
pub proof fn lemma_sint32_round_trip(v: i32)
    ensures
        u64_as_sint32(sint32_as_u64(v)) == Some(v),
{
}

/// Computes `sint32_as_u64(v)`.
pub fn sint32_to_u64(v: i32) -> (r: u64)
    ensures
        r == sint32_as_u64(v),
{
    if v >= 0 {
        v as u64
    } else {
        let m = (-(v as i64)) as u64;
        u64::MAX - m + 1
    }
}

/// Computes `u64_as_sint32(n)`.
pub fn u64_to_sint32(n: u64) -> (r: Option<i32>)
    ensures
        r == u64_as_sint32(n),
{
    if n < 0x8000_0000 {
        Some(n as i32)
    } else if n >= 0xFFFF_FFFF_8000_0000 {
        let m = u64::MAX - n + 1;
        Some((-(m as i64)) as i32)
    } else {
        None
    }
}

// ---------------------------------------------------------------------------
// bools in varints
// ---------------------------------------------------------------------------

/// A bool on the wire: the varint 0 or 1.
pub open spec fn bool_bytes(v: bool) -> Seq<u8> {
    varint_bytes(if v { 1u64 } else { 0u64 })
}

/// Parses a varint-carried bool from `b` at `pos`; only 0 and 1 are
/// accepted.
pub open spec fn parse_bool(b: Seq<u8>, pos: int) -> Option<(bool, int)> {
    match parse_varint(b, pos) {
        None => None,
        Some((n, p)) => if n == 0 {
            Some((false, p))
        } else if n == 1 {
            Some((true, p))
        } else {
            None
        },
    }
}

/// Parsing at a position where `bool_bytes(v)` lies finds `v`.
pub proof fn lemma_parse_bool_encoded(b: Seq<u8>, pos: int, v: bool)
    requires
        0 <= pos,
        pos + bool_bytes(v).len() <= b.len(),
        b.subrange(pos, pos + bool_bytes(v).len() as int) == bool_bytes(v),
    ensures
        bool_bytes(v).len() == 1,
        parse_bool(b, pos) == Some((v, pos + 1)),
{
    lemma_parse_varint_encoded(b, pos, if v { 1u64 } else { 0u64 });
}

/// Appends `bool_bytes(v)` to `buf`.
pub fn encode_bool(buf: &mut Vec<u8>, v: bool)
    ensures
        final(buf)@ == old(buf)@ + bool_bytes(v),
{
    encode_varint(buf, if v { 1u64 } else { 0u64 });
}

/// Reads a varint-carried bool from `b` at `pos`, as `parse_bool`
/// describes.
pub fn decode_bool(b: &[u8], pos: usize) -> (r: Option<(bool, usize)>)
    ensures
        match r {
            Some((v, end)) => parse_bool(b@, pos as int) == Some((v, end as int))
                && pos < end <= b@.len(),
            None => parse_bool(b@, pos as int) is None,
        },
{
    match decode_varint(b, pos) {
        None => None,
        Some((n, p)) => {
            if n == 0 {
                Some((false, p))
            } else if n == 1 {
                Some((true, p))
            } else {
                None
            }
        },
    }
}

} // verus!
