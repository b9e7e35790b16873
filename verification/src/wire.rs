//! Shared wire-format helpers: decode errors, the one-byte length-prefixed
//! payload layout, and the bridge between ASCII text and its bytes.

use vstd::prelude::*;
use vstd::slice::{slice_index_get, slice_subrange, slice_to_vec};
use vstd::utf8::{decode_utf8, encode_utf8, is_ascii_chars, valid_utf8};

verus! {

/// Why a decode failed.
#[derive(Clone, Copy, Debug, PartialEq, Eq, Structural)]
pub enum DecodeError {
    /// The input ended early: a length prefix was missing, or it declared
    /// more bytes than the input still holds.
    ShortRead,
    /// The bytes were all read but do not form a valid value.
    InvalidValue,
}

/// The bytes of an ASCII character sequence, one byte per character.
pub open spec fn ascii_bytes(s: Seq<char>) -> Seq<u8> {
    Seq::new(s.len(), |i: int| s[i] as u8)
}

/// For an ASCII character sequence the UTF-8 encoding is [`ascii_bytes`],
/// which is valid UTF-8 and decodes back to the sequence itself.
pub proof fn lemma_ascii_round_trip(s: Seq<char>)
    requires
        is_ascii_chars(s),
    ensures
        encode_utf8(s) == ascii_bytes(s),
        valid_utf8(ascii_bytes(s)),
        decode_utf8(ascii_bytes(s)) == s,
{
    vstd::utf8::is_ascii_chars_encode_utf8(s);
    assert(encode_utf8(s) =~= ascii_bytes(s));
    vstd::utf8::encode_utf8_valid_utf8(s);
    vstd::utf8::encode_utf8_decode_utf8(s);
}

/// A one-byte length prefix at `pos` followed by that many raw bytes: the
/// payload and the position after it, or `ShortRead` when the prefix or
/// the bytes it declares run past the end of the input.
pub open spec fn parse_len_prefixed(b: Seq<u8>, pos: int) -> Result<(Seq<u8>, int), DecodeError> {
    if pos + 1 > b.len() {
        Err(DecodeError::ShortRead)
    } else {
        let l = b[pos] as int;
        if pos + 1 + l > b.len() {
            Err(DecodeError::ShortRead)
        } else {
            Ok((b.subrange(pos + 1, pos + 1 + l), pos + 1 + l))
        }
    }
}

/// A length-prefixed payload interpreted as text: the decoded characters
/// and the position after them, `ShortRead` as in [`parse_len_prefixed`],
/// or `InvalidValue` when the payload is not valid UTF-8.
pub open spec fn parse_len_prefixed_text(b: Seq<u8>, pos: int) -> Result<
    (Seq<char>, int),
    DecodeError,
> {
    match parse_len_prefixed(b, pos) {
        Err(e) => Err(e),
        Ok((raw, next)) => if valid_utf8(raw) {
            Ok((decode_utf8(raw), next))
        } else {
            Err(DecodeError::InvalidValue)
        },
    }
}

/// Relies on `String::from_utf8`: it returns a string exactly when the
/// bytes are valid UTF-8, and that string decodes those bytes.
#[verifier::external_body]
pub(crate) fn string_from_utf8(bytes: Vec<u8>) -> (r: Option<String>)
    ensures
        r is Some <==> valid_utf8(bytes@),
        r matches Some(s) ==> s@ == decode_utf8(bytes@),
{
    String::from_utf8(bytes).ok()
}

/// Appends every byte of `b` to `out`.
pub fn push_bytes(out: &mut Vec<u8>, b: &[u8])
    ensures
        final(out)@ == old(out)@ + b@,
{
    let n = b.len();
    for i in 0..n
        invariant
            n == b@.len(),
            out@ == old(out)@ + b@.subrange(0, i as int),
    {
        out.push(*slice_index_get(b, i));
        proof {
            assert(old(out)@ + b@.subrange(0, i + 1) =~= (old(out)@ + b@.subrange(0, i as int)).push(
                b@[i as int],
            ));
        }
    }
    proof {
        assert(b@.subrange(0, n as int) =~= b@);
    }
}

/// Reads the one-byte length prefix at `pos` and the bytes it declares,
/// exactly as [`parse_len_prefixed`] describes.
pub fn read_len_prefixed(b: &[u8], pos: usize) -> (r: Result<(Vec<u8>, usize), DecodeError>)
    ensures
        match r {
            Ok(p) => parse_len_prefixed(b@, pos as int) == Ok::<_, DecodeError>(
                (p.0@, p.1 as int),
            ),
            Err(e) => parse_len_prefixed(b@, pos as int) == Err::<(Seq<u8>, int), _>(e),
        },
{
    if pos >= b.len() {
        return Err(DecodeError::ShortRead);
    }
    let l = *slice_index_get(b, pos) as usize;
    if b.len() - (pos + 1) < l {
        return Err(DecodeError::ShortRead);
    }
    let payload = slice_to_vec(slice_subrange(b, pos + 1, pos + 1 + l));
    Ok((payload, pos + 1 + l))
}

/// Reads the length-prefixed text at `pos`, exactly as
/// [`parse_len_prefixed_text`] describes.
pub fn read_len_prefixed_text(b: &[u8], pos: usize) -> (r: Result<(String, usize), DecodeError>)
    ensures
        match r {
            Ok(p) => parse_len_prefixed_text(b@, pos as int) == Ok::<_, DecodeError>(
                (p.0@, p.1 as int),
            ),
            Err(e) => parse_len_prefixed_text(b@, pos as int) == Err::<(Seq<char>, int), _>(e),
        },
{
    let (raw, next) = match read_len_prefixed(b, pos) {
        Ok(p) => p,
        Err(e) => {
            return Err(e);
        },
    };
    match string_from_utf8(raw) {
        Some(s) => Ok((s, next)),
        None => Err(DecodeError::InvalidValue),
    }
}

} // verus!
