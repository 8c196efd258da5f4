//! The integer encoding of bincode's standard configuration (variable-length,
//! little-endian), stated as specifications, and the two bincode calls that the
//! message codec makes.
use bincode::error::{DecodeError, EncodeError};
use vstd::prelude::*;

verus! {

#[verifier::external_type_specification]
#[verifier::external_body]
pub struct ExDecodeError(DecodeError);

#[verifier::external_type_specification]
#[verifier::external_body]
pub struct ExEncodeError(EncodeError);

/// Variable-length encoding of an unsigned integer: values up to 250 take one byte;
/// larger values take a marker byte (251, 252 or 253) followed by the value as a
/// little-endian u16, u32 or u64.
pub open spec fn varint_bytes(x: u64) -> Seq<u8> {
    if x <= 250 {
        seq![x as u8]
    } else if x <= 0xffff {
        seq![251u8, x as u8, (x >> 8u64) as u8]
    } else if x <= 0xffff_ffff {
        seq![252u8, x as u8, (x >> 8u64) as u8, (x >> 16u64) as u8, (x >> 24u64) as u8]
    } else {
        seq![
            253u8,
            x as u8,
            (x >> 8u64) as u8,
            (x >> 16u64) as u8,
            (x >> 24u64) as u8,
            (x >> 32u64) as u8,
            (x >> 40u64) as u8,
            (x >> 48u64) as u8,
            (x >> 56u64) as u8,
        ]
    }
}

/// Little-endian value of two bytes.
pub open spec fn le16(b0: u8, b1: u8) -> u64 {
    (b0 as u64) | ((b1 as u64) << 8u64)
}

/// Little-endian value of four bytes.
pub open spec fn le32(b0: u8, b1: u8, b2: u8, b3: u8) -> u64 {
    (b0 as u64) | ((b1 as u64) << 8u64) | ((b2 as u64) << 16u64) | ((b3 as u64) << 24u64)
}

/// Little-endian value of eight bytes.
pub open spec fn le64(s: Seq<u8>) -> u64 {
    (s[0] as u64) | ((s[1] as u64) << 8u64) | ((s[2] as u64) << 16u64) | ((s[3] as u64) << 24u64) | ((
    s[4] as u64) << 32u64) | ((s[5] as u64) << 40u64) | ((s[6] as u64) << 48u64) | ((s[7] as u64)
        << 56u64)
}

/// Decoding of a variable-length unsigned integer at the start of `s`: the value and
/// the number of bytes read, or None when the marker byte is not one of a u64 or the
/// input ends too early. Bytes after the integer are not read.
pub open spec fn varint_decode(s: Seq<u8>) -> Option<(u64, nat)> {
    if s.len() == 0 {
        None
    } else if s[0] <= 250 {
        Some((s[0] as u64, 1))
    } else if s[0] == 251 {
        if s.len() >= 3 { Some((le16(s[1], s[2]), 3)) } else { None }
    } else if s[0] == 252 {
        if s.len() >= 5 { Some((le32(s[1], s[2], s[3], s[4]), 5)) } else { None }
    } else if s[0] == 253 {
        if s.len() >= 9 { Some((le64(s.subrange(1, 9)), 9)) } else { None }
    } else {
        None
    }
}

/// `bincode::encode_to_vec` of a `u64` with `bincode::config::standard()`.
/// Claimed: it succeeds (its writer appends to a `Vec` and never fails) and the
/// bytes are the variable-length little-endian encoding of the value.
#[verifier::external_body]
pub(crate) fn encode_varint(x: u64) -> (r: Result<Vec<u8>, EncodeError>)
    ensures
        r is Ok,
        r->Ok_0@ == varint_bytes(x),
{
    bincode::encode_to_vec(x, bincode::config::standard())
}

/// What went wrong when a variable-length integer did not decode.
#[derive(Debug, Clone, Copy, PartialEq, Eq, Structural)]
pub enum CodecErrorKind {
    /// The input ended early; this many more bytes were needed.
    UnexpectedEnd(usize),
    /// The marker byte names no width a u64 can be written in.
    InvalidIntegerType,
    /// Any other error of the codec.
    Other,
}

/// The error of decoding a variable-length integer at the start of `s`, for an
/// `s` on which `varint_decode` gives None: an empty input lacks one byte, a marker
/// with too few bytes after it lacks the rest, and the markers 254 and 255 are
/// refused.
pub open spec fn varint_error(s: Seq<u8>) -> CodecErrorKind {
    if s.len() == 0 {
        CodecErrorKind::UnexpectedEnd(1)
    } else if s[0] <= 250 {
        CodecErrorKind::Other
    } else if s[0] == 251 {
        CodecErrorKind::UnexpectedEnd((3 - s.len()) as usize)
    } else if s[0] == 252 {
        CodecErrorKind::UnexpectedEnd((5 - s.len()) as usize)
    } else if s[0] == 253 {
        CodecErrorKind::UnexpectedEnd((9 - s.len()) as usize)
    } else {
        CodecErrorKind::InvalidIntegerType
    }
}

/// `bincode::decode_from_slice` of a `u64` with `bincode::config::standard()`,
/// applied to the bytes of `bytes` from `start` on. Claimed: it succeeds exactly
/// when those bytes begin with a well-formed variable-length integer, and then
/// returns its value and the number of bytes it read; otherwise its error is
/// `UnexpectedEnd` with the number of missing bytes, or `InvalidIntegerType`, as
/// `varint_error` says. The error is returned together with that kind.
#[verifier::external_body]
pub(crate) fn decode_varint(bytes: &[u8], start: usize) -> (r: Result<(u64, usize), (DecodeError, CodecErrorKind)>)
    requires
        start <= bytes@.len(),
    ensures
        match r {
            Ok((v, n)) => varint_decode(bytes@.subrange(start as int, bytes@.len() as int)) == Some(
                (v, n as nat),
            ),
            Err((_, k)) => varint_decode(bytes@.subrange(start as int, bytes@.len() as int)) is None
                && k == varint_error(bytes@.subrange(start as int, bytes@.len() as int)),
        },
{
    match bincode::decode_from_slice::<u64, _>(&bytes[start..], bincode::config::standard()) {
        Ok(v) => Ok(v),
        Err(e) => {
            let kind = match &e {
                DecodeError::UnexpectedEnd { additional } => CodecErrorKind::UnexpectedEnd(*additional),
                DecodeError::InvalidIntegerType { .. } => CodecErrorKind::InvalidIntegerType,
                _ => CodecErrorKind::Other,
            };
            Err((e, kind))
        },
    }
}

/// Decoding reads back what encoding wrote, whatever follows it.
pub proof fn lemma_varint_roundtrip(x: u64, rest: Seq<u8>)
    ensures
        varint_decode(varint_bytes(x) + rest) == Some((x, varint_bytes(x).len())),
        1 <= varint_bytes(x).len() <= 9,
{
    let s = varint_bytes(x) + rest;
    if x <= 250 {
        assert(s[0] == x as u8);
        assert((x as u8) as u64 == x) by (bit_vector)
            requires
                x <= 250,
        ;
    } else if x <= 0xffff {
        assert(s[0] == 251u8 && s[1] == x as u8 && s[2] == (x >> 8u64) as u8);
        assert(le16(x as u8, (x >> 8u64) as u8) == x) by (bit_vector)
            requires
                x <= 0xffff,
        ;
    } else if x <= 0xffff_ffff {
        assert(s[0] == 252u8 && s[1] == x as u8 && s[2] == (x >> 8u64) as u8 && s[3] == (x >> 16u64) as u8
            && s[4] == (x >> 24u64) as u8);
        assert(le32(x as u8, (x >> 8u64) as u8, (x >> 16u64) as u8, (x >> 24u64) as u8) == x) by (bit_vector)
            requires
                x <= 0xffff_ffff,
        ;
    } else {
        let t = s.subrange(1, 9);
        assert(t =~= varint_bytes(x).subrange(1, 9));
        assert(t[0] == x as u8 && t[1] == (x >> 8u64) as u8 && t[2] == (x >> 16u64) as u8 && t[3] == (x
            >> 24u64) as u8 && t[4] == (x >> 32u64) as u8 && t[5] == (x >> 40u64) as u8 && t[6] == (x
            >> 48u64) as u8 && t[7] == (x >> 56u64) as u8);
        assert(((x as u8) as u64) | ((((x >> 8u64) as u8) as u64) << 8u64) | ((((x >> 16u64) as u8)
            as u64) << 16u64) | ((((x >> 24u64) as u8) as u64) << 24u64) | ((((x >> 32u64) as u8)
            as u64) << 32u64) | ((((x >> 40u64) as u8) as u64) << 40u64) | ((((x >> 48u64) as u8)
            as u64) << 48u64) | ((((x >> 56u64) as u8) as u64) << 56u64) == x) by (bit_vector);
    }
}

} // verus!
