use vstd::prelude::*;

verus! {

use vstd::slice::slice_to_vec;
use vstd::string::StrSliceExecFns;
use vstd::utf8::{decode_utf8, encode_utf8, valid_utf8};

use crate::error::StorageError;

/// A paired encode/decode policy between an application type and the raw
/// payload stored in a column.  A store is bound to one codec per column;
/// the codec's single obligation is that decoding an encoded value gives
/// the value back, stated as `lemma_round_trip` and proved by every
/// implementation.
pub trait Codec: View + Sized {
    /// Whether this abstract value can be represented as a payload at all.
    /// Encoding is allowed to be partial; decoding an encoded value never is.
    spec fn spec_encodable(v: Self::V) -> bool;

    /// The payload that encodes this abstract value.
    /// Meaningful only when `spec_encodable(v)` holds.
    spec fn spec_encode(v: Self::V) -> Seq<u8>;

    /// The abstract value a payload decodes to, or `None` when the payload
    /// is not a valid encoding of any value.
    spec fn spec_decode(p: Seq<u8>) -> Option<Self::V>;

    /// The bijection obligation: every encodable value survives a round
    /// trip through its payload unchanged.
    proof fn lemma_round_trip(v: Self::V)
        requires
            Self::spec_encodable(v),
        ensures
            Self::spec_decode(Self::spec_encode(v)) == Some(v),
    ;

    /// Turns a value into its payload, or reports `EncodeFailed` exactly on
    /// the values the codec cannot represent.
    fn encode(&self) -> (r: Result<Vec<u8>, StorageError>)
        ensures
            Self::spec_encodable(self@) ==> (r matches Ok(p) && p@ == Self::spec_encode(self@)),
            !Self::spec_encodable(self@) ==> r == Err::<Vec<u8>, StorageError>(
                StorageError::EncodeFailed,
            ),
    ;

    /// Reconstructs a value from a payload, or reports `DecodeFailed`
    /// exactly on the payloads that encode no value.
    fn decode(p: &[u8]) -> (r: Result<Self, StorageError>)
        ensures
            match Self::spec_decode(p@) {
                Some(v) => r matches Ok(x) && x@ == v,
                None => r matches Err(e) && e == StorageError::DecodeFailed,
            },
    ;
}

/// The `u64` read back from eight big-endian bytes.
pub open spec fn be_bytes_to_u64(p: Seq<u8>) -> u64
    recommends
        p.len() == 8,
{
    (((p[0] as u64) << 56) | ((p[1] as u64) << 48) | ((p[2] as u64) << 40) | ((p[3] as u64) << 32)
        | ((p[4] as u64) << 24) | ((p[5] as u64) << 16) | ((p[6] as u64) << 8) | (p[7] as u64))
}

/// Native binary codec: a `u64` as exactly eight big-endian bytes.
impl Codec for u64 {
    open spec fn spec_encodable(v: u64) -> bool {
        true
    }

    open spec fn spec_encode(v: u64) -> Seq<u8> {
        seq![
            ((v >> 56) & 0xff) as u8,
            ((v >> 48) & 0xff) as u8,
            ((v >> 40) & 0xff) as u8,
            ((v >> 32) & 0xff) as u8,
            ((v >> 24) & 0xff) as u8,
            ((v >> 16) & 0xff) as u8,
            ((v >> 8) & 0xff) as u8,
            (v & 0xff) as u8,
        ]
    }

    open spec fn spec_decode(p: Seq<u8>) -> Option<u64> {
        if p.len() == 8 {
            Some(be_bytes_to_u64(p))
        } else {
            None
        }
    }

    proof fn lemma_round_trip(v: u64) {
        let p = Self::spec_encode(v);
        assert(((((v >> 56) & 0xff) as u8 as u64) << 56) | ((((v >> 48) & 0xff) as u8 as u64)
            << 48) | ((((v >> 40) & 0xff) as u8 as u64) << 40) | ((((v >> 32) & 0xff) as u8 as u64)
            << 32) | ((((v >> 24) & 0xff) as u8 as u64) << 24) | ((((v >> 16) & 0xff) as u8 as u64)
            << 16) | ((((v >> 8) & 0xff) as u8 as u64) << 8) | ((v & 0xff) as u8 as u64) == v)
            by (bit_vector);
    }

    fn encode(&self) -> (r: Result<Vec<u8>, StorageError>) {
        let v = *self;
        assert((v >> 56) & 0xff < 256 && (v >> 48) & 0xff < 256 && (v >> 40) & 0xff < 256 && (v
            >> 32) & 0xff < 256 && (v >> 24) & 0xff < 256 && (v >> 16) & 0xff < 256 && (v >> 8)
            & 0xff < 256 && v & 0xff < 256) by (bit_vector);
        let mut out: Vec<u8> = Vec::new();
        out.push(((v >> 56) & 0xff) as u8);
        out.push(((v >> 48) & 0xff) as u8);
        out.push(((v >> 40) & 0xff) as u8);
        out.push(((v >> 32) & 0xff) as u8);
        out.push(((v >> 24) & 0xff) as u8);
        out.push(((v >> 16) & 0xff) as u8);
        out.push(((v >> 8) & 0xff) as u8);
        out.push((v & 0xff) as u8);
        proof {
            assert(out@ =~= Self::spec_encode(v));
        }
        Ok(out)
    }

    fn decode(p: &[u8]) -> (r: Result<u64, StorageError>) {
        if p.len() != 8 {
            return Err(StorageError::DecodeFailed);
        }
        let v: u64 = ((p[0] as u64) << 56) | ((p[1] as u64) << 48) | ((p[2] as u64) << 40) | ((
        p[3] as u64) << 32) | ((p[4] as u64) << 24) | ((p[5] as u64) << 16) | ((p[6] as u64) << 8)
            | (p[7] as u64);
        Ok(v)
    }
}

/// Relies on `str::from_utf8` from std: it succeeds exactly on valid UTF-8
/// input, and then returns the character sequence that the input encodes.
#[verifier::external_body]
fn bytes_to_string(p: &[u8]) -> (r: Option<String>)
    ensures
        r matches Some(s) ==> valid_utf8(p@) && s@ == decode_utf8(p@),
        r is None ==> !valid_utf8(p@),
{
    match core::str::from_utf8(p) {
        Ok(s) => Some(s.to_string()),
        Err(_) => None,
    }
}

/// Infallible round-trip codec: a string as its UTF-8 bytes.  Every string
/// is encodable; a payload decodes exactly when it is valid UTF-8.
impl Codec for String {
    open spec fn spec_encodable(v: Seq<char>) -> bool {
        true
    }

    open spec fn spec_encode(v: Seq<char>) -> Seq<u8> {
        encode_utf8(v)
    }

    open spec fn spec_decode(p: Seq<u8>) -> Option<Seq<char>> {
        if valid_utf8(p) {
            Some(decode_utf8(p))
        } else {
            None
        }
    }

    proof fn lemma_round_trip(v: Seq<char>) {
        broadcast use vstd::utf8::encode_utf8_valid_utf8, vstd::utf8::encode_utf8_decode_utf8;

    }

    fn encode(&self) -> (r: Result<Vec<u8>, StorageError>) {
        Ok(self.as_str().as_bytes_vec())
    }

    fn decode(p: &[u8]) -> (r: Result<String, StorageError>) {
        match bytes_to_string(p) {
            Some(s) => Ok(s),
            None => Err(StorageError::DecodeFailed),
        }
    }
}

/// Native payload codec: raw bytes stored as they are.  Total in both
/// directions; the round trip is the identity.
impl Codec for Vec<u8> {
    open spec fn spec_encodable(v: Seq<u8>) -> bool {
        true
    }

    open spec fn spec_encode(v: Seq<u8>) -> Seq<u8> {
        v
    }

    open spec fn spec_decode(p: Seq<u8>) -> Option<Seq<u8>> {
        Some(p)
    }

    proof fn lemma_round_trip(v: Seq<u8>) {
    }

    fn encode(&self) -> (r: Result<Vec<u8>, StorageError>) {
        Ok(slice_to_vec(self.as_slice()))
    }

    fn decode(p: &[u8]) -> (r: Result<Vec<u8>, StorageError>) {
        Ok(slice_to_vec(p))
    }
}

/// Fallible codec: a character as one byte.  Only the first 256 code
/// points are representable, so encoding is partial and `EncodeFailed`
/// is routine; every single-byte payload decodes.
impl Codec for char {
    open spec fn spec_encodable(v: char) -> bool {
        (v as u32) < 256
    }

    open spec fn spec_encode(v: char) -> Seq<u8> {
        seq![(v as u32) as u8]
    }

    open spec fn spec_decode(p: Seq<u8>) -> Option<char> {
        if p.len() == 1 {
            Some(p[0] as char)
        } else {
            None
        }
    }

    proof fn lemma_round_trip(v: char) {
        let u = v as u32;
        assert(u < 256 ==> (u as u8) as u32 == u) by (bit_vector);
        let w = u as u8;
        vstd::utf8::char_u32_cast(v, u);
        assert((w as char) as u32 == u);
        vstd::utf8::char_u32_cast(w as char, u);
    }

    fn encode(&self) -> (r: Result<Vec<u8>, StorageError>) {
        let u = *self as u32;
        if u < 256 {
            let mut out: Vec<u8> = Vec::new();
            out.push(u as u8);
            proof {
                assert(out@ =~= Self::spec_encode(*self));
            }
            Ok(out)
        } else {
            Err(StorageError::EncodeFailed)
        }
    }

    fn decode(p: &[u8]) -> (r: Result<char, StorageError>) {
        if p.len() == 1 {
            Ok(p[0] as char)
        } else {
            Err(StorageError::DecodeFailed)
        }
    }
}

} // verus!
