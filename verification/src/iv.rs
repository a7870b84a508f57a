//! Initialisation vectors for the stream cipher.

use crate::bytes::{copy_range, take_16};
use crate::errors::EncodingError;
use crate::primitives::{base58_bytes, base58_decode, base58_encode, base58_text, random_block};
use vstd::prelude::*;

verus! {

/// An initialisation vector: sixteen bytes that select one keystream of a key.
#[derive(Debug, Clone, Copy, PartialEq, Eq)]
pub struct IV {
    pub bytes: [u8; 16],
}

/// The all-zero initialisation vector, as a byte string.
pub open spec fn zero_iv() -> Seq<u8> {
    Seq::new(16, |i: int| 0u8)
}

/// The bytes of `iv`, or those of the zero vector where there is none.
pub open spec fn iv_or_zero(iv: Option<&IV>) -> Seq<u8> {
    match iv {
        Some(iv) => iv.bytes@,
        None => zero_iv(),
    }
}

impl IV {
    /// A vector drawn from the operating system's randomness, or `None` when
    /// there is none to be had.
    pub fn new_random() -> (iv: Option<IV>) {
        match random_block() {
            Some(bytes) => Some(IV { bytes }),
            None => None,
        }
    }

    /// The all-zero vector.
    pub fn zero() -> (iv: IV)
        ensures
            iv.bytes@ == zero_iv(),
    {
        let iv = IV { bytes: [0u8; 16] };
        assert(iv.bytes@ =~= zero_iv());
        iv
    }

    /// The vector made of `bytes`, which must be sixteen.
    pub fn try_from_bytes(bytes: &[u8]) -> (result: Result<IV, EncodingError>)
        ensures
            match result {
                Ok(iv) => iv.bytes@ == bytes@,
                Err(EncodingError::InvalidLength(n)) => n == bytes@.len() && n != 16,
                Err(EncodingError::MalformedBase58) => false,
            },
    {
        if bytes.len() != 16 {
            return Err(EncodingError::InvalidLength(bytes.len()));
        }
        let block = take_16(bytes, 0);
        assert(bytes@.subrange(0, 16) =~= bytes@);
        Ok(IV { bytes: block })
    }

    /// The sixteen bytes.
    pub fn inner(&self) -> (bytes: &[u8; 16])
        ensures
            *bytes == self.bytes,
    {
        &self.bytes
    }

    /// The sixteen bytes, copied.
    pub fn to_bytes(&self) -> (bytes: Vec<u8>)
        ensures
            bytes@ == self.bytes@,
    {
        let out = copy_range(self.bytes.as_slice(), 0, 16);
        assert(self.bytes@.subrange(0, 16) =~= self.bytes@);
        out
    }

    /// The vector whose base58 text is `text`.
    pub fn try_from_base58_string(text: &str) -> (result: Result<IV, EncodingError>)
        ensures
            match result {
                Ok(iv) => base58_bytes(text@) == Some(iv.bytes@),
                Err(EncodingError::MalformedBase58) => base58_bytes(text@) is None,
                Err(EncodingError::InvalidLength(n)) => base58_bytes(text@) matches Some(b) && b.len()
                    != 16 && n == b.len(),
            },
    {
        let decoded = base58_decode(text);
        match decoded {
            None => Err(EncodingError::MalformedBase58),
            Some(bytes) => IV::try_from_bytes(bytes.as_slice()),
        }
    }

    /// The base58 text of the vector; `try_from_base58_string` reads it back.
    pub fn to_base58_string(&self) -> (text: String)
        ensures
            text@ == base58_text(self.bytes@),
            base58_bytes(text@) == Some(self.bytes@),
    {
        base58_encode(self.bytes.as_slice())
    }
}

} // verus!
