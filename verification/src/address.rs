//! The identity address of a client and its encrypted form, which proves
//! possession of the shared keys when a client authenticates.

use crate::bytes::{array_from_seq, bytes_eq, copy_range, lemma_array_from_own_seq, take_32};
use crate::errors::EncodingError;
use crate::iv::IV;
use crate::primitives::{
    apply_keystream, base58_bytes, base58_decode, base58_encode, base58_text,
    lemma_stream_xor_involution, stream_xor,
};
use crate::shared_keys::SharedKeys;
use vstd::prelude::*;

verus! {

/// Length in bytes of an identity address.
pub const DESTINATION_ADDRESS_LENGTH: usize = 32;

/// The address under which the mix network delivers to a client.
#[derive(Debug, Clone, Copy, PartialEq, Eq)]
pub struct DestinationAddressBytes {
    pub bytes: [u8; 32],
}

/// An identity address encrypted under the shared keys with some
/// initialisation vector.
#[derive(Debug, Clone, Copy, PartialEq, Eq)]
pub struct EncryptedAddressBytes {
    pub bytes: [u8; 32],
}

impl DestinationAddressBytes {
    /// The address made of these bytes.
    pub fn from_bytes(bytes: [u8; 32]) -> (address: DestinationAddressBytes)
        ensures
            address.bytes == bytes,
    {
        DestinationAddressBytes { bytes }
    }

    /// The address made of `bytes`, which must be thirty-two.
    pub fn try_from_byte_slice(bytes: &[u8]) -> (result: Result<
        DestinationAddressBytes,
        EncodingError,
    >)
        ensures
            match result {
                Ok(address) => address.bytes@ == bytes@,
                Err(EncodingError::InvalidLength(n)) => n == bytes@.len() && n != 32,
                Err(EncodingError::MalformedBase58) => false,
            },
    {
        if bytes.len() != DESTINATION_ADDRESS_LENGTH {
            return Err(EncodingError::InvalidLength(bytes.len()));
        }
        let block = take_32(bytes, 0);
        assert(bytes@.subrange(0, 32) =~= bytes@);
        Ok(DestinationAddressBytes { bytes: block })
    }

    /// The thirty-two bytes.
    pub fn as_bytes(&self) -> (bytes: &[u8; 32])
        ensures
            *bytes == self.bytes,
    {
        &self.bytes
    }

    /// The base58 text of the address; `try_from_base58_string` reads it
    /// back.
    pub fn as_base58_string(&self) -> (text: String)
        ensures
            text@ == base58_text(self.bytes@),
            base58_bytes(text@) == Some(self.bytes@),
    {
        base58_encode(self.bytes.as_slice())
    }

    /// The address whose base58 text is `text`.
    pub fn try_from_base58_string(text: &str) -> (result: Result<
        DestinationAddressBytes,
        EncodingError,
    >)
        ensures
            match result {
                Ok(address) => base58_bytes(text@) == Some(address.bytes@),
                Err(EncodingError::MalformedBase58) => base58_bytes(text@) is None,
                Err(EncodingError::InvalidLength(n)) => base58_bytes(text@) matches Some(b) && b.len()
                    != 32 && n == b.len(),
            },
    {
        match base58_decode(text) {
            None => Err(EncodingError::MalformedBase58),
            Some(bytes) => DestinationAddressBytes::try_from_byte_slice(bytes.as_slice()),
        }
    }
}

impl EncryptedAddressBytes {
    /// What `address` looks like once encrypted under `key` with `iv`.
    pub open spec fn encryption_of(
        address: DestinationAddressBytes,
        key: SharedKeys,
        iv: IV,
    ) -> Seq<u8> {
        stream_xor(key.encryption_key@, iv.bytes@, address.bytes@)
    }

    /// `address` encrypted under `key` with `iv`.
    pub open spec fn new_spec(
        address: DestinationAddressBytes,
        key: SharedKeys,
        iv: IV,
    ) -> EncryptedAddressBytes {
        EncryptedAddressBytes {
            bytes: array_from_seq::<32>(Self::encryption_of(address, key, iv)),
        }
    }

    /// Encrypts `address` under `key` with `iv`.
    pub fn new(address: &DestinationAddressBytes, key: &SharedKeys, iv: &IV) -> (encrypted:
        EncryptedAddressBytes)
        ensures
            encrypted.bytes@ == Self::encryption_of(*address, *key, *iv),
            encrypted == Self::new_spec(*address, *key, *iv),
    {
        let ciphertext = apply_keystream(key.encryption_key(), iv.inner(), address.bytes.as_slice());
        assert(ciphertext@ =~= Self::encryption_of(*address, *key, *iv));
        let block = take_32(ciphertext.as_slice(), 0);
        assert(ciphertext@.subrange(0, 32) =~= ciphertext@);
        proof {
            lemma_array_from_own_seq::<32>(block);
        }
        EncryptedAddressBytes { bytes: block }
    }

    /// Whether this is `address` encrypted under `key` with `iv`.
    pub fn verify(&self, address: &DestinationAddressBytes, key: &SharedKeys, iv: &IV) -> (ok:
        bool)
        ensures
            ok == (self.bytes@ == Self::encryption_of(*address, *key, *iv)),
    {
        let expected = EncryptedAddressBytes::new(address, key, iv);
        bytes_eq(self.bytes.as_slice(), expected.bytes.as_slice())
    }

    /// The address that was encrypted under `key` with `iv` to give this.
    pub fn decrypt(&self, key: &SharedKeys, iv: &IV) -> (address: DestinationAddressBytes)
        ensures
            address.bytes@ == stream_xor(key.encryption_key@, iv.bytes@, self.bytes@),
    {
        let plain = apply_keystream(key.encryption_key(), iv.inner(), self.bytes.as_slice());
        assert(plain@ =~= stream_xor(key.encryption_key@, iv.bytes@, self.bytes@));
        let block = take_32(plain.as_slice(), 0);
        assert(plain@.subrange(0, 32) =~= plain@);
        DestinationAddressBytes { bytes: block }
    }

    /// The encrypted address made of these bytes.
    pub fn from_bytes(bytes: [u8; 32]) -> (encrypted: EncryptedAddressBytes)
        ensures
            encrypted.bytes == bytes,
    {
        EncryptedAddressBytes { bytes }
    }

    /// The thirty-two bytes, copied.
    pub fn to_bytes(&self) -> (bytes: Vec<u8>)
        ensures
            bytes@ == self.bytes@,
    {
        let out = copy_range(self.bytes.as_slice(), 0, 32);
        assert(self.bytes@.subrange(0, 32) =~= self.bytes@);
        out
    }

    /// The base58 text of the encrypted address; `try_from_base58_string`
    /// reads it back.
    pub fn to_base58_string(&self) -> (text: String)
        ensures
            text@ == base58_text(self.bytes@),
            base58_bytes(text@) == Some(self.bytes@),
    {
        base58_encode(self.bytes.as_slice())
    }

    /// The encrypted address whose base58 text is `text`.
    pub fn try_from_base58_string(text: &str) -> (result: Result<
        EncryptedAddressBytes,
        EncodingError,
    >)
        ensures
            match result {
                Ok(encrypted) => base58_bytes(text@) == Some(encrypted.bytes@),
                Err(EncodingError::MalformedBase58) => base58_bytes(text@) is None,
                Err(EncodingError::InvalidLength(n)) => base58_bytes(text@) matches Some(b) && b.len()
                    != 32 && n == b.len(),
            },
    {
        match base58_decode(text) {
            None => Err(EncodingError::MalformedBase58),
            Some(bytes) => {
                if bytes.len() != 32 {
                    return Err(EncodingError::InvalidLength(bytes.len()));
                }
                let block = take_32(bytes.as_slice(), 0);
                assert(bytes@.subrange(0, 32) =~= bytes@);
                Ok(EncryptedAddressBytes { bytes: block })
            },
        }
    }
}

/// Decrypting an encrypted address with the keys and the vector it was made
/// with gives the address back, and only that address verifies against it.
pub proof fn lemma_encrypted_address_roundtrip(
    address: DestinationAddressBytes,
    other: DestinationAddressBytes,
    key: SharedKeys,
    iv: IV,
)
    ensures
        stream_xor(
            key.encryption_key@,
            iv.bytes@,
            EncryptedAddressBytes::encryption_of(address, key, iv),
        ) == address.bytes@,
        EncryptedAddressBytes::encryption_of(other, key, iv)
            == EncryptedAddressBytes::encryption_of(address, key, iv) ==> other == address,
{
    lemma_stream_xor_involution(key.encryption_key@, iv.bytes@, address.bytes@);
    lemma_stream_xor_involution(key.encryption_key@, iv.bytes@, other.bytes@);
    if EncryptedAddressBytes::encryption_of(other, key, iv)
        == EncryptedAddressBytes::encryption_of(address, key, iv) {
        assert(other.bytes@ == address.bytes@);
        assert(other.bytes == address.bytes);
    }
}

} // verus!
