//! The keys a client shares with its gateway, and the authenticated envelope
//! they put around every encrypted frame: the integrity tag of the ciphertext,
//! then the ciphertext.

use crate::bytes::{append_bytes, copy_range, take_16};
use crate::errors::{EncodingError, GatewayRequestsError};
use crate::iv::{iv_or_zero, IV};
use crate::primitives::{
    apply_keystream, base58_bytes, base58_decode, base58_encode, base58_text, compute_keyed_hmac,
    keyed_mac, lemma_stream_xor_involution, recompute_keyed_hmac_and_verify_tag, stream_xor,
    MAC_SIZE,
};
use vstd::prelude::*;

verus! {

/// Length in bytes of the two keys together.
pub const SHARED_KEY_SIZE: usize = 32;

/// The pair of keys derived when a client registers with a gateway.
#[derive(Debug, Clone, Copy, PartialEq, Eq)]
pub struct SharedKeys {
    pub encryption_key: [u8; 16],
    pub mac_key: [u8; 16],
}

impl SharedKeys {
    /// The frame that carries `data`: the tag of the ciphertext, then the
    /// ciphertext made with the keystream of `iv`.
    pub open spec fn sealed(&self, iv: Seq<u8>, data: Seq<u8>) -> Seq<u8> {
        let ciphertext = stream_xor(self.encryption_key@, iv, data);
        keyed_mac(self.mac_key@, ciphertext)@ + ciphertext
    }

    /// What a frame holds: its tag is checked first, and only a frame with
    /// the right tag is decrypted.
    pub open spec fn opened(&self, iv: Seq<u8>, frame: Seq<u8>) -> Result<
        Seq<u8>,
        GatewayRequestsError,
    > {
        if frame.len() < MAC_SIZE {
            Err(GatewayRequestsError::TooShortRequest)
        } else {
            let tag = frame.subrange(0, MAC_SIZE as int);
            let ciphertext = frame.subrange(MAC_SIZE as int, frame.len() as int);
            if tag != keyed_mac(self.mac_key@, ciphertext)@ {
                Err(GatewayRequestsError::InvalidMac)
            } else {
                Ok(stream_xor(self.encryption_key@, iv, ciphertext))
            }
        }
    }

    /// The keys made of `bytes`: the encryption key, then the integrity key.
    pub fn try_from_bytes(bytes: &[u8]) -> (result: Result<SharedKeys, EncodingError>)
        ensures
            match result {
                Ok(keys) => keys.encryption_key@ + keys.mac_key@ == bytes@,
                Err(EncodingError::InvalidLength(n)) => n == bytes@.len() && n != 32,
                Err(EncodingError::MalformedBase58) => false,
            },
    {
        if bytes.len() != SHARED_KEY_SIZE {
            return Err(EncodingError::InvalidLength(bytes.len()));
        }
        let keys = SharedKeys { encryption_key: take_16(bytes, 0), mac_key: take_16(bytes, 16) };
        assert(keys.encryption_key@ + keys.mac_key@ =~= bytes@);
        Ok(keys)
    }

    /// The encryption key, then the integrity key.
    pub fn to_bytes(&self) -> (bytes: Vec<u8>)
        ensures
            bytes@ == self.encryption_key@ + self.mac_key@,
    {
        let mut out = copy_range(self.encryption_key.as_slice(), 0, 16);
        assert(self.encryption_key@.subrange(0, 16) =~= self.encryption_key@);
        append_bytes(&mut out, self.mac_key.as_slice());
        out
    }

    /// The keys whose base58 text is `text`.
    pub fn try_from_base58_string(text: &str) -> (result: Result<SharedKeys, EncodingError>)
        ensures
            match result {
                Ok(keys) => base58_bytes(text@) == Some(keys.encryption_key@ + keys.mac_key@),
                Err(EncodingError::MalformedBase58) => base58_bytes(text@) is None,
                Err(EncodingError::InvalidLength(n)) => base58_bytes(text@) matches Some(b) && b.len()
                    != 32 && n == b.len(),
            },
    {
        match base58_decode(text) {
            None => Err(EncodingError::MalformedBase58),
            Some(bytes) => SharedKeys::try_from_bytes(bytes.as_slice()),
        }
    }

    /// The base58 text of the keys; `try_from_base58_string` reads it back.
    pub fn to_base58_string(&self) -> (text: String)
        ensures
            text@ == base58_text(self.encryption_key@ + self.mac_key@),
            base58_bytes(text@) == Some(self.encryption_key@ + self.mac_key@),
    {
        let bytes = self.to_bytes();
        base58_encode(bytes.as_slice())
    }

    /// The key of the stream cipher.
    pub fn encryption_key(&self) -> (key: &[u8; 16])
        ensures
            *key == self.encryption_key,
    {
        &self.encryption_key
    }

    /// The key of the integrity tag.
    pub fn mac_key(&self) -> (key: &[u8; 16])
        ensures
            *key == self.mac_key,
    {
        &self.mac_key
    }

    /// Encrypts `data` with the keystream of `iv`, or of the zero vector where
    /// none is given, and puts the integrity tag of the ciphertext in front.
    pub fn encrypt_and_tag(&self, data: &[u8], iv: Option<&IV>) -> (frame: Vec<u8>)
        ensures
            frame@ == self.sealed(iv_or_zero(iv), data@),
    {
        let zero = IV::zero();
        let iv_bytes: &[u8; 16] = match iv {
            Some(iv) => iv.inner(),
            None => zero.inner(),
        };
        let ciphertext = apply_keystream(&self.encryption_key, iv_bytes, data);
        assert(ciphertext@ =~= stream_xor(self.encryption_key@, iv_or_zero(iv), data@));
        let tag = compute_keyed_hmac(self.mac_key.as_slice(), ciphertext.as_slice());
        let mut frame = copy_range(tag.as_slice(), 0, MAC_SIZE);
        assert(tag@.subrange(0, 32) =~= tag@);
        append_bytes(&mut frame, ciphertext.as_slice());
        frame
    }

    /// Checks the integrity tag of `enc_data` in constant time and, if it is
    /// right, decrypts what follows it with the keystream of `iv`, or of the
    /// zero vector where none is given.
    pub fn decrypt_tagged(&self, enc_data: &[u8], iv: Option<&IV>) -> (result: Result<
        Vec<u8>,
        GatewayRequestsError,
    >)
        ensures
            match result {
                Ok(data) => self.opened(iv_or_zero(iv), enc_data@) == Ok::<
                    Seq<u8>,
                    GatewayRequestsError,
                >(data@),
                Err(e) => self.opened(iv_or_zero(iv), enc_data@) == Err::<
                    Seq<u8>,
                    GatewayRequestsError,
                >(e),
            },
    {
        if enc_data.len() < MAC_SIZE {
            return Err(GatewayRequestsError::TooShortRequest);
        }
        let tag = copy_range(enc_data, 0, MAC_SIZE);
        let ciphertext = copy_range(enc_data, MAC_SIZE, enc_data.len());
        if !recompute_keyed_hmac_and_verify_tag(
            self.mac_key.as_slice(),
            ciphertext.as_slice(),
            tag.as_slice(),
        ) {
            return Err(GatewayRequestsError::InvalidMac);
        }
        let zero = IV::zero();
        let iv_bytes: &[u8; 16] = match iv {
            Some(iv) => iv.inner(),
            None => zero.inner(),
        };
        let data = apply_keystream(&self.encryption_key, iv_bytes, ciphertext.as_slice());
        assert(data@ =~= stream_xor(self.encryption_key@, iv_or_zero(iv), ciphertext@));
        Ok(data)
    }
}

/// A sealed frame is its tag followed by as many bytes as the data had.
pub proof fn lemma_sealed_layout(keys: SharedKeys, iv: Seq<u8>, data: Seq<u8>)
    ensures
        keys.sealed(iv, data).len() == MAC_SIZE + data.len(),
        keys.sealed(iv, data).subrange(0, MAC_SIZE as int) == keyed_mac(
            keys.mac_key@,
            stream_xor(keys.encryption_key@, iv, data),
        )@,
        keys.sealed(iv, data).subrange(MAC_SIZE as int, MAC_SIZE + data.len()) == stream_xor(
            keys.encryption_key@,
            iv,
            data,
        ),
{
    let ciphertext = stream_xor(keys.encryption_key@, iv, data);
    let tag = keyed_mac(keys.mac_key@, ciphertext)@;
    let frame = keys.sealed(iv, data);
    assert(frame.subrange(0, MAC_SIZE as int) =~= tag);
    assert(frame.subrange(MAC_SIZE as int, MAC_SIZE + data.len()) =~= ciphertext);
}

/// Opening a sealed frame with the keys and the vector it was sealed with
/// gives the data back, whatever the data.
pub proof fn lemma_seal_open_roundtrip(keys: SharedKeys, iv: Seq<u8>, data: Seq<u8>)
    ensures
        keys.opened(iv, keys.sealed(iv, data)) == Ok::<Seq<u8>, GatewayRequestsError>(data),
{
    lemma_sealed_layout(keys, iv, data);
    lemma_stream_xor_involution(keys.encryption_key@, iv, data);
}

/// A frame that differs from a sealed one in a byte of its tag, and nowhere
/// else, is refused for its tag.
pub proof fn lemma_tampered_tag_is_refused(
    keys: SharedKeys,
    iv: Seq<u8>,
    data: Seq<u8>,
    position: int,
    byte: u8,
)
    requires
        0 <= position < MAC_SIZE,
        byte != keys.sealed(iv, data)[position],
    ensures
        keys.opened(iv, keys.sealed(iv, data).update(position, byte)) == Err::<
            Seq<u8>,
            GatewayRequestsError,
        >(GatewayRequestsError::InvalidMac),
{
    lemma_sealed_layout(keys, iv, data);
    let frame = keys.sealed(iv, data);
    let tampered = frame.update(position, byte);
    assert(tampered.subrange(MAC_SIZE as int, tampered.len() as int) =~= frame.subrange(
        MAC_SIZE as int,
        frame.len() as int,
    ));
    assert(tampered.subrange(0, MAC_SIZE as int)[position] == byte);
    assert(frame.subrange(0, MAC_SIZE as int)[position] == frame[position]);
}

/// A frame that differs from a sealed one in a byte of its ciphertext is
/// refused for its tag, unless the changed ciphertext happens to have the
/// very tag of the original one.
pub proof fn lemma_tampered_ciphertext_is_refused(
    keys: SharedKeys,
    iv: Seq<u8>,
    data: Seq<u8>,
    position: int,
    byte: u8,
)
    requires
        MAC_SIZE <= position < MAC_SIZE + data.len(),
        byte != keys.sealed(iv, data)[position],
        keyed_mac(
            keys.mac_key@,
            stream_xor(keys.encryption_key@, iv, data).update(position - MAC_SIZE, byte),
        ) != keyed_mac(keys.mac_key@, stream_xor(keys.encryption_key@, iv, data)),
    ensures
        keys.opened(iv, keys.sealed(iv, data).update(position, byte)) == Err::<
            Seq<u8>,
            GatewayRequestsError,
        >(GatewayRequestsError::InvalidMac),
{
    lemma_sealed_layout(keys, iv, data);
    let ciphertext = stream_xor(keys.encryption_key@, iv, data);
    let frame = keys.sealed(iv, data);
    let tampered = frame.update(position, byte);
    assert(tampered.subrange(MAC_SIZE as int, tampered.len() as int) =~= ciphertext.update(
        position - MAC_SIZE,
        byte,
    ));
    assert(tampered.subrange(0, MAC_SIZE as int) =~= frame.subrange(0, MAC_SIZE as int));
    let new_tag = keyed_mac(keys.mac_key@, ciphertext.update(position - MAC_SIZE, byte));
    let old_tag = keyed_mac(keys.mac_key@, ciphertext);
    if new_tag@ == old_tag@ {
        assert(new_tag == old_tag);
    }
}

} // verus!
