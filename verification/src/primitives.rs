//! The cryptographic and encoding primitives the protocol is built from.
//!
//! Each primitive is computed by an established implementation and appears in
//! contracts under a name; nothing here is proved about the primitives
//! themselves, only about the code that combines them.

use ctr::cipher::KeyIvInit;
use ctr::cipher::StreamCipher;
use hmac::Mac;
use rand::RngCore;
use sha2::Digest;
use vstd::prelude::*;
use vstd::utf8::{decode_utf8, valid_utf8};

verus! {

/// Length in bytes of an integrity tag.
pub const MAC_SIZE: usize = 32;

/// The HMAC-BLAKE3 tag of `data` under `key`.
pub uninterp spec fn keyed_mac(key: Seq<u8>, data: Seq<u8>) -> [u8; 32];

/// The byte at `position` of the AES-128-CTR keystream (64-bit little-endian
/// counter) for `key` and `iv`.
pub uninterp spec fn keystream(key: Seq<u8>, iv: Seq<u8>, position: int) -> u8;

/// The SHA-256 digest of `data`.
pub uninterp spec fn sha256(data: Seq<u8>) -> [u8; 32];

/// The base58 text (Bitcoin alphabet) of `bytes`.
pub uninterp spec fn base58_text(bytes: Seq<u8>) -> Seq<char>;

/// The bytes that the base58 text `text` stands for, if it is base58 at all.
pub uninterp spec fn base58_bytes(text: Seq<char>) -> Option<Seq<u8>>;

/// `data` with the keystream for `key` and `iv` added bitwise. Encryption and
/// decryption are this same function.
pub open spec fn stream_xor(key: Seq<u8>, iv: Seq<u8>, data: Seq<u8>) -> Seq<u8> {
    Seq::new(data.len(), |i: int| data[i] ^ keystream(key, iv, i))
}

/// Applying the keystream twice gives the data back.
pub proof fn lemma_stream_xor_involution(key: Seq<u8>, iv: Seq<u8>, data: Seq<u8>)
    ensures
        stream_xor(key, iv, stream_xor(key, iv, data)) == data,
{
    let once = stream_xor(key, iv, data);
    let twice = stream_xor(key, iv, once);
    assert forall|i: int| 0 <= i < data.len() implies twice[i] == data[i] by {
        let d = data[i];
        let k = keystream(key, iv, i);
        assert((d ^ k) ^ k == d) by (bit_vector);
    }
    assert(twice =~= data);
}

/// Calls `SimpleHmac::<blake3::Hasher>` of the `hmac` crate: keys it with
/// `key`, feeds it `data` and takes the finished tag. The contract only names
/// that tag.
#[verifier::external_body]
pub(crate) fn compute_keyed_hmac(key: &[u8], data: &[u8]) -> (tag: [u8; 32])
    ensures
        tag == keyed_mac(key@, data@),
{
    let mut mac = hmac::SimpleHmac::<blake3::Hasher>::new_from_slice(key).unwrap();
    mac.update(data);
    mac.finalize().into_bytes().into()
}

/// Calls `Mac::verify_slice` on a `SimpleHmac::<blake3::Hasher>` keyed with
/// `key` and fed `data`: the comparison with `tag` runs in constant time and
/// succeeds exactly when `tag` is the whole tag of `data`.
#[verifier::external_body]
pub(crate) fn recompute_keyed_hmac_and_verify_tag(key: &[u8], data: &[u8], tag: &[u8]) -> (ok:
    bool)
    ensures
        ok == (tag@ == keyed_mac(key@, data@)@),
{
    let mut mac = hmac::SimpleHmac::<blake3::Hasher>::new_from_slice(key).unwrap();
    mac.update(data);
    mac.verify_slice(tag).is_ok()
}

/// Calls `StreamCipher::apply_keystream` of `ctr::Ctr64LE<aes::Aes128>` on a
/// copy of `data`: every byte comes back with the keystream byte of its
/// position added bitwise.
#[verifier::external_body]
pub(crate) fn apply_keystream(key: &[u8; 16], iv: &[u8; 16], data: &[u8]) -> (out: Vec<u8>)
    ensures
        out@.len() == data@.len(),
        forall|i: int| 0 <= i < data@.len() ==> out@[i] == data@[i] ^ keystream(key@, iv@, i),
{
    let mut out = data.to_vec();
    let mut cipher = ctr::Ctr64LE::<aes::Aes128>::new(key.into(), iv.into());
    cipher.apply_keystream(&mut out);
    out
}

/// Calls `Sha256::digest` of the `sha2` crate. The contract only names the
/// digest.
#[verifier::external_body]
pub(crate) fn sha256_digest(data: &[u8]) -> (digest: [u8; 32])
    ensures
        digest == sha256(data@),
{
    sha2::Sha256::digest(data).into()
}

/// Calls `bs58::encode(..).into_string()`. The contract names the text and
/// records that the text stands for the bytes it was made from.
#[verifier::external_body]
pub(crate) fn base58_encode(bytes: &[u8]) -> (text: String)
    ensures
        text@ == base58_text(bytes@),
        base58_bytes(text@) == Some(bytes@),
{
    bs58::encode(bytes).into_string()
}

/// Calls `bs58::decode(..).into_vec()` and drops the reason of a failure.
#[verifier::external_body]
pub(crate) fn base58_decode(text: &str) -> (bytes: Option<Vec<u8>>)
    ensures
        match bytes {
            Some(b) => base58_bytes(text@) == Some(b@),
            None => base58_bytes(text@) is None,
        },
{
    bs58::decode(text).into_vec().ok()
}

/// Calls `try_fill_bytes` of `rand::rngs::OsRng` on sixteen bytes; `None` when
/// the operating system gave no randomness. Nothing is known of the bytes.
#[verifier::external_body]
pub(crate) fn random_block() -> (block: Option<[u8; 16]>)
{
    let mut block = [0u8; 16];
    rand::rngs::OsRng.try_fill_bytes(&mut block).ok().map(|_| block)
}


/// Calls `String::from_utf8` and drops the reason of a failure: the text is
/// there exactly when the bytes are valid UTF-8, and it is what they decode
/// to.
#[verifier::external_body]
pub(crate) fn string_from_utf8(bytes: Vec<u8>) -> (text: Option<String>)
    ensures
        match text {
            Some(s) => valid_utf8(bytes@) && s@ == decode_utf8(bytes@),
            None => !valid_utf8(bytes@),
        },
{
    String::from_utf8(bytes).ok()
}


/// Whether `text` is a URL.
pub uninterp spec fn url_parses(text: Seq<char>) -> bool;

/// Calls `url::Url::parse` and keeps only whether it succeeded. The contract
/// only names that.
#[verifier::external_body]
pub(crate) fn is_url(text: &str) -> (ok: bool)
    ensures
        ok == url_parses(text@),
{
    url::Url::parse(text).is_ok()
}

} // verus!
