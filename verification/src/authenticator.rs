//! Authentication of a client that shares keys with its gateway already: the
//! client proves that it has the keys by encrypting its own address.

use crate::address::{DestinationAddressBytes, EncryptedAddressBytes};
use crate::bytes::{array_from_seq, lemma_array_from_own_seq};
use crate::errors::{EncodingError, Error, GatewayRequestsError};
use crate::iv::IV;
use crate::primitives::{base58_bytes, base58_text};
use crate::shared_keys::SharedKeys;
use crate::types::{
    advertised_version, ClientControlRequest, ClientControlRequestView, ServerResponse,
    ServerResponseView,
};
use crate::INITIAL_PROTOCOL_VERSION;
use vstd::prelude::*;

verus! {

/// What a client knows once it is authenticated.
#[derive(Debug, Clone, Copy, PartialEq, Eq)]
pub struct Authenticated {
    /// The bandwidth the gateway still grants.
    pub bandwidth_remaining: i64,
    /// The protocol version the gateway answered with; the initial one
    /// where it named none.
    pub protocol_version: u8,
}

/// What an answer to an authentication request means: the client is
/// authenticated by an answer with a true status and a bandwidth that is not
/// negative, and by no other.
pub open spec fn authentication_outcome(response: ServerResponseView) -> Result<
    Authenticated,
    Error,
> {
    match response {
        ServerResponseView::Authenticate { protocol_version, status, bandwidth_remaining } => if status
            && bandwidth_remaining >= 0 {
            Ok(
                Authenticated {
                    bandwidth_remaining,
                    protocol_version: match protocol_version {
                        Some(version) => version,
                        None => INITIAL_PROTOCOL_VERSION,
                    },
                },
            )
        } else {
            Err(Error::AuthFailed)
        },
        _ => Err(Error::AuthFailed),
    }
}

/// The request that authenticates the client at `address` with `iv`: it
/// carries the address, the address encrypted under the shared keys with
/// `iv`, and `iv`, each as base58 text, and advertises the version that goes
/// with the use of credentials.
pub open spec fn authenticate_view(
    address: DestinationAddressBytes,
    shared_key: SharedKeys,
    iv: IV,
    uses_credentials: bool,
) -> ClientControlRequestView {
    ClientControlRequestView::Authenticate {
        protocol_version: Some(advertised_version(uses_credentials)),
        address: base58_text(address.bytes@),
        enc_address: base58_text(EncryptedAddressBytes::encryption_of(address, shared_key, iv)),
        iv: base58_text(iv.bytes@),
    }
}

/// An authentication request of a client that submits no credentials
/// advertises the initial protocol version, whatever the address, the keys and
/// the vector.
pub proof fn lemma_authentication_without_credentials_advertises_initial(
    address: DestinationAddressBytes,
    shared_key: SharedKeys,
    iv: IV,
)
    ensures
        authenticate_view(address, shared_key, iv, false) matches ClientControlRequestView::Authenticate {
            protocol_version,
            ..
        } && protocol_version == Some(INITIAL_PROTOCOL_VERSION),
{
}

/// The request that authenticates the client at `address`, with a vector
/// that is drawn for this request alone; `None` when no randomness is to be
/// had.
pub fn authenticate(
    address: &DestinationAddressBytes,
    shared_key: &SharedKeys,
    uses_credentials: bool,
) -> (request: Option<ClientControlRequest>)
    ensures
        request matches Some(request) ==> exists|iv: IV|
            request@ == #[trigger] authenticate_view(*address, *shared_key, iv, uses_credentials),
{
    match IV::new_random() {
        Some(iv) => Some(authenticate_request(address, shared_key, iv, uses_credentials)),
        None => None,
    }
}

/// The request that authenticates the client at `address` with the vector
/// `iv`, which must not have been used with these keys before.
pub fn authenticate_request(
    address: &DestinationAddressBytes,
    shared_key: &SharedKeys,
    iv: IV,
    uses_credentials: bool,
) -> (request: ClientControlRequest)
    ensures
        request@ == authenticate_view(*address, *shared_key, iv, uses_credentials),
        claim_of(request@) == Ok::<AuthenticateClaim, GatewayRequestsError>(
            AuthenticateClaim {
                address: *address,
                enc_address: EncryptedAddressBytes::new_spec(*address, *shared_key, iv),
                iv,
            },
        ),
        EncryptedAddressBytes::new_spec(*address, *shared_key, iv).bytes@
            == EncryptedAddressBytes::encryption_of(*address, *shared_key, iv),
{
    let enc_address = EncryptedAddressBytes::new(address, shared_key, &iv);
    proof {
        lemma_array_from_own_seq::<32>(address.bytes);
        lemma_array_from_own_seq::<32>(enc_address.bytes);
        lemma_array_from_own_seq::<16>(iv.bytes);
    }
    ClientControlRequest::new_authenticate(*address, enc_address, iv, uses_credentials)
}

/// What an authentication request claims: an address, the address
/// encrypted, and the vector it was encrypted with.
#[derive(Debug, Clone, Copy, PartialEq, Eq)]
pub struct AuthenticateClaim {
    pub address: DestinationAddressBytes,
    pub enc_address: EncryptedAddressBytes,
    pub iv: IV,
}

/// The bytes that a base58 field of `length` bytes stands for, or what is
/// wrong with the field.
pub open spec fn address_field(text: Seq<char>, length: nat) -> Result<
    Seq<u8>,
    GatewayRequestsError,
> {
    match base58_bytes(text) {
        None => Err(
            GatewayRequestsError::IncorrectlyEncodedAddress(EncodingError::MalformedBase58),
        ),
        Some(bytes) => if bytes.len() == length {
            Ok(bytes)
        } else {
            Err(
                GatewayRequestsError::IncorrectlyEncodedAddress(
                    EncodingError::InvalidLength(bytes.len() as usize),
                ),
            )
        },
    }
}

/// What a request claims, where it is an authentication request whose three
/// fields are base58 of the right lengths. The fields are read in the order
/// address, encrypted address, vector, and the first that is wrong is
/// reported.
pub open spec fn claim_of(request: ClientControlRequestView) -> Result<
    AuthenticateClaim,
    GatewayRequestsError,
> {
    match request {
        ClientControlRequestView::Authenticate { address, enc_address, iv, .. } => match address_field(
            address,
            32,
        ) {
            Err(e) => Err(e),
            Ok(address) => match address_field(enc_address, 32) {
                Err(e) => Err(e),
                Ok(enc_address) => match address_field(iv, 16) {
                    Err(e) => Err(e),
                    Ok(iv) => Ok(
                        AuthenticateClaim {
                            address: DestinationAddressBytes {
                                bytes: array_from_seq::<32>(address),
                            },
                            enc_address: EncryptedAddressBytes {
                                bytes: array_from_seq::<32>(enc_address),
                            },
                            iv: IV { bytes: array_from_seq::<16>(iv) },
                        },
                    ),
                },
            },
        },
        _ => Err(GatewayRequestsError::MalformedEncryption),
    }
}

impl AuthenticateClaim {
    /// Whether the claim holds under `shared_key`: the encrypted address is
    /// the address encrypted with the vector.
    pub fn verify(&self, shared_key: &SharedKeys) -> (ok: bool)
        ensures
            ok == (self.enc_address.bytes@ == EncryptedAddressBytes::encryption_of(
                self.address,
                *shared_key,
                self.iv,
            )),
    {
        self.enc_address.verify(&self.address, shared_key, &self.iv)
    }
}

/// Reads what an authentication request claims.
pub fn decode_authenticate(request: &ClientControlRequest) -> (result: Result<
    AuthenticateClaim,
    GatewayRequestsError,
>)
    ensures
        result == claim_of(request@),
{
    match request {
        ClientControlRequest::Authenticate { address, enc_address, iv, .. } => {
            let address = match DestinationAddressBytes::try_from_base58_string(address.as_str()) {
                Ok(address) => address,
                Err(e) => {
                    return Err(GatewayRequestsError::IncorrectlyEncodedAddress(e));
                },
            };
            let enc_address = match EncryptedAddressBytes::try_from_base58_string(
                enc_address.as_str(),
            ) {
                Ok(enc_address) => enc_address,
                Err(e) => {
                    return Err(GatewayRequestsError::IncorrectlyEncodedAddress(e));
                },
            };
            let iv = match IV::try_from_base58_string(iv.as_str()) {
                Ok(iv) => iv,
                Err(e) => {
                    return Err(GatewayRequestsError::IncorrectlyEncodedAddress(e));
                },
            };
            proof {
                lemma_array_from_own_seq::<32>(address.bytes);
                lemma_array_from_own_seq::<32>(enc_address.bytes);
                lemma_array_from_own_seq::<16>(iv.bytes);
            }
            Ok(AuthenticateClaim { address, enc_address, iv })
        },
        _ => Err(GatewayRequestsError::MalformedEncryption),
    }
}

/// Reads the gateway's answer to an authentication request.
pub fn on_authenticate_response(response: &ServerResponse) -> (result: Result<
    Authenticated,
    Error,
>)
    ensures
        result == authentication_outcome(response@),
{
    match response {
        ServerResponse::Authenticate { protocol_version, status, bandwidth_remaining } => {
            if *status && *bandwidth_remaining >= 0 {
                Ok(
                    Authenticated {
                        bandwidth_remaining: *bandwidth_remaining,
                        protocol_version: match protocol_version {
                            Some(version) => *version,
                            None => INITIAL_PROTOCOL_VERSION,
                        },
                    },
                )
            } else {
                Err(Error::AuthFailed)
            }
        },
        _ => Err(Error::AuthFailed),
    }
}

} // verus!
