//! The frames of the gateway protocol: textual control requests and
//! responses, and the binary frames that carry mix packets.

use crate::address::{DestinationAddressBytes, EncryptedAddressBytes};
use crate::credential::{
    lemma_v1_credential_roundtrip, lemma_v2_credential_roundtrip, CredentialSpendingData,
    CredentialSpendingRequest, CredentialSpendingView, OldV1Credential, OldV1CredentialView,
};
use crate::errors::GatewayRequestsError;
use crate::iv::{zero_iv, IV};
use crate::packet::{lemma_mix_packet_roundtrip, MixPacket, MixPacketView, PacketSize};
use crate::primitives::{base58_bytes, base58_text};
use crate::shared_keys::{lemma_seal_open_roundtrip, SharedKeys};
use crate::{CURRENT_PROTOCOL_VERSION, INITIAL_PROTOCOL_VERSION};
use vstd::prelude::*;

verus! {

/// The protocol version a client advertises: the current one if it is going
/// to submit credentials, the initial one, which every gateway accepts, if it
/// is not.
pub open spec fn advertised_version(uses_credentials: bool) -> u8 {
    if uses_credentials {
        CURRENT_PROTOCOL_VERSION
    } else {
        INITIAL_PROTOCOL_VERSION
    }
}

/// The protocol version a client advertises.
pub fn protocol_version_for(uses_credentials: bool) -> (version: u8)
    ensures
        version == advertised_version(uses_credentials),
        !uses_credentials ==> version == INITIAL_PROTOCOL_VERSION && version
            != CURRENT_PROTOCOL_VERSION,
{
    if uses_credentials {
        CURRENT_PROTOCOL_VERSION
    } else {
        INITIAL_PROTOCOL_VERSION
    }
}

/// A client that submits no credentials never advertises the current
/// version.
pub proof fn lemma_current_version_needs_credentials(uses_credentials: bool)
    ensures
        advertised_version(uses_credentials) == CURRENT_PROTOCOL_VERSION ==> uses_credentials,
        !uses_credentials ==> advertised_version(uses_credentials) == INITIAL_PROTOCOL_VERSION,
{
}

/// A message of the registration handshake.
#[derive(Debug, Clone, PartialEq, Eq)]
pub enum RegistrationHandshake {
    HandshakePayload { protocol_version: Option<u8>, data: Vec<u8> },
    HandshakeError { message: String },
}

/// A message of the registration handshake as a mathematical value.
pub enum RegistrationHandshakeView {
    HandshakePayload { protocol_version: Option<u8>, data: Seq<u8> },
    HandshakeError { message: Seq<char> },
}

impl View for RegistrationHandshake {
    type V = RegistrationHandshakeView;

    open spec fn view(&self) -> RegistrationHandshakeView {
        match self {
            RegistrationHandshake::HandshakePayload { protocol_version, data } =>
                RegistrationHandshakeView::HandshakePayload {
                    protocol_version: *protocol_version,
                    data: data@,
                },
            RegistrationHandshake::HandshakeError { message } =>
                RegistrationHandshakeView::HandshakeError { message: message@ },
        }
    }
}

impl RegistrationHandshake {
    /// A payload message that carries `data` and advertises the version that
    /// goes with the use of credentials.
    pub fn new_payload(data: Vec<u8>, will_use_credentials: bool) -> (message: Self)
        ensures
            message@ == (RegistrationHandshakeView::HandshakePayload {
                protocol_version: Some(advertised_version(will_use_credentials)),
                data: data@,
            }),
    {
        let protocol_version = Some(protocol_version_for(will_use_credentials));
        RegistrationHandshake::HandshakePayload { protocol_version, data }
    }

    /// An error message that says `message`.
    pub fn new_error(message: &str) -> (error: Self)
        ensures
            error@ == (RegistrationHandshakeView::HandshakeError { message: message@ }),
    {
        RegistrationHandshake::HandshakeError { message: message.to_string() }
    }
}

/// A request that a client sends to its gateway as text.
#[derive(Debug, Clone, PartialEq, Eq)]
#[allow(inconsistent_fields)]
pub enum ClientControlRequest {
    Authenticate { protocol_version: Option<u8>, address: String, enc_address: String, iv: String },
    RegisterHandshakeInitRequest { protocol_version: Option<u8>, data: Vec<u8> },
    BandwidthCredential { enc_credential: Vec<u8>, iv: Vec<u8> },
    BandwidthCredentialV2 { enc_credential: Vec<u8>, iv: Vec<u8> },
    ClaimFreeTestnetBandwidth,
}

/// A control request as a mathematical value.
#[allow(inconsistent_fields)]
pub enum ClientControlRequestView {
    Authenticate {
        protocol_version: Option<u8>,
        address: Seq<char>,
        enc_address: Seq<char>,
        iv: Seq<char>,
    },
    RegisterHandshakeInitRequest { protocol_version: Option<u8>, data: Seq<u8> },
    BandwidthCredential { enc_credential: Seq<u8>, iv: Seq<u8> },
    BandwidthCredentialV2 { enc_credential: Seq<u8>, iv: Seq<u8> },
    ClaimFreeTestnetBandwidth,
}

impl View for ClientControlRequest {
    type V = ClientControlRequestView;

    open spec fn view(&self) -> ClientControlRequestView {
        match self {
            ClientControlRequest::Authenticate { protocol_version, address, enc_address, iv } =>
                ClientControlRequestView::Authenticate {
                    protocol_version: *protocol_version,
                    address: address@,
                    enc_address: enc_address@,
                    iv: iv@,
                },
            ClientControlRequest::RegisterHandshakeInitRequest { protocol_version, data } =>
                ClientControlRequestView::RegisterHandshakeInitRequest {
                    protocol_version: *protocol_version,
                    data: data@,
                },
            ClientControlRequest::BandwidthCredential { enc_credential, iv } =>
                ClientControlRequestView::BandwidthCredential {
                    enc_credential: enc_credential@,
                    iv: iv@,
                },
            ClientControlRequest::BandwidthCredentialV2 { enc_credential, iv } =>
                ClientControlRequestView::BandwidthCredentialV2 {
                    enc_credential: enc_credential@,
                    iv: iv@,
                },
            ClientControlRequest::ClaimFreeTestnetBandwidth =>
                ClientControlRequestView::ClaimFreeTestnetBandwidth,
        }
    }
}

/// What the encrypted credential of a first-format submission holds.
pub open spec fn opened_credential_v1(enc_credential: Seq<u8>, shared_key: SharedKeys, iv: IV)
    -> Result<OldV1CredentialView, GatewayRequestsError> {
    match shared_key.opened(iv.bytes@, enc_credential) {
        Err(e) => Err(e),
        Ok(bytes) => match OldV1CredentialView::decoded(bytes) {
            Ok(credential) => Ok(credential),
            Err(_) => Err(GatewayRequestsError::MalformedEncryption),
        },
    }
}

/// What the encrypted credential of a second-format submission holds.
pub open spec fn opened_credential_v2(enc_credential: Seq<u8>, shared_key: SharedKeys, iv: IV)
    -> Result<CredentialSpendingView, GatewayRequestsError> {
    match shared_key.opened(iv.bytes@, enc_credential) {
        Err(e) => Err(e),
        Ok(bytes) => match CredentialSpendingView::decoded(bytes) {
            Ok(credential) => Ok(credential),
            Err(_) => Err(GatewayRequestsError::MalformedEncryption),
        },
    }
}

impl ClientControlRequest {
    /// The request that authenticates the client at `address`: the address,
    /// its encryption and the vector it was encrypted with, each as base58
    /// text, and the version that goes with the use of credentials.
    pub fn new_authenticate(
        address: DestinationAddressBytes,
        enc_address: EncryptedAddressBytes,
        iv: IV,
        uses_credentials: bool,
    ) -> (request: Self)
        ensures
            request@ == (ClientControlRequestView::Authenticate {
                protocol_version: Some(advertised_version(uses_credentials)),
                address: base58_text(address.bytes@),
                enc_address: base58_text(enc_address.bytes@),
                iv: base58_text(iv.bytes@),
            }),
            base58_bytes(base58_text(address.bytes@)) == Some(address.bytes@),
            base58_bytes(base58_text(enc_address.bytes@)) == Some(enc_address.bytes@),
            base58_bytes(base58_text(iv.bytes@)) == Some(iv.bytes@),
    {
        let protocol_version = Some(protocol_version_for(uses_credentials));
        ClientControlRequest::Authenticate {
            protocol_version,
            address: address.as_base58_string(),
            enc_address: enc_address.to_base58_string(),
            iv: iv.to_base58_string(),
        }
    }

    /// The request that submits a credential of the first format, encrypted
    /// and tagged under `shared_key` with `iv`, which travels beside it.
    pub fn new_enc_coconut_bandwidth_credential_v1(
        credential: &OldV1Credential,
        shared_key: &SharedKeys,
        iv: IV,
    ) -> (request: Self)
        ensures
            request@ == (ClientControlRequestView::BandwidthCredential {
                enc_credential: shared_key.sealed(iv.bytes@, credential@.encoded()),
                iv: iv.bytes@,
            }),
    {
        let serialized_credential = credential.as_bytes();
        let enc_credential = shared_key.encrypt_and_tag(
            serialized_credential.as_slice(),
            Some(&iv),
        );
        ClientControlRequest::BandwidthCredential { enc_credential, iv: iv.to_bytes() }
    }

    /// Checks, decrypts and reads the credential of a first-format
    /// submission. A frame that is too short or has the wrong tag is
    /// reported as such; bytes that decrypt to no credential are malformed
    /// encryption.
    pub fn try_from_enc_coconut_bandwidth_credential_v1(
        enc_credential: Vec<u8>,
        shared_key: &SharedKeys,
        iv: IV,
    ) -> (result: Result<OldV1Credential, GatewayRequestsError>)
        ensures
            match result {
                Ok(credential) => opened_credential_v1(enc_credential@, *shared_key, iv) == Ok::<
                    OldV1CredentialView,
                    GatewayRequestsError,
                >(credential@),
                Err(e) => opened_credential_v1(enc_credential@, *shared_key, iv) == Err::<
                    OldV1CredentialView,
                    GatewayRequestsError,
                >(e),
            },
    {
        let credential_bytes = match shared_key.decrypt_tagged(enc_credential.as_slice(), Some(&iv)) {
            Ok(bytes) => bytes,
            Err(e) => {
                return Err(e);
            },
        };
        match OldV1Credential::from_bytes(credential_bytes.as_slice()) {
            Ok(credential) => Ok(credential),
            Err(_) => Err(GatewayRequestsError::MalformedEncryption),
        }
    }

    /// The request that submits a credential of the second format, encrypted
    /// and tagged under `shared_key` with `iv`, which travels beside it.
    pub fn new_enc_coconut_bandwidth_credential_v2(
        credential: CredentialSpendingData,
        shared_key: &SharedKeys,
        iv: IV,
    ) -> (request: Self)
        ensures
            request@ == (ClientControlRequestView::BandwidthCredentialV2 {
                enc_credential: shared_key.sealed(iv.bytes@, credential@.encoded()),
                iv: iv.bytes@,
            }),
    {
        let cred = CredentialSpendingRequest::new(credential);
        let serialized_credential = cred.to_bytes();
        let enc_credential = shared_key.encrypt_and_tag(
            serialized_credential.as_slice(),
            Some(&iv),
        );
        ClientControlRequest::BandwidthCredentialV2 { enc_credential, iv: iv.to_bytes() }
    }

    /// Checks, decrypts and reads the credential of a second-format
    /// submission. A frame that is too short or has the wrong tag is
    /// reported as such; bytes that decrypt to no credential are malformed
    /// encryption.
    pub fn try_from_enc_coconut_bandwidth_credential_v2(
        enc_credential: Vec<u8>,
        shared_key: &SharedKeys,
        iv: IV,
    ) -> (result: Result<CredentialSpendingRequest, GatewayRequestsError>)
        ensures
            match result {
                Ok(credential) => opened_credential_v2(enc_credential@, *shared_key, iv) == Ok::<
                    CredentialSpendingView,
                    GatewayRequestsError,
                >(credential@),
                Err(e) => opened_credential_v2(enc_credential@, *shared_key, iv) == Err::<
                    CredentialSpendingView,
                    GatewayRequestsError,
                >(e),
            },
    {
        let credential_bytes = match shared_key.decrypt_tagged(enc_credential.as_slice(), Some(&iv)) {
            Ok(bytes) => bytes,
            Err(e) => {
                return Err(e);
            },
        };
        match CredentialSpendingRequest::try_from_bytes(credential_bytes.as_slice()) {
            Ok(credential) => Ok(credential),
            Err(_) => Err(GatewayRequestsError::MalformedEncryption),
        }
    }
}

/// A submitted credential of either format is read back with the keys and
/// the vector it was encrypted with.
pub proof fn lemma_credential_submission_roundtrip(
    v1: OldV1CredentialView,
    v2: CredentialSpendingView,
    shared_key: SharedKeys,
    iv: IV,
)
    requires
        v1.body.well_formed(),
        v2.body.well_formed(),
    ensures
        opened_credential_v1(shared_key.sealed(iv.bytes@, v1.encoded()), shared_key, iv) == Ok::<
            OldV1CredentialView,
            GatewayRequestsError,
        >(v1),
        opened_credential_v2(shared_key.sealed(iv.bytes@, v2.encoded()), shared_key, iv) == Ok::<
            CredentialSpendingView,
            GatewayRequestsError,
        >(v2),
{
    lemma_seal_open_roundtrip(shared_key, iv.bytes@, v1.encoded());
    lemma_seal_open_roundtrip(shared_key, iv.bytes@, v2.encoded());
    lemma_v1_credential_roundtrip(v1);
    lemma_v2_credential_roundtrip(v2);
}

/// A response that a gateway sends to a client as text.
#[derive(Debug, Clone, PartialEq, Eq)]
pub enum ServerResponse {
    Authenticate { protocol_version: Option<u8>, status: bool, bandwidth_remaining: i64 },
    Register { protocol_version: Option<u8>, status: bool },
    Bandwidth { available_total: i64 },
    Send { remaining_bandwidth: i64 },
    Error { message: String },
}

/// A response as a mathematical value.
pub enum ServerResponseView {
    Authenticate { protocol_version: Option<u8>, status: bool, bandwidth_remaining: i64 },
    Register { protocol_version: Option<u8>, status: bool },
    Bandwidth { available_total: i64 },
    Send { remaining_bandwidth: i64 },
    Error { message: Seq<char> },
}

impl View for ServerResponse {
    type V = ServerResponseView;

    open spec fn view(&self) -> ServerResponseView {
        match self {
            ServerResponse::Authenticate { protocol_version, status, bandwidth_remaining } =>
                ServerResponseView::Authenticate {
                    protocol_version: *protocol_version,
                    status: *status,
                    bandwidth_remaining: *bandwidth_remaining,
                },
            ServerResponse::Register { protocol_version, status } => ServerResponseView::Register {
                protocol_version: *protocol_version,
                status: *status,
            },
            ServerResponse::Bandwidth { available_total } => ServerResponseView::Bandwidth {
                available_total: *available_total,
            },
            ServerResponse::Send { remaining_bandwidth } => ServerResponseView::Send {
                remaining_bandwidth: *remaining_bandwidth,
            },
            ServerResponse::Error { message } => ServerResponseView::Error { message: message@ },
        }
    }
}

impl ServerResponseView {
    /// Whether the response reports an error.
    pub open spec fn is_error(self) -> bool {
        self is Error
    }

    /// Whether the response says that the client is now authenticated: an
    /// authentication with a true status and a bandwidth that is not
    /// negative, or a registration with a true status.
    pub open spec fn implies_successful_authentication(self) -> bool {
        match self {
            ServerResponseView::Authenticate { status, bandwidth_remaining, .. } => status
                && bandwidth_remaining >= 0,
            ServerResponseView::Register { status, .. } => status,
            _ => false,
        }
    }
}

impl ServerResponse {
    /// An error response that says `msg`.
    pub fn new_error(msg: &str) -> (response: Self)
        ensures
            response@ == (ServerResponseView::Error { message: msg@ }),
    {
        ServerResponse::Error { message: msg.to_string() }
    }

    /// Whether the response reports an error.
    pub fn is_error(&self) -> (error: bool)
        ensures
            error == self@.is_error(),
    {
        match self {
            ServerResponse::Error { .. } => true,
            _ => false,
        }
    }

    /// Whether the response says that the client is now authenticated.
    pub fn implies_successful_authentication(&self) -> (authenticated: bool)
        ensures
            authenticated == self@.implies_successful_authentication(),
    {
        match self {
            ServerResponse::Authenticate { status, bandwidth_remaining, .. } => *status
                && *bandwidth_remaining >= 0,
            ServerResponse::Register { status, .. } => *status,
            _ => false,
        }
    }
}

/// A frame as the transport carries it.
#[derive(Debug, Clone, PartialEq, Eq)]
pub enum Message {
    Text(String),
    Binary(Vec<u8>),
}

/// A transport frame as a mathematical value.
pub enum MessageView {
    Text(Seq<char>),
    Binary(Seq<u8>),
}

impl View for Message {
    type V = MessageView;

    open spec fn view(&self) -> MessageView {
        match self {
            Message::Text(text) => MessageView::Text(text@),
            Message::Binary(bytes) => MessageView::Binary(bytes@),
        }
    }
}

/// A request that a client sends to its gateway as an encrypted binary frame.
/// Forwarding a sphinx packet is the only one: a sphinx packet is random
/// enough in itself to be encrypted with the zero vector, which nothing else
/// may be.
#[derive(Debug, Clone, PartialEq, Eq)]
pub enum BinaryRequest {
    ForwardSphinx(MixPacket),
}

impl BinaryRequest {
    /// The mix packet of the request.
    pub open spec fn mix_packet(&self) -> MixPacketView {
        match self {
            BinaryRequest::ForwardSphinx(mix_packet) => mix_packet@,
        }
    }

    /// The frame of a request to forward `mix_packet`: its bytes sealed with
    /// the zero vector.
    pub open spec fn frame_of(mix_packet: MixPacketView, shared_key: SharedKeys) -> Seq<u8> {
        shared_key.sealed(zero_iv(), mix_packet.encoded())
    }

    /// The mix packet that a frame asks to forward.
    pub open spec fn request_of(frame: Seq<u8>, shared_keys: SharedKeys) -> Result<
        MixPacketView,
        GatewayRequestsError,
    > {
        match shared_keys.opened(zero_iv(), frame) {
            Err(e) => Err(e),
            Ok(bytes) => match MixPacketView::decoded(bytes) {
                Ok(mix_packet) => Ok(mix_packet),
                Err(e) => Err(GatewayRequestsError::InvalidMixPacket(e)),
            },
        }
    }

    /// Checks the tag of a frame, decrypts it with the zero vector and reads
    /// the mix packet in it.
    pub fn try_from_encrypted_tagged_bytes(raw_req: Vec<u8>, shared_keys: &SharedKeys) -> (result:
        Result<Self, GatewayRequestsError>)
        ensures
            match result {
                Ok(request) => Self::request_of(raw_req@, *shared_keys) == Ok::<
                    MixPacketView,
                    GatewayRequestsError,
                >(request.mix_packet()),
                Err(e) => Self::request_of(raw_req@, *shared_keys) == Err::<
                    MixPacketView,
                    GatewayRequestsError,
                >(e),
            },
    {
        let message_bytes = match shared_keys.decrypt_tagged(raw_req.as_slice(), None) {
            Ok(bytes) => bytes,
            Err(e) => {
                return Err(e);
            },
        };
        match MixPacket::try_from_bytes(message_bytes.as_slice()) {
            Ok(mix_packet) => Ok(BinaryRequest::ForwardSphinx(mix_packet)),
            Err(e) => Err(GatewayRequestsError::InvalidMixPacket(e)),
        }
    }

    /// The frame of the request. The packet must be one that can be written,
    /// which is to say that its data has one of the packet sizes: a request
    /// for any other packet is a fault of the caller, and no frame is made of
    /// it.
    pub fn into_encrypted_tagged_bytes(self, shared_key: &SharedKeys) -> (frame: Vec<u8>)
        requires
            self.mix_packet().well_formed(),
        ensures
            frame@ == Self::frame_of(self.mix_packet(), *shared_key),
    {
        match self {
            BinaryRequest::ForwardSphinx(mix_packet) => {
                let forwarding_data = match mix_packet.into_bytes() {
                    Ok(bytes) => bytes,
                    Err(_) => vstd::pervasive::unreached(),
                };
                shared_key.encrypt_and_tag(forwarding_data.as_slice(), None)
            },
        }
    }

    /// The request to forward `mix_packet`.
    pub fn new_forward_request(mix_packet: MixPacket) -> (request: BinaryRequest)
        ensures
            request == BinaryRequest::ForwardSphinx(mix_packet),
    {
        BinaryRequest::ForwardSphinx(mix_packet)
    }

    /// The binary transport frame of the request, whose packet must be one
    /// that can be written.
    pub fn into_ws_message(self, shared_key: &SharedKeys) -> (message: Message)
        requires
            self.mix_packet().well_formed(),
        ensures
            message@ == MessageView::Binary(Self::frame_of(self.mix_packet(), *shared_key)),
    {
        Message::Binary(self.into_encrypted_tagged_bytes(shared_key))
    }
}

/// The frame of a request to forward a well-formed packet gives that packet
/// back when it is read with the keys it was made with.
pub proof fn lemma_binary_request_roundtrip(mix_packet: MixPacketView, shared_key: SharedKeys)
    requires
        mix_packet.well_formed(),
    ensures
        BinaryRequest::request_of(BinaryRequest::frame_of(mix_packet, shared_key), shared_key)
            == Ok::<MixPacketView, GatewayRequestsError>(mix_packet),
{
    lemma_seal_open_roundtrip(shared_key, zero_iv(), mix_packet.encoded());
    lemma_mix_packet_roundtrip(mix_packet);
}

/// What a gateway sends to a client as an encrypted binary frame: a message
/// that came out of the mix network.
#[derive(Debug, Clone, PartialEq, Eq)]
pub enum BinaryResponse {
    PushedMixMessage(Vec<u8>),
}

impl BinaryResponse {
    /// The message of the response.
    pub open spec fn message(&self) -> Seq<u8> {
        match self {
            BinaryResponse::PushedMixMessage(message) => message@,
        }
    }

    /// The message that a frame pushes. The tag is checked first; a frame
    /// with the right tag is decrypted with the zero vector; and what comes
    /// out must have one of the packet sizes, or it is refused with its
    /// length.
    pub open spec fn response_of(frame: Seq<u8>, shared_keys: SharedKeys) -> Result<
        Seq<u8>,
        GatewayRequestsError,
    > {
        match shared_keys.opened(zero_iv(), frame) {
            Err(e) => Err(e),
            Ok(message) => if PacketSize::of_length(message.len()) is Some {
                Ok(message)
            } else {
                Err(GatewayRequestsError::RequestOfInvalidSize(message.len() as usize))
            },
        }
    }

    /// Checks the tag of a frame in constant time, decrypts what follows it
    /// with the zero vector, and holds the length of what comes out against
    /// the packet sizes.
    pub fn try_from_encrypted_tagged_bytes(raw_req: Vec<u8>, shared_keys: &SharedKeys) -> (result:
        Result<Self, GatewayRequestsError>)
        ensures
            match result {
                Ok(response) => Self::response_of(raw_req@, *shared_keys) == Ok::<
                    Seq<u8>,
                    GatewayRequestsError,
                >(response.message()),
                Err(e) => Self::response_of(raw_req@, *shared_keys) == Err::<
                    Seq<u8>,
                    GatewayRequestsError,
                >(e),
            },
    {
        let plaintext = match shared_keys.decrypt_tagged(raw_req.as_slice(), None) {
            Ok(plaintext) => plaintext,
            Err(e) => {
                return Err(e);
            },
        };
        match PacketSize::get_type(plaintext.len()) {
            Ok(_) => Ok(BinaryResponse::PushedMixMessage(plaintext)),
            Err(e) => Err(e),
        }
    }

    /// The frame of the response: the message sealed with the zero vector.
    pub fn into_encrypted_tagged_bytes(self, shared_key: &SharedKeys) -> (frame: Vec<u8>)
        ensures
            frame@ == shared_key.sealed(zero_iv(), self.message()),
    {
        match self {
            BinaryResponse::PushedMixMessage(message) => shared_key.encrypt_and_tag(
                message.as_slice(),
                None,
            ),
        }
    }

    /// The response that pushes `msg`.
    pub fn new_pushed_mix_message(msg: Vec<u8>) -> (response: Self)
        ensures
            response == BinaryResponse::PushedMixMessage(msg),
    {
        BinaryResponse::PushedMixMessage(msg)
    }

    /// The binary transport frame of the response.
    pub fn into_ws_message(self, shared_key: &SharedKeys) -> (message: Message)
        ensures
            message@ == MessageView::Binary(shared_key.sealed(zero_iv(), self.message())),
    {
        Message::Binary(self.into_encrypted_tagged_bytes(shared_key))
    }
}

/// The frame of a response that pushes a message of one of the packet sizes
/// gives that message back when it is read with the keys it was made with.
pub proof fn lemma_binary_response_roundtrip(message: Seq<u8>, shared_key: SharedKeys)
    requires
        PacketSize::of_length(message.len()) is Some,
    ensures
        BinaryResponse::response_of(shared_key.sealed(zero_iv(), message), shared_key) == Ok::<
            Seq<u8>,
            GatewayRequestsError,
        >(message),
{
    lemma_seal_open_roundtrip(shared_key, zero_iv(), message);
}

} // verus!
