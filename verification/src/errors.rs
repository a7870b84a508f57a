//! The error kinds of the protocol.

use vstd::prelude::*;

verus! {

/// Why a textual or binary form of an address, a key or an initialisation
/// vector was not accepted.
#[derive(Debug, Clone, Copy, PartialEq, Eq)]
pub enum EncodingError {
    /// The text is not base58.
    MalformedBase58,
    /// The decoded value has this many bytes, which is not the length the
    /// type has.
    InvalidLength(usize),
}

/// Why the bytes of a routing address were not accepted.
#[derive(Debug, Clone, Copy, PartialEq, Eq)]
pub enum NymNodeRoutingAddressError {
    /// There were no bytes at all.
    NoBytesProvided,
    /// The leading byte names no known IP version.
    InvalidIpVersion(u8),
    /// The bytes end before the address does; this many were received.
    TooFewBytesProvided(usize),
}

/// Why the bytes of a mix packet were not accepted.
#[derive(Debug, Clone, Copy, PartialEq, Eq)]
pub enum MixPacketFormattingError {
    /// There were no bytes at all.
    TooFewBytesProvided,
    /// The leading byte names no known packet type.
    InvalidPacketType(u8),
    /// The packet data has this many bytes, which is no allowed size.
    InvalidPacketSize(usize),
    /// The address of the first hop was malformed.
    InvalidAddress(NymNodeRoutingAddressError),
}

/// Everything that can be wrong with a request or response on the wire.
#[derive(Debug, Clone, Copy, PartialEq, Eq)]
pub enum GatewayRequestsError {
    /// The frame is shorter than an integrity tag.
    TooShortRequest,
    /// The integrity tag does not belong to the ciphertext.
    InvalidMac,
    /// An address field was not base58 or had the wrong length.
    IncorrectlyEncodedAddress(EncodingError),
    /// The payload has this many bytes, which is none of the packet sizes.
    RequestOfInvalidSize(usize),
    /// The payload has a packet size but is no sphinx packet. The packet
    /// itself is opaque to this library, so nothing here reports this; it is
    /// for those who take the packet apart.
    MalformedSphinxPacket,
    /// The decrypted bytes are not what the frame should carry.
    MalformedEncryption,
    /// The declared packet mode is unknown.
    InvalidPacketMode,
    /// The envelope of a mix packet was malformed.
    InvalidMixPacket(MixPacketFormattingError),
    /// A credential ended before all of its fields were read.
    CredentialDeserializationFailureEOF,
    /// A text field of a credential was not UTF-8.
    CredentialDeserializationFailureMalformedString,
    /// A credential declared this type, which is unknown.
    CredentialDeserializationFailureUnknownType(u8),
    /// The verification request of a credential was cut short.
    CredentialDeserializationFailureMalformedTheta,
    /// A credential of the first format embeds this many parameters, fewer
    /// than its public attributes.
    InvalidNumberOfEmbededParameters(u32),
}

impl GatewayRequestsError {
    /// The message of this error, for logs.
    pub fn to_string(&self) -> (text: String)
        ensures
            text@ == self.message(),
    {
        match self {
            GatewayRequestsError::TooShortRequest => "the request is too short".to_string(),
            GatewayRequestsError::InvalidMac => "provided MAC is invalid".to_string(),
            GatewayRequestsError::IncorrectlyEncodedAddress(_) =>
                "address field was incorrectly encoded".to_string(),
            GatewayRequestsError::RequestOfInvalidSize(_) =>
                "received request had invalid size".to_string(),
            GatewayRequestsError::MalformedSphinxPacket =>
                "received sphinx packet was malformed".to_string(),
            GatewayRequestsError::MalformedEncryption =>
                "the received encrypted data was malformed".to_string(),
            GatewayRequestsError::InvalidPacketMode => "provided packet mode is invalid".to_string(),
            GatewayRequestsError::InvalidMixPacket(_) =>
                "provided mix packet was malformed".to_string(),
            GatewayRequestsError::CredentialDeserializationFailureEOF =>
                "failed to deserialize provided credential: EOF".to_string(),
            GatewayRequestsError::CredentialDeserializationFailureMalformedString =>
                "failed to deserialize provided credential: malformed string".to_string(),
            GatewayRequestsError::CredentialDeserializationFailureUnknownType(_) =>
                "failed to deserialize provided credential: unknown type".to_string(),
            GatewayRequestsError::CredentialDeserializationFailureMalformedTheta =>
                "failed to deserialize provided credential: malformed verify request".to_string(),
            GatewayRequestsError::InvalidNumberOfEmbededParameters(_) =>
                "the provided [v1] credential has invalid number of parameters".to_string(),
        }
    }

    /// What `to_string` returns.
    pub open spec fn message(&self) -> Seq<char> {
        match self {
            GatewayRequestsError::TooShortRequest => "the request is too short"@,
            GatewayRequestsError::InvalidMac => "provided MAC is invalid"@,
            GatewayRequestsError::IncorrectlyEncodedAddress(_) =>
                "address field was incorrectly encoded"@,
            GatewayRequestsError::RequestOfInvalidSize(_) => "received request had invalid size"@,
            GatewayRequestsError::MalformedSphinxPacket => "received sphinx packet was malformed"@,
            GatewayRequestsError::MalformedEncryption =>
                "the received encrypted data was malformed"@,
            GatewayRequestsError::InvalidPacketMode => "provided packet mode is invalid"@,
            GatewayRequestsError::InvalidMixPacket(_) => "provided mix packet was malformed"@,
            GatewayRequestsError::CredentialDeserializationFailureEOF =>
                "failed to deserialize provided credential: EOF"@,
            GatewayRequestsError::CredentialDeserializationFailureMalformedString =>
                "failed to deserialize provided credential: malformed string"@,
            GatewayRequestsError::CredentialDeserializationFailureUnknownType(_) =>
                "failed to deserialize provided credential: unknown type"@,
            GatewayRequestsError::CredentialDeserializationFailureMalformedTheta =>
                "failed to deserialize provided credential: malformed verify request"@,
            GatewayRequestsError::InvalidNumberOfEmbededParameters(_) =>
                "the provided [v1] credential has invalid number of parameters"@,
        }
    }
}


/// An error of a key store, handed on as the store gave it.
#[derive(Debug, Clone, PartialEq, Eq)]
pub struct StorageError {
    pub message: String,
}

/// Why a registration handshake failed.
#[derive(Debug, Clone, PartialEq, Eq)]
pub enum HandshakeFailure {
    /// The gateway answered with an error that says this.
    Gateway(String),
    /// The transport failed before the handshake was over.
    Transport,
    /// No shared keys could be derived from what the gateway sent.
    KeyAgreement,
    /// The gateway sent something that has no place in the handshake.
    UnexpectedResponse,
}

/// Why a handshake failed, as a mathematical value.
pub enum HandshakeFailureView {
    Gateway(Seq<char>),
    Transport,
    KeyAgreement,
    UnexpectedResponse,
}

impl View for HandshakeFailure {
    type V = HandshakeFailureView;

    open spec fn view(&self) -> HandshakeFailureView {
        match self {
            HandshakeFailure::Gateway(message) => HandshakeFailureView::Gateway(message@),
            HandshakeFailure::Transport => HandshakeFailureView::Transport,
            HandshakeFailure::KeyAgreement => HandshakeFailureView::KeyAgreement,
            HandshakeFailure::UnexpectedResponse => HandshakeFailureView::UnexpectedResponse,
        }
    }
}

/// What can go wrong while a client connects to, and talks with, its
/// gateway.
#[derive(Debug, Clone, PartialEq, Eq)]
pub enum Error {
    /// A client that is registered already was asked to register again.
    ReregisteringGatewayNotSupported,
    /// Credentials were asked for, but the client does not use them.
    DisabledCredentialsMode,
    /// A SOCKS5 configuration was set where none may be, or missing where one
    /// is needed; `set` says which.
    Socks5Config { set: bool },
    /// A SOCKS5 connection was asked for together with an outside shutdown
    /// mechanism.
    Socks5WithCustomShutdown,
    /// The client is not in the state that the step needs.
    InvalidState,
    /// The gateway sent a response that does not answer what was asked.
    UnexpectedResponse,
    /// The gateway that the user asked for is not among the candidates.
    NoGatewayWithId,
    /// No candidate gateway can be used.
    NoGatewaysAvailable,
    /// The gateway that the user asked for has no TLS listener, and one is
    /// required.
    UnsupportedWssProtocol,
    /// A gateway was still unreachable after the last retry.
    GatewayUnreachable,
    /// The listener of a gateway is neither `ws://` nor `wss://`.
    UnsupportedListener,
    /// The registration handshake failed.
    HandshakeFailed(HandshakeFailure),
    /// The gateway refused the registration.
    Rejected,
    /// The gateway refused the authentication.
    AuthFailed,
    /// The gateway answered a credential with an error that says this.
    CredentialRefused(String),
    /// The session is over; nothing more is sent or delivered.
    SessionClosed,
    /// The operation was cancelled before it was done.
    Cancelled,
    /// The outbound queue is full.
    OutboundQueueFull,
    /// What is stored of the gateway and what is stored of its keys do not
    /// go together.
    InvalidGatewayDetails,
    /// The key store failed.
    Storage(StorageError),
    /// A frame was malformed.
    Request(GatewayRequestsError),
}

/// A client error as a mathematical value.
pub enum ErrorView {
    ReregisteringGatewayNotSupported,
    DisabledCredentialsMode,
    Socks5Config { set: bool },
    Socks5WithCustomShutdown,
    InvalidState,
    UnexpectedResponse,
    NoGatewayWithId,
    NoGatewaysAvailable,
    UnsupportedWssProtocol,
    GatewayUnreachable,
    UnsupportedListener,
    HandshakeFailed(HandshakeFailureView),
    Rejected,
    AuthFailed,
    CredentialRefused(Seq<char>),
    SessionClosed,
    Cancelled,
    OutboundQueueFull,
    InvalidGatewayDetails,
    Storage(Seq<char>),
    Request(GatewayRequestsError),
}

impl View for Error {
    type V = ErrorView;

    open spec fn view(&self) -> ErrorView {
        match self {
            Error::ReregisteringGatewayNotSupported => ErrorView::ReregisteringGatewayNotSupported,
            Error::DisabledCredentialsMode => ErrorView::DisabledCredentialsMode,
            Error::Socks5Config { set } => ErrorView::Socks5Config { set: *set },
            Error::Socks5WithCustomShutdown => ErrorView::Socks5WithCustomShutdown,
            Error::InvalidState => ErrorView::InvalidState,
            Error::UnexpectedResponse => ErrorView::UnexpectedResponse,
            Error::NoGatewayWithId => ErrorView::NoGatewayWithId,
            Error::NoGatewaysAvailable => ErrorView::NoGatewaysAvailable,
            Error::UnsupportedWssProtocol => ErrorView::UnsupportedWssProtocol,
            Error::GatewayUnreachable => ErrorView::GatewayUnreachable,
            Error::UnsupportedListener => ErrorView::UnsupportedListener,
            Error::HandshakeFailed(cause) => ErrorView::HandshakeFailed(cause@),
            Error::Rejected => ErrorView::Rejected,
            Error::AuthFailed => ErrorView::AuthFailed,
            Error::CredentialRefused(message) => ErrorView::CredentialRefused(message@),
            Error::SessionClosed => ErrorView::SessionClosed,
            Error::Cancelled => ErrorView::Cancelled,
            Error::OutboundQueueFull => ErrorView::OutboundQueueFull,
            Error::InvalidGatewayDetails => ErrorView::InvalidGatewayDetails,
            Error::Storage(error) => ErrorView::Storage(error.message@),
            Error::Request(error) => ErrorView::Request(*error),
        }
    }
}

} // verus!
