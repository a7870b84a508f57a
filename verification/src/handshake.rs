//! The registration handshake, by which a client and a gateway that do not
//! know each other yet come to share keys. The engine here decides what is
//! sent and what each answer means; deriving the keys from the exchanged
//! material is a primitive of its own, whose result the engine is handed.

use crate::errors::{Error, ErrorView, HandshakeFailure, HandshakeFailureView};
use crate::selection::{lemma_listeners_have_transports, GatewayNode};
use crate::shared_keys::SharedKeys;
use crate::storage::{key_fingerprint, GatewayDetails, GatewayDetailsView, KeyStore};
use crate::types::{
    advertised_version, protocol_version_for, ClientControlRequest, ClientControlRequestView,
    RegistrationHandshake, RegistrationHandshakeView, ServerResponse, ServerResponseView,
};
use crate::INITIAL_PROTOCOL_VERSION;
use vstd::prelude::*;

verus! {

/// Where a handshake stands.
#[derive(Debug, Clone, Copy, PartialEq, Eq, Structural)]
pub enum HandshakeState {
    /// Nothing was sent yet.
    Init,
    /// The client sent its material and waits for the gateway's.
    AwaitingMaterial,
    /// The keys are derived; the gateway has yet to confirm.
    Confirm,
    /// The gateway confirmed: the keys are shared.
    Established,
    /// The handshake failed.
    HandshakeFailed,
    /// The gateway refused the registration.
    Rejected,
}

impl HandshakeState {
    /// Whether the handshake is over, one way or another.
    pub open spec fn is_terminal(self) -> bool {
        self == HandshakeState::Established || self == HandshakeState::HandshakeFailed || self
            == HandshakeState::Rejected
    }
}

/// A handshake in progress.
#[derive(Debug, Clone, Copy, PartialEq, Eq)]
pub struct Handshake {
    pub state: HandshakeState,
    /// Whether the client is going to submit credentials in this session.
    pub uses_credentials: bool,
    /// The derived keys, from the moment they are derived.
    pub keys: Option<SharedKeys>,
    /// The protocol version the gateway answered with.
    pub gateway_version: Option<u8>,
}

impl Handshake {
    /// Whether the handshake holds keys exactly where it should: once they
    /// are derived, and not after a failure.
    pub open spec fn well_formed(self) -> bool {
        (self.state == HandshakeState::Confirm || self.state == HandshakeState::Established)
            <==> self.keys is Some
    }

    /// The handshake when it has failed.
    pub open spec fn failed(self) -> Handshake {
        Handshake { state: HandshakeState::HandshakeFailed, keys: None, ..self }
    }

    /// The handshake after the client sent its material, and the request
    /// that carries it.
    pub open spec fn after_start(self, initiator_payload: Seq<u8>) -> (
        Handshake,
        Result<ClientControlRequestView, ErrorView>,
    ) {
        if self.state == HandshakeState::Init {
            (
                Handshake { state: HandshakeState::AwaitingMaterial, ..self },
                Ok(
                    ClientControlRequestView::RegisterHandshakeInitRequest {
                        protocol_version: Some(advertised_version(self.uses_credentials)),
                        data: initiator_payload,
                    },
                ),
            )
        } else {
            (self, Err(ErrorView::InvalidState))
        }
    }

    /// The handshake after the gateway's answer to the material. An error
    /// from the gateway ends the handshake with its message; so does material
    /// from which no keys came. With keys, the gateway has yet to confirm.
    pub open spec fn after_material(
        self,
        message: RegistrationHandshakeView,
        derived: Option<SharedKeys>,
    ) -> (Handshake, Result<(), ErrorView>) {
        if self.state != HandshakeState::AwaitingMaterial {
            (self, Err(ErrorView::InvalidState))
        } else {
            match message {
                RegistrationHandshakeView::HandshakeError { message } => (
                    self.failed(),
                    Err(ErrorView::HandshakeFailed(HandshakeFailureView::Gateway(message))),
                ),
                RegistrationHandshakeView::HandshakePayload { protocol_version, data } => match derived {
                    None => (
                        self.failed(),
                        Err(ErrorView::HandshakeFailed(HandshakeFailureView::KeyAgreement)),
                    ),
                    Some(keys) => (
                        Handshake {
                            state: HandshakeState::Confirm,
                            keys: Some(keys),
                            gateway_version: Some(
                                match protocol_version {
                                    Some(version) => version,
                                    None => INITIAL_PROTOCOL_VERSION,
                                },
                            ),
                            ..self
                        },
                        Ok(()),
                    ),
                },
            }
        }
    }

    /// The handshake after the gateway's confirmation. A registration with a
    /// true status establishes the keys; one with a false status is a
    /// rejection; an error or anything else fails the handshake.
    pub open spec fn after_confirmation(self, response: ServerResponseView) -> (
        Handshake,
        Result<SharedKeys, ErrorView>,
    ) {
        if self.state != HandshakeState::Confirm || self.keys is None {
            (self, Err(ErrorView::InvalidState))
        } else {
            match response {
                ServerResponseView::Register { status, .. } => if status {
                    (
                        Handshake { state: HandshakeState::Established, ..self },
                        Ok(self.keys->Some_0),
                    )
                } else {
                    (
                        Handshake { state: HandshakeState::Rejected, keys: None, ..self },
                        Err(ErrorView::Rejected),
                    )
                },
                ServerResponseView::Error { message } => (
                    self.failed(),
                    Err(ErrorView::HandshakeFailed(HandshakeFailureView::Gateway(message))),
                ),
                _ => (
                    self.failed(),
                    Err(ErrorView::HandshakeFailed(HandshakeFailureView::UnexpectedResponse)),
                ),
            }
        }
    }

    /// The handshake after the transport failed: failed, unless it was over
    /// already.
    pub open spec fn after_transport_error(self) -> Handshake {
        if self.state.is_terminal() {
            self
        } else {
            self.failed()
        }
    }

    /// The protocol version that both sides understand: the lower of the one
    /// the client advertised and the one the gateway answered with, and the
    /// client's own while the gateway has not answered.
    pub open spec fn agreed_version(self) -> u8 {
        let ours = advertised_version(self.uses_credentials);
        match self.gateway_version {
            Some(theirs) => if theirs < ours {
                theirs
            } else {
                ours
            },
            None => ours,
        }
    }

    /// A handshake that has not begun.
    pub fn new(uses_credentials: bool) -> (handshake: Handshake)
        ensures
            handshake == (Handshake {
                state: HandshakeState::Init,
                uses_credentials,
                keys: None,
                gateway_version: None,
            }),
            handshake.well_formed(),
    {
        Handshake { state: HandshakeState::Init, uses_credentials, keys: None, gateway_version: None }
    }

    /// Begins the handshake: gives the request that carries the client's
    /// material and advertises its protocol version.
    pub fn start(&mut self, initiator_payload: Vec<u8>) -> (result: Result<
        ClientControlRequest,
        Error,
    >)
        ensures
            *final(self) == old(self).after_start(initiator_payload@).0,
            match result {
                Ok(request) => old(self).after_start(initiator_payload@).1 == Ok::<
                    ClientControlRequestView,
                    ErrorView,
                >(request@),
                Err(e) => old(self).after_start(initiator_payload@).1 == Err::<
                    ClientControlRequestView,
                    ErrorView,
                >(e@),
            },
    {
        match self.state {
            HandshakeState::Init => {
                self.state = HandshakeState::AwaitingMaterial;
                Ok(
                    ClientControlRequest::RegisterHandshakeInitRequest {
                        protocol_version: Some(protocol_version_for(self.uses_credentials)),
                        data: initiator_payload,
                    },
                )
            },
            _ => Err(Error::InvalidState),
        }
    }

    /// Takes the gateway's answer to the material, and the keys derived from
    /// it where the answer is material of the gateway's.
    pub fn on_material(&mut self, message: RegistrationHandshake, derived: Option<SharedKeys>) -> (result:
        Result<(), Error>)
        ensures
            *final(self) == old(self).after_material(message@, derived).0,
            match result {
                Ok(_) => old(self).after_material(message@, derived).1 is Ok,
                Err(e) => old(self).after_material(message@, derived).1 == Err::<(), ErrorView>(e@),
            },
    {
        match self.state {
            HandshakeState::AwaitingMaterial => {},
            _ => {
                return Err(Error::InvalidState);
            },
        }
        match message {
            RegistrationHandshake::HandshakeError { message } => {
                self.state = HandshakeState::HandshakeFailed;
                self.keys = None;
                Err(Error::HandshakeFailed(HandshakeFailure::Gateway(message)))
            },
            RegistrationHandshake::HandshakePayload { protocol_version, data } => match derived {
                None => {
                    self.state = HandshakeState::HandshakeFailed;
                    self.keys = None;
                    Err(Error::HandshakeFailed(HandshakeFailure::KeyAgreement))
                },
                Some(keys) => {
                    self.state = HandshakeState::Confirm;
                    self.keys = Some(keys);
                    self.gateway_version = Some(
                        match protocol_version {
                            Some(version) => version,
                            None => INITIAL_PROTOCOL_VERSION,
                        },
                    );
                    Ok(())
                },
            },
        }
    }

    /// Takes the gateway's confirmation and, where it confirms, gives the
    /// keys that are now shared.
    pub fn on_confirmation(&mut self, response: ServerResponse) -> (result: Result<
        SharedKeys,
        Error,
    >)
        ensures
            *final(self) == old(self).after_confirmation(response@).0,
            match result {
                Ok(keys) => old(self).after_confirmation(response@).1 == Ok::<
                    SharedKeys,
                    ErrorView,
                >(keys),
                Err(e) => old(self).after_confirmation(response@).1 == Err::<
                    SharedKeys,
                    ErrorView,
                >(e@),
            },
    {
        let keys = match (self.state, self.keys) {
            (HandshakeState::Confirm, Some(keys)) => keys,
            _ => {
                return Err(Error::InvalidState);
            },
        };
        match response {
            ServerResponse::Register { status, .. } => {
                if status {
                    self.state = HandshakeState::Established;
                    Ok(keys)
                } else {
                    self.state = HandshakeState::Rejected;
                    self.keys = None;
                    Err(Error::Rejected)
                }
            },
            ServerResponse::Error { message } => {
                self.state = HandshakeState::HandshakeFailed;
                self.keys = None;
                Err(Error::HandshakeFailed(HandshakeFailure::Gateway(message)))
            },
            _ => {
                self.state = HandshakeState::HandshakeFailed;
                self.keys = None;
                Err(Error::HandshakeFailed(HandshakeFailure::UnexpectedResponse))
            },
        }
    }

    /// Records that the gateway sent something that cannot be read, and gives
    /// the error of a handshake that failed for it.
    pub fn on_undecodable(&mut self) -> (error: Error)
        ensures
            *final(self) == old(self).after_transport_error(),
            error@ == ErrorView::HandshakeFailed(HandshakeFailureView::UnexpectedResponse),
    {
        match self.state {
            HandshakeState::Established | HandshakeState::HandshakeFailed | HandshakeState::Rejected => {},
            _ => {
                self.state = HandshakeState::HandshakeFailed;
                self.keys = None;
            },
        }
        Error::HandshakeFailed(HandshakeFailure::UnexpectedResponse)
    }

    /// Records that the transport failed, and gives the error of a handshake
    /// that failed for it.
    pub fn on_transport_error(&mut self) -> (error: Error)
        ensures
            *final(self) == old(self).after_transport_error(),
            error@ == ErrorView::HandshakeFailed(HandshakeFailureView::Transport),
    {
        match self.state {
            HandshakeState::Established | HandshakeState::HandshakeFailed | HandshakeState::Rejected => {},
            _ => {
                self.state = HandshakeState::HandshakeFailed;
                self.keys = None;
            },
        }
        Error::HandshakeFailed(HandshakeFailure::Transport)
    }

    /// The protocol version that both sides understand. A gateway that
    /// answers with another version than was advertised is not refused: the
    /// session goes on with what both understand.
    pub fn negotiated_version(&self) -> (version: u8)
        ensures
            version == self.agreed_version(),
    {
        let ours = protocol_version_for(self.uses_credentials);
        match self.gateway_version {
            Some(theirs) => if theirs < ours {
                theirs
            } else {
                ours
            },
            None => ours,
        }
    }
}

/// No step leaves a state in which the handshake is over, and every step
/// keeps the keys exactly where they belong.
pub proof fn lemma_handshake_steps(
    handshake: Handshake,
    payload: Seq<u8>,
    message: RegistrationHandshakeView,
    derived: Option<SharedKeys>,
    response: ServerResponseView,
)
    requires
        handshake.well_formed(),
    ensures
        handshake.after_start(payload).0.well_formed(),
        handshake.after_material(message, derived).0.well_formed(),
        handshake.after_confirmation(response).0.well_formed(),
        handshake.after_transport_error().well_formed(),
        handshake.state.is_terminal() ==> {
            &&& handshake.after_start(payload).0 == handshake
            &&& handshake.after_material(message, derived).0 == handshake
            &&& handshake.after_confirmation(response).0 == handshake
            &&& handshake.after_transport_error() == handshake
        },
{
}

/// A handshake of a client that submits no credentials advertises the
/// initial protocol version and never the current one, and never agrees on a
/// higher one than it advertised.
pub proof fn lemma_handshake_without_credentials_advertises_initial(
    handshake: Handshake,
    payload: Seq<u8>,
)
    requires
        !handshake.uses_credentials,
    ensures
        handshake.after_start(payload).1 matches Ok(request) ==> request
            == (ClientControlRequestView::RegisterHandshakeInitRequest {
            protocol_version: Some(INITIAL_PROTOCOL_VERSION),
            data: payload,
        }),
        handshake.agreed_version() <= INITIAL_PROTOCOL_VERSION,
        handshake.agreed_version() != crate::CURRENT_PROTOCOL_VERSION,
{
}

/// The keys are established only by a confirmation with a true status that
/// follows material from which keys were derived, and then they are these
/// keys.
pub proof fn lemma_established_only_by_confirmation(
    handshake: Handshake,
    payload: Seq<u8>,
    message: RegistrationHandshakeView,
    derived: Option<SharedKeys>,
    response: ServerResponseView,
)
    requires
        handshake.well_formed(),
        handshake.state != HandshakeState::Established,
    ensures
        handshake.after_start(payload).0.state != HandshakeState::Established,
        handshake.after_material(message, derived).0.state != HandshakeState::Established,
        handshake.after_transport_error().state != HandshakeState::Established,
        handshake.after_confirmation(response).0.state == HandshakeState::Established ==> {
            &&& handshake.state == HandshakeState::Confirm
            &&& response matches ServerResponseView::Register { status: true, .. }
            &&& handshake.after_confirmation(response).1 == Ok::<SharedKeys, ErrorView>(
                handshake.keys->Some_0,
            )
        },
        handshake.state == HandshakeState::AwaitingMaterial && handshake.after_material(
            message,
            derived,
        ).0.state == HandshakeState::Confirm ==> derived == handshake.after_material(
            message,
            derived,
        ).0.keys,
{
}

/// Stores the keys shared with `gateway` and the descriptor that goes with
/// them, keys first, and gives the descriptor. A gateway without the listener
/// that is required is refused before anything is stored, and only such a
/// gateway is. Past that the store decides: an error of the store is handed
/// on as it is, and where there is none a store that answers for its views
/// holds the keys and the descriptor. A reliable store gives no error.
pub fn persist_registration<S: KeyStore>(
    store: &mut S,
    gateway: &GatewayNode,
    must_use_tls: bool,
    keys: &SharedKeys,
) -> (result: Result<GatewayDetails, Error>)
    ensures
        match gateway@.listener(must_use_tls) {
            None => result == Err::<GatewayDetails, Error>(Error::UnsupportedWssProtocol)
                && *final(store) == *old(store),
            Some(listener) => match result {
                Ok(details) => {
                    &&& details@ == (GatewayDetailsView {
                        gateway_id: gateway@.identity,
                        gateway_owner: gateway@.owner,
                        gateway_listener: listener,
                        key_hash: key_fingerprint(*keys),
                    })
                    &&& details@.validated(Some(*keys)) is Ok
                    &&& old(store).answers_for_views() ==> {
                        &&& final(store).shared_view(gateway@.identity) == Some(*keys)
                        &&& final(store).gateway_view() == Some(details@)
                    }
                },
                Err(e) => e is Storage && !old(store).is_reliable(),
            },
        },
        final(store).answers_for_views() == old(store).answers_for_views(),
        final(store).is_reliable() == old(store).is_reliable(),
{
    let listener = match gateway.listener(must_use_tls) {
        Some(listener) => listener,
        None => {
            return Err(Error::UnsupportedWssProtocol);
        },
    };
    let details = GatewayDetails::new(
        gateway.identity.clone(),
        gateway.owner.clone(),
        listener,
        keys,
    );
    proof {
        lemma_listeners_have_transports(gateway@);
    }
    match store.store_shared_keys(gateway.identity.as_str(), keys) {
        Ok(_) => {},
        Err(e) => {
            return Err(Error::Storage(e));
        },
    }
    match store.store_gateway_descriptor(&details) {
        Ok(_) => {},
        Err(e) => {
            return Err(Error::Storage(e));
        },
    }
    Ok(details)
}

} // verus!
