//! The session pipeline: what a client does with its gateway once it is
//! authenticated. Outbound packets wait in a bounded queue and leave in the
//! order they came; inbound frames update the bandwidth counter or carry a
//! message; cancellation ends both directions for good.

use crate::credential::{CredentialSpendingData, OldV1Credential};
use crate::errors::{Error, ErrorView, GatewayRequestsError, MixPacketFormattingError};
use crate::iv::{zero_iv, IV};
use crate::json::FrameError;
use crate::packet::{MixPacket, MixPacketView, PacketSize};
use crate::shared_keys::SharedKeys;
use crate::types::{
    BinaryRequest, BinaryResponse, ClientControlRequest, ClientControlRequestView, Message,
    MessageView, ServerResponse, ServerResponseView,
};
use std::collections::VecDeque;
use vstd::prelude::*;

verus! {

/// The number of outbound packets that wait at most, unless told otherwise.
pub const DEFAULT_OUTBOUND_CAPACITY: usize = 128;

/// What an inbound frame turned out to be.
#[derive(Debug, Clone, PartialEq, Eq)]
pub enum Inbound {
    /// A message out of the mix network, for the application.
    Message(Vec<u8>),
    /// The gateway reported this bandwidth, which is now the counter.
    BandwidthUpdated(i64),
    /// The gateway reported an error that says this. The session goes on.
    GatewayError(String),
    /// The frame was malformed and is dropped. The session goes on.
    Dropped(GatewayRequestsError),
    /// The text was no control frame and is dropped. The session goes on.
    Malformed(FrameError),
    /// The frame has no meaning in a running session and is ignored.
    Ignored,
    /// The session is over: nothing is delivered any more.
    EndOfStream,
}

/// What an inbound frame turned out to be, as a mathematical value.
pub enum InboundView {
    Message(Seq<u8>),
    BandwidthUpdated(i64),
    GatewayError(Seq<char>),
    Dropped(GatewayRequestsError),
    Malformed(FrameError),
    Ignored,
    EndOfStream,
}

impl View for Inbound {
    type V = InboundView;

    open spec fn view(&self) -> InboundView {
        match self {
            Inbound::Message(message) => InboundView::Message(message@),
            Inbound::BandwidthUpdated(bandwidth) => InboundView::BandwidthUpdated(*bandwidth),
            Inbound::GatewayError(message) => InboundView::GatewayError(message@),
            Inbound::Dropped(error) => InboundView::Dropped(*error),
            Inbound::Malformed(error) => InboundView::Malformed(*error),
            Inbound::Ignored => InboundView::Ignored,
            Inbound::EndOfStream => InboundView::EndOfStream,
        }
    }
}

/// What a cancellation leaves behind.
#[derive(Debug, Clone, PartialEq, Eq)]
pub struct Cancelled {
    /// The packets that were still waiting. Every one of them failed, with
    /// `failure`.
    pub pending: Vec<MixPacket>,
    /// The error that every pending packet failed with.
    pub failure: Error,
    /// Whether the transport is to be closed now, which it is at the first
    /// cancellation only.
    pub close_transport: bool,
}

/// A session as a mathematical value.
pub struct SessionView {
    pub keys: SharedKeys,
    /// The bandwidth counter.
    pub bandwidth: i64,
    pub credentials_enabled: bool,
    /// The outbound packets that wait, the oldest first.
    pub queue: Seq<MixPacketView>,
    pub capacity: nat,
    /// Whether the session was cancelled.
    pub closed: bool,
}

impl SessionView {
    /// Whether the queue is within its bound, holds only packets that can be
    /// written, and holds nothing once the session is over.
    pub open spec fn well_formed(self) -> bool {
        &&& self.queue.len() <= self.capacity
        &&& self.closed ==> self.queue.len() == 0
        &&& forall|i: int| 0 <= i < self.queue.len() ==> (#[trigger] self.queue[i]).well_formed()
    }

    /// The session after the application submitted `packet`. A closed
    /// session takes nothing; a packet that cannot be written is refused; a
    /// full queue pushes back; else the packet waits behind the others.
    pub open spec fn after_submit(self, packet: MixPacketView) -> (SessionView, Result<(), ErrorView>) {
        if self.closed {
            (self, Err(ErrorView::SessionClosed))
        } else if !packet.well_formed() {
            (
                self,
                Err(
                    ErrorView::Request(
                        GatewayRequestsError::InvalidMixPacket(
                            MixPacketFormattingError::InvalidPacketSize(packet.packet.len() as usize),
                        ),
                    ),
                ),
            )
        } else if self.queue.len() >= self.capacity {
            (self, Err(ErrorView::OutboundQueueFull))
        } else {
            (SessionView { queue: self.queue.push(packet), ..self }, Ok(()))
        }
    }

    /// The session after the transport took the next frame, and that frame:
    /// the oldest waiting packet, sealed with the zero vector. A closed
    /// session and an empty queue give none.
    pub open spec fn after_next_frame(self) -> (SessionView, Option<Seq<u8>>) {
        if self.closed || self.queue.len() == 0 {
            (self, None)
        } else {
            (
                SessionView { queue: self.queue.drop_first(), ..self },
                Some(BinaryRequest::frame_of(self.queue[0], self.keys)),
            )
        }
    }

    /// The session after a control frame from the gateway, and what the frame
    /// turned out to be. A report after sending lowers the counter to what
    /// it reports and never raises it; a new balance replaces the counter; an
    /// error is handed to the application and changes nothing.
    pub open spec fn after_control(self, response: ServerResponseView) -> (SessionView, InboundView) {
        if self.closed {
            (self, InboundView::EndOfStream)
        } else {
            match response {
                ServerResponseView::Send { remaining_bandwidth } => {
                    let lowered = if remaining_bandwidth < self.bandwidth {
                        remaining_bandwidth
                    } else {
                        self.bandwidth
                    };
                    (
                        SessionView { bandwidth: lowered, ..self },
                        InboundView::BandwidthUpdated(lowered),
                    )
                },
                ServerResponseView::Bandwidth { available_total } => (
                    SessionView { bandwidth: available_total, ..self },
                    InboundView::BandwidthUpdated(available_total),
                ),
                ServerResponseView::Error { message } => (self, InboundView::GatewayError(message)),
                _ => (self, InboundView::Ignored),
            }
        }
    }

    /// What a binary frame from the gateway turns out to be: the message
    /// that it pushes, or a frame that is dropped with the reason: a wrong
    /// tag, or a length that is no packet size. The session itself is never
    /// changed.
    pub open spec fn binary(self, frame: Seq<u8>) -> InboundView {
        if self.closed {
            InboundView::EndOfStream
        } else {
            match BinaryResponse::response_of(frame, self.keys) {
                Err(e) => InboundView::Dropped(e),
                Ok(message) => InboundView::Message(message),
            }
        }
    }

    /// The session after a frame from the transport, and what the frame
    /// turned out to be: a text is read as a control frame, and one that is
    /// none is dropped; a binary frame carries a message.
    pub open spec fn after_message(self, message: MessageView) -> (SessionView, InboundView) {
        match message {
            MessageView::Text(text) => if self.closed {
                (self, InboundView::EndOfStream)
            } else {
                match ServerResponseView::decoded(text) {
                    Ok(response) => self.after_control(response),
                    Err(e) => (self, InboundView::Malformed(e)),
                }
            },
            MessageView::Binary(frame) => (self, self.binary(frame)),
        }
    }

    /// The session after a cancellation: closed, with nothing waiting.
    pub open spec fn after_cancel(self) -> SessionView {
        SessionView { queue: Seq::empty(), closed: true, ..self }
    }

    /// Whether the client is to submit a credential: it does where it uses
    /// credentials and has no bandwidth left.
    pub open spec fn needs_credential(self) -> bool {
        !self.closed && self.credentials_enabled && self.bandwidth <= 0
    }
}

/// A running session with a gateway.
pub struct Session {
    keys: SharedKeys,
    bandwidth: i64,
    credentials_enabled: bool,
    outbound: VecDeque<MixPacket>,
    capacity: usize,
    closed: bool,
}

impl View for Session {
    type V = SessionView;

    closed spec fn view(&self) -> SessionView {
        SessionView {
            keys: self.keys,
            bandwidth: self.bandwidth,
            credentials_enabled: self.credentials_enabled,
            queue: self.outbound@.map_values(|packet: MixPacket| packet@),
            capacity: self.capacity as nat,
            closed: self.closed,
        }
    }
}

impl Session {
    /// A session that begins with the bandwidth the gateway granted at
    /// authentication, and lets `capacity` outbound packets wait.
    pub fn new(keys: SharedKeys, bandwidth_remaining: i64, credentials_enabled: bool, capacity: usize) -> (session:
        Session)
        ensures
            session@ == (SessionView {
                keys,
                bandwidth: bandwidth_remaining,
                credentials_enabled,
                queue: Seq::empty(),
                capacity: capacity as nat,
                closed: false,
            }),
            session@.well_formed(),
    {
        let session = Session {
            keys,
            bandwidth: bandwidth_remaining,
            credentials_enabled,
            outbound: VecDeque::new(),
            capacity,
            closed: false,
        };
        assert(session@.queue =~= Seq::empty());
        session
    }

    /// The bandwidth counter.
    pub fn bandwidth_remaining(&self) -> (bandwidth: i64)
        ensures
            bandwidth == self@.bandwidth,
    {
        self.bandwidth
    }

    /// Whether the session was cancelled.
    pub fn is_closed(&self) -> (closed: bool)
        ensures
            closed == self@.closed,
    {
        self.closed
    }

    /// The number of outbound packets that wait.
    pub fn pending(&self) -> (count: usize)
        ensures
            count == self@.queue.len(),
    {
        self.outbound.len()
    }

    /// Whether the client is to submit a credential now.
    pub fn needs_credential(&self) -> (needed: bool)
        ensures
            needed == self@.needs_credential(),
    {
        !self.closed && self.credentials_enabled && self.bandwidth <= 0
    }

    /// Takes an outbound packet from the application.
    pub fn submit(&mut self, packet: MixPacket) -> (result: Result<(), Error>)
        requires
            old(self)@.well_formed(),
        ensures
            final(self)@.well_formed(),
            final(self)@ == old(self)@.after_submit(packet@).0,
            match result {
                Ok(_) => old(self)@.after_submit(packet@).1 is Ok,
                Err(e) => old(self)@.after_submit(packet@).1 == Err::<(), ErrorView>(e@),
            },
    {
        if self.closed {
            return Err(Error::SessionClosed);
        }
        if PacketSize::get_type(packet.packet.len()).is_err() {
            return Err(
                Error::Request(
                    GatewayRequestsError::InvalidMixPacket(
                        MixPacketFormattingError::InvalidPacketSize(packet.packet.len()),
                    ),
                ),
            );
        }
        if self.outbound.len() >= self.capacity {
            return Err(Error::OutboundQueueFull);
        }
        let ghost before = self.outbound@;
        self.outbound.push_back(packet);
        proof {
            assert(self.outbound@.map_values(|packet: MixPacket| packet@) =~= before.map_values(
                |packet: MixPacket| packet@,
            ).push(packet@));
        }
        Ok(())
    }

    /// Gives the next frame for the transport, if there is one.
    pub fn next_frame(&mut self) -> (frame: Option<Vec<u8>>)
        requires
            old(self)@.well_formed(),
        ensures
            final(self)@.well_formed(),
            final(self)@ == old(self)@.after_next_frame().0,
            match frame {
                Some(frame) => old(self)@.after_next_frame().1 == Some(frame@),
                None => old(self)@.after_next_frame().1 is None,
            },
    {
        if self.closed || self.outbound.len() == 0 {
            return None;
        }
        let ghost before = self.outbound@;
        let packet = match self.outbound.pop_front() {
            Some(packet) => packet,
            None => {
                return None;
            },
        };
        proof {
            assert(self.outbound@.map_values(|packet: MixPacket| packet@) =~= before.map_values(
                |packet: MixPacket| packet@,
            ).drop_first());
            assert(before.map_values(|packet: MixPacket| packet@)[0] == packet@);
        }
        let request = BinaryRequest::new_forward_request(packet);
        Some(request.into_encrypted_tagged_bytes(&self.keys))
    }

    /// Takes a control frame from the gateway.
    pub fn on_control(&mut self, response: ServerResponse) -> (inbound: Inbound)
        requires
            old(self)@.well_formed(),
        ensures
            final(self)@.well_formed(),
            final(self)@ == old(self)@.after_control(response@).0,
            inbound@ == old(self)@.after_control(response@).1,
    {
        if self.closed {
            return Inbound::EndOfStream;
        }
        match response {
            ServerResponse::Send { remaining_bandwidth } => {
                if remaining_bandwidth < self.bandwidth {
                    self.bandwidth = remaining_bandwidth;
                }
                Inbound::BandwidthUpdated(self.bandwidth)
            },
            ServerResponse::Bandwidth { available_total } => {
                self.bandwidth = available_total;
                Inbound::BandwidthUpdated(available_total)
            },
            ServerResponse::Error { message } => Inbound::GatewayError(message),
            _ => Inbound::Ignored,
        }
    }

    /// Takes a binary frame from the gateway. Whatever is wrong with the
    /// frame, the session goes on as it was.
    pub fn on_binary(&self, frame: Vec<u8>) -> (inbound: Inbound)
        ensures
            inbound@ == self@.binary(frame@),
    {
        if self.closed {
            return Inbound::EndOfStream;
        }
        match BinaryResponse::try_from_encrypted_tagged_bytes(frame, &self.keys) {
            Err(e) => Inbound::Dropped(e),
            Ok(BinaryResponse::PushedMixMessage(message)) => Inbound::Message(message),
        }
    }

    /// Takes a frame from the transport, of either kind.
    pub fn on_message(&mut self, message: Message) -> (inbound: Inbound)
        requires
            old(self)@.well_formed(),
        ensures
            final(self)@.well_formed(),
            final(self)@ == old(self)@.after_message(message@).0,
            inbound@ == old(self)@.after_message(message@).1,
    {
        match message {
            Message::Text(text) => {
                if self.closed {
                    return Inbound::EndOfStream;
                }
                match ServerResponse::try_from(text) {
                    Ok(response) => self.on_control(response),
                    Err(e) => Inbound::Malformed(e),
                }
            },
            Message::Binary(frame) => self.on_binary(frame),
        }
    }

    /// Gives the next frame for the transport, if there is one, as the
    /// binary frame that it travels in.
    pub fn next_message(&mut self) -> (message: Option<Message>)
        requires
            old(self)@.well_formed(),
        ensures
            final(self)@.well_formed(),
            final(self)@ == old(self)@.after_next_frame().0,
            match message {
                Some(message) => old(self)@.after_next_frame().1 matches Some(frame) && message@
                    == MessageView::Binary(frame),
                None => old(self)@.after_next_frame().1 is None,
            },
    {
        match self.next_frame() {
            Some(frame) => Some(Message::Binary(frame)),
            None => None,
        }
    }

    /// Cancels the session. Every packet that was still waiting fails as
    /// closed; nothing is sent or delivered after this; the transport is to
    /// be closed if this is the first cancellation.
    pub fn cancel(&mut self) -> (cancelled: Cancelled)
        requires
            old(self)@.well_formed(),
        ensures
            final(self)@.well_formed(),
            final(self)@ == old(self)@.after_cancel(),
            cancelled.pending@.map_values(|packet: MixPacket| packet@) == old(self)@.queue,
            cancelled.failure == Error::SessionClosed,
            cancelled.close_transport == !old(self)@.closed,
    {
        let close_transport = !self.closed;
        let mut pending: Vec<MixPacket> = Vec::new();
        let ghost before = self.outbound@;
        while self.outbound.len() > 0
            invariant
                self.keys == old(self).keys,
                self.bandwidth == old(self).bandwidth,
                self.credentials_enabled == old(self).credentials_enabled,
                self.capacity == old(self).capacity,
                self.closed == old(self).closed,
                pending@ + self.outbound@ == before,
            decreases self.outbound@.len(),
        {
            match self.outbound.pop_front() {
                Some(packet) => {
                    pending.push(packet);
                    assert(pending@ + self.outbound@ =~= before);
                },
                None => {},
            }
        }
        self.closed = true;
        proof {
            assert(pending@ =~= before);
            assert(self.outbound@.map_values(|packet: MixPacket| packet@) =~= Seq::empty());
        }
        Cancelled { pending, failure: Error::SessionClosed, close_transport }
    }
}

/// The credential a client submits.
#[derive(Debug, Clone, PartialEq, Eq)]
pub enum Credential {
    /// A credential of the first format.
    V1(OldV1Credential),
    /// A credential of the second format.
    V2(CredentialSpendingData),
    /// None: the free bandwidth of a test network is claimed.
    FreeTestnet,
}

impl Credential {
    /// The request that submits this credential, encrypted under
    /// `shared_key` with `iv`.
    pub open spec fn request(&self, shared_key: SharedKeys, iv: IV) -> ClientControlRequestView {
        match self {
            Credential::V1(credential) => ClientControlRequestView::BandwidthCredential {
                enc_credential: shared_key.sealed(iv.bytes@, credential@.encoded()),
                iv: iv.bytes@,
            },
            Credential::V2(credential) => ClientControlRequestView::BandwidthCredentialV2 {
                enc_credential: shared_key.sealed(iv.bytes@, credential@.encoded()),
                iv: iv.bytes@,
            },
            Credential::FreeTestnet => ClientControlRequestView::ClaimFreeTestnetBandwidth,
        }
    }

    /// The request that submits this credential, encrypted with a vector
    /// that is drawn for this request alone; `None` when no randomness is to
    /// be had.
    pub fn submit(self, shared_key: &SharedKeys) -> (request: Option<ClientControlRequest>)
        ensures
            request matches Some(request) ==> exists|iv: IV|
                request@ == #[trigger] self.request(*shared_key, iv),
    {
        match IV::new_random() {
            Some(iv) => Some(self.into_request(shared_key, iv)),
            None => None,
        }
    }

    /// The request that submits this credential. The credential is encrypted
    /// under `shared_key` with `iv`, which must not have been used with these
    /// keys before, and `iv` travels in the request.
    pub fn into_request(self, shared_key: &SharedKeys, iv: IV) -> (request: ClientControlRequest)
        ensures
            request@ == self.request(*shared_key, iv),
    {
        match self {
            Credential::V1(credential) =>
                ClientControlRequest::new_enc_coconut_bandwidth_credential_v1(
                    &credential,
                    shared_key,
                    iv,
                ),
            Credential::V2(credential) =>
                ClientControlRequest::new_enc_coconut_bandwidth_credential_v2(
                    credential,
                    shared_key,
                    iv,
                ),
            Credential::FreeTestnet => ClientControlRequest::ClaimFreeTestnetBandwidth,
        }
    }
}

/// What the gateway's answer to a credential means: the new balance, the
/// gateway's refusal with its message, or an answer that is none.
pub open spec fn credential_outcome(response: ServerResponseView) -> Result<i64, ErrorView> {
    match response {
        ServerResponseView::Bandwidth { available_total } => Ok(available_total),
        ServerResponseView::Error { message } => Err(ErrorView::CredentialRefused(message)),
        _ => Err(ErrorView::UnexpectedResponse),
    }
}

/// Reads the gateway's answer to a credential.
pub fn on_credential_response(response: ServerResponse) -> (result: Result<i64, Error>)
    ensures
        match result {
            Ok(balance) => credential_outcome(response@) == Ok::<i64, ErrorView>(balance),
            Err(e) => credential_outcome(response@) == Err::<i64, ErrorView>(e@),
        },
{
    match response {
        ServerResponse::Bandwidth { available_total } => Ok(available_total),
        ServerResponse::Error { message } => Err(Error::CredentialRefused(message)),
        _ => Err(Error::UnexpectedResponse),
    }
}

/// A bandwidth report after sending never raises the counter, and lowers it
/// to what it reports where that is less; a new balance above the counter
/// raises it, to that balance.
pub proof fn lemma_bandwidth_counter(session: SessionView, reported: i64)
    requires
        !session.closed,
    ensures
        session.after_control(
            ServerResponseView::Send { remaining_bandwidth: reported },
        ).0.bandwidth <= session.bandwidth,
        reported <= session.bandwidth ==> session.after_control(
            ServerResponseView::Send { remaining_bandwidth: reported },
        ).0.bandwidth == reported,
        reported > session.bandwidth ==> session.after_control(
            ServerResponseView::Bandwidth { available_total: reported },
        ).0.bandwidth > session.bandwidth,
        session.after_control(
            ServerResponseView::Bandwidth { available_total: reported },
        ).0.bandwidth == reported,
{
}

/// Nothing but the two bandwidth reports touches the counter.
pub proof fn lemma_only_reports_move_the_counter(
    session: SessionView,
    packet: MixPacketView,
    response: ServerResponseView,
)
    ensures
        session.after_submit(packet).0.bandwidth == session.bandwidth,
        session.after_next_frame().0.bandwidth == session.bandwidth,
        session.after_cancel().bandwidth == session.bandwidth,
        !(response is Send) && !(response is Bandwidth) ==> session.after_control(response).0
            == session,
{
}

/// Every step keeps the queue within its bound and in order: a submitted
/// packet waits behind the others, and the frame that leaves is that of the
/// oldest one.
pub proof fn lemma_queue_is_bounded_and_ordered(
    session: SessionView,
    packet: MixPacketView,
    response: ServerResponseView,
)
    requires
        session.well_formed(),
    ensures
        session.after_submit(packet).0.well_formed(),
        session.after_next_frame().0.well_formed(),
        session.after_control(response).0.well_formed(),
        session.after_cancel().well_formed(),
        session.after_submit(packet).1 is Ok ==> session.after_submit(packet).0.queue
            == session.queue.push(packet),
        session.after_next_frame().1 is Some ==> session.queue == seq![session.queue[0]]
            + session.after_next_frame().0.queue,
{
    if session.after_next_frame().1 is Some {
        assert(session.queue =~= seq![session.queue[0]] + session.queue.drop_first());
    }
}

/// Every frame that leaves a session carries a mix packet and is sealed with
/// the zero vector, and with no other.
pub proof fn lemma_outbound_frames_use_the_zero_vector(session: SessionView)
    requires
        session.well_formed(),
    ensures
        session.after_next_frame().1 matches Some(frame) ==> frame == session.keys.sealed(
            zero_iv(),
            session.queue[0].encoded(),
        ),
{
    if session.after_next_frame().1 is Some {
        assert(session.queue[0].well_formed());
    }
}

/// After a cancellation nothing is written and nothing is delivered any
/// more: no frame leaves, every submission fails as closed, every inbound
/// frame is the end of the stream, and a second cancellation finds nothing to
/// fail and no transport to close.
pub proof fn lemma_cancellation_is_final(
    session: SessionView,
    packet: MixPacketView,
    response: ServerResponseView,
    frame: Seq<u8>,
)
    ensures
        session.after_cancel().closed,
        session.after_cancel().after_next_frame() == (session.after_cancel(), None::<Seq<u8>>),
        session.after_cancel().after_submit(packet) == (
            session.after_cancel(),
            Err::<(), ErrorView>(ErrorView::SessionClosed),
        ),
        session.after_cancel().after_control(response) == (
            session.after_cancel(),
            InboundView::EndOfStream,
        ),
        session.after_cancel().binary(frame) == InboundView::EndOfStream,
        session.after_cancel().after_message(MessageView::Binary(frame)) == (
            session.after_cancel(),
            InboundView::EndOfStream,
        ),
        forall|text: Seq<char>|
            #[trigger] session.after_cancel().after_message(MessageView::Text(text)) == (
                session.after_cancel(),
                InboundView::EndOfStream,
            ),
        session.after_cancel().after_cancel() == session.after_cancel(),
{
}

/// No inbound frame ends a session, whatever is wrong with it, and none but
/// a bandwidth report changes anything about it.
pub proof fn lemma_inbound_frames_never_close(session: SessionView, message: MessageView)
    requires
        !session.closed,
    ensures
        !session.after_message(message).0.closed,
        session.after_message(message).0.queue == session.queue,
        session.after_message(message).1 is Dropped || session.after_message(message).1
            is Malformed || session.after_message(message).1 is GatewayError ==> session.after_message(
            message,
        ).0 == session,
{
}

} // verus!
