//! Control frames as JSON objects: which members each frame has, under which
//! names, and how a frame is read back from members. A frame is told by its
//! `type`; members it does not know are ignored; a protocol version that is
//! missing or null is none; bytes are base58 text.

use crate::bytes::str_eq;
use crate::json::{
    bool_member, bytes_member, distinct_keys, fields_view, get_bool, get_bytes, get_int, get_text,
    get_version, int_member, lemma_values_of_insert, member, put, text_member, values_of,
    version_member, version_to_value, version_value, writable, Field, FieldView, FrameError,
    JsonValue, JsonValueView,
};
use crate::primitives::{base58_bytes, base58_encode, base58_text};
use crate::types::{
    ClientControlRequest, ClientControlRequestView, RegistrationHandshake,
    RegistrationHandshakeView, ServerResponse, ServerResponseView,
};
use vstd::prelude::*;

verus! {

/// A member with a key and a value.
pub open spec fn entry(key: Seq<char>, value: JsonValueView) -> FieldView {
    FieldView { key, value }
}

/// The members that begin every frame of type `tag`: the type, and the
/// protocol version where the frame has one.
pub open spec fn tagged(tag: Seq<char>) -> Seq<FieldView> {
    Seq::empty().push(entry("type"@, JsonValueView::Text(tag)))
}

/// Whether `key` names a member of some frame.
pub open spec fn is_known_key(key: Seq<char>) -> bool {
    ||| key == "type"@
    ||| key == "protocolVersion"@
    ||| key == "address"@
    ||| key == "encAddress"@
    ||| key == "iv"@
    ||| key == "data"@
    ||| key == "encCredential"@
    ||| key == "status"@
    ||| key == "bandwidthRemaining"@
    ||| key == "availableTotal"@
    ||| key == "remainingBandwidth"@
    ||| key == "message"@
}

/// The length and the first character of every member name and of every
/// frame type, by which they are told apart.
pub proof fn lemma_names()
    ensures
        "type"@.len() == 4 && "type"@[0] == 't',
        "protocolVersion"@.len() == 15,
        "address"@.len() == 7 && "address"@[0] == 'a',
        "encAddress"@.len() == 10,
        "iv"@.len() == 2,
        "data"@.len() == 4 && "data"@[0] == 'd',
        "encCredential"@.len() == 13,
        "status"@.len() == 6,
        "bandwidthRemaining"@.len() == 18 && "bandwidthRemaining"@[0] == 'b',
        "availableTotal"@.len() == 14,
        "remainingBandwidth"@.len() == 18 && "remainingBandwidth"@[0] == 'r',
        "message"@.len() == 7 && "message"@[0] == 'm',
        "authenticate"@.len() == 12,
        "registerHandshakeInitRequest"@.len() == 28,
        "handshakePayload"@.len() == 16,
        "handshakeError"@.len() == 14,
        "bandwidthCredential"@.len() == 19,
        "bandwidthCredentialV2"@.len() == 21,
        "claimFreeTestnetBandwidth"@.len() == 25,
        "register"@.len() == 8,
        "bandwidth"@.len() == 9,
        "send"@.len() == 4,
        "error"@.len() == 5,
{
    reveal_strlit("type");
    reveal_strlit("protocolVersion");
    reveal_strlit("address");
    reveal_strlit("encAddress");
    reveal_strlit("iv");
    reveal_strlit("data");
    reveal_strlit("encCredential");
    reveal_strlit("status");
    reveal_strlit("bandwidthRemaining");
    reveal_strlit("availableTotal");
    reveal_strlit("remainingBandwidth");
    reveal_strlit("message");
    reveal_strlit("authenticate");
    reveal_strlit("registerHandshakeInitRequest");
    reveal_strlit("handshakePayload");
    reveal_strlit("handshakeError");
    reveal_strlit("bandwidthCredential");
    reveal_strlit("bandwidthCredentialV2");
    reveal_strlit("claimFreeTestnetBandwidth");
    reveal_strlit("register");
    reveal_strlit("bandwidth");
    reveal_strlit("send");
    reveal_strlit("error");
}

/// Among members with distinct keys, each is found under its key, and
/// nothing is found under a key that none of them has.
pub proof fn lemma_member_of_distinct(fields: Seq<FieldView>, key: Seq<char>)
    requires
        distinct_keys(fields),
    ensures
        forall|i: int|
            0 <= i < fields.len() && (#[trigger] fields[i]).key == key ==> values_of(fields, key)
                == seq![fields[i].value],
        (forall|i: int| 0 <= i < fields.len() ==> (#[trigger] fields[i]).key != key) ==> values_of(
            fields,
            key,
        ).len() == 0,
    decreases fields.len(),
{
    if fields.len() > 0 {
        let head = fields.drop_last();
        assert(distinct_keys(head)) by {
            assert forall|i: int, j: int| 0 <= i < j < head.len() implies (#[trigger] head[i]).key
                != (#[trigger] head[j]).key by {
                assert(head[i] == fields[i] && head[j] == fields[j]);
            }
        }
        lemma_member_of_distinct(head, key);
        let last = fields.len() - 1;
        if fields[last].key == key {
            assert forall|i: int| 0 <= i < head.len() implies (#[trigger] head[i]).key != key by {
                assert(head[i] == fields[i]);
            }
            assert(values_of(fields, key) =~= seq![fields[last].value]);
        } else {
            assert forall|i: int|
                0 <= i < fields.len() && (#[trigger] fields[i]).key == key implies values_of(
                fields,
                key,
            ) == seq![fields[i].value] by {
                assert(head[i] == fields[i]);
            }
            if forall|i: int| 0 <= i < fields.len() ==> (#[trigger] fields[i]).key != key {
                assert forall|i: int| 0 <= i < head.len() implies (#[trigger] head[i]).key
                    != key by {
                    assert(head[i] == fields[i]);
                }
            }
        }
    }
}

impl RegistrationHandshakeView {
    /// The members of the message.
    pub open spec fn fields(self) -> Seq<FieldView> {
        match self {
            RegistrationHandshakeView::HandshakePayload { protocol_version, data } => tagged(
                "handshakePayload"@,
            ).push(entry("protocolVersion"@, version_value(protocol_version))).push(
                entry("data"@, JsonValueView::Text(base58_text(data))),
            ),
            RegistrationHandshakeView::HandshakeError { message } => tagged(
                "handshakeError"@,
            ).push(entry("message"@, JsonValueView::Text(message))),
        }
    }

    /// The message that has these members.
    pub open spec fn of_fields(fields: Seq<FieldView>) -> Result<
        RegistrationHandshakeView,
        FrameError,
    > {
        match text_member(fields, "type"@) {
            Err(_) => Err(FrameError::UnknownType),
            Ok(tag) => if tag == "handshakePayload"@ {
                match version_member(fields, "protocolVersion"@) {
                    Err(e) => Err(e),
                    Ok(protocol_version) => match bytes_member(fields, "data"@) {
                        Err(e) => Err(e),
                        Ok(data) => Ok(
                            RegistrationHandshakeView::HandshakePayload { protocol_version, data },
                        ),
                    },
                }
            } else if tag == "handshakeError"@ {
                match text_member(fields, "message"@) {
                    Err(e) => Err(e),
                    Ok(message) => Ok(RegistrationHandshakeView::HandshakeError { message }),
                }
            } else {
                Err(FrameError::UnknownType)
            },
        }
    }
}

impl ClientControlRequestView {
    /// The members of the request.
    pub open spec fn fields(self) -> Seq<FieldView> {
        match self {
            ClientControlRequestView::Authenticate { protocol_version, address, enc_address, iv } =>
                tagged("authenticate"@).push(
                    entry("protocolVersion"@, version_value(protocol_version)),
                ).push(entry("address"@, JsonValueView::Text(address))).push(
                    entry("encAddress"@, JsonValueView::Text(enc_address)),
                ).push(entry("iv"@, JsonValueView::Text(iv))),
            ClientControlRequestView::RegisterHandshakeInitRequest { protocol_version, data } =>
                tagged("registerHandshakeInitRequest"@).push(
                    entry("protocolVersion"@, version_value(protocol_version)),
                ).push(entry("data"@, JsonValueView::Text(base58_text(data)))),
            ClientControlRequestView::BandwidthCredential { enc_credential, iv } => tagged(
                "bandwidthCredential"@,
            ).push(entry("encCredential"@, JsonValueView::Text(base58_text(enc_credential)))).push(
                entry("iv"@, JsonValueView::Text(base58_text(iv))),
            ),
            ClientControlRequestView::BandwidthCredentialV2 { enc_credential, iv } => tagged(
                "bandwidthCredentialV2"@,
            ).push(entry("encCredential"@, JsonValueView::Text(base58_text(enc_credential)))).push(
                entry("iv"@, JsonValueView::Text(base58_text(iv))),
            ),
            ClientControlRequestView::ClaimFreeTestnetBandwidth => tagged(
                "claimFreeTestnetBandwidth"@,
            ),
        }
    }

    /// The request that has these members. A handshake payload is read as
    /// the request that begins a handshake.
    pub open spec fn of_fields(fields: Seq<FieldView>) -> Result<
        ClientControlRequestView,
        FrameError,
    > {
        match text_member(fields, "type"@) {
            Err(_) => Err(FrameError::UnknownType),
            Ok(tag) => if tag == "authenticate"@ {
                match version_member(fields, "protocolVersion"@) {
                    Err(e) => Err(e),
                    Ok(protocol_version) => match text_member(fields, "address"@) {
                        Err(e) => Err(e),
                        Ok(address) => match text_member(fields, "encAddress"@) {
                            Err(e) => Err(e),
                            Ok(enc_address) => match text_member(fields, "iv"@) {
                                Err(e) => Err(e),
                                Ok(iv) => Ok(
                                    ClientControlRequestView::Authenticate {
                                        protocol_version,
                                        address,
                                        enc_address,
                                        iv,
                                    },
                                ),
                            },
                        },
                    },
                }
            } else if tag == "registerHandshakeInitRequest"@ || tag == "handshakePayload"@ {
                match version_member(fields, "protocolVersion"@) {
                    Err(e) => Err(e),
                    Ok(protocol_version) => match bytes_member(fields, "data"@) {
                        Err(e) => Err(e),
                        Ok(data) => Ok(
                            ClientControlRequestView::RegisterHandshakeInitRequest {
                                protocol_version,
                                data,
                            },
                        ),
                    },
                }
            } else if tag == "bandwidthCredential"@ {
                match bytes_member(fields, "encCredential"@) {
                    Err(e) => Err(e),
                    Ok(enc_credential) => match bytes_member(fields, "iv"@) {
                        Err(e) => Err(e),
                        Ok(iv) => Ok(
                            ClientControlRequestView::BandwidthCredential { enc_credential, iv },
                        ),
                    },
                }
            } else if tag == "bandwidthCredentialV2"@ {
                match bytes_member(fields, "encCredential"@) {
                    Err(e) => Err(e),
                    Ok(enc_credential) => match bytes_member(fields, "iv"@) {
                        Err(e) => Err(e),
                        Ok(iv) => Ok(
                            ClientControlRequestView::BandwidthCredentialV2 { enc_credential, iv },
                        ),
                    },
                }
            } else if tag == "claimFreeTestnetBandwidth"@ {
                Ok(ClientControlRequestView::ClaimFreeTestnetBandwidth)
            } else {
                Err(FrameError::UnknownType)
            },
        }
    }
}

impl ServerResponseView {
    /// The members of the response.
    pub open spec fn fields(self) -> Seq<FieldView> {
        match self {
            ServerResponseView::Authenticate { protocol_version, status, bandwidth_remaining } =>
                tagged("authenticate"@).push(
                    entry("protocolVersion"@, version_value(protocol_version)),
                ).push(entry("status"@, JsonValueView::Bool(status))).push(
                    entry("bandwidthRemaining"@, JsonValueView::Int(bandwidth_remaining)),
                ),
            ServerResponseView::Register { protocol_version, status } => tagged("register"@).push(
                entry("protocolVersion"@, version_value(protocol_version)),
            ).push(entry("status"@, JsonValueView::Bool(status))),
            ServerResponseView::Bandwidth { available_total } => tagged("bandwidth"@).push(
                entry("availableTotal"@, JsonValueView::Int(available_total)),
            ),
            ServerResponseView::Send { remaining_bandwidth } => tagged("send"@).push(
                entry("remainingBandwidth"@, JsonValueView::Int(remaining_bandwidth)),
            ),
            ServerResponseView::Error { message } => tagged("error"@).push(
                entry("message"@, JsonValueView::Text(message)),
            ),
        }
    }

    /// The response that has these members.
    pub open spec fn of_fields(fields: Seq<FieldView>) -> Result<ServerResponseView, FrameError> {
        match text_member(fields, "type"@) {
            Err(_) => Err(FrameError::UnknownType),
            Ok(tag) => if tag == "authenticate"@ {
                match version_member(fields, "protocolVersion"@) {
                    Err(e) => Err(e),
                    Ok(protocol_version) => match bool_member(fields, "status"@) {
                        Err(e) => Err(e),
                        Ok(status) => match int_member(fields, "bandwidthRemaining"@) {
                            Err(e) => Err(e),
                            Ok(bandwidth_remaining) => Ok(
                                ServerResponseView::Authenticate {
                                    protocol_version,
                                    status,
                                    bandwidth_remaining,
                                },
                            ),
                        },
                    },
                }
            } else if tag == "register"@ {
                match version_member(fields, "protocolVersion"@) {
                    Err(e) => Err(e),
                    Ok(protocol_version) => match bool_member(fields, "status"@) {
                        Err(e) => Err(e),
                        Ok(status) => Ok(ServerResponseView::Register { protocol_version, status }),
                    },
                }
            } else if tag == "bandwidth"@ {
                match int_member(fields, "availableTotal"@) {
                    Err(e) => Err(e),
                    Ok(available_total) => Ok(ServerResponseView::Bandwidth { available_total }),
                }
            } else if tag == "send"@ {
                match int_member(fields, "remainingBandwidth"@) {
                    Err(e) => Err(e),
                    Ok(remaining_bandwidth) => Ok(
                        ServerResponseView::Send { remaining_bandwidth },
                    ),
                }
            } else if tag == "error"@ {
                match text_member(fields, "message"@) {
                    Err(e) => Err(e),
                    Ok(message) => Ok(ServerResponseView::Error { message }),
                }
            } else {
                Err(FrameError::UnknownType)
            },
        }
    }
}

/// What the members of a frame are found to be: each under its own key.
proof fn lemma_frame_members(fields: Seq<FieldView>)
    requires
        distinct_keys(fields),
    ensures
        forall|i: int|
            0 <= i < fields.len() ==> member(fields, (#[trigger] fields[i]).key) == Ok::<
                Option<JsonValueView>,
                FrameError,
            >(Some(fields[i].value)),
{
    assert forall|i: int| 0 <= i < fields.len() implies member(
        fields,
        (#[trigger] fields[i]).key,
    ) == Ok::<Option<JsonValueView>, FrameError>(Some(fields[i].value)) by {
        lemma_member_of_distinct(fields, fields[i].key);
    }
}

/// Whether bytes are read back from their base58 text, which they are
/// whenever that text was made by encoding them.
pub open spec fn encodes_back(bytes: Seq<u8>) -> bool {
    base58_bytes(base58_text(bytes)) == Some(bytes)
}

impl RegistrationHandshakeView {
    /// Whether the bytes in the message are read back from their base58
    /// text.
    pub open spec fn readable(self) -> bool {
        match self {
            RegistrationHandshakeView::HandshakePayload { data, .. } => encodes_back(data),
            RegistrationHandshakeView::HandshakeError { .. } => true,
        }
    }
}

impl ClientControlRequestView {
    /// Whether the bytes in the request are read back from their base58
    /// text.
    pub open spec fn readable(self) -> bool {
        match self {
            ClientControlRequestView::RegisterHandshakeInitRequest { data, .. } => encodes_back(
                data,
            ),
            ClientControlRequestView::BandwidthCredential { enc_credential, iv } => encodes_back(
                enc_credential,
            ) && encodes_back(iv),
            ClientControlRequestView::BandwidthCredentialV2 { enc_credential, iv } => encodes_back(
                enc_credential,
            ) && encodes_back(iv),
            _ => true,
        }
    }
}

/// Whether two lists of members say the same under every key that a frame
/// knows.
pub open spec fn same_known_members(a: Seq<FieldView>, b: Seq<FieldView>) -> bool {
    &&& values_of(a, "type"@) == values_of(b, "type"@)
    &&& values_of(a, "protocolVersion"@) == values_of(b, "protocolVersion"@)
    &&& values_of(a, "address"@) == values_of(b, "address"@)
    &&& values_of(a, "encAddress"@) == values_of(b, "encAddress"@)
    &&& values_of(a, "iv"@) == values_of(b, "iv"@)
    &&& values_of(a, "data"@) == values_of(b, "data"@)
    &&& values_of(a, "encCredential"@) == values_of(b, "encCredential"@)
    &&& values_of(a, "status"@) == values_of(b, "status"@)
    &&& values_of(a, "bandwidthRemaining"@) == values_of(b, "bandwidthRemaining"@)
    &&& values_of(a, "availableTotal"@) == values_of(b, "availableTotal"@)
    &&& values_of(a, "remainingBandwidth"@) == values_of(b, "remainingBandwidth"@)
    &&& values_of(a, "message"@) == values_of(b, "message"@)
}

/// What is read from members depends only on what stands under the keys
/// that a frame knows: whatever else there is, and in whatever order, is
/// ignored.
pub proof fn lemma_only_known_members_are_read(a: Seq<FieldView>, b: Seq<FieldView>)
    requires
        same_known_members(a, b),
    ensures
        RegistrationHandshakeView::of_fields(a) == RegistrationHandshakeView::of_fields(b),
        ClientControlRequestView::of_fields(a) == ClientControlRequestView::of_fields(b),
        ServerResponseView::of_fields(a) == ServerResponseView::of_fields(b),
{
}

/// The members of every frame can be written as an object.
pub proof fn lemma_frame_members_are_writable(
    handshake: RegistrationHandshakeView,
    request: ClientControlRequestView,
    response: ServerResponseView,
)
    ensures
        writable(handshake.fields()),
        writable(request.fields()),
        writable(response.fields()),
{
    lemma_names();
    let h = handshake.fields();
    match handshake {
        RegistrationHandshakeView::HandshakePayload { .. } => {
            assert(h[0].key == "type"@ && h[1].key == "protocolVersion"@ && h[2].key == "data"@);
        },
        RegistrationHandshakeView::HandshakeError { .. } => {
            assert(h[0].key == "type"@ && h[1].key == "message"@);
        },
    }
    let q = request.fields();
    match request {
        ClientControlRequestView::Authenticate { .. } => {
            assert(q[0].key == "type"@ && q[1].key == "protocolVersion"@ && q[2].key == "address"@
                && q[3].key == "encAddress"@ && q[4].key == "iv"@);
        },
        ClientControlRequestView::RegisterHandshakeInitRequest { .. } => {
            assert(q[0].key == "type"@ && q[1].key == "protocolVersion"@ && q[2].key == "data"@);
        },
        ClientControlRequestView::BandwidthCredential { .. } => {
            assert(q[0].key == "type"@ && q[1].key == "encCredential"@ && q[2].key == "iv"@);
        },
        ClientControlRequestView::BandwidthCredentialV2 { .. } => {
            assert(q[0].key == "type"@ && q[1].key == "encCredential"@ && q[2].key == "iv"@);
        },
        ClientControlRequestView::ClaimFreeTestnetBandwidth => {
            assert(q[0].key == "type"@);
        },
    }
    let r = response.fields();
    match response {
        ServerResponseView::Authenticate { .. } => {
            assert(r[0].key == "type"@ && r[1].key == "protocolVersion"@ && r[2].key == "status"@
                && r[3].key == "bandwidthRemaining"@);
        },
        ServerResponseView::Register { .. } => {
            assert(r[0].key == "type"@ && r[1].key == "protocolVersion"@ && r[2].key == "status"@);
        },
        ServerResponseView::Bandwidth { .. } => {
            assert(r[0].key == "type"@ && r[1].key == "availableTotal"@);
        },
        ServerResponseView::Send { .. } => {
            assert(r[0].key == "type"@ && r[1].key == "remainingBandwidth"@);
        },
        ServerResponseView::Error { .. } => {
            assert(r[0].key == "type"@ && r[1].key == "message"@);
        },
    }
}

/// A handshake message is read back from its members, its bytes as far as
/// they are read back from their base58 text.
pub proof fn lemma_registration_handshake_roundtrip(message: RegistrationHandshakeView)
    ensures
        message.readable() ==> RegistrationHandshakeView::of_fields(message.fields()) == Ok::<
            RegistrationHandshakeView,
            FrameError,
        >(message),
{
    lemma_names();
    let fields = message.fields();
    lemma_frame_members_are_writable(
        message,
        ClientControlRequestView::ClaimFreeTestnetBandwidth,
        ServerResponseView::Send { remaining_bandwidth: 0 },
    );
    match message {
        RegistrationHandshakeView::HandshakePayload { protocol_version, data } => {
            assert(fields[0].key == "type"@ && fields[1].key == "protocolVersion"@ && fields[2].key
                == "data"@);
            lemma_frame_members(fields);
        },
        RegistrationHandshakeView::HandshakeError { message } => {
            assert(fields[0].key == "type"@ && fields[1].key == "message"@);
            lemma_frame_members(fields);
        },
    }
}

/// A control request is read back from its members, its bytes as far as they
/// are read back from their base58 text.
pub proof fn lemma_client_request_roundtrip(request: ClientControlRequestView)
    ensures
        request.readable() ==> ClientControlRequestView::of_fields(request.fields()) == Ok::<
            ClientControlRequestView,
            FrameError,
        >(request),
{
    lemma_names();
    let fields = request.fields();
    lemma_frame_members_are_writable(
        RegistrationHandshakeView::HandshakeError { message: Seq::empty() },
        request,
        ServerResponseView::Send { remaining_bandwidth: 0 },
    );
    match request {
        ClientControlRequestView::Authenticate { .. } => {
            assert(fields[0].key == "type"@ && fields[1].key == "protocolVersion"@ && fields[2].key
                == "address"@ && fields[3].key == "encAddress"@ && fields[4].key == "iv"@);
            lemma_frame_members(fields);
        },
        ClientControlRequestView::RegisterHandshakeInitRequest { .. } => {
            assert(fields[0].key == "type"@ && fields[1].key == "protocolVersion"@ && fields[2].key
                == "data"@);
            lemma_frame_members(fields);
        },
        ClientControlRequestView::BandwidthCredential { .. } => {
            assert(fields[0].key == "type"@ && fields[1].key == "encCredential"@ && fields[2].key
                == "iv"@);
            lemma_frame_members(fields);
        },
        ClientControlRequestView::BandwidthCredentialV2 { .. } => {
            assert(fields[0].key == "type"@ && fields[1].key == "encCredential"@ && fields[2].key
                == "iv"@);
            lemma_frame_members(fields);
        },
        ClientControlRequestView::ClaimFreeTestnetBandwidth => {
            assert(fields[0].key == "type"@);
            lemma_frame_members(fields);
        },
    }
}

/// A response is read back from its members.
pub proof fn lemma_server_response_roundtrip(response: ServerResponseView)
    ensures
        ServerResponseView::of_fields(response.fields()) == Ok::<ServerResponseView, FrameError>(
            response,
        ),
{
    lemma_names();
    let fields = response.fields();
    lemma_frame_members_are_writable(
        RegistrationHandshakeView::HandshakeError { message: Seq::empty() },
        ClientControlRequestView::ClaimFreeTestnetBandwidth,
        response,
    );
    match response {
        ServerResponseView::Authenticate { .. } => {
            assert(fields[0].key == "type"@ && fields[1].key == "protocolVersion"@ && fields[2].key
                == "status"@ && fields[3].key == "bandwidthRemaining"@);
            lemma_frame_members(fields);
        },
        ServerResponseView::Register { .. } => {
            assert(fields[0].key == "type"@ && fields[1].key == "protocolVersion"@ && fields[2].key
                == "status"@);
            lemma_frame_members(fields);
        },
        ServerResponseView::Bandwidth { .. } => {
            assert(fields[0].key == "type"@ && fields[1].key == "availableTotal"@);
            lemma_frame_members(fields);
        },
        ServerResponseView::Send { .. } => {
            assert(fields[0].key == "type"@ && fields[1].key == "remainingBandwidth"@);
            lemma_frame_members(fields);
        },
        ServerResponseView::Error { .. } => {
            assert(fields[0].key == "type"@ && fields[1].key == "message"@);
            lemma_frame_members(fields);
        },
    }
}

/// The message that a gateway sends as a handshake payload is read by the
/// other side as the request that begins a handshake, with the same version
/// and the same data.
pub proof fn lemma_handshake_payload_is_an_init_request(protocol_version: Option<u8>, data: Seq<u8>)
    ensures
        encodes_back(data) ==> ClientControlRequestView::of_fields(
            (RegistrationHandshakeView::HandshakePayload { protocol_version, data }).fields(),
        ) == Ok::<ClientControlRequestView, FrameError>(
            ClientControlRequestView::RegisterHandshakeInitRequest { protocol_version, data },
        ),
{
    lemma_names();
    let payload = RegistrationHandshakeView::HandshakePayload { protocol_version, data };
    let fields = payload.fields();
    lemma_frame_members_are_writable(
        payload,
        ClientControlRequestView::ClaimFreeTestnetBandwidth,
        ServerResponseView::Send { remaining_bandwidth: 0 },
    );
    assert(fields[0].key == "type"@ && fields[1].key == "protocolVersion"@ && fields[2].key
        == "data"@);
    lemma_frame_members(fields);
}

/// A member that no frame knows, put in anywhere among the members of a
/// frame, changes nothing of what is read.
pub proof fn lemma_unknown_member_is_ignored(fields: Seq<FieldView>, position: int, extra: FieldView)
    requires
        0 <= position <= fields.len(),
        !is_known_key(extra.key),
    ensures
        same_known_members(fields.insert(position, extra), fields),
        RegistrationHandshakeView::of_fields(fields.insert(position, extra))
            == RegistrationHandshakeView::of_fields(fields),
        ClientControlRequestView::of_fields(fields.insert(position, extra))
            == ClientControlRequestView::of_fields(fields),
        ServerResponseView::of_fields(fields.insert(position, extra))
            == ServerResponseView::of_fields(fields),
{
    lemma_values_of_insert(fields, position, extra, "type"@);
    lemma_values_of_insert(fields, position, extra, "protocolVersion"@);
    lemma_values_of_insert(fields, position, extra, "address"@);
    lemma_values_of_insert(fields, position, extra, "encAddress"@);
    lemma_values_of_insert(fields, position, extra, "iv"@);
    lemma_values_of_insert(fields, position, extra, "data"@);
    lemma_values_of_insert(fields, position, extra, "encCredential"@);
    lemma_values_of_insert(fields, position, extra, "status"@);
    lemma_values_of_insert(fields, position, extra, "bandwidthRemaining"@);
    lemma_values_of_insert(fields, position, extra, "availableTotal"@);
    lemma_values_of_insert(fields, position, extra, "remainingBandwidth"@);
    lemma_values_of_insert(fields, position, extra, "message"@);
}

impl RegistrationHandshake {
    /// The members of the message.
    pub fn to_fields(&self) -> (fields: Vec<Field>)
        ensures
            fields_view(fields@) == self@.fields(),
            writable(fields_view(fields@)),
            self@.readable(),
    {
        let mut fields: Vec<Field> = Vec::new();
        assert(fields_view(fields@) =~= Seq::empty());
        proof {
            lemma_frame_members_are_writable(
                self@,
                ClientControlRequestView::ClaimFreeTestnetBandwidth,
                ServerResponseView::Send { remaining_bandwidth: 0 },
            );
        }
        match self {
            RegistrationHandshake::HandshakePayload { protocol_version, data } => {
                put(&mut fields, "type", JsonValue::Text("handshakePayload".to_string()));
                put(&mut fields, "protocolVersion", version_to_value(*protocol_version));
                put(&mut fields, "data", JsonValue::Text(base58_encode(data.as_slice())));
            },
            RegistrationHandshake::HandshakeError { message } => {
                put(&mut fields, "type", JsonValue::Text("handshakeError".to_string()));
                put(&mut fields, "message", JsonValue::Text(message.clone()));
            },
        }
        fields
    }

    /// The message that has these members.
    pub fn from_fields(fields: &Vec<Field>) -> (result: Result<Self, FrameError>)
        ensures
            match result {
                Ok(message) => RegistrationHandshakeView::of_fields(fields_view(fields@)) == Ok::<
                    RegistrationHandshakeView,
                    FrameError,
                >(message@),
                Err(e) => RegistrationHandshakeView::of_fields(fields_view(fields@)) == Err::<
                    RegistrationHandshakeView,
                    FrameError,
                >(e),
            },
    {
        let tag = match get_text(fields, "type") {
            Ok(tag) => tag,
            Err(_) => {
                return Err(FrameError::UnknownType);
            },
        };
        if str_eq(tag.as_str(), "handshakePayload") {
            let protocol_version = get_version(fields, "protocolVersion")?;
            let data = get_bytes(fields, "data")?;
            Ok(RegistrationHandshake::HandshakePayload { protocol_version, data })
        } else if str_eq(tag.as_str(), "handshakeError") {
            let message = get_text(fields, "message")?;
            Ok(RegistrationHandshake::HandshakeError { message })
        } else {
            Err(FrameError::UnknownType)
        }
    }
}

impl ClientControlRequest {
    /// The members of the request.
    pub fn to_fields(&self) -> (fields: Vec<Field>)
        ensures
            fields_view(fields@) == self@.fields(),
            writable(fields_view(fields@)),
            self@.readable(),
    {
        let mut fields: Vec<Field> = Vec::new();
        assert(fields_view(fields@) =~= Seq::empty());
        proof {
            lemma_frame_members_are_writable(
                RegistrationHandshakeView::HandshakeError { message: Seq::empty() },
                self@,
                ServerResponseView::Send { remaining_bandwidth: 0 },
            );
        }
        match self {
            ClientControlRequest::Authenticate { protocol_version, address, enc_address, iv } => {
                put(&mut fields, "type", JsonValue::Text("authenticate".to_string()));
                put(&mut fields, "protocolVersion", version_to_value(*protocol_version));
                put(&mut fields, "address", JsonValue::Text(address.clone()));
                put(&mut fields, "encAddress", JsonValue::Text(enc_address.clone()));
                put(&mut fields, "iv", JsonValue::Text(iv.clone()));
            },
            ClientControlRequest::RegisterHandshakeInitRequest { protocol_version, data } => {
                put(
                    &mut fields,
                    "type",
                    JsonValue::Text("registerHandshakeInitRequest".to_string()),
                );
                put(&mut fields, "protocolVersion", version_to_value(*protocol_version));
                put(&mut fields, "data", JsonValue::Text(base58_encode(data.as_slice())));
            },
            ClientControlRequest::BandwidthCredential { enc_credential, iv } => {
                put(&mut fields, "type", JsonValue::Text("bandwidthCredential".to_string()));
                put(&mut fields, "encCredential", JsonValue::Text(base58_encode(enc_credential.as_slice())));
                put(&mut fields, "iv", JsonValue::Text(base58_encode(iv.as_slice())));
            },
            ClientControlRequest::BandwidthCredentialV2 { enc_credential, iv } => {
                put(&mut fields, "type", JsonValue::Text("bandwidthCredentialV2".to_string()));
                put(&mut fields, "encCredential", JsonValue::Text(base58_encode(enc_credential.as_slice())));
                put(&mut fields, "iv", JsonValue::Text(base58_encode(iv.as_slice())));
            },
            ClientControlRequest::ClaimFreeTestnetBandwidth => {
                put(&mut fields, "type", JsonValue::Text("claimFreeTestnetBandwidth".to_string()));
            },
        }
        fields
    }

    /// The request that has these members.
    pub fn from_fields(fields: &Vec<Field>) -> (result: Result<Self, FrameError>)
        ensures
            match result {
                Ok(request) => ClientControlRequestView::of_fields(fields_view(fields@)) == Ok::<
                    ClientControlRequestView,
                    FrameError,
                >(request@),
                Err(e) => ClientControlRequestView::of_fields(fields_view(fields@)) == Err::<
                    ClientControlRequestView,
                    FrameError,
                >(e),
            },
    {
        let tag = match get_text(fields, "type") {
            Ok(tag) => tag,
            Err(_) => {
                return Err(FrameError::UnknownType);
            },
        };
        if str_eq(tag.as_str(), "authenticate") {
            let protocol_version = get_version(fields, "protocolVersion")?;
            let address = get_text(fields, "address")?;
            let enc_address = get_text(fields, "encAddress")?;
            let iv = get_text(fields, "iv")?;
            Ok(ClientControlRequest::Authenticate { protocol_version, address, enc_address, iv })
        } else if str_eq(tag.as_str(), "registerHandshakeInitRequest") || str_eq(
            tag.as_str(),
            "handshakePayload",
        ) {
            let protocol_version = get_version(fields, "protocolVersion")?;
            let data = get_bytes(fields, "data")?;
            Ok(ClientControlRequest::RegisterHandshakeInitRequest { protocol_version, data })
        } else if str_eq(tag.as_str(), "bandwidthCredential") {
            let enc_credential = get_bytes(fields, "encCredential")?;
            let iv = get_bytes(fields, "iv")?;
            Ok(ClientControlRequest::BandwidthCredential { enc_credential, iv })
        } else if str_eq(tag.as_str(), "bandwidthCredentialV2") {
            let enc_credential = get_bytes(fields, "encCredential")?;
            let iv = get_bytes(fields, "iv")?;
            Ok(ClientControlRequest::BandwidthCredentialV2 { enc_credential, iv })
        } else if str_eq(tag.as_str(), "claimFreeTestnetBandwidth") {
            Ok(ClientControlRequest::ClaimFreeTestnetBandwidth)
        } else {
            Err(FrameError::UnknownType)
        }
    }
}

impl ServerResponse {
    /// The members of the response.
    pub fn to_fields(&self) -> (fields: Vec<Field>)
        ensures
            fields_view(fields@) == self@.fields(),
            writable(fields_view(fields@)),
    {
        let mut fields: Vec<Field> = Vec::new();
        assert(fields_view(fields@) =~= Seq::empty());
        proof {
            lemma_frame_members_are_writable(
                RegistrationHandshakeView::HandshakeError { message: Seq::empty() },
                ClientControlRequestView::ClaimFreeTestnetBandwidth,
                self@,
            );
        }
        match self {
            ServerResponse::Authenticate { protocol_version, status, bandwidth_remaining } => {
                put(&mut fields, "type", JsonValue::Text("authenticate".to_string()));
                put(&mut fields, "protocolVersion", version_to_value(*protocol_version));
                put(&mut fields, "status", JsonValue::Bool(*status));
                put(&mut fields, "bandwidthRemaining", JsonValue::Int(*bandwidth_remaining));
            },
            ServerResponse::Register { protocol_version, status } => {
                put(&mut fields, "type", JsonValue::Text("register".to_string()));
                put(&mut fields, "protocolVersion", version_to_value(*protocol_version));
                put(&mut fields, "status", JsonValue::Bool(*status));
            },
            ServerResponse::Bandwidth { available_total } => {
                put(&mut fields, "type", JsonValue::Text("bandwidth".to_string()));
                put(&mut fields, "availableTotal", JsonValue::Int(*available_total));
            },
            ServerResponse::Send { remaining_bandwidth } => {
                put(&mut fields, "type", JsonValue::Text("send".to_string()));
                put(&mut fields, "remainingBandwidth", JsonValue::Int(*remaining_bandwidth));
            },
            ServerResponse::Error { message } => {
                put(&mut fields, "type", JsonValue::Text("error".to_string()));
                put(&mut fields, "message", JsonValue::Text(message.clone()));
            },
        }
        fields
    }

    /// The response that has these members.
    pub fn from_fields(fields: &Vec<Field>) -> (result: Result<Self, FrameError>)
        ensures
            match result {
                Ok(response) => ServerResponseView::of_fields(fields_view(fields@)) == Ok::<
                    ServerResponseView,
                    FrameError,
                >(response@),
                Err(e) => ServerResponseView::of_fields(fields_view(fields@)) == Err::<
                    ServerResponseView,
                    FrameError,
                >(e),
            },
    {
        let tag = match get_text(fields, "type") {
            Ok(tag) => tag,
            Err(_) => {
                return Err(FrameError::UnknownType);
            },
        };
        if str_eq(tag.as_str(), "authenticate") {
            let protocol_version = get_version(fields, "protocolVersion")?;
            let status = get_bool(fields, "status")?;
            let bandwidth_remaining = get_int(fields, "bandwidthRemaining")?;
            Ok(ServerResponse::Authenticate { protocol_version, status, bandwidth_remaining })
        } else if str_eq(tag.as_str(), "register") {
            let protocol_version = get_version(fields, "protocolVersion")?;
            let status = get_bool(fields, "status")?;
            Ok(ServerResponse::Register { protocol_version, status })
        } else if str_eq(tag.as_str(), "bandwidth") {
            let available_total = get_int(fields, "availableTotal")?;
            Ok(ServerResponse::Bandwidth { available_total })
        } else if str_eq(tag.as_str(), "send") {
            let remaining_bandwidth = get_int(fields, "remainingBandwidth")?;
            Ok(ServerResponse::Send { remaining_bandwidth })
        } else if str_eq(tag.as_str(), "error") {
            let message = get_text(fields, "message")?;
            Ok(ServerResponse::Error { message })
        } else {
            Err(FrameError::UnknownType)
        }
    }
}

} // verus!
