//! Control frames as text on the wire: each frame is written as a JSON
//! object and read back from one.

use crate::json::{
    json_members, json_text, read_object, same_members, write_object, FieldView, FrameError,
};
use crate::types::{
    ClientControlRequest, ClientControlRequestView, Message, MessageView, RegistrationHandshake,
    RegistrationHandshakeView, ServerResponse, ServerResponseView,
};
use crate::wire::{
    lemma_client_request_roundtrip, lemma_handshake_payload_is_an_init_request,
    lemma_only_known_members_are_read, lemma_registration_handshake_roundtrip,
    lemma_server_response_roundtrip, same_known_members,
};
use vstd::prelude::*;

verus! {

impl RegistrationHandshakeView {
    /// The message as text.
    pub open spec fn encoded(self) -> Seq<char> {
        json_text(self.fields())
    }

    /// The message that a text is.
    pub open spec fn decoded(text: Seq<char>) -> Result<RegistrationHandshakeView, FrameError> {
        match json_members(text) {
            None => Err(FrameError::NotAnObject),
            Some(fields) => Self::of_fields(fields),
        }
    }
}

impl ClientControlRequestView {
    /// The request as text.
    pub open spec fn encoded(self) -> Seq<char> {
        json_text(self.fields())
    }

    /// The request that a text is.
    pub open spec fn decoded(text: Seq<char>) -> Result<ClientControlRequestView, FrameError> {
        match json_members(text) {
            None => Err(FrameError::NotAnObject),
            Some(fields) => Self::of_fields(fields),
        }
    }
}

impl ServerResponseView {
    /// The response as text.
    pub open spec fn encoded(self) -> Seq<char> {
        json_text(self.fields())
    }

    /// The response that a text is.
    pub open spec fn decoded(text: Seq<char>) -> Result<ServerResponseView, FrameError> {
        match json_members(text) {
            None => Err(FrameError::NotAnObject),
            Some(fields) => Self::of_fields(fields),
        }
    }
}

/// Members that say the same say the same under the keys that a frame
/// knows.
pub proof fn lemma_same_members_are_same_known(a: Seq<FieldView>, b: Seq<FieldView>)
    requires
        same_members(a, b),
    ensures
        same_known_members(a, b),
{
}

/// A text whose members say, under the keys that a frame knows, what the
/// members of a frame say, is read as that frame: whatever other members the
/// text has, and in whatever order its members stand. The bytes of the frame
/// must be such as are read back from their base58 text.
pub proof fn lemma_text_with_the_members_of_a_frame(
    text: Seq<char>,
    handshake: RegistrationHandshakeView,
    request: ClientControlRequestView,
    response: ServerResponseView,
)
    ensures
        json_members(text) matches Some(read) ==> {
            &&& handshake.readable() && same_known_members(read, handshake.fields())
                ==> RegistrationHandshakeView::decoded(text) == Ok::<
                RegistrationHandshakeView,
                FrameError,
            >(handshake)
            &&& request.readable() && same_known_members(read, request.fields())
                ==> ClientControlRequestView::decoded(text) == Ok::<
                ClientControlRequestView,
                FrameError,
            >(request)
            &&& same_known_members(read, response.fields()) ==> ServerResponseView::decoded(text)
                == Ok::<ServerResponseView, FrameError>(response)
        },
{
    let read = json_members(text)->Some_0;
    if handshake.readable() && same_known_members(read, handshake.fields()) {
        lemma_only_known_members_are_read(read, handshake.fields());
        lemma_registration_handshake_roundtrip(handshake);
    }
    if request.readable() && same_known_members(read, request.fields()) {
        lemma_only_known_members_are_read(read, request.fields());
        lemma_client_request_roundtrip(request);
    }
    if same_known_members(read, response.fields()) {
        lemma_only_known_members_are_read(read, response.fields());
        lemma_server_response_roundtrip(response);
    }
}

impl RegistrationHandshake {
    /// The message as text, from which the message is read back. As a control
    /// request, the text of a handshake payload is read as the request that
    /// begins a handshake, with the same version and the same data.
    pub fn to_json(&self) -> (text: String)
        ensures
            text@ == self@.encoded(),
            RegistrationHandshakeView::decoded(text@) == Ok::<
                RegistrationHandshakeView,
                FrameError,
            >(self@),
            self@ matches RegistrationHandshakeView::HandshakePayload { protocol_version, data }
                ==> ClientControlRequestView::decoded(text@) == Ok::<
                ClientControlRequestView,
                FrameError,
            >(ClientControlRequestView::RegisterHandshakeInitRequest { protocol_version, data }),
    {
        let fields = self.to_fields();
        let text = write_object(&fields);
        proof {
            let read = json_members(text@)->Some_0;
            lemma_same_members_are_same_known(read, self@.fields());
            lemma_only_known_members_are_read(read, self@.fields());
            lemma_registration_handshake_roundtrip(self@);
            match self@ {
                RegistrationHandshakeView::HandshakePayload { protocol_version, data } => {
                    lemma_handshake_payload_is_an_init_request(protocol_version, data);
                },
                _ => {},
            }
        }
        text
    }

    /// Reads a message from text.
    pub fn from_str(s: &str) -> (result: Result<Self, FrameError>)
        ensures
            match result {
                Ok(message) => RegistrationHandshakeView::decoded(s@) == Ok::<
                    RegistrationHandshakeView,
                    FrameError,
                >(message@),
                Err(e) => RegistrationHandshakeView::decoded(s@) == Err::<
                    RegistrationHandshakeView,
                    FrameError,
                >(e),
            },
    {
        match read_object(s) {
            None => Err(FrameError::NotAnObject),
            Some(fields) => Self::from_fields(&fields),
        }
    }

    /// Reads a message from text.
    pub fn try_from(msg: String) -> (result: Result<Self, FrameError>)
        ensures
            match result {
                Ok(message) => RegistrationHandshakeView::decoded(msg@) == Ok::<
                    RegistrationHandshakeView,
                    FrameError,
                >(message@),
                Err(e) => RegistrationHandshakeView::decoded(msg@) == Err::<
                    RegistrationHandshakeView,
                    FrameError,
                >(e),
            },
    {
        Self::from_str(msg.as_str())
    }

    /// The message as text, from which the message is read back; this never
    /// fails.
    pub fn try_into(self) -> (result: Result<String, FrameError>)
        ensures
            result matches Ok(text) && text@ == self@.encoded()
                && RegistrationHandshakeView::decoded(text@) == Ok::<
                RegistrationHandshakeView,
                FrameError,
            >(self@),
            self@ matches RegistrationHandshakeView::HandshakePayload { protocol_version, data }
                ==> result matches Ok(text) && ClientControlRequestView::decoded(text@) == Ok::<
                ClientControlRequestView,
                FrameError,
            >(ClientControlRequestView::RegisterHandshakeInitRequest { protocol_version, data }),
    {
        Ok(self.to_json())
    }
}

impl ClientControlRequest {
    /// The request as text, from which the request is read back.
    pub fn to_json(&self) -> (text: String)
        ensures
            text@ == self@.encoded(),
            ClientControlRequestView::decoded(text@) == Ok::<
                ClientControlRequestView,
                FrameError,
            >(self@),
    {
        let fields = self.to_fields();
        let text = write_object(&fields);
        proof {
            let read = json_members(text@)->Some_0;
            lemma_same_members_are_same_known(read, self@.fields());
            lemma_only_known_members_are_read(read, self@.fields());
            lemma_client_request_roundtrip(self@);
        }
        text
    }

    /// Reads a request from text.
    pub fn try_from(msg: String) -> (result: Result<Self, FrameError>)
        ensures
            match result {
                Ok(request) => ClientControlRequestView::decoded(msg@) == Ok::<
                    ClientControlRequestView,
                    FrameError,
                >(request@),
                Err(e) => ClientControlRequestView::decoded(msg@) == Err::<
                    ClientControlRequestView,
                    FrameError,
                >(e),
            },
    {
        match read_object(msg.as_str()) {
            None => Err(FrameError::NotAnObject),
            Some(fields) => Self::from_fields(&fields),
        }
    }

    /// The request as text, from which the request is read back; this never
    /// fails.
    pub fn try_into(self) -> (result: Result<String, FrameError>)
        ensures
            result matches Ok(text) && text@ == self@.encoded()
                && ClientControlRequestView::decoded(text@) == Ok::<
                ClientControlRequestView,
                FrameError,
            >(self@),
    {
        Ok(self.to_json())
    }

    /// The textual transport frame of the request.
    pub fn into_ws_message(self) -> (message: Message)
        ensures
            message@ == MessageView::Text(self@.encoded()),
            ClientControlRequestView::decoded(self@.encoded()) == Ok::<
                ClientControlRequestView,
                FrameError,
            >(self@),
    {
        Message::Text(self.to_json())
    }
}

impl ServerResponse {
    /// The response as text, from which the response is read back.
    pub fn to_json(&self) -> (text: String)
        ensures
            text@ == self@.encoded(),
            ServerResponseView::decoded(text@) == Ok::<ServerResponseView, FrameError>(self@),
    {
        let fields = self.to_fields();
        let text = write_object(&fields);
        proof {
            let read = json_members(text@)->Some_0;
            lemma_same_members_are_same_known(read, self@.fields());
            lemma_only_known_members_are_read(read, self@.fields());
            lemma_server_response_roundtrip(self@);
        }
        text
    }

    /// Reads a response from text.
    pub fn try_from(msg: String) -> (result: Result<Self, FrameError>)
        ensures
            match result {
                Ok(response) => ServerResponseView::decoded(msg@) == Ok::<
                    ServerResponseView,
                    FrameError,
                >(response@),
                Err(e) => ServerResponseView::decoded(msg@) == Err::<ServerResponseView, FrameError>(
                    e,
                ),
            },
    {
        match read_object(msg.as_str()) {
            None => Err(FrameError::NotAnObject),
            Some(fields) => Self::from_fields(&fields),
        }
    }

    /// The textual transport frame of the response.
    pub fn into_ws_message(self) -> (message: Message)
        ensures
            message@ == MessageView::Text(self@.encoded()),
            ServerResponseView::decoded(self@.encoded()) == Ok::<ServerResponseView, FrameError>(
                self@,
            ),
    {
        Message::Text(self.to_json())
    }
}

} // verus!
