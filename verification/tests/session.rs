use gateway_requests::address::DestinationAddressBytes;
use gateway_requests::authenticator::{
    authenticate, authenticate_request, decode_authenticate, on_authenticate_response, Authenticated,
};
use gateway_requests::client::{BuilderState, MixnetClientBuilder, Transition};
use gateway_requests::credential::{CredentialSpendingData, CredentialType, OldV1Credential};
use gateway_requests::errors::{EncodingError, Error, GatewayRequestsError, MixPacketFormattingError};
use gateway_requests::iv::IV;
use gateway_requests::packet::{MixPacket, NymNodeRoutingAddress, PacketType};
use gateway_requests::session::{
    on_credential_response, Credential, Inbound, Session, DEFAULT_OUTBOUND_CAPACITY,
};
use gateway_requests::shared_keys::SharedKeys;
use gateway_requests::json::FrameError;
use gateway_requests::types::{BinaryRequest, ClientControlRequest, Message, ServerResponse};

fn keys() -> SharedKeys {
    let bytes: Vec<u8> = (0u8..32).collect();
    SharedKeys::try_from_bytes(&bytes).unwrap()
}

fn address() -> DestinationAddressBytes {
    DestinationAddressBytes::from_bytes([21u8; 32])
}

fn packet(tag: u8) -> MixPacket {
    MixPacket::new(
        NymNodeRoutingAddress::V4 { ip: [1, 2, 3, 4], port: 80 },
        vec![tag; 386],
        PacketType::Mix,
    )
}

fn spending() -> CredentialSpendingData {
    CredentialSpendingData {
        embedded_private_attributes: 1,
        verify_credential_request: vec![5; 12],
        voucher_value: 5_000_000,
        voucher_info: "BandwidthVoucher".to_string(),
        typ: CredentialType::Voucher,
        epoch_id: 3,
    }
}

#[test]
fn authentication_of_a_known_gateway_sets_the_counter() {
    let mut client = MixnetClientBuilder::new_ephemeral().build().unwrap();
    client.advance(Transition::Register).unwrap();

    let iv = IV::new_random().unwrap();
    let request = authenticate_request(&address(), &keys(), iv, false);
    let claim = decode_authenticate(&request).unwrap();
    assert_eq!(claim.address, address());
    assert_eq!(claim.iv, iv);
    assert!(claim.verify(&keys()));
    assert!(!claim.verify(&SharedKeys::try_from_bytes(&[1u8; 32]).unwrap()));

    let response = ServerResponse::try_from(
        r#"{"type":"authenticate","status":true,"bandwidthRemaining":1000000}"#.to_string(),
    )
    .unwrap();
    assert_eq!(
        on_authenticate_response(&response),
        Ok(Authenticated { bandwidth_remaining: 1_000_000, protocol_version: 1 })
    );
    let authenticated = client.record_authentication(&response).unwrap();
    assert_eq!(authenticated, Authenticated { bandwidth_remaining: 1_000_000, protocol_version: 1 });
    assert_eq!(client.state, BuilderState::Authenticated);

    let session = client.start_session(keys(), authenticated, DEFAULT_OUTBOUND_CAPACITY).unwrap();
    assert_eq!(client.state, BuilderState::Running);
    assert_eq!(session.bandwidth_remaining(), 1_000_000);
    assert!(!session.needs_credential());
    assert!(!session.is_closed());
    assert_eq!(session.pending(), 0);
}

#[test]
fn refused_authentication_leaves_the_client_registered() {
    let mut client = MixnetClientBuilder::new_ephemeral().build().unwrap();
    let yes = ServerResponse::Authenticate { protocol_version: None, status: true, bandwidth_remaining: 5 };
    let no = ServerResponse::Authenticate { protocol_version: None, status: false, bandwidth_remaining: 5 };
    assert_eq!(client.record_authentication(&yes), Err(Error::InvalidState));
    assert_eq!(client.state, BuilderState::New);
    client.advance(Transition::Register).unwrap();
    assert_eq!(client.record_authentication(&no), Err(Error::AuthFailed));
    assert_eq!(client.state, BuilderState::Registered);
    let authenticated = Authenticated { bandwidth_remaining: 5, protocol_version: 1 };
    assert!(matches!(client.start_session(keys(), authenticated, 4), Err(Error::InvalidState)));
    assert_eq!(client.state, BuilderState::Registered);
    assert_eq!(client.record_authentication(&yes), Ok(authenticated));
    assert_eq!(client.record_authentication(&yes), Err(Error::InvalidState));
}

#[test]
fn frames_of_either_kind_are_taken_from_the_transport() {
    let mut session = Session::new(keys(), 10, false, 2);
    assert_eq!(
        session.on_message(Message::Text(r#"{"type":"send","remainingBandwidth":7}"#.to_string())),
        Inbound::BandwidthUpdated(7)
    );
    assert_eq!(session.bandwidth_remaining(), 7);
    assert_eq!(
        session.on_message(Message::Text("not json".to_string())),
        Inbound::Malformed(FrameError::NotAnObject)
    );
    assert_eq!(
        session.on_message(Message::Text(r#"{"type":"sending"}"#.to_string())),
        Inbound::Malformed(FrameError::UnknownType)
    );
    assert_eq!(session.bandwidth_remaining(), 7);
    assert!(!session.is_closed());
    let frame = keys().encrypt_and_tag(&vec![3u8; 2413], None);
    assert_eq!(session.on_message(Message::Binary(frame)), Inbound::Message(vec![3u8; 2413]));

    session.submit(packet(9)).unwrap();
    assert_eq!(
        session.next_message(),
        Some(BinaryRequest::new_forward_request(packet(9)).into_ws_message(&keys()))
    );
    assert_eq!(session.next_message(), None);
    session.cancel();
    assert_eq!(session.on_message(Message::Text("not json".to_string())), Inbound::EndOfStream);
    assert_eq!(session.on_message(Message::Binary(vec![])), Inbound::EndOfStream);
}

#[test]
fn authenticate_request_carries_base58_fields() {
    let iv = IV::try_from_bytes(&[9u8; 16]).unwrap();
    match authenticate_request(&address(), &keys(), iv, true) {
        ClientControlRequest::Authenticate { protocol_version, address: sent, enc_address, iv: sent_iv } => {
            assert_eq!(protocol_version, Some(gateway_requests::CURRENT_PROTOCOL_VERSION));
            assert_eq!(sent, address().as_base58_string());
            assert_eq!(sent_iv, iv.to_base58_string());
            assert_ne!(enc_address, sent);
            assert_eq!(bs58::decode(&enc_address).into_vec().unwrap().len(), 32);
        }
        _ => unreachable!("an authentication request authenticates"),
    }
    match authenticate_request(&address(), &keys(), iv, false) {
        ClientControlRequest::Authenticate { protocol_version, .. } => assert_eq!(protocol_version, Some(1)),
        _ => unreachable!("an authentication request authenticates"),
    }
}

#[test]
fn client_advertises_the_version_of_its_configuration() {
    let plain = MixnetClientBuilder::new_ephemeral().build().unwrap();
    let paying = MixnetClientBuilder::new_ephemeral().enable_credentials_mode().build().unwrap();
    match plain.authentication_request(&address(), &keys()).unwrap() {
        ClientControlRequest::Authenticate { protocol_version, .. } => {
            assert_eq!(protocol_version, Some(gateway_requests::INITIAL_PROTOCOL_VERSION))
        }
        _ => unreachable!("an authentication request authenticates"),
    }
    match paying.authentication_request(&address(), &keys()).unwrap() {
        ClientControlRequest::Authenticate { protocol_version, .. } => {
            assert_eq!(protocol_version, Some(gateway_requests::CURRENT_PROTOCOL_VERSION))
        }
        _ => unreachable!("an authentication request authenticates"),
    }
    assert!(!plain.begin_handshake().uses_credentials);
    assert!(paying.begin_handshake().uses_credentials);
}

#[test]
fn two_authentications_use_two_vectors() {
    let first = authenticate(&address(), &keys(), false).unwrap();
    let second = authenticate(&address(), &keys(), false).unwrap();
    assert_ne!(first, second);
    assert!(decode_authenticate(&first).unwrap().verify(&keys()));
    assert!(decode_authenticate(&second).unwrap().verify(&keys()));
}

#[test]
fn malformed_authentication_fields_are_incorrectly_encoded_addresses() {
    let request = ClientControlRequest::Authenticate {
        protocol_version: None,
        address: "0OIl".to_string(),
        enc_address: String::new(),
        iv: String::new(),
    };
    assert_eq!(
        decode_authenticate(&request),
        Err(GatewayRequestsError::IncorrectlyEncodedAddress(EncodingError::MalformedBase58))
    );
    let request = ClientControlRequest::Authenticate {
        protocol_version: None,
        address: address().as_base58_string(),
        enc_address: "he11owor1d".to_string(),
        iv: String::new(),
    };
    assert_eq!(
        decode_authenticate(&request),
        Err(GatewayRequestsError::IncorrectlyEncodedAddress(EncodingError::InvalidLength(8)))
    );
    assert_eq!(
        decode_authenticate(&ClientControlRequest::ClaimFreeTestnetBandwidth),
        Err(GatewayRequestsError::MalformedEncryption)
    );
}

#[test]
fn refused_authentication_is_an_auth_failure() {
    let refused = ServerResponse::Authenticate { protocol_version: Some(2), status: false, bandwidth_remaining: 10 };
    assert_eq!(on_authenticate_response(&refused), Err(Error::AuthFailed));
    let negative = ServerResponse::Authenticate { protocol_version: Some(2), status: true, bandwidth_remaining: -1 };
    assert_eq!(on_authenticate_response(&negative), Err(Error::AuthFailed));
    let zero = ServerResponse::Authenticate { protocol_version: Some(2), status: true, bandwidth_remaining: 0 };
    assert_eq!(
        on_authenticate_response(&zero),
        Ok(Authenticated { bandwidth_remaining: 0, protocol_version: 2 })
    );
    let other = ServerResponse::Register { protocol_version: None, status: true };
    assert_eq!(on_authenticate_response(&other), Err(Error::AuthFailed));
}

#[test]
fn credential_of_the_second_format_raises_the_counter() {
    let mut session = Session::new(keys(), 0, true, DEFAULT_OUTBOUND_CAPACITY);
    assert!(session.needs_credential());

    let iv = IV::new_random().unwrap();
    let request = Credential::V2(spending()).into_request(&keys(), iv);
    let text = request.to_json();
    assert!(text.starts_with(r#"{"encCredential":""#));
    assert!(text.ends_with(r#"","type":"bandwidthCredentialV2"}"#));
    match ClientControlRequest::try_from(text).unwrap() {
        ClientControlRequest::BandwidthCredentialV2 { enc_credential, iv: sent } => {
            let received = ClientControlRequest::try_from_enc_coconut_bandwidth_credential_v2(
                enc_credential,
                &keys(),
                IV::try_from_bytes(&sent).unwrap(),
            )
            .unwrap();
            assert_eq!(received.data, spending());
        }
        _ => unreachable!("a second-format submission is read as one"),
    }

    let response = ServerResponse::try_from(r#"{"type":"bandwidth","availableTotal":5000000}"#.to_string()).unwrap();
    assert_eq!(on_credential_response(response.clone()), Ok(5_000_000));
    assert_eq!(session.on_control(response), Inbound::BandwidthUpdated(5_000_000));
    assert_eq!(session.bandwidth_remaining(), 5_000_000);
    assert!(!session.needs_credential());
}

#[test]
fn credentials_are_needed_only_when_enabled_and_out_of_bandwidth() {
    assert!(!Session::new(keys(), 0, false, 4).needs_credential());
    assert!(!Session::new(keys(), 1, true, 4).needs_credential());
    assert!(Session::new(keys(), -1, true, 4).needs_credential());
}

#[test]
fn each_kind_of_credential_has_its_request() {
    let iv = IV::try_from_bytes(&[1u8; 16]).unwrap();
    let old = OldV1Credential::new(3, vec![1], 2, "i".to_string(), 4);
    assert_eq!(
        Credential::V1(old.clone()).into_request(&keys(), iv),
        ClientControlRequest::new_enc_coconut_bandwidth_credential_v1(&old, &keys(), iv)
    );
    assert_eq!(
        Credential::FreeTestnet.into_request(&keys(), iv),
        ClientControlRequest::ClaimFreeTestnetBandwidth
    );
    let first = Credential::V2(spending()).submit(&keys()).unwrap();
    let second = Credential::V2(spending()).submit(&keys()).unwrap();
    assert_ne!(first, second);
}

#[test]
fn refused_credential_carries_the_message() {
    assert_eq!(
        on_credential_response(ServerResponse::new_error("spent already")),
        Err(Error::CredentialRefused("spent already".to_string()))
    );
    assert_eq!(
        on_credential_response(ServerResponse::Send { remaining_bandwidth: 1 }),
        Err(Error::UnexpectedResponse)
    );
}

#[test]
fn tampered_inbound_frame_is_dropped_and_the_session_goes_on() {
    let mut session = Session::new(keys(), 77, false, 4);
    let mut frame = keys().encrypt_and_tag(&vec![1u8; 386], None);
    frame[0] ^= 0x01;
    assert_eq!(session.on_binary(frame), Inbound::Dropped(GatewayRequestsError::InvalidMac));
    assert!(!session.is_closed());
    assert_eq!(session.bandwidth_remaining(), 77);
    assert_eq!(session.submit(packet(1)), Ok(()));
    let good = keys().encrypt_and_tag(&vec![1u8; 386], None);
    assert_eq!(session.on_binary(good), Inbound::Message(vec![1u8; 386]));
}

#[test]
fn inbound_frame_of_no_packet_size_is_dropped() {
    let session = Session::new(keys(), 0, false, 4);
    let frame = keys().encrypt_and_tag(&[0u8; 42], None);
    assert_eq!(
        session.on_binary(frame),
        Inbound::Dropped(GatewayRequestsError::RequestOfInvalidSize(42))
    );
    assert!(!session.is_closed());
    assert_eq!(
        session.on_binary(vec![0u8; 5]),
        Inbound::Dropped(GatewayRequestsError::TooShortRequest)
    );
}

#[test]
fn cancellation_fails_all_pending_packets_and_closes_the_transport_once() {
    let mut session = Session::new(keys(), 5, false, 16);
    for tag in 0..16u8 {
        assert_eq!(session.submit(packet(tag)), Ok(()));
    }
    assert_eq!(session.pending(), 16);

    let cancelled = session.cancel();
    assert_eq!(cancelled.pending.len(), 16);
    for (tag, failed) in cancelled.pending.iter().enumerate() {
        assert_eq!(failed, &packet(tag as u8));
    }
    assert_eq!(cancelled.failure, Error::SessionClosed);
    assert!(cancelled.close_transport);

    assert!(session.is_closed());
    assert_eq!(session.pending(), 0);
    assert_eq!(session.next_frame(), None);
    assert_eq!(session.submit(packet(0)), Err(Error::SessionClosed));
    assert_eq!(session.on_control(ServerResponse::Send { remaining_bandwidth: 1 }), Inbound::EndOfStream);
    assert_eq!(session.on_binary(keys().encrypt_and_tag(&vec![1u8; 386], None)), Inbound::EndOfStream);
    assert_eq!(session.bandwidth_remaining(), 5);

    let again = session.cancel();
    assert!(again.pending.is_empty());
    assert!(!again.close_transport);
}

#[test]
fn outbound_frames_leave_in_the_order_they_came() {
    let mut session = Session::new(keys(), 0, false, 3);
    assert_eq!(session.next_frame(), None);
    for tag in [5u8, 6, 7] {
        session.submit(packet(tag)).unwrap();
    }
    for tag in [5u8, 6, 7] {
        let frame = session.next_frame().unwrap();
        assert_eq!(frame, BinaryRequest::new_forward_request(packet(tag)).into_encrypted_tagged_bytes(&keys()));
        assert_eq!(
            BinaryRequest::try_from_encrypted_tagged_bytes(frame, &keys()),
            Ok(BinaryRequest::ForwardSphinx(packet(tag)))
        );
    }
    assert_eq!(session.next_frame(), None);
}

#[test]
fn full_queue_pushes_back() {
    let mut session = Session::new(keys(), 0, false, 2);
    assert_eq!(session.submit(packet(1)), Ok(()));
    assert_eq!(session.submit(packet(2)), Ok(()));
    assert_eq!(session.submit(packet(3)), Err(Error::OutboundQueueFull));
    assert_eq!(session.pending(), 2);
    session.next_frame().unwrap();
    assert_eq!(session.submit(packet(3)), Ok(()));
    let mut none = Session::new(keys(), 0, false, 0);
    assert_eq!(none.submit(packet(1)), Err(Error::OutboundQueueFull));
}

#[test]
fn packet_that_cannot_be_written_is_not_queued() {
    let mut session = Session::new(keys(), 0, false, 2);
    let bad = MixPacket::new(NymNodeRoutingAddress::V4 { ip: [1, 2, 3, 4], port: 80 }, vec![0; 42], PacketType::Mix);
    assert_eq!(
        session.submit(bad),
        Err(Error::Request(GatewayRequestsError::InvalidMixPacket(
            MixPacketFormattingError::InvalidPacketSize(42)
        )))
    );
    assert_eq!(session.pending(), 0);
}

#[test]
fn bandwidth_reports_set_the_counter() {
    let mut session = Session::new(keys(), 1000, true, 2);
    assert_eq!(session.on_control(ServerResponse::Send { remaining_bandwidth: 900 }), Inbound::BandwidthUpdated(900));
    assert_eq!(session.bandwidth_remaining(), 900);
    assert_eq!(session.on_control(ServerResponse::Send { remaining_bandwidth: 900 }), Inbound::BandwidthUpdated(900));
    assert_eq!(session.bandwidth_remaining(), 900);
    assert_eq!(session.on_control(ServerResponse::Send { remaining_bandwidth: 901 }), Inbound::BandwidthUpdated(900));
    assert_eq!(session.bandwidth_remaining(), 900);
    assert_eq!(session.on_control(ServerResponse::Send { remaining_bandwidth: i64::MAX }), Inbound::BandwidthUpdated(900));
    assert_eq!(session.bandwidth_remaining(), 900);
    assert_eq!(session.on_control(ServerResponse::Send { remaining_bandwidth: -3 }), Inbound::BandwidthUpdated(-3));
    assert_eq!(session.on_control(ServerResponse::Bandwidth { available_total: 5000 }), Inbound::BandwidthUpdated(5000));
    assert_eq!(session.bandwidth_remaining(), 5000);
    assert_eq!(
        session.on_control(ServerResponse::new_error("slow down")),
        Inbound::GatewayError("slow down".to_string())
    );
    assert_eq!(session.bandwidth_remaining(), 5000);
    assert!(!session.is_closed());
    assert_eq!(
        session.on_control(ServerResponse::Register { protocol_version: None, status: true }),
        Inbound::Ignored
    );
    assert_eq!(session.bandwidth_remaining(), 5000);
}
