use gateway_requests::json::FrameError;
use gateway_requests::types::{
    ClientControlRequest, Message, RegistrationHandshake, ServerResponse,
};
use gateway_requests::{CURRENT_PROTOCOL_VERSION, INITIAL_PROTOCOL_VERSION};

#[test]
fn handshake_payload_can_be_deserialized_into_register_handshake_init_request() {
    let handshake_data = vec![1, 2, 3, 4, 5, 6];
    let handshake_payload_with_protocol = RegistrationHandshake::HandshakePayload {
        protocol_version: Some(42),
        data: handshake_data.clone(),
    };
    let serialized: String = handshake_payload_with_protocol.try_into().unwrap();
    let deserialized = ClientControlRequest::try_from(serialized).unwrap();

    match deserialized {
        ClientControlRequest::RegisterHandshakeInitRequest {
            protocol_version,
            data,
        } => {
            assert_eq!(protocol_version, Some(42));
            assert_eq!(data, handshake_data)
        }
        _ => unreachable!("this branch shouldn't have been reached!"),
    }

    let handshake_payload_without_protocol = RegistrationHandshake::HandshakePayload {
        protocol_version: None,
        data: handshake_data.clone(),
    };
    let serialized: String = handshake_payload_without_protocol.try_into().unwrap();
    let deserialized = ClientControlRequest::try_from(serialized).unwrap();

    match deserialized {
        ClientControlRequest::RegisterHandshakeInitRequest {
            protocol_version,
            data,
        } => {
            assert!(protocol_version.is_none());
            assert_eq!(data, handshake_data)
        }
        _ => unreachable!("this branch shouldn't have been reached!"),
    }
}

#[test]
fn protocol_versions_are_one_and_at_least_two() {
    assert_eq!(INITIAL_PROTOCOL_VERSION, 1);
    assert!(CURRENT_PROTOCOL_VERSION >= 2);
}

#[test]
fn payload_advertises_the_version_that_goes_with_credentials() {
    assert_eq!(
        RegistrationHandshake::new_payload(vec![1], false),
        RegistrationHandshake::HandshakePayload { protocol_version: Some(1), data: vec![1] }
    );
    assert_eq!(
        RegistrationHandshake::new_payload(vec![1], true),
        RegistrationHandshake::HandshakePayload {
            protocol_version: Some(CURRENT_PROTOCOL_VERSION),
            data: vec![1]
        }
    );
    assert_eq!(
        RegistrationHandshake::new_error("no"),
        RegistrationHandshake::HandshakeError { message: "no".to_string() }
    );
}

fn base58(bytes: &[u8]) -> String {
    bs58::encode(bytes).into_string()
}

#[test]
fn frames_are_written_as_json_objects() {
    let request = ClientControlRequest::Authenticate {
        protocol_version: Some(1),
        address: "addr".to_string(),
        enc_address: "enc".to_string(),
        iv: "iv".to_string(),
    };
    assert_eq!(
        request.to_json(),
        r#"{"address":"addr","encAddress":"enc","iv":"iv","protocolVersion":1,"type":"authenticate"}"#
    );
    let init = ClientControlRequest::RegisterHandshakeInitRequest {
        protocol_version: None,
        data: vec![0, 7, 255],
    };
    assert_eq!(
        init.to_json(),
        format!(
            r#"{{"data":"{}","protocolVersion":null,"type":"registerHandshakeInitRequest"}}"#,
            base58(&[0, 7, 255])
        )
    );
    let credential = ClientControlRequest::BandwidthCredentialV2 { enc_credential: vec![], iv: vec![16] };
    assert_eq!(
        credential.to_json(),
        r#"{"encCredential":"","iv":"H","type":"bandwidthCredentialV2"}"#
    );
    assert_eq!(
        ClientControlRequest::ClaimFreeTestnetBandwidth.to_json(),
        r#"{"type":"claimFreeTestnetBandwidth"}"#
    );
    let response = ServerResponse::Authenticate {
        protocol_version: Some(2),
        status: true,
        bandwidth_remaining: -5,
    };
    assert_eq!(
        response.to_json(),
        r#"{"bandwidthRemaining":-5,"protocolVersion":2,"status":true,"type":"authenticate"}"#
    );
    assert_eq!(
        ServerResponse::Send { remaining_bandwidth: i64::MIN }.to_json(),
        r#"{"remainingBandwidth":-9223372036854775808,"type":"send"}"#
    );
    assert_eq!(
        ServerResponse::Bandwidth { available_total: i64::MAX }.to_json(),
        r#"{"availableTotal":9223372036854775807,"type":"bandwidth"}"#
    );
    assert_eq!(
        RegistrationHandshake::new_error("a \"b\"\n").to_json(),
        r#"{"message":"a \"b\"\n","type":"handshakeError"}"#
    );
}

#[test]
fn byte_members_are_base58_text() {
    let data: Vec<u8> = (0u8..=255).collect();
    let payload = RegistrationHandshake::HandshakePayload { protocol_version: Some(1), data: data.clone() };
    let value: serde_json::Value = serde_json::from_str(&payload.to_json()).unwrap();
    let text = value.get("data").and_then(|v| v.as_str()).unwrap();
    assert_eq!(bs58::decode(text).into_vec().unwrap(), data);
    let written = format!(r#"{{"type":"bandwidthCredential","iv":"{}","encCredential":"{}"}}"#, base58(&[9; 16]), base58(&[1, 2, 3]));
    assert_eq!(
        ClientControlRequest::try_from(written),
        Ok(ClientControlRequest::BandwidthCredential { enc_credential: vec![1, 2, 3], iv: vec![9; 16] })
    );
    assert_eq!(
        ClientControlRequest::try_from(r#"{"type":"bandwidthCredential","encCredential":[1,2],"iv":""}"#.to_string()),
        Err(FrameError::InvalidField)
    );
    assert_eq!(
        ClientControlRequest::try_from(r#"{"type":"bandwidthCredential","encCredential":"0OIl","iv":""}"#.to_string()),
        Err(FrameError::InvalidField)
    );
    assert_eq!(
        ClientControlRequest::try_from(r#"{"type":"bandwidthCredential","encCredential":"","iv":null}"#.to_string()),
        Err(FrameError::InvalidField)
    );
    assert_eq!(
        ClientControlRequest::try_from(r#"{"type":"bandwidthCredential","encCredential":""}"#.to_string()),
        Err(FrameError::MissingField)
    );
}

#[test]
fn written_frames_are_json_to_another_reader() {
    let response = ServerResponse::Error { message: "line\nbreak \"quoted\" back\\slash \u{1} é 😀".to_string() };
    let value: serde_json::Value = serde_json::from_str(&response.to_json()).unwrap();
    assert_eq!(value.get("type").and_then(|v| v.as_str()), Some("error"));
    assert_eq!(
        value.get("message").and_then(|v| v.as_str()),
        Some("line\nbreak \"quoted\" back\\slash \u{1} é 😀")
    );
    let request = ClientControlRequest::BandwidthCredential { enc_credential: vec![1, 2, 3], iv: vec![4] };
    let value: serde_json::Value = serde_json::from_str(&request.to_json()).unwrap();
    assert_eq!(value.get("type").and_then(|v| v.as_str()), Some("bandwidthCredential"));
    assert_eq!(value.get("encCredential").and_then(|v| v.as_str()), Some(base58(&[1, 2, 3]).as_str()));
    assert_eq!(value.get("iv").and_then(|v| v.as_str()), Some(base58(&[4]).as_str()));
}

#[test]
fn frames_of_another_writer_are_read() {
    let mut object = serde_json::Map::new();
    object.insert("type".to_string(), serde_json::Value::from("error"));
    object.insert("message".to_string(), serde_json::Value::from("tab\there \u{7f} \u{1f} é 😀 \"q\""));
    let text = serde_json::to_string(&serde_json::Value::Object(object)).unwrap();
    assert_eq!(
        ServerResponse::try_from(text),
        Ok(ServerResponse::Error { message: "tab\there \u{7f} \u{1f} é 😀 \"q\"".to_string() })
    );
}

#[test]
fn every_request_comes_back_from_its_text() {
    let requests = vec![
        ClientControlRequest::Authenticate {
            protocol_version: Some(2),
            address: "a\"b\\c".to_string(),
            enc_address: "".to_string(),
            iv: "ünï\u{0}\u{1f}\n".to_string(),
        },
        ClientControlRequest::Authenticate {
            protocol_version: None,
            address: "x".to_string(),
            enc_address: "y".to_string(),
            iv: "z".to_string(),
        },
        ClientControlRequest::RegisterHandshakeInitRequest { protocol_version: Some(255), data: vec![] },
        ClientControlRequest::RegisterHandshakeInitRequest {
            protocol_version: Some(0),
            data: (0u8..=255).collect(),
        },
        ClientControlRequest::BandwidthCredential { enc_credential: vec![1, 2], iv: vec![3] },
        ClientControlRequest::BandwidthCredentialV2 { enc_credential: vec![9], iv: vec![] },
        ClientControlRequest::ClaimFreeTestnetBandwidth,
    ];
    for request in requests {
        let text: String = request.clone().try_into().unwrap();
        assert_eq!(ClientControlRequest::try_from(text), Ok(request));
    }
}

#[test]
fn every_response_comes_back_from_its_text() {
    let responses = vec![
        ServerResponse::Authenticate { protocol_version: Some(1), status: true, bandwidth_remaining: 1_000_000 },
        ServerResponse::Authenticate { protocol_version: None, status: false, bandwidth_remaining: -1 },
        ServerResponse::Register { protocol_version: Some(2), status: true },
        ServerResponse::Register { protocol_version: None, status: false },
        ServerResponse::Bandwidth { available_total: 0 },
        ServerResponse::Bandwidth { available_total: i64::MAX },
        ServerResponse::Send { remaining_bandwidth: i64::MIN },
        ServerResponse::Error { message: "".to_string() },
        ServerResponse::new_error("something \u{8}\u{c} failed"),
    ];
    for response in responses {
        assert_eq!(ServerResponse::try_from(response.to_json()), Ok(response));
    }
}

#[test]
fn every_handshake_message_comes_back_from_its_text() {
    let messages = vec![
        RegistrationHandshake::HandshakePayload { protocol_version: Some(1), data: vec![1, 2, 3] },
        RegistrationHandshake::HandshakePayload { protocol_version: None, data: vec![] },
        RegistrationHandshake::HandshakeError { message: "bad \"material\"".to_string() },
    ];
    for message in messages {
        let text = message.to_json();
        assert_eq!(RegistrationHandshake::from_str(&text), Ok(message.clone()));
        assert_eq!(RegistrationHandshake::try_from(text), Ok(message));
    }
}

#[test]
fn unknown_members_are_ignored() {
    let text = r#" { "future" : {"nested": [1, 2.5e3, {"deep": null}], "x": "y"} ,
        "type" : "send" , "other": [true, false, -0.0], "remainingBandwidth" : 17, "z": 1e-2 } "#;
    assert_eq!(
        ServerResponse::try_from(text.to_string()),
        Ok(ServerResponse::Send { remaining_bandwidth: 17 })
    );
    let text = format!(r#"{{"data":"{}","extra":"x","type":"handshakePayload"}}"#, base58(&[1, 2]));
    assert_eq!(
        RegistrationHandshake::from_str(&text),
        Ok(RegistrationHandshake::HandshakePayload { protocol_version: None, data: vec![1, 2] })
    );
}

#[test]
fn missing_or_null_version_is_none() {
    assert_eq!(
        ServerResponse::try_from(r#"{"type":"register","status":true}"#.to_string()),
        Ok(ServerResponse::Register { protocol_version: None, status: true })
    );
    assert_eq!(
        ServerResponse::try_from(r#"{"type":"register","protocolVersion":null,"status":true}"#.to_string()),
        Ok(ServerResponse::Register { protocol_version: None, status: true })
    );
    assert_eq!(
        ServerResponse::try_from(r#"{"type":"register","protocolVersion":3,"status":false}"#.to_string()),
        Ok(ServerResponse::Register { protocol_version: Some(3), status: false })
    );
    assert_eq!(
        ServerResponse::try_from(r#"{"type":"register","protocolVersion":256,"status":false}"#.to_string()),
        Err(FrameError::InvalidField)
    );
}

#[test]
fn escapes_are_read() {
    let text = r#"{"type":"error","message":"\u00e9\u00E9\ud83d\ude00\n\t\r\b\f\/\\\"\u0041\u005a"}"#;
    assert_eq!(
        ServerResponse::try_from(text.to_string()),
        Ok(ServerResponse::Error { message: "éé😀\n\t\r\u{8}\u{c}/\\\"AZ".to_string() })
    );
    for bad in [
        r#"{"type":"error","message":"\ud83d"}"#,
        r#"{"type":"error","message":"\ude00"}"#,
        r#"{"type":"error","message":"\x"}"#,
        r#"{"type":"error","message":"\u12"}"#,
        "{\"type\":\"error\",\"message\":\"a\nb\"}",
        r#"{"type":"error","message":"open"#,
    ] {
        assert_eq!(ServerResponse::try_from(bad.to_string()), Err(FrameError::NotAnObject));
    }
}

#[test]
fn text_that_is_no_object_is_refused() {
    for bad in [
        "",
        "null",
        "[]",
        "{",
        "{}x",
        r#"{"type":"send","remainingBandwidth":1,}"#,
        r#"{"type":"send" "remainingBandwidth":1}"#,
        r#"{"type":"send","remainingBandwidth":01}"#,
        r#"{"type":"send","remainingBandwidth":1.}"#,
        r#"{"type":"send","remainingBandwidth":+1}"#,
        r#"{type:"send"}"#,
    ] {
        assert_eq!(ServerResponse::try_from(bad.to_string()), Err(FrameError::NotAnObject));
    }
    let deep = format!(r#"{{"type":"send","remainingBandwidth":1,"x":{}{}}}"#, "[".repeat(200), "]".repeat(200));
    assert_eq!(ServerResponse::try_from(deep), Err(FrameError::NotAnObject));
    let shallow = format!(r#"{{"type":"send","remainingBandwidth":1,"x":{}{}}}"#, "[".repeat(50), "]".repeat(50));
    assert_eq!(
        ServerResponse::try_from(shallow),
        Ok(ServerResponse::Send { remaining_bandwidth: 1 })
    );
}

#[test]
fn member_that_stands_twice_counts_where_it_stands_last() {
    assert_eq!(
        ServerResponse::try_from(r#"{"type":"send","remainingBandwidth":1,"remainingBandwidth":2}"#.to_string()),
        Ok(ServerResponse::Send { remaining_bandwidth: 2 })
    );
    assert_eq!(
        ServerResponse::try_from(r#"{"type":"error","type":"send","remainingBandwidth":3}"#.to_string()),
        Ok(ServerResponse::Send { remaining_bandwidth: 3 })
    );
}

#[test]
fn frames_with_wrong_members_are_refused() {
    assert_eq!(ServerResponse::try_from("{}".to_string()), Err(FrameError::UnknownType));
    assert_eq!(
        ServerResponse::try_from(r#"{"type":"nothing"}"#.to_string()),
        Err(FrameError::UnknownType)
    );
    assert_eq!(
        ServerResponse::try_from(r#"{"type":7}"#.to_string()),
        Err(FrameError::UnknownType)
    );
    assert_eq!(
        ServerResponse::try_from(r#"{"type":"send"}"#.to_string()),
        Err(FrameError::MissingField)
    );
    assert_eq!(
        ServerResponse::try_from(r#"{"type":"send","remainingBandwidth":"1"}"#.to_string()),
        Err(FrameError::InvalidField)
    );
    assert_eq!(
        ServerResponse::try_from(r#"{"type":"send","remainingBandwidth":1.5}"#.to_string()),
        Err(FrameError::InvalidField)
    );
    assert_eq!(
        ServerResponse::try_from(r#"{"type":"send","remainingBandwidth":9223372036854775808}"#.to_string()),
        Err(FrameError::InvalidField)
    );
    assert_eq!(
        ServerResponse::try_from(r#"{"type":"send","remainingBandwidth":1e2}"#.to_string()),
        Err(FrameError::InvalidField)
    );
    assert_eq!(
        ServerResponse::try_from(r#"{"type":"register","status":"true"}"#.to_string()),
        Err(FrameError::InvalidField)
    );
    assert_eq!(
        ServerResponse::try_from(r#"{"type":"error","message":null}"#.to_string()),
        Err(FrameError::InvalidField)
    );
    assert_eq!(
        ClientControlRequest::try_from(r#"{"type":"register","status":true}"#.to_string()),
        Err(FrameError::UnknownType)
    );
}

#[test]
fn responses_say_whether_they_authenticate() {
    let yes = ServerResponse::Authenticate { protocol_version: None, status: true, bandwidth_remaining: 0 };
    let no = ServerResponse::Authenticate { protocol_version: None, status: false, bandwidth_remaining: 0 };
    assert!(yes.implies_successful_authentication());
    assert!(!no.implies_successful_authentication());
    let negative = ServerResponse::Authenticate { protocol_version: None, status: true, bandwidth_remaining: -1 };
    assert!(!negative.implies_successful_authentication());
    let plenty = ServerResponse::Authenticate { protocol_version: Some(2), status: true, bandwidth_remaining: i64::MAX };
    assert!(plenty.implies_successful_authentication());
    assert!(ServerResponse::Register { protocol_version: None, status: true }.implies_successful_authentication());
    assert!(!ServerResponse::Register { protocol_version: None, status: false }.implies_successful_authentication());
    assert!(!ServerResponse::Bandwidth { available_total: 1 }.implies_successful_authentication());
    assert!(!ServerResponse::Send { remaining_bandwidth: 1 }.implies_successful_authentication());
    assert!(!ServerResponse::new_error("e").implies_successful_authentication());
    assert!(ServerResponse::new_error("e").is_error());
    assert!(!yes.is_error());
}

#[test]
fn control_frames_travel_as_text() {
    let request = ClientControlRequest::ClaimFreeTestnetBandwidth;
    assert_eq!(
        request.into_ws_message(),
        Message::Text(r#"{"type":"claimFreeTestnetBandwidth"}"#.to_string())
    );
    assert_eq!(
        ServerResponse::Bandwidth { available_total: 5 }.into_ws_message(),
        Message::Text(r#"{"availableTotal":5,"type":"bandwidth"}"#.to_string())
    );
}
