use gateway_requests::client::{BuilderState, GatewaySetup, MixnetClientBuilder};
use gateway_requests::errors::{Error, HandshakeFailure, StorageError};
use gateway_requests::handshake::{persist_registration, Handshake, HandshakeState};
use gateway_requests::selection::{select_gateway, GatewayNode};
use gateway_requests::shared_keys::SharedKeys;
use gateway_requests::storage::{GatewayDetails, IdentityKeys, KeyStore};
use gateway_requests::types::{ClientControlRequest, RegistrationHandshake, ServerResponse};

fn keys() -> SharedKeys {
    let bytes: Vec<u8> = (0u8..32).collect();
    SharedKeys::try_from_bytes(&bytes).unwrap()
}

fn gateway() -> GatewayNode {
    GatewayNode {
        identity: "G".to_string(),
        owner: "n1owner".to_string(),
        host: "gateway.example".to_string(),
        clients_ws_port: 9000,
        clients_wss_port: None,
    }
}

struct BrokenStore;

impl KeyStore for BrokenStore {
    fn load_identity_keys(&self) -> Result<IdentityKeys, StorageError> {
        Err(StorageError { message: "disk on fire".to_string() })
    }

    fn store_identity_keys(&mut self, _keys: &IdentityKeys) -> Result<(), StorageError> {
        Err(StorageError { message: "disk on fire".to_string() })
    }

    fn load_gateway_descriptor(&self) -> Result<GatewayDetails, StorageError> {
        Err(StorageError { message: "disk on fire".to_string() })
    }

    fn store_gateway_descriptor(&mut self, _details: &GatewayDetails) -> Result<(), StorageError> {
        Err(StorageError { message: "disk on fire".to_string() })
    }

    fn load_shared_keys(&self, _gateway_id: &str) -> Result<SharedKeys, StorageError> {
        Err(StorageError { message: "disk on fire".to_string() })
    }

    fn store_shared_keys(&mut self, _gateway_id: &str, _keys: &SharedKeys) -> Result<(), StorageError> {
        Err(StorageError { message: "disk on fire".to_string() })
    }
}

#[test]
fn fresh_handshake_registers_the_client_and_persists_the_keys() {
    let mut client = MixnetClientBuilder::new_ephemeral().build().unwrap();
    assert_eq!(client.state, BuilderState::New);
    assert!(!client.has_valid_gateway_info());

    let setup = client.register_and_authenticate_gateway(false, vec![gateway()]).unwrap();
    let (specification, candidates) = match setup {
        GatewaySetup::New { specification, available_gateways, overwrite_data } => {
            assert!(overwrite_data);
            (specification, available_gateways)
        }
        GatewaySetup::MustLoad => unreachable!("nothing is stored yet"),
    };
    let chosen = select_gateway(&specification, &candidates, 12345).unwrap();
    assert_eq!(chosen, 0);

    let mut handshake = client.begin_handshake();
    assert_eq!(handshake, Handshake::new(false));
    let h0 = vec![10u8, 20, 30];
    let request = handshake.start(h0).unwrap();
    assert_eq!(handshake.state, HandshakeState::AwaitingMaterial);
    assert_eq!(
        request.to_json(),
        format!(
            r#"{{"data":"{}","protocolVersion":1,"type":"registerHandshakeInitRequest"}}"#,
            bs58::encode([10u8, 20, 30]).into_string()
        )
    );

    let answer = RegistrationHandshake::from_str(&format!(
        r#"{{"type":"handshakePayload","data":"{}"}}"#,
        bs58::encode([7u8, 7]).into_string()
    ))
    .unwrap();
    assert_eq!(
        answer,
        RegistrationHandshake::HandshakePayload { protocol_version: None, data: vec![7, 7] }
    );
    handshake.on_material(answer, Some(keys())).unwrap();
    assert_eq!(handshake.state, HandshakeState::Confirm);
    assert_eq!(handshake.gateway_version, Some(1));

    let confirmation = ServerResponse::try_from(r#"{"type":"register","status":true}"#.to_string()).unwrap();
    let shared = handshake.on_confirmation(confirmation).unwrap();
    assert_eq!(shared, keys());
    assert_eq!(handshake.state, HandshakeState::Established);

    let details = client.complete_registration(&handshake, &candidates[chosen]).unwrap();
    assert_eq!(details.gateway_id, "G");
    assert_eq!(details.gateway_owner, "n1owner");
    assert_eq!(details.gateway_listener, "ws://gateway.example:9000");

    assert_eq!(client.state, BuilderState::Registered);
    assert_eq!(client.storage.load_shared_keys("G"), Ok(keys()));
    assert_eq!(client.storage.load_gateway_descriptor(), Ok(details));
    assert!(client.has_valid_gateway_info());
    assert_eq!(
        client.complete_registration(&handshake, &candidates[chosen]),
        Err(Error::ReregisteringGatewayNotSupported)
    );
}

#[test]
fn unfinished_handshake_registers_nothing() {
    let mut client = MixnetClientBuilder::new_ephemeral().build().unwrap();
    let mut handshake = Handshake::new(false);
    assert_eq!(client.complete_registration(&handshake, &gateway()), Err(Error::InvalidState));
    handshake.start(vec![]).unwrap();
    handshake.on_material(RegistrationHandshake::new_payload(vec![], false), Some(keys())).unwrap();
    assert_eq!(client.complete_registration(&handshake, &gateway()), Err(Error::InvalidState));
    assert_eq!(client.state, BuilderState::New);
    assert!(!client.has_valid_gateway_info());
}

#[test]
fn stored_registration_is_loaded_if_it_is_valid() {
    let mut client = MixnetClientBuilder::new_ephemeral().build().unwrap();
    assert!(matches!(client.load_registration(), Err(Error::Storage(_))));
    assert_eq!(client.state, BuilderState::New);

    let details = persist_registration(&mut client.storage, &gateway(), false, &keys()).unwrap();
    let other = SharedKeys::try_from_bytes(&[9u8; 32]).unwrap();
    client.storage.store_shared_keys("G", &other).unwrap();
    assert_eq!(client.load_registration(), Err(Error::InvalidGatewayDetails));
    assert_eq!(client.state, BuilderState::New);

    client.storage.store_shared_keys("G", &keys()).unwrap();
    assert_eq!(client.load_registration(), Ok((details, keys())));
    assert_eq!(client.state, BuilderState::Registered);
    assert_eq!(client.load_registration(), Err(Error::ReregisteringGatewayNotSupported));
}

#[test]
fn frame_that_cannot_be_read_fails_the_handshake() {
    let mut handshake = Handshake::new(false);
    handshake.start(vec![]).unwrap();
    assert_eq!(
        handshake.on_undecodable(),
        Error::HandshakeFailed(HandshakeFailure::UnexpectedResponse)
    );
    assert_eq!(handshake.state, HandshakeState::HandshakeFailed);
}

#[test]
fn handshake_with_credentials_advertises_the_current_version() {
    let mut handshake = Handshake::new(true);
    match handshake.start(vec![]).unwrap() {
        ClientControlRequest::RegisterHandshakeInitRequest { protocol_version, data } => {
            assert_eq!(protocol_version, Some(gateway_requests::CURRENT_PROTOCOL_VERSION));
            assert!(data.is_empty());
        }
        _ => unreachable!("a handshake begins with its init request"),
    }
    assert_eq!(handshake.negotiated_version(), gateway_requests::CURRENT_PROTOCOL_VERSION);
    let answer = RegistrationHandshake::HandshakePayload { protocol_version: Some(1), data: vec![] };
    handshake.on_material(answer, Some(keys())).unwrap();
    assert_eq!(handshake.negotiated_version(), 1);
}

#[test]
fn gateway_error_fails_the_handshake_with_its_message() {
    let mut handshake = Handshake::new(false);
    handshake.start(vec![1]).unwrap();
    let result = handshake.on_material(RegistrationHandshake::new_error("no room"), Some(keys()));
    assert_eq!(
        result,
        Err(Error::HandshakeFailed(HandshakeFailure::Gateway("no room".to_string())))
    );
    assert_eq!(handshake.state, HandshakeState::HandshakeFailed);
    assert_eq!(handshake.keys, None);
    assert_eq!(handshake.start(vec![1]), Err(Error::InvalidState));
    assert_eq!(handshake.state, HandshakeState::HandshakeFailed);
}

#[test]
fn material_without_keys_fails_the_handshake() {
    let mut handshake = Handshake::new(false);
    handshake.start(vec![1]).unwrap();
    let answer = RegistrationHandshake::new_payload(vec![1], false);
    assert_eq!(
        handshake.on_material(answer, None),
        Err(Error::HandshakeFailed(HandshakeFailure::KeyAgreement))
    );
    assert_eq!(handshake.state, HandshakeState::HandshakeFailed);
}

#[test]
fn false_status_is_a_rejection() {
    let mut handshake = Handshake::new(false);
    handshake.start(vec![1]).unwrap();
    handshake.on_material(RegistrationHandshake::new_payload(vec![1], false), Some(keys())).unwrap();
    let response = ServerResponse::Register { protocol_version: None, status: false };
    assert_eq!(handshake.on_confirmation(response), Err(Error::Rejected));
    assert_eq!(handshake.state, HandshakeState::Rejected);
    assert_eq!(handshake.keys, None);
}

#[test]
fn anything_but_a_registration_fails_the_confirmation() {
    let mut handshake = Handshake::new(false);
    handshake.start(vec![1]).unwrap();
    handshake.on_material(RegistrationHandshake::new_payload(vec![1], false), Some(keys())).unwrap();
    let mut other = handshake;
    assert_eq!(
        handshake.on_confirmation(ServerResponse::Bandwidth { available_total: 1 }),
        Err(Error::HandshakeFailed(HandshakeFailure::UnexpectedResponse))
    );
    assert_eq!(handshake.state, HandshakeState::HandshakeFailed);
    assert_eq!(
        other.on_confirmation(ServerResponse::new_error("gone")),
        Err(Error::HandshakeFailed(HandshakeFailure::Gateway("gone".to_string())))
    );
}

#[test]
fn steps_out_of_turn_change_nothing() {
    let mut handshake = Handshake::new(false);
    let before = handshake;
    assert_eq!(
        handshake.on_material(RegistrationHandshake::new_payload(vec![], false), Some(keys())),
        Err(Error::InvalidState)
    );
    assert_eq!(
        handshake.on_confirmation(ServerResponse::Register { protocol_version: None, status: true }),
        Err(Error::InvalidState)
    );
    assert_eq!(handshake, before);
}

#[test]
fn transport_error_fails_a_handshake_that_is_not_over() {
    let mut handshake = Handshake::new(false);
    handshake.start(vec![1]).unwrap();
    assert_eq!(
        handshake.on_transport_error(),
        Error::HandshakeFailed(HandshakeFailure::Transport)
    );
    assert_eq!(handshake.state, HandshakeState::HandshakeFailed);

    let mut done = Handshake::new(false);
    done.start(vec![1]).unwrap();
    done.on_material(RegistrationHandshake::new_payload(vec![1], false), Some(keys())).unwrap();
    done.on_confirmation(ServerResponse::Register { protocol_version: None, status: true }).unwrap();
    done.on_transport_error();
    assert_eq!(done.state, HandshakeState::Established);
    assert_eq!(done.keys, Some(keys()));
}

#[test]
fn storage_errors_surface_unchanged() {
    let mut store = BrokenStore;
    assert_eq!(
        persist_registration(&mut store, &gateway(), false, &keys()),
        Err(Error::Storage(StorageError { message: "disk on fire".to_string() }))
    );
    assert!(!gateway_requests::storage::has_valid_gateway_info(&store));
}

#[test]
fn gateway_without_tls_cannot_be_registered_with_tls() {
    let mut client = MixnetClientBuilder::new_ephemeral().build().unwrap();
    assert_eq!(
        persist_registration(&mut client.storage, &gateway(), true, &keys()),
        Err(Error::UnsupportedWssProtocol)
    );
    assert!(!client.has_valid_gateway_info());
}

fn established() -> Handshake {
    let mut handshake = Handshake::new(false);
    handshake.start(vec![1]).unwrap();
    handshake.on_material(RegistrationHandshake::new_payload(vec![1], false), Some(keys())).unwrap();
    handshake.on_confirmation(ServerResponse::Register { protocol_version: None, status: true }).unwrap();
    handshake
}

#[test]
fn registration_is_refused_for_its_own_reasons_before_the_store_is_touched() {
    let mut secure = MixnetClientBuilder::new_ephemeral().force_tls(true).build().unwrap();
    let untouched = secure.storage.clone();
    assert_eq!(
        secure.complete_registration(&established(), &gateway()),
        Err(Error::UnsupportedWssProtocol)
    );
    assert_eq!(secure.state, BuilderState::New);
    assert_eq!(secure.storage, untouched);
    assert_eq!(
        secure.complete_registration(&Handshake::new(false), &gateway()),
        Err(Error::InvalidState)
    );
    assert_eq!(secure.storage, untouched);

    let mut tls_gateway = gateway();
    tls_gateway.clients_wss_port = Some(443);
    let details = secure.complete_registration(&established(), &tls_gateway).unwrap();
    assert_eq!(details.gateway_listener, "wss://gateway.example:443");
    assert_eq!(secure.state, BuilderState::Registered);
    assert_eq!(secure.storage.load_gateway_descriptor(), Ok(details));
    assert_eq!(secure.storage.load_shared_keys("G"), Ok(keys()));
}

#[test]
fn store_that_fails_leaves_the_client_new() {
    let mut client = MixnetClientBuilder::new_with_storage(BrokenStore).build().unwrap();
    assert!(!client.has_valid_gateway_info());
    assert_eq!(
        client.complete_registration(&established(), &gateway()),
        Err(Error::Storage(StorageError { message: "disk on fire".to_string() }))
    );
    assert_eq!(client.state, BuilderState::New);
    assert_eq!(
        client.load_registration(),
        Err(Error::Storage(StorageError { message: "disk on fire".to_string() }))
    );
    assert_eq!(client.state, BuilderState::New);
}

#[test]
fn loading_a_registration_only_reads_the_store() {
    let mut client = MixnetClientBuilder::new_ephemeral().build().unwrap();
    persist_registration(&mut client.storage, &gateway(), false, &keys()).unwrap();
    let before = client.storage.clone();
    assert!(client.has_valid_gateway_info());
    assert!(client.load_registration().is_ok());
    assert_eq!(client.storage, before);
    assert_eq!(client.state, BuilderState::Registered);
}
