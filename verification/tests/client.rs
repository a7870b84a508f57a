use gateway_requests::client::{
    route_through_tunnel, BuilderState, Config, ConnectionPlan, DisconnectedMixnetClient, GatewaySetup,
    IncludedSurbs, KeyMode, MixnetClientBuilder, NymNetworkDetails, Socks5, Transition,
    ValidatorDetails, DEFAULT_NUMBER_OF_SURBS,
};
use gateway_requests::errors::Error;
use gateway_requests::selection::{
    backoff_base_delay, draw_random, retry_delay, select_gateway, transport_for, GatewayNode,
    GatewaySelectionSpecification, Transport, MAX_GATEWAY_RETRIES,
};
use gateway_requests::shared_keys::SharedKeys;
use gateway_requests::storage::{
    gateway_info_is_valid, Ephemeral, GatewayDetails, GatewayDetailsError, IdentityKeys, KeyStore,
};
use gateway_requests::errors::StorageError;
use gateway_requests::timeouts::{timeout_ms, Phase};
use sha2::Digest;

fn node(identity: &str, tls: Option<u16>) -> GatewayNode {
    GatewayNode {
        identity: identity.to_string(),
        owner: format!("owner-of-{identity}"),
        host: format!("{identity}.example"),
        clients_ws_port: 9000,
        clients_wss_port: tls,
    }
}

fn keys() -> SharedKeys {
    SharedKeys::try_from_bytes(&[0u8; 32]).unwrap()
}

#[test]
fn surbs_default_to_ten() {
    assert_eq!(DEFAULT_NUMBER_OF_SURBS, 10);
    assert_eq!(IncludedSurbs::default(), IncludedSurbs::Amount(10));
    assert_eq!(IncludedSurbs::new(3), IncludedSurbs::Amount(3));
    assert_eq!(IncludedSurbs::none(), IncludedSurbs::Amount(0));
    assert_eq!(IncludedSurbs::expose_self_address(), IncludedSurbs::ExposeSelfAddress);
}

#[test]
fn builder_collects_what_it_is_told() {
    let builder = MixnetClientBuilder::new();
    assert_eq!(builder.config, Config::new());
    assert!(!builder.force_tls && !builder.wireguard_mode && !builder.wait_for_gateway);
    let client = builder
        .request_gateway("G".to_string())
        .force_tls(true)
        .enable_credentials_mode()
        .with_wireguard_mode(true)
        .with_wait_for_gateway(true)
        .custom_topology_provider(true)
        .custom_gateway_transceiver(true)
        .custom_shutdown(true)
        .gateway_endpoint_config_path("/tmp/gw".to_string())
        .build()
        .unwrap();
    assert_eq!(client.config.user_chosen_gateway, Some("G".to_string()));
    assert!(client.config.enabled_credentials_mode);
    assert!(client.force_tls && client.wireguard_mode && client.wait_for_gateway);
    assert!(client.custom_topology_provider && client.custom_gateway_transceiver && client.custom_shutdown);
    assert_eq!(client.state, BuilderState::New);
    assert_eq!(client.socks5_config, None);
}

#[test]
fn builder_changes_its_store() {
    let mut store = Ephemeral::new();
    let identity = IdentityKeys { private_key: [1; 32], public_key: [2; 32] };
    store.store_identity_keys(&identity).unwrap();
    let builder = MixnetClientBuilder::new_ephemeral().force_tls(true).set_storage(store.clone());
    assert!(builder.force_tls);
    assert_eq!(builder.storage, store);
    let other = MixnetClientBuilder::new_with_storage(store);
    assert_eq!(other.storage.load_identity_keys(), Ok(identity));
    assert!(!other.force_tls);
}

#[test]
fn states_follow_one_another() {
    let mut client = MixnetClientBuilder::new_ephemeral().build().unwrap();
    assert_eq!(client.advance(Transition::Authenticate), Err(Error::InvalidState));
    assert_eq!(client.advance(Transition::Start), Err(Error::InvalidState));
    assert_eq!(client.state, BuilderState::New);
    assert_eq!(client.advance(Transition::Register), Ok(()));
    assert_eq!(client.state, BuilderState::Registered);
    assert_eq!(client.advance(Transition::Authenticate), Ok(()));
    assert_eq!(client.state, BuilderState::Authenticated);
    assert_eq!(client.advance(Transition::Start), Ok(()));
    assert_eq!(client.state, BuilderState::Running);
    assert_eq!(client.advance(Transition::Terminate), Ok(()));
    assert_eq!(client.state, BuilderState::Terminated);
    assert_eq!(client.advance(Transition::Terminate), Err(Error::SessionClosed));
    assert_eq!(client.advance(Transition::Start), Err(Error::InvalidState));
}

#[test]
fn registering_again_is_not_supported() {
    for transitions in [
        vec![Transition::Register],
        vec![Transition::Register, Transition::Authenticate],
        vec![Transition::Register, Transition::Authenticate, Transition::Start],
        vec![Transition::Terminate],
    ] {
        let mut client = MixnetClientBuilder::new_ephemeral().build().unwrap();
        for transition in transitions {
            client.advance(transition).unwrap();
        }
        let state = client.state;
        assert_eq!(client.advance(Transition::Register), Err(Error::ReregisteringGatewayNotSupported));
        assert_eq!(
            client.register_and_authenticate_gateway(false, vec![node("a", None)]),
            Err(Error::ReregisteringGatewayNotSupported)
        );
        assert_eq!(client.state, state);
    }
}

#[test]
fn cancellation_terminates_the_client() {
    let mut client = MixnetClientBuilder::new_ephemeral().build().unwrap();
    client.advance(Transition::Register).unwrap();
    assert_eq!(client.cancel(), Error::Cancelled);
    assert_eq!(client.state, BuilderState::Terminated);
    assert_eq!(client.cancel(), Error::SessionClosed);

    let mut running = MixnetClientBuilder::new_ephemeral().build().unwrap();
    running.advance(Transition::Register).unwrap();
    running.advance(Transition::Authenticate).unwrap();
    running.advance(Transition::Start).unwrap();
    assert_eq!(running.cancel(), Error::SessionClosed);
    assert_eq!(running.state, BuilderState::Terminated);
}

#[test]
fn registration_loads_what_is_known_and_chooses_what_is_not() {
    let client = MixnetClientBuilder::new_ephemeral()
        .request_gateway("b".to_string())
        .force_tls(true)
        .build()
        .unwrap();
    assert_eq!(
        client.register_and_authenticate_gateway(true, vec![node("a", None)]),
        Ok(GatewaySetup::MustLoad)
    );
    assert_eq!(
        client.register_and_authenticate_gateway(false, vec![node("a", None), node("b", Some(443))]),
        Ok(GatewaySetup::New {
            specification: GatewaySelectionSpecification::Specified { must_use_tls: true, identity: "b".to_string() },
            available_gateways: vec![node("a", None), node("b", Some(443))],
            overwrite_data: true,
        })
    );
}

#[test]
fn connection_plan_follows_the_configuration() {
    let mut config = Config::new();
    config.key_mode = KeyMode::Keep;
    let client = DisconnectedMixnetClient::new(config.clone(), None, Ephemeral::new())
        .wait_for_gateway(true)
        .custom_shutdown(true);
    let plan = client.connect_to_mixnet_common(false, None, vec![node("a", None)]).unwrap();
    assert_eq!(
        plan,
        ConnectionPlan {
            register_first: false,
            gateway_setup: Some(GatewaySetup::New {
                specification: GatewaySelectionSpecification::UniformRemote { must_use_tls: false },
                available_gateways: vec![node("a", None)],
                overwrite_data: false,
            }),
            updated_details: None,
            wait_for_gateway: true,
            with_topology_provider: false,
            with_shutdown: true,
            with_gateway_transceiver: false,
        }
    );
    let known = client.connect_to_mixnet_common(true, None, vec![node("a", None)]).unwrap();
    assert_eq!(known.gateway_setup, None);
    assert_eq!(known.updated_details, None);
}

#[test]
fn wireguard_mode_moves_gateways_into_the_tunnel() {
    let mut config = Config::new();
    config.key_mode = KeyMode::Keep;
    let client = DisconnectedMixnetClient::new(config, None, Ephemeral::new()).wireguard_mode(true);
    let plan = client.connect_to_mixnet_common(false, None, vec![node("a", Some(1)), node("b", None)]).unwrap();
    match plan.gateway_setup {
        Some(GatewaySetup::New { available_gateways, .. }) => {
            assert_eq!(available_gateways.len(), 2);
            assert_eq!(available_gateways[0].host, "10.1.0.1");
            assert_eq!(available_gateways[0].identity, "a");
            assert_eq!(available_gateways[0].clients_wss_port, Some(1));
            assert_eq!(available_gateways[1].host, "10.1.0.1");
            assert_eq!(available_gateways[1].clients_address(), "ws://10.1.0.1:9000");
        }
        _ => unreachable!("an unknown gateway is chosen anew"),
    }
    let stored = GatewayDetails::new("a".to_string(), "o".to_string(), "wss://a.example:443".to_string(), &keys());
    let plan = client.connect_to_mixnet_common(true, Some(stored.clone()), vec![]).unwrap();
    let moved = plan.updated_details.unwrap();
    assert_eq!(moved.gateway_listener, "ws://10.1.0.1:9000");
    assert_eq!(moved.gateway_id, "a");
    assert_eq!(moved.key_hash, stored.key_hash);
    assert_eq!(route_through_tunnel(vec![]), vec![]);
}

#[test]
fn client_that_replaces_its_keys_registers_first() {
    let mut client = MixnetClientBuilder::new_ephemeral().build().unwrap();
    let plan = client.connect_to_mixnet_common(true, None, vec![]).unwrap();
    assert!(plan.register_first);
    client.advance(Transition::Register).unwrap();
    assert_eq!(
        client.connect_to_mixnet_common(true, None, vec![]),
        Err(Error::ReregisteringGatewayNotSupported)
    );
}

#[test]
fn socks5_configuration_decides_how_to_connect() {
    let plain = MixnetClientBuilder::new_ephemeral().build().unwrap();
    assert_eq!(plain.connect_to_mixnet(), Ok(()));
    assert_eq!(plain.connect_to_mixnet_via_socks5(), Err(Error::Socks5Config { set: false }));
    let socks = MixnetClientBuilder::new_ephemeral()
        .socks5_config(Socks5::new("provider".to_string()))
        .build()
        .unwrap();
    assert_eq!(socks.connect_to_mixnet(), Err(Error::Socks5Config { set: true }));
    assert_eq!(socks.connect_to_mixnet_via_socks5(), Ok(()));
    let both = socks.custom_shutdown(true);
    assert_eq!(both.connect_to_mixnet_via_socks5(), Err(Error::Socks5WithCustomShutdown));
}

#[test]
fn bandwidth_client_needs_credentials_mode() {
    let without = MixnetClientBuilder::new_ephemeral().build().unwrap();
    assert_eq!(without.create_bandwidth_client("words".to_string()), Err(Error::DisabledCredentialsMode));
    let with = MixnetClientBuilder::new_ephemeral().enable_credentials_mode().build().unwrap();
    assert_eq!(with.create_bandwidth_client("words".to_string()).unwrap().mnemonic, "words");
}

#[test]
fn named_gateway_is_taken_directly() {
    let candidates = vec![node("a", None), node("b", Some(443)), node("b", None)];
    let b = GatewaySelectionSpecification::new(Some("b".to_string()), true);
    for random in [0u64, 1, 2, u64::MAX] {
        assert_eq!(select_gateway(&b, &candidates, random), Ok(1));
    }
    let a_tls = GatewaySelectionSpecification::new(Some("a".to_string()), true);
    assert_eq!(select_gateway(&a_tls, &candidates, 0), Err(Error::UnsupportedWssProtocol));
    let a = GatewaySelectionSpecification::new(Some("a".to_string()), false);
    assert_eq!(select_gateway(&a, &candidates, 0), Ok(0));
    let c = GatewaySelectionSpecification::new(Some("c".to_string()), false);
    assert_eq!(select_gateway(&c, &candidates, 0), Err(Error::NoGatewayWithId));
}

#[test]
fn random_gateway_is_one_that_can_be_used() {
    let candidates = vec![node("a", None), node("b", Some(443)), node("c", None), node("d", Some(8443))];
    let any = GatewaySelectionSpecification::new(None, false);
    assert_eq!(select_gateway(&any, &candidates, 0), Ok(0));
    assert_eq!(select_gateway(&any, &candidates, 6), Ok(2));
    assert_eq!(select_gateway(&any, &candidates, 7), Ok(3));
    let tls = GatewaySelectionSpecification::new(None, true);
    assert_eq!(select_gateway(&tls, &candidates, 0), Ok(1));
    assert_eq!(select_gateway(&tls, &candidates, 1), Ok(3));
    assert_eq!(select_gateway(&tls, &candidates, 2), Ok(1));
    assert_eq!(select_gateway(&tls, &candidates[..1].to_vec(), 0), Err(Error::NoGatewaysAvailable));
    assert_eq!(select_gateway(&any, &vec![], 5), Err(Error::NoGatewaysAvailable));
    let mut seen = [0usize; 4];
    for random in 0..400u64 {
        seen[select_gateway(&any, &candidates, random).unwrap()] += 1;
    }
    assert_eq!(seen, [100, 100, 100, 100]);
}

#[test]
fn listener_follows_the_scheme() {
    let gateway = node("a", Some(443));
    assert_eq!(gateway.clients_address(), "ws://a.example:9000");
    assert_eq!(gateway.clients_address_tls(), Some("wss://a.example:443".to_string()));
    assert_eq!(gateway.listener(false), Some("ws://a.example:9000".to_string()));
    assert_eq!(gateway.listener(true), Some("wss://a.example:443".to_string()));
    assert_eq!(node("b", None).listener(true), None);
    assert_eq!(node("b", None).clients_address_tls(), None);
    let mut zero = node("z", Some(65535));
    zero.clients_ws_port = 0;
    assert_eq!(zero.clients_address(), "ws://z.example:0");
    assert_eq!(zero.clients_address_tls(), Some("wss://z.example:65535".to_string()));
    assert_eq!(transport_for("ws://a.example:9000"), Ok(Transport::Plain));
    assert_eq!(transport_for("wss://a.example:443"), Ok(Transport::Tls));
    assert_eq!(transport_for("http://a.example"), Err(Error::UnsupportedListener));
    assert_eq!(transport_for("ws:/"), Err(Error::UnsupportedListener));
    assert_eq!(transport_for(""), Err(Error::UnsupportedListener));
}

#[test]
fn backoff_doubles_from_half_a_second_to_thirty() {
    let expected = [500u64, 1000, 2000, 4000, 8000, 16000, 30000, 30000, 30000];
    for (attempt, delay) in expected.iter().enumerate() {
        assert_eq!(backoff_base_delay(attempt as u32), *delay);
    }
    assert_eq!(backoff_base_delay(u32::MAX), 30000);
}

#[test]
fn jitter_stays_within_a_fifth() {
    assert_eq!(retry_delay(true, 0, 0), Ok(400));
    assert_eq!(retry_delay(true, 0, 200), Ok(600));
    assert_eq!(retry_delay(true, 0, 201), Ok(400));
    assert_eq!(retry_delay(true, 0, 100), Ok(500));
    assert_eq!(retry_delay(true, 6, 12000), Ok(36000));
    for random in [0u64, 1, 77, 12345, u64::MAX] {
        let moved = retry_delay(true, 9, random).unwrap();
        assert!((24000..=36000).contains(&moved));
    }
}

#[test]
fn unreachable_gateway_is_retried_up_to_the_ceiling() {
    assert_eq!(retry_delay(true, 0, 0), Ok(400));
    assert_eq!(retry_delay(true, 3, 800), Ok(4000));
    assert_eq!(retry_delay(true, MAX_GATEWAY_RETRIES - 1, 0), Ok(24000));
    assert_eq!(retry_delay(true, MAX_GATEWAY_RETRIES, 0), Err(Error::GatewayUnreachable));
    assert_eq!(retry_delay(false, 0, 0), Err(Error::GatewayUnreachable));
    assert_ne!(draw_random().unwrap(), draw_random().unwrap());
}

#[test]
fn descriptor_is_bound_to_the_keys_it_was_stored_with() {
    let details = GatewayDetails::new("g".to_string(), "o".to_string(), "ws://g:1".to_string(), &keys());
    let expected = sha2::Sha256::digest([0u8; 32]);
    assert_eq!(&details.key_hash[..], expected.as_slice());
    assert_eq!(
        details.key_hash[..4],
        [0x66, 0x68, 0x7a, 0xad]
    );
    assert!(details.verify(&keys()));
    assert_eq!(details.validate(Some(&keys())), Ok(()));
    let other = SharedKeys::try_from_bytes(&[1u8; 32]).unwrap();
    assert!(!details.verify(&other));
    assert_eq!(details.validate(Some(&other)), Err(GatewayDetailsError::MismatchedSharedKey));
    assert_eq!(details.validate(None), Err(GatewayDetailsError::MissingSharedKey));
    assert_eq!(details.clone_details(), details);
    let secure = GatewayDetails::new("g".to_string(), "o".to_string(), "wss://g:1".to_string(), &keys());
    assert_eq!(secure.validate(Some(&keys())), Ok(()));
    let odd = GatewayDetails::new("g".to_string(), "o".to_string(), "http://g:1".to_string(), &keys());
    assert_eq!(odd.validate(Some(&keys())), Err(GatewayDetailsError::UnsupportedListener));
    assert_eq!(odd.validate(Some(&other)), Err(GatewayDetailsError::MismatchedSharedKey));

    let failed: Result<SharedKeys, StorageError> = Err(StorageError { message: "x".to_string() });
    assert!(gateway_info_is_valid(&Ok(keys()), &Ok(details.clone())));
    assert!(!gateway_info_is_valid(&Ok(other), &Ok(details.clone())));
    assert!(!gateway_info_is_valid(&failed, &Ok(details)));
    assert!(!gateway_info_is_valid(&Ok(keys()), &Err(StorageError { message: "x".to_string() })));
}

#[test]
fn ephemeral_store_gives_back_what_was_stored() {
    let mut store = Ephemeral::new();
    assert!(store.load_identity_keys().is_err());
    assert!(store.load_gateway_descriptor().is_err());
    assert!(store.load_shared_keys("g").is_err());

    let identity = IdentityKeys { private_key: [1; 32], public_key: [2; 32] };
    store.store_identity_keys(&identity).unwrap();
    assert_eq!(store.load_identity_keys(), Ok(identity));

    let first = SharedKeys::try_from_bytes(&[1u8; 32]).unwrap();
    let second = SharedKeys::try_from_bytes(&[2u8; 32]).unwrap();
    store.store_shared_keys("g", &first).unwrap();
    store.store_shared_keys("h", &second).unwrap();
    assert_eq!(store.load_shared_keys("g"), Ok(first));
    assert_eq!(store.load_shared_keys("h"), Ok(second));
    store.store_shared_keys("g", &second).unwrap();
    assert_eq!(store.load_shared_keys("g"), Ok(second));
    assert!(store.load_shared_keys("i").is_err());

    let details = GatewayDetails::new("g".to_string(), "o".to_string(), "ws://g:1".to_string(), &second);
    store.store_gateway_descriptor(&details).unwrap();
    assert_eq!(store.load_gateway_descriptor(), Ok(details));
    assert_eq!(store.load_identity_keys(), Ok(identity));
}

#[test]
fn every_phase_has_its_time_limit() {
    assert_eq!(timeout_ms(Phase::Handshake), Some(30_000));
    assert_eq!(timeout_ms(Phase::Authenticate), Some(10_000));
    assert_eq!(timeout_ms(Phase::Credential), Some(30_000));
    assert_eq!(timeout_ms(Phase::InboundRead), None);
    assert_eq!(timeout_ms(Phase::OutboundWrite), Some(30_000));
    assert_eq!(timeout_ms(Phase::Cancellation), Some(100));
}

#[test]
fn endpoints_that_are_no_urls_are_left_out() {
    let network = NymNetworkDetails::new(
        "sandbox".to_string(),
        vec![
            ValidatorDetails { nyxd_url: "https://rpc.sandbox.example".to_string(), api_url: None },
            ValidatorDetails { nyxd_url: "not a url".to_string(), api_url: Some("https://api.one.example/".to_string()) },
            ValidatorDetails { nyxd_url: "http://[::1]:26657".to_string(), api_url: Some("http://[:::1]".to_string()) },
        ],
    );
    let client = MixnetClientBuilder::new_ephemeral().network_details(network).build().unwrap();
    assert_eq!(client.get_api_endpoints(), vec!["https://api.one.example/".to_string()]);
    assert_eq!(
        client.get_nyxd_endpoints(),
        vec!["https://rpc.sandbox.example".to_string(), "http://[::1]:26657".to_string()]
    );
    assert_eq!(client.dkg_query_endpoint(), None);
    let paying = client.clone();
    let mut paying = paying;
    paying.config.enabled_credentials_mode = true;
    assert_eq!(paying.dkg_query_endpoint(), Some("https://rpc.sandbox.example".to_string()));
}

#[test]
fn default_network_is_the_main_one() {
    let client = MixnetClientBuilder::new_ephemeral().enable_credentials_mode().build().unwrap();
    assert_eq!(client.config.network_details, NymNetworkDetails::new_mainnet());
    assert_eq!(client.get_api_endpoints(), vec!["https://validator.nymtech.net/api/".to_string()]);
    assert_eq!(client.get_nyxd_endpoints(), vec!["https://rpc.nymtech.net".to_string()]);
    assert_eq!(client.dkg_query_endpoint(), Some("https://rpc.nymtech.net".to_string()));
    let empty = MixnetClientBuilder::new_ephemeral()
        .enable_credentials_mode()
        .network_details(NymNetworkDetails::new("none".to_string(), vec![]))
        .build()
        .unwrap();
    assert_eq!(empty.dkg_query_endpoint(), None);
    assert!(empty.get_api_endpoints().is_empty());
}

#[test]
fn new_builder_has_an_empty_store() {
    for builder in [MixnetClientBuilder::new_ephemeral(), MixnetClientBuilder::new()] {
        assert!(builder.storage.load_identity_keys().is_err());
        assert!(builder.storage.load_gateway_descriptor().is_err());
        assert!(builder.storage.load_shared_keys("G").is_err());
        assert!(builder.storage.load_shared_keys("").is_err());
        assert_eq!(builder.storage, Ephemeral::new());
        assert_eq!(builder.config, Config::new());
    }
}
