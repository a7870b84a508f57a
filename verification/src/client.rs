//! The connection manager: how a client is configured, which states it goes
//! through on its way to a running session, and what it decides on that way.
//! The work between the decisions (reaching the topology, the transport, the
//! store on disk) is the caller's.

use crate::address::DestinationAddressBytes;
use crate::authenticator::{
    authenticate, authenticate_view, authentication_outcome, on_authenticate_response,
    Authenticated,
};
use crate::errors::Error;
use crate::handshake::{persist_registration, Handshake, HandshakeState};
use crate::primitives::{is_url, url_parses};
use crate::selection::{
    GatewayNode, GatewayNodeView, GatewaySelectionSpecification, GatewaySelectionView,
};
use crate::iv::IV;
use crate::session::{Session, SessionView};
use crate::shared_keys::SharedKeys;
use crate::storage::{
    has_valid_gateway_info, holds_valid_gateway, key_fingerprint, Ephemeral, GatewayDetails,
    GatewayDetailsView, KeyStore,
};
use crate::types::{ClientControlRequest, ServerResponse};
use vstd::prelude::*;

verus! {

/// The number of reply blocks a message carries unless told otherwise.
pub const DEFAULT_NUMBER_OF_SURBS: u32 = 10;

/// The address of a gateway inside a WireGuard tunnel.
pub const WG_TUN_DEVICE_ADDRESS: &'static str = "10.1.0.1";

/// The listener of a gateway inside a WireGuard tunnel.
pub const WG_GATEWAY_LISTENER: &'static str = "ws://10.1.0.1:9000";

/// How many reply blocks go with a message.
#[derive(Debug, Clone, Copy, PartialEq, Eq, Structural)]
pub enum IncludedSurbs {
    Amount(u32),
    ExposeSelfAddress,
}

impl Default for IncludedSurbs {
    fn default() -> (surbs: Self)
        ensures
            surbs == IncludedSurbs::Amount(DEFAULT_NUMBER_OF_SURBS),
    {
        IncludedSurbs::Amount(DEFAULT_NUMBER_OF_SURBS)
    }
}

impl IncludedSurbs {
    /// `reply_surbs` reply blocks.
    pub fn new(reply_surbs: u32) -> (surbs: Self)
        ensures
            surbs == IncludedSurbs::Amount(reply_surbs),
    {
        IncludedSurbs::Amount(reply_surbs)
    }

    /// No reply blocks.
    pub fn none() -> (surbs: Self)
        ensures
            surbs == IncludedSurbs::Amount(0),
    {
        IncludedSurbs::Amount(0)
    }

    /// No reply blocks, but the sender's own address.
    pub fn expose_self_address() -> (surbs: Self)
        ensures
            surbs == IncludedSurbs::ExposeSelfAddress,
    {
        IncludedSurbs::ExposeSelfAddress
    }
}

/// What becomes of keys that are stored already.
#[derive(Debug, Clone, Copy, PartialEq, Eq, Structural)]
pub enum KeyMode {
    /// They are kept and used.
    Keep,
    /// They are replaced by new ones.
    Overwrite,
}

impl KeyMode {
    /// Whether stored keys are kept.
    pub fn is_keep(&self) -> (keep: bool)
        ensures
            keep == (*self == KeyMode::Keep),
    {
        match self {
            KeyMode::Keep => true,
            KeyMode::Overwrite => false,
        }
    }
}

/// Where the validators of a network are reached.
#[derive(Debug, Clone, PartialEq, Eq)]
pub struct ValidatorDetails {
    /// The address of the chain endpoint.
    pub nyxd_url: String,
    /// The address of the API endpoint, where the validator has one.
    pub api_url: Option<String>,
}

/// Validator details as a mathematical value.
pub struct ValidatorDetailsView {
    pub nyxd_url: Seq<char>,
    pub api_url: Option<Seq<char>>,
}

impl View for ValidatorDetails {
    type V = ValidatorDetailsView;

    open spec fn view(&self) -> ValidatorDetailsView {
        ValidatorDetailsView {
            nyxd_url: self.nyxd_url@,
            api_url: match self.api_url {
                Some(url) => Some(url@),
                None => None,
            },
        }
    }
}

/// The network a client belongs to.
#[derive(Debug, Clone, PartialEq, Eq)]
pub struct NymNetworkDetails {
    pub network_name: String,
    pub endpoints: Vec<ValidatorDetails>,
}

/// Network details as a mathematical value.
pub struct NymNetworkDetailsView {
    pub network_name: Seq<char>,
    pub endpoints: Seq<ValidatorDetailsView>,
}

impl View for NymNetworkDetails {
    type V = NymNetworkDetailsView;

    open spec fn view(&self) -> NymNetworkDetailsView {
        NymNetworkDetailsView {
            network_name: self.network_name@,
            endpoints: self.endpoints@.map_values(|details: ValidatorDetails| details@),
        }
    }
}

impl NymNetworkDetailsView {
    /// The main network, with its one validator.
    pub open spec fn mainnet() -> NymNetworkDetailsView {
        NymNetworkDetailsView {
            network_name: "mainnet"@,
            endpoints: seq![
                ValidatorDetailsView {
                    nyxd_url: "https://rpc.nymtech.net"@,
                    api_url: Some("https://validator.nymtech.net/api/"@),
                },
            ],
        }
    }

    /// The API addresses of the validators that have one that is a URL, in
    /// order.
    pub open spec fn api_endpoints(self) -> Seq<Seq<char>>
        decreases self.endpoints.len(),
    {
        if self.endpoints.len() == 0 {
            Seq::empty()
        } else {
            let before = (NymNetworkDetailsView {
                endpoints: self.endpoints.drop_last(),
                ..self
            }).api_endpoints();
            match self.endpoints.last().api_url {
                Some(url) => if url_parses(url) {
                    before.push(url)
                } else {
                    before
                },
                None => before,
            }
        }
    }

    /// The chain addresses of the validators that are URLs, in order.
    pub open spec fn nyxd_endpoints(self) -> Seq<Seq<char>>
        decreases self.endpoints.len(),
    {
        if self.endpoints.len() == 0 {
            Seq::empty()
        } else {
            let before = (NymNetworkDetailsView {
                endpoints: self.endpoints.drop_last(),
                ..self
            }).nyxd_endpoints();
            if url_parses(self.endpoints.last().nyxd_url) {
                before.push(self.endpoints.last().nyxd_url)
            } else {
                before
            }
        }
    }
}

impl NymNetworkDetails {
    /// The main network.
    pub fn new_mainnet() -> (details: NymNetworkDetails)
        ensures
            details@ == NymNetworkDetailsView::mainnet(),
    {
        let mut endpoints: Vec<ValidatorDetails> = Vec::new();
        endpoints.push(
            ValidatorDetails {
                nyxd_url: "https://rpc.nymtech.net".to_string(),
                api_url: Some("https://validator.nymtech.net/api/".to_string()),
            },
        );
        let details = NymNetworkDetails { network_name: "mainnet".to_string(), endpoints };
        assert(details@.endpoints =~= NymNetworkDetailsView::mainnet().endpoints);
        details
    }

    /// A network called `network_name` with these validators.
    pub fn new(network_name: String, endpoints: Vec<ValidatorDetails>) -> (details:
        NymNetworkDetails)
        ensures
            details.network_name == network_name,
            details.endpoints == endpoints,
    {
        NymNetworkDetails { network_name, endpoints }
    }
}

/// What a client is told at construction.
#[derive(Debug, Clone, PartialEq, Eq)]
pub struct Config {
    /// The gateway the user wants, if any.
    pub user_chosen_gateway: Option<String>,
    pub key_mode: KeyMode,
    /// Whether the client submits bandwidth credentials.
    pub enabled_credentials_mode: bool,
    pub network_details: NymNetworkDetails,
}

impl Config {
    /// Whether this is the configuration of a client that nothing was asked
    /// of: it takes any gateway of the main network, replaces stored keys and
    /// submits no credentials.
    pub open spec fn is_default(&self) -> bool {
        &&& self.user_chosen_gateway is None
        &&& self.key_mode == KeyMode::Overwrite
        &&& !self.enabled_credentials_mode
        &&& self.network_details@ == NymNetworkDetailsView::mainnet()
    }

    /// The configuration of a client that nothing was asked of.
    pub fn new() -> (config: Config)
        ensures
            config.is_default(),
    {
        Config {
            user_chosen_gateway: None,
            key_mode: KeyMode::Overwrite,
            enabled_credentials_mode: false,
            network_details: NymNetworkDetails::new_mainnet(),
        }
    }
}

/// The configuration of the SOCKS5 mode.
#[derive(Debug, Clone, PartialEq, Eq)]
pub struct Socks5 {
    /// The address of the service provider that requests are sent to.
    pub provider_mix_address: String,
}

impl Socks5 {
    /// The SOCKS5 mode towards the provider at `provider_mix_address`.
    pub fn new(provider_mix_address: String) -> (socks5: Socks5)
        ensures
            socks5.provider_mix_address == provider_mix_address,
    {
        Socks5 { provider_mix_address }
    }
}

/// The states of a client, in the order it goes through them.
#[derive(Debug, Clone, Copy, PartialEq, Eq, Structural)]
pub enum BuilderState {
    New,
    Registered,
    Authenticated,
    Running,
    Terminated,
}

/// What moves a client from one state to the next.
#[derive(Debug, Clone, Copy, PartialEq, Eq, Structural)]
pub enum Transition {
    /// The handshake went through, or stored keys and descriptor were loaded
    /// and found valid.
    Register,
    /// The gateway accepted the authentication.
    Authenticate,
    /// The session pipeline was started.
    Start,
    /// The session was cancelled or failed for good.
    Terminate,
}

impl BuilderState {
    /// The state after a transition, or the error that refuses it. A client
    /// registers only while new; every other step needs the state before it;
    /// a client can be terminated whenever it is not yet.
    pub open spec fn after(self, transition: Transition) -> Result<BuilderState, Error> {
        match (transition, self) {
            (Transition::Register, BuilderState::New) => Ok(BuilderState::Registered),
            (Transition::Register, _) => Err(Error::ReregisteringGatewayNotSupported),
            (Transition::Authenticate, BuilderState::Registered) => Ok(BuilderState::Authenticated),
            (Transition::Start, BuilderState::Authenticated) => Ok(BuilderState::Running),
            (Transition::Terminate, BuilderState::Terminated) => Err(Error::SessionClosed),
            (Transition::Terminate, _) => Ok(BuilderState::Terminated),
            _ => Err(Error::InvalidState),
        }
    }

    /// The error that an operation fails with when the client is cancelled
    /// in this state: a session that runs, or ran, is closed; anything before
    /// it is cancelled.
    pub open spec fn cancellation(self) -> Error {
        match self {
            BuilderState::Running | BuilderState::Terminated => Error::SessionClosed,
            _ => Error::Cancelled,
        }
    }

    /// The place of the state in the order of states.
    pub open spec fn rank(self) -> nat {
        match self {
            BuilderState::New => 0,
            BuilderState::Registered => 1,
            BuilderState::Authenticated => 2,
            BuilderState::Running => 3,
            BuilderState::Terminated => 4,
        }
    }

    /// Makes a transition.
    pub fn step(self, transition: Transition) -> (result: Result<BuilderState, Error>)
        ensures
            result == self.after(transition),
    {
        match (transition, self) {
            (Transition::Register, BuilderState::New) => Ok(BuilderState::Registered),
            (Transition::Register, _) => Err(Error::ReregisteringGatewayNotSupported),
            (Transition::Authenticate, BuilderState::Registered) => Ok(BuilderState::Authenticated),
            (Transition::Start, BuilderState::Authenticated) => Ok(BuilderState::Running),
            (Transition::Terminate, BuilderState::Terminated) => Err(Error::SessionClosed),
            (Transition::Terminate, _) => Ok(BuilderState::Terminated),
            _ => Err(Error::InvalidState),
        }
    }
}

/// A transition that is made moves a client forward, by one state or to the
/// end; registration is refused in every state but the first, and nothing
/// leaves the last state.
pub proof fn lemma_transitions_move_forward(state: BuilderState, transition: Transition)
    ensures
        state.after(transition) matches Ok(next) ==> next.rank() > state.rank() && (next.rank()
            == state.rank() + 1 || next == BuilderState::Terminated),
        transition == Transition::Register && state != BuilderState::New ==> state.after(transition)
            == Err::<BuilderState, Error>(Error::ReregisteringGatewayNotSupported),
        state == BuilderState::Terminated ==> state.after(transition) is Err,
{
}

/// How a client gets to its gateway.
#[derive(Debug, Clone, PartialEq, Eq)]
pub enum GatewaySetup {
    /// The stored keys and descriptor are used.
    MustLoad,
    /// A gateway is chosen among the candidates and registered with.
    New {
        specification: GatewaySelectionSpecification,
        available_gateways: Vec<GatewayNode>,
        /// Whether keys that are stored already are replaced.
        overwrite_data: bool,
    },
}

/// A gateway setup as a mathematical value.
pub enum GatewaySetupView {
    MustLoad,
    New {
        specification: GatewaySelectionView,
        available_gateways: Seq<GatewayNodeView>,
        overwrite_data: bool,
    },
}

impl View for GatewaySetup {
    type V = GatewaySetupView;

    open spec fn view(&self) -> GatewaySetupView {
        match self {
            GatewaySetup::MustLoad => GatewaySetupView::MustLoad,
            GatewaySetup::New { specification, available_gateways, overwrite_data } =>
                GatewaySetupView::New {
                    specification: specification@,
                    available_gateways: available_gateways@.map_values(|node: GatewayNode| node@),
                    overwrite_data: *overwrite_data,
                },
        }
    }
}

/// The candidates as they are reached through a WireGuard tunnel: each at
/// the address of the tunnel.
pub open spec fn through_tunnel(nodes: Seq<GatewayNodeView>) -> Seq<GatewayNodeView> {
    nodes.map_values(
        |node: GatewayNodeView|
            GatewayNodeView {
                identity: node.identity,
                owner: node.owner,
                host: WG_TUN_DEVICE_ADDRESS@,
                clients_ws_port: node.clients_ws_port,
                clients_wss_port: node.clients_wss_port,
            },
    )
}

/// Moves every candidate to the address of the WireGuard tunnel.
pub fn route_through_tunnel(nodes: Vec<GatewayNode>) -> (moved: Vec<GatewayNode>)
    ensures
        moved@.map_values(|node: GatewayNode| node@) == through_tunnel(
            nodes@.map_values(|node: GatewayNode| node@),
        ),
{
    let mut moved: Vec<GatewayNode> = Vec::new();
    let mut i: usize = 0;
    while i < nodes.len()
        invariant
            i <= nodes@.len(),
            moved@.len() == i,
            forall|j: int|
                0 <= j < i ==> (#[trigger] moved@[j])@ == (GatewayNodeView {
                    identity: nodes@[j].identity@,
                    owner: nodes@[j].owner@,
                    host: WG_TUN_DEVICE_ADDRESS@,
                    clients_ws_port: nodes@[j].clients_ws_port,
                    clients_wss_port: nodes@[j].clients_wss_port,
                }),
        decreases nodes@.len() - i,
    {
        let node = &nodes[i];
        moved.push(
            GatewayNode {
                identity: node.identity.clone(),
                owner: node.owner.clone(),
                host: WG_TUN_DEVICE_ADDRESS.to_string(),
                clients_ws_port: node.clients_ws_port,
                clients_wss_port: node.clients_wss_port,
            },
        );
        i += 1;
    }
    assert(moved@.map_values(|node: GatewayNode| node@) =~= through_tunnel(
        nodes@.map_values(|node: GatewayNode| node@),
    ));
    moved
}

/// What a client does to connect, as decided from its configuration and from
/// what it has stored.
#[derive(Debug, Clone, PartialEq, Eq)]
pub struct ConnectionPlan {
    /// Whether the client registers before anything else, which it does
    /// unless it keeps its keys.
    pub register_first: bool,
    /// How the base client gets to its gateway; `None` where it goes back to
    /// the stored one.
    pub gateway_setup: Option<GatewaySetup>,
    /// The stored descriptor moved into the WireGuard tunnel, to be stored
    /// in place of the old one.
    pub updated_details: Option<GatewayDetails>,
    /// Whether to wait for a gateway that is not online yet.
    pub wait_for_gateway: bool,
    pub with_topology_provider: bool,
    pub with_shutdown: bool,
    pub with_gateway_transceiver: bool,
}

/// A connection plan as a mathematical value.
pub struct ConnectionPlanView {
    pub register_first: bool,
    pub gateway_setup: Option<GatewaySetupView>,
    pub updated_details: Option<GatewayDetailsView>,
    pub wait_for_gateway: bool,
    pub with_topology_provider: bool,
    pub with_shutdown: bool,
    pub with_gateway_transceiver: bool,
}

impl View for ConnectionPlan {
    type V = ConnectionPlanView;

    open spec fn view(&self) -> ConnectionPlanView {
        ConnectionPlanView {
            register_first: self.register_first,
            gateway_setup: match self.gateway_setup {
                Some(setup) => Some(setup@),
                None => None,
            },
            updated_details: match self.updated_details {
                Some(details) => Some(details@),
                None => None,
            },
            wait_for_gateway: self.wait_for_gateway,
            with_topology_provider: self.with_topology_provider,
            with_shutdown: self.with_shutdown,
            with_gateway_transceiver: self.with_gateway_transceiver,
        }
    }
}

/// A request for a client that acquires bandwidth credentials.
#[derive(Debug, Clone, PartialEq, Eq)]
pub struct BandwidthAcquireRequest {
    pub mnemonic: String,
}

/// Collects the configuration of a client.
#[derive(Debug, Clone, PartialEq, Eq)]
pub struct MixnetClientBuilder<S: KeyStore> {
    pub config: Config,
    pub socks5_config: Option<Socks5>,
    pub wireguard_mode: bool,
    pub wait_for_gateway: bool,
    /// Whether the caller provides the topology itself.
    pub custom_topology_provider: bool,
    /// Whether the caller provides the transport to the gateway itself.
    pub custom_gateway_transceiver: bool,
    /// Whether the caller shuts the client down itself.
    pub custom_shutdown: bool,
    pub force_tls: bool,
    pub gateway_endpoint_config_path: Option<String>,
    pub storage: S,
}

impl MixnetClientBuilder<Ephemeral> {
    /// A builder that nothing was asked of yet, with a store that is kept in
    /// memory and holds nothing: no identity keys, no gateway, and no keys
    /// shared with any gateway.
    pub fn new_ephemeral() -> (builder: Self)
        ensures
            builder.is_default(),
            builder.storage.identity() is None,
            builder.storage.gateway() is None,
            forall|gateway_id: Seq<char>| builder.storage.shared(gateway_id) is None,
    {
        MixnetClientBuilder::new_with_storage(Ephemeral::new())
    }

    /// A builder with default values, which is the builder with an empty
    /// store in memory.
    pub fn new() -> (builder: Self)
        ensures
            builder.is_default(),
            builder.storage.identity() is None,
            builder.storage.gateway() is None,
            forall|gateway_id: Seq<char>| builder.storage.shared(gateway_id) is None,
    {
        Self::new_ephemeral()
    }
}

impl<S: KeyStore> MixnetClientBuilder<S> {
    /// Whether nothing was asked of the builder yet.
    pub open spec fn is_default(&self) -> bool {
        &&& self.config.is_default()
        &&& self.socks5_config is None
        &&& !self.wireguard_mode
        &&& !self.wait_for_gateway
        &&& !self.custom_topology_provider
        &&& !self.custom_gateway_transceiver
        &&& !self.custom_shutdown
        &&& !self.force_tls
        &&& self.gateway_endpoint_config_path is None
    }

    /// A builder with the store `storage`.
    pub fn new_with_storage(storage: S) -> (builder: MixnetClientBuilder<S>)
        ensures
            builder.is_default(),
            builder.storage == storage,
    {
        MixnetClientBuilder {
            config: Config::new(),
            socks5_config: None,
            wireguard_mode: false,
            wait_for_gateway: false,
            custom_topology_provider: false,
            custom_gateway_transceiver: false,
            custom_shutdown: false,
            force_tls: false,
            gateway_endpoint_config_path: None,
            storage,
        }
    }

    /// The same builder with another store.
    pub fn set_storage<T: KeyStore>(self, storage: T) -> (builder: MixnetClientBuilder<T>)
        ensures
            builder == (MixnetClientBuilder {
                config: self.config,
                socks5_config: self.socks5_config,
                wireguard_mode: self.wireguard_mode,
                wait_for_gateway: self.wait_for_gateway,
                custom_topology_provider: self.custom_topology_provider,
                custom_gateway_transceiver: self.custom_gateway_transceiver,
                custom_shutdown: self.custom_shutdown,
                force_tls: self.force_tls,
                gateway_endpoint_config_path: self.gateway_endpoint_config_path,
                storage,
            }),
    {
        MixnetClientBuilder {
            config: self.config,
            socks5_config: self.socks5_config,
            wireguard_mode: self.wireguard_mode,
            wait_for_gateway: self.wait_for_gateway,
            custom_topology_provider: self.custom_topology_provider,
            custom_gateway_transceiver: self.custom_gateway_transceiver,
            custom_shutdown: self.custom_shutdown,
            force_tls: self.force_tls,
            gateway_endpoint_config_path: self.gateway_endpoint_config_path,
            storage,
        }
    }

    /// Asks for the gateway `user_chosen_gateway` in place of a random one.
    pub fn request_gateway(self, user_chosen_gateway: String) -> (builder: Self)
        ensures
            builder == (MixnetClientBuilder {
                config: Config {
                    user_chosen_gateway: Some(user_chosen_gateway),
                    ..self.config
                },
                ..self
            }),
    {
        let mut builder = self;
        builder.config.user_chosen_gateway = Some(user_chosen_gateway);
        builder
    }

    /// Puts the client into the network `network_details` in place of the
    /// main one.
    pub fn network_details(self, network_details: NymNetworkDetails) -> (builder: Self)
        ensures
            builder == (MixnetClientBuilder {
                config: Config { network_details, ..self.config },
                ..self
            }),
    {
        let mut builder = self;
        builder.config.network_details = network_details;
        builder
    }

    /// Takes only a gateway that has a TLS listener.
    pub fn force_tls(self, must_use_tls: bool) -> (builder: Self)
        ensures
            builder == (MixnetClientBuilder { force_tls: must_use_tls, ..self }),
    {
        let mut builder = self;
        builder.force_tls = must_use_tls;
        builder
    }

    /// Makes the client submit bandwidth credentials.
    pub fn enable_credentials_mode(self) -> (builder: Self)
        ensures
            builder == (MixnetClientBuilder {
                config: Config { enabled_credentials_mode: true, ..self.config },
                ..self
            }),
    {
        let mut builder = self;
        builder.config.enabled_credentials_mode = true;
        builder
    }

    /// Sets the SOCKS5 mode.
    pub fn socks5_config(self, socks5_config: Socks5) -> (builder: Self)
        ensures
            builder == (MixnetClientBuilder { socks5_config: Some(socks5_config), ..self }),
    {
        let mut builder = self;
        builder.socks5_config = Some(socks5_config);
        builder
    }

    /// Says whether the caller provides the topology itself.
    pub fn custom_topology_provider(self, provided: bool) -> (builder: Self)
        ensures
            builder == (MixnetClientBuilder { custom_topology_provider: provided, ..self }),
    {
        let mut builder = self;
        builder.custom_topology_provider = provided;
        builder
    }

    /// Says whether the caller shuts the client down itself.
    pub fn custom_shutdown(self, provided: bool) -> (builder: Self)
        ensures
            builder == (MixnetClientBuilder { custom_shutdown: provided, ..self }),
    {
        let mut builder = self;
        builder.custom_shutdown = provided;
        builder
    }

    /// Makes the client reach its gateway through a WireGuard tunnel.
    pub fn with_wireguard_mode(self, wireguard_mode: bool) -> (builder: Self)
        ensures
            builder == (MixnetClientBuilder { wireguard_mode, ..self }),
    {
        let mut builder = self;
        builder.wireguard_mode = wireguard_mode;
        builder
    }

    /// Makes the client wait for a gateway that is not online yet.
    pub fn with_wait_for_gateway(self, wait_for_gateway: bool) -> (builder: Self)
        ensures
            builder == (MixnetClientBuilder { wait_for_gateway, ..self }),
    {
        let mut builder = self;
        builder.wait_for_gateway = wait_for_gateway;
        builder
    }

    /// Says whether the caller provides the transport to the gateway itself.
    pub fn custom_gateway_transceiver(self, provided: bool) -> (builder: Self)
        ensures
            builder == (MixnetClientBuilder { custom_gateway_transceiver: provided, ..self }),
    {
        let mut builder = self;
        builder.custom_gateway_transceiver = provided;
        builder
    }

    /// Names the file that the gateway configuration is kept in.
    pub fn gateway_endpoint_config_path(self, path: String) -> (builder: Self)
        ensures
            builder == (MixnetClientBuilder { gateway_endpoint_config_path: Some(path), ..self }),
    {
        let mut builder = self;
        builder.gateway_endpoint_config_path = Some(path);
        builder
    }

    /// The client that was asked for, new and not yet connected.
    pub fn build(self) -> (result: Result<DisconnectedMixnetClient<S>, Error>)
        ensures
            result == Ok::<DisconnectedMixnetClient<S>, Error>(
                DisconnectedMixnetClient {
                    config: self.config,
                    socks5_config: self.socks5_config,
                    state: BuilderState::New,
                    storage: self.storage,
                    custom_topology_provider: self.custom_topology_provider,
                    custom_gateway_transceiver: self.custom_gateway_transceiver,
                    wireguard_mode: self.wireguard_mode,
                    wait_for_gateway: self.wait_for_gateway,
                    force_tls: self.force_tls,
                    custom_shutdown: self.custom_shutdown,
                },
            ),
    {
        let client = DisconnectedMixnetClient::new(self.config, self.socks5_config, self.storage)
            .custom_gateway_transceiver(self.custom_gateway_transceiver)
            .custom_topology_provider(self.custom_topology_provider)
            .custom_shutdown(self.custom_shutdown)
            .wireguard_mode(self.wireguard_mode)
            .wait_for_gateway(self.wait_for_gateway)
            .force_tls(self.force_tls);
        Ok(client)
    }
}

/// A client that is configured but not yet connected to the mix network.
#[derive(Debug, Clone, PartialEq, Eq)]
pub struct DisconnectedMixnetClient<S: KeyStore> {
    pub config: Config,
    pub socks5_config: Option<Socks5>,
    /// Where the client is on its way to a running session.
    pub state: BuilderState,
    pub storage: S,
    pub custom_topology_provider: bool,
    pub custom_gateway_transceiver: bool,
    pub wireguard_mode: bool,
    pub wait_for_gateway: bool,
    pub force_tls: bool,
    pub custom_shutdown: bool,
}

impl<S: KeyStore> DisconnectedMixnetClient<S> {
    /// A new client with the store `storage`.
    pub fn new(config: Config, socks5_config: Option<Socks5>, storage: S) -> (client: Self)
        ensures
            client == (DisconnectedMixnetClient {
                config,
                socks5_config,
                state: BuilderState::New,
                storage,
                custom_topology_provider: false,
                custom_gateway_transceiver: false,
                wireguard_mode: false,
                wait_for_gateway: false,
                force_tls: false,
                custom_shutdown: false,
            }),
    {
        DisconnectedMixnetClient {
            config,
            socks5_config,
            state: BuilderState::New,
            storage,
            custom_topology_provider: false,
            custom_gateway_transceiver: false,
            wireguard_mode: false,
            wait_for_gateway: false,
            force_tls: false,
            custom_shutdown: false,
        }
    }

    /// Says whether the caller shuts the client down itself.
    pub fn custom_shutdown(self, provided: bool) -> (client: Self)
        ensures
            client == (DisconnectedMixnetClient { custom_shutdown: provided, ..self }),
    {
        let mut client = self;
        client.custom_shutdown = provided;
        client
    }

    /// Says whether the caller provides the topology itself.
    pub fn custom_topology_provider(self, provided: bool) -> (client: Self)
        ensures
            client == (DisconnectedMixnetClient { custom_topology_provider: provided, ..self }),
    {
        let mut client = self;
        client.custom_topology_provider = provided;
        client
    }

    /// Says whether the caller provides the transport to the gateway itself.
    pub fn custom_gateway_transceiver(self, provided: bool) -> (client: Self)
        ensures
            client == (DisconnectedMixnetClient { custom_gateway_transceiver: provided, ..self }),
    {
        let mut client = self;
        client.custom_gateway_transceiver = provided;
        client
    }

    /// Makes the client reach its gateway through a WireGuard tunnel.
    pub fn wireguard_mode(self, wireguard_mode: bool) -> (client: Self)
        ensures
            client == (DisconnectedMixnetClient { wireguard_mode, ..self }),
    {
        let mut client = self;
        client.wireguard_mode = wireguard_mode;
        client
    }

    /// Makes the client wait for a gateway that is not online yet.
    pub fn wait_for_gateway(self, wait_for_gateway: bool) -> (client: Self)
        ensures
            client == (DisconnectedMixnetClient { wait_for_gateway, ..self }),
    {
        let mut client = self;
        client.wait_for_gateway = wait_for_gateway;
        client
    }

    /// Takes only a gateway that has a TLS listener.
    pub fn force_tls(self, must_use_tls: bool) -> (client: Self)
        ensures
            client == (DisconnectedMixnetClient { force_tls: must_use_tls, ..self }),
    {
        let mut client = self;
        client.force_tls = must_use_tls;
        client
    }

    /// The API addresses of the network's validators that are URLs, in
    /// order.
    pub fn get_api_endpoints(&self) -> (urls: Vec<String>)
        ensures
            urls@.map_values(|url: String| url@) == self.config.network_details@.api_endpoints(),
    {
        let endpoints = &self.config.network_details.endpoints;
        let ghost network = self.config.network_details@;
        let mut urls: Vec<String> = Vec::new();
        let mut i: usize = 0;
        assert(network.endpoints.subrange(0, 0) =~= Seq::<ValidatorDetailsView>::empty());
        assert(urls@.map_values(|url: String| url@) =~= Seq::<Seq<char>>::empty());
        while i < endpoints.len()
            invariant
                i <= endpoints@.len(),
                network.endpoints == endpoints@.map_values(|details: ValidatorDetails| details@),
                urls@.map_values(|url: String| url@) == (NymNetworkDetailsView {
                    endpoints: network.endpoints.subrange(0, i as int),
                    ..network
                }).api_endpoints(),
            decreases endpoints@.len() - i,
        {
            let ghost before = urls@.map_values(|url: String| url@);
            proof {
                assert(network.endpoints.subrange(0, i + 1).drop_last()
                    =~= network.endpoints.subrange(0, i as int));
                assert(network.endpoints.subrange(0, i + 1).last() == endpoints@[i as int]@);
            }
            match &endpoints[i].api_url {
                Some(url) => {
                    if is_url(url.as_str()) {
                        urls.push(url.clone());
                        assert(urls@.map_values(|url: String| url@) =~= before.push(url@));
                    }
                },
                None => {},
            }
            i += 1;
        }
        assert(network.endpoints.subrange(0, i as int) =~= network.endpoints);
        urls
    }

    /// The chain addresses of the network's validators that are URLs, in
    /// order.
    pub fn get_nyxd_endpoints(&self) -> (urls: Vec<String>)
        ensures
            urls@.map_values(|url: String| url@) == self.config.network_details@.nyxd_endpoints(),
    {
        let endpoints = &self.config.network_details.endpoints;
        let ghost network = self.config.network_details@;
        let mut urls: Vec<String> = Vec::new();
        let mut i: usize = 0;
        assert(network.endpoints.subrange(0, 0) =~= Seq::<ValidatorDetailsView>::empty());
        assert(urls@.map_values(|url: String| url@) =~= Seq::<Seq<char>>::empty());
        while i < endpoints.len()
            invariant
                i <= endpoints@.len(),
                network.endpoints == endpoints@.map_values(|details: ValidatorDetails| details@),
                urls@.map_values(|url: String| url@) == (NymNetworkDetailsView {
                    endpoints: network.endpoints.subrange(0, i as int),
                    ..network
                }).nyxd_endpoints(),
            decreases endpoints@.len() - i,
        {
            let ghost before = urls@.map_values(|url: String| url@);
            proof {
                assert(network.endpoints.subrange(0, i + 1).drop_last()
                    =~= network.endpoints.subrange(0, i as int));
                assert(network.endpoints.subrange(0, i + 1).last() == endpoints@[i as int]@);
            }
            if is_url(endpoints[i].nyxd_url.as_str()) {
                urls.push(endpoints[i].nyxd_url.clone());
                assert(urls@.map_values(|url: String| url@) =~= before.push(
                    endpoints@[i as int].nyxd_url@,
                ));
            }
            i += 1;
        }
        assert(network.endpoints.subrange(0, i as int) =~= network.endpoints);
        urls
    }

    /// The chain endpoint that the state of credentials is queried at: the
    /// first validator's, for a client in credentials mode, and none for any
    /// other client or where the network names no validator.
    pub fn dkg_query_endpoint(&self) -> (endpoint: Option<String>)
        ensures
            match endpoint {
                Some(url) => self.config.enabled_credentials_mode
                    && self.config.network_details.endpoints@.len() > 0 && url@
                    == self.config.network_details.endpoints@[0].nyxd_url@,
                None => !self.config.enabled_credentials_mode
                    || self.config.network_details.endpoints@.len() == 0,
            },
    {
        if self.config.enabled_credentials_mode && self.config.network_details.endpoints.len() > 0 {
            Some(self.config.network_details.endpoints[0].nyxd_url.clone())
        } else {
            None
        }
    }

    /// The gateway selection of this client: the gateway the user asked for,
    /// or any, with TLS where it is forced.
    pub open spec fn selection(&self) -> GatewaySelectionView {
        GatewaySelectionView::of(
            match self.config.user_chosen_gateway {
                Some(identity) => Some(identity@),
                None => None,
            },
            self.force_tls,
        )
    }

    /// How this client gets to its gateway: by what it has stored where that
    /// is valid, else by choosing among `gateways`.
    pub open spec fn setup_for(&self, known_gateway: bool, gateways: Seq<GatewayNodeView>)
        -> GatewaySetupView {
        if known_gateway {
            GatewaySetupView::MustLoad
        } else {
            GatewaySetupView::New {
                specification: self.selection(),
                available_gateways: gateways,
                overwrite_data: self.config.key_mode != KeyMode::Keep,
            }
        }
    }

    /// Loads the gateway descriptor and the shared keys from the store and
    /// says whether they go together; where it says so, a store that answers
    /// for its views holds such a pair. The shared keys come from the handshake, so they may not be
    /// there yet, and a load that fails means that they are not.
    pub fn has_valid_gateway_info(&self) -> (valid: bool)
        ensures
            valid && self.storage.answers_for_views() ==> holds_valid_gateway(self.storage),
            self.storage.answers_for_views() && self.storage.is_reliable() ==> valid
                == holds_valid_gateway(self.storage),
    {
        has_valid_gateway_info(&self.storage)
    }

    fn selection_specification(&self) -> (specification: GatewaySelectionSpecification)
        ensures
            specification@ == self.selection(),
    {
        let chosen = match &self.config.user_chosen_gateway {
            Some(identity) => Some(identity.clone()),
            None => None,
        };
        GatewaySelectionSpecification::new(chosen, self.force_tls)
    }

    /// Decides how to register with a gateway: with the stored one where
    /// `known_gateway` says that what is stored is valid, else with one of
    /// `available_gateways`. A client that is not new is refused.
    pub fn register_and_authenticate_gateway(
        &self,
        known_gateway: bool,
        available_gateways: Vec<GatewayNode>,
    ) -> (result: Result<GatewaySetup, Error>)
        ensures
            match result {
                Ok(setup) => self.state == BuilderState::New && setup@ == self.setup_for(
                    known_gateway,
                    available_gateways@.map_values(|node: GatewayNode| node@),
                ),
                Err(e) => self.state != BuilderState::New && e
                    == Error::ReregisteringGatewayNotSupported,
            },
    {
        match self.state {
            BuilderState::New => {},
            _ => {
                return Err(Error::ReregisteringGatewayNotSupported);
            },
        }
        if known_gateway {
            Ok(GatewaySetup::MustLoad)
        } else {
            Ok(
                GatewaySetup::New {
                    specification: self.selection_specification(),
                    available_gateways,
                    overwrite_data: !self.config.key_mode.is_keep(),
                },
            )
        }
    }

    /// Makes a transition, and leaves the client as it is where the
    /// transition is refused.
    pub fn advance(&mut self, transition: Transition) -> (result: Result<(), Error>)
        ensures
            match old(self).state.after(transition) {
                Ok(next) => result is Ok && *final(self) == (DisconnectedMixnetClient {
                    state: next,
                    ..*old(self)
                }),
                Err(e) => result == Err::<(), Error>(e) && *final(self) == *old(self),
            },
    {
        match self.state.step(transition) {
            Ok(next) => {
                self.state = next;
                Ok(())
            },
            Err(e) => Err(e),
        }
    }

    /// A handshake for this client, which advertises the protocol version
    /// that goes with the client's use of credentials.
    pub fn begin_handshake(&self) -> (handshake: Handshake)
        ensures
            handshake == (Handshake {
                state: HandshakeState::Init,
                uses_credentials: self.config.enabled_credentials_mode,
                keys: None,
                gateway_version: None,
            }),
            handshake.well_formed(),
    {
        Handshake::new(self.config.enabled_credentials_mode)
    }

    /// The request that authenticates this client at `address`, with a
    /// vector that is drawn for this request alone and the protocol version
    /// that goes with the client's use of credentials; `None` when no
    /// randomness is to be had.
    pub fn authentication_request(
        &self,
        address: &DestinationAddressBytes,
        shared_key: &SharedKeys,
    ) -> (request: Option<ClientControlRequest>)
        ensures
            request matches Some(request) ==> exists|iv: IV|
                request@ == #[trigger] authenticate_view(
                    *address,
                    *shared_key,
                    iv,
                    self.config.enabled_credentials_mode,
                ),
    {
        authenticate(address, shared_key, self.config.enabled_credentials_mode)
    }

    /// Registers the client with `gateway` after the handshake `handshake`:
    /// the keys that the handshake established and the descriptor of the
    /// gateway are stored, and the client is registered. Three things are
    /// refused before the store is touched: a client that is not new, a
    /// handshake that did not establish keys, and a gateway without the
    /// listener that is required. Past that the store decides: its error is
    /// handed on and the client stays new. A reliable store gives no error.
    pub fn complete_registration(&mut self, handshake: &Handshake, gateway: &GatewayNode) -> (result:
        Result<GatewayDetails, Error>)
        ensures
            *final(self) == (DisconnectedMixnetClient {
                state: final(self).state,
                storage: final(self).storage,
                ..*old(self)
            }),
            final(self).storage.answers_for_views() == old(self).storage.answers_for_views(),
            final(self).storage.is_reliable() == old(self).storage.is_reliable(),
            match result {
                Ok(details) => {
                    &&& old(self).state == BuilderState::New
                    &&& final(self).state == BuilderState::Registered
                    &&& handshake.state == HandshakeState::Established
                    &&& handshake.keys matches Some(keys) && {
                        &&& details@.key_hash == key_fingerprint(keys)
                        &&& details@.validated(Some(keys)) is Ok
                        &&& old(self).storage.answers_for_views() ==> final(self).storage.shared_view(gateway@.identity) == Some(keys)
                    }
                    &&& gateway@.listener(old(self).force_tls) == Some(details@.gateway_listener)
                    &&& details@.gateway_id == gateway@.identity
                    &&& details@.gateway_owner == gateway@.owner
                    &&& old(self).storage.answers_for_views() ==> final(self).storage.gateway_view() == Some(details@)
                },
                Err(e) => {
                    &&& final(self).state == old(self).state
                    &&& if old(self).state != BuilderState::New {
                        e == Error::ReregisteringGatewayNotSupported && final(self).storage == old(self).storage
                    } else if !(handshake.state == HandshakeState::Established && handshake.keys
                        is Some) {
                        e == Error::InvalidState && final(self).storage == old(self).storage
                    } else if gateway@.listener(old(self).force_tls) is None {
                        e == Error::UnsupportedWssProtocol && final(self).storage == old(self).storage
                    } else {
                        e is Storage && !old(self).storage.is_reliable()
                    }
                },
            },
    {
        match self.state {
            BuilderState::New => {},
            _ => {
                return Err(Error::ReregisteringGatewayNotSupported);
            },
        }
        let keys = match (handshake.state, handshake.keys) {
            (HandshakeState::Established, Some(keys)) => keys,
            _ => {
                return Err(Error::InvalidState);
            },
        };
        let details = persist_registration(&mut self.storage, gateway, self.force_tls, &keys)?;
        self.state = BuilderState::Registered;
        Ok(details)
    }

    /// Registers the client with the gateway it has stored: the descriptor
    /// is loaded, then the keys of the gateway that it names, and if they go
    /// together the client is registered. The store is only read. A client
    /// that is not new is refused without a load; an error of the store is
    /// handed on; a descriptor and keys that do not go together are invalid
    /// gateway details.
    pub fn load_registration(&mut self) -> (result: Result<(GatewayDetails, SharedKeys), Error>)
        ensures
            match result {
                Ok((details, keys)) => {
                    &&& old(self).state == BuilderState::New
                    &&& *final(self) == (DisconnectedMixnetClient {
                        state: BuilderState::Registered,
                        ..*old(self)
                    })
                    &&& old(self).storage.answers_for_views() ==> {
                        &&& old(self).storage.gateway_view() == Some(details@)
                        &&& old(self).storage.shared_view(details@.gateway_id) == Some(keys)
                    }
                    &&& details@.validated(Some(keys)) is Ok
                },
                Err(e) => {
                    &&& *final(self) == *old(self)
                    &&& if old(self).state != BuilderState::New {
                        e == Error::ReregisteringGatewayNotSupported
                    } else {
                        ||| {
                            &&& e is Storage
                            &&& old(self).storage.answers_for_views() && old(self).storage.is_reliable() ==> !(old(self).storage.gateway_view() matches Some(
                                details,
                            ) && old(self).storage.shared_view(details.gateway_id) is Some)
                        }
                        ||| {
                            &&& e == Error::InvalidGatewayDetails
                            &&& old(self).storage.answers_for_views() ==> {
                                &&& old(self).storage.gateway_view() matches Some(details)
                                &&& old(self).storage.shared_view(details.gateway_id) matches Some(
                                    keys,
                                )
                                &&& details.validated(Some(keys)) is Err
                            }
                        }
                    }
                },
            },
    {
        match self.state {
            BuilderState::New => {},
            _ => {
                return Err(Error::ReregisteringGatewayNotSupported);
            },
        }
        let details = match self.storage.load_gateway_descriptor() {
            Ok(details) => details,
            Err(e) => {
                return Err(Error::Storage(e));
            },
        };
        let keys = match self.storage.load_shared_keys(details.gateway_id.as_str()) {
            Ok(keys) => keys,
            Err(e) => {
                return Err(Error::Storage(e));
            },
        };
        if details.validate(Some(&keys)).is_err() {
            return Err(Error::InvalidGatewayDetails);
        }
        self.state = BuilderState::Registered;
        Ok((details, keys))
    }

    /// Takes the gateway's answer to the authentication request of a
    /// registered client. An answer that authenticates makes the client
    /// authenticated; any other leaves it registered.
    pub fn record_authentication(&mut self, response: &ServerResponse) -> (result: Result<
        Authenticated,
        Error,
    >)
        ensures
            if old(self).state != BuilderState::Registered {
                result == Err::<Authenticated, Error>(Error::InvalidState) && *final(self) == *old(self)
            } else {
                &&& result == authentication_outcome(response@)
                &&& *final(self) == (DisconnectedMixnetClient {
                    state: if result is Ok {
                        BuilderState::Authenticated
                    } else {
                        BuilderState::Registered
                    },
                    ..*old(self)
                })
            },
    {
        match self.state {
            BuilderState::Registered => {},
            _ => {
                return Err(Error::InvalidState);
            },
        }
        match on_authenticate_response(response) {
            Ok(authenticated) => {
                self.state = BuilderState::Authenticated;
                Ok(authenticated)
            },
            Err(e) => Err(e),
        }
    }

    /// Starts the session of an authenticated client: the session begins
    /// with the bandwidth that the gateway granted, uses credentials if the
    /// client does, and lets `capacity` outbound packets wait.
    pub fn start_session(&mut self, keys: SharedKeys, authenticated: Authenticated, capacity: usize) -> (result:
        Result<Session, Error>)
        ensures
            if old(self).state != BuilderState::Authenticated {
                result is Err && result->Err_0 == Error::InvalidState && *final(self) == *old(self)
            } else {
                &&& result matches Ok(session) && session@ == (SessionView {
                    keys,
                    bandwidth: authenticated.bandwidth_remaining,
                    credentials_enabled: old(self).config.enabled_credentials_mode,
                    queue: Seq::empty(),
                    capacity: capacity as nat,
                    closed: false,
                }) && session@.well_formed()
                &&& *final(self) == (DisconnectedMixnetClient {
                    state: BuilderState::Running,
                    ..*old(self)
                })
            },
    {
        match self.state {
            BuilderState::Authenticated => {},
            _ => {
                return Err(Error::InvalidState);
            },
        }
        self.state = BuilderState::Running;
        Ok(
            Session::new(
                keys,
                authenticated.bandwidth_remaining,
                self.config.enabled_credentials_mode,
                capacity,
            ),
        )
    }

    /// Cancels the client: it is terminated, and what it was doing fails
    /// with the error that is returned.
    pub fn cancel(&mut self) -> (error: Error)
        ensures
            error == old(self).state.cancellation(),
            *final(self) == (DisconnectedMixnetClient {
                state: BuilderState::Terminated,
                ..*old(self)
            }),
    {
        let error = match self.state {
            BuilderState::Running | BuilderState::Terminated => Error::SessionClosed,
            _ => Error::Cancelled,
        };
        self.state = BuilderState::Terminated;
        error
    }

    /// A request for a client that acquires bandwidth credentials for this
    /// one, which must be in credentials mode.
    pub fn create_bandwidth_client(&self, mnemonic: String) -> (result: Result<
        BandwidthAcquireRequest,
        Error,
    >)
        ensures
            match result {
                Ok(request) => self.config.enabled_credentials_mode && request.mnemonic == mnemonic,
                Err(e) => !self.config.enabled_credentials_mode && e
                    == Error::DisabledCredentialsMode,
            },
    {
        if !self.config.enabled_credentials_mode {
            return Err(Error::DisabledCredentialsMode);
        }
        Ok(BandwidthAcquireRequest { mnemonic })
    }

    /// What `connect_to_mixnet_common` plans for this client.
    pub open spec fn plan_for(
        &self,
        known_gateway: bool,
        stored_details: Option<GatewayDetailsView>,
        gateways: Seq<GatewayNodeView>,
    ) -> ConnectionPlanView {
        ConnectionPlanView {
            register_first: self.config.key_mode != KeyMode::Keep,
            gateway_setup: if known_gateway {
                None
            } else {
                Some(
                    self.setup_for(
                        false,
                        if self.wireguard_mode {
                            through_tunnel(gateways)
                        } else {
                            gateways
                        },
                    ),
                )
            },
            updated_details: if known_gateway && self.wireguard_mode {
                match stored_details {
                    Some(details) => Some(
                        GatewayDetailsView { gateway_listener: WG_GATEWAY_LISTENER@, ..details },
                    ),
                    None => None,
                }
            } else {
                None
            },
            wait_for_gateway: self.wait_for_gateway,
            with_topology_provider: self.custom_topology_provider,
            with_shutdown: self.custom_shutdown,
            with_gateway_transceiver: self.custom_gateway_transceiver,
        }
    }

    /// Decides what a client does to connect. A client that does not keep its
    /// keys registers first, which only a new client can. A client without a
    /// valid stored gateway chooses among `available_gateways`, moved into
    /// the tunnel in WireGuard mode. A client that goes back to its stored
    /// gateway in WireGuard mode moves the stored descriptor into the tunnel.
    pub fn connect_to_mixnet_common(
        &self,
        known_gateway: bool,
        stored_details: Option<GatewayDetails>,
        available_gateways: Vec<GatewayNode>,
    ) -> (result: Result<ConnectionPlan, Error>)
        ensures
            match result {
                Ok(plan) => (self.config.key_mode == KeyMode::Keep || self.state
                    == BuilderState::New) && plan@ == self.plan_for(
                    known_gateway,
                    match stored_details {
                        Some(details) => Some(details@),
                        None => None,
                    },
                    available_gateways@.map_values(|node: GatewayNode| node@),
                ),
                Err(e) => self.config.key_mode != KeyMode::Keep && self.state != BuilderState::New
                    && e == Error::ReregisteringGatewayNotSupported,
            },
    {
        let register_first = !self.config.key_mode.is_keep();
        if register_first {
            match self.state {
                BuilderState::New => {},
                _ => {
                    return Err(Error::ReregisteringGatewayNotSupported);
                },
            }
        }
        let mut gateway_setup: Option<GatewaySetup> = None;
        let mut updated_details: Option<GatewayDetails> = None;
        if !known_gateway {
            let gateways = if self.wireguard_mode {
                route_through_tunnel(available_gateways)
            } else {
                available_gateways
            };
            gateway_setup = Some(
                GatewaySetup::New {
                    specification: self.selection_specification(),
                    available_gateways: gateways,
                    overwrite_data: !self.config.key_mode.is_keep(),
                },
            );
        } else if self.wireguard_mode {
            match stored_details {
                Some(details) => {
                    updated_details = Some(
                        GatewayDetails {
                            gateway_id: details.gateway_id,
                            gateway_owner: details.gateway_owner,
                            gateway_listener: WG_GATEWAY_LISTENER.to_string(),
                            key_hash: details.key_hash,
                        },
                    );
                },
                None => {},
            }
        }
        Ok(
            ConnectionPlan {
                register_first,
                gateway_setup,
                updated_details,
                wait_for_gateway: self.wait_for_gateway,
                with_topology_provider: self.custom_topology_provider,
                with_shutdown: self.custom_shutdown,
                with_gateway_transceiver: self.custom_gateway_transceiver,
            },
        )
    }

    /// Whether the client may connect to the mix network directly, which it
    /// may not with a SOCKS5 configuration.
    pub fn connect_to_mixnet(&self) -> (result: Result<(), Error>)
        ensures
            match result {
                Ok(_) => self.socks5_config is None,
                Err(e) => self.socks5_config is Some && e == (Error::Socks5Config { set: true }),
            },
    {
        if self.socks5_config.is_some() {
            return Err(Error::Socks5Config { set: true });
        }
        Ok(())
    }

    /// Whether the client may connect through SOCKS5, which takes a SOCKS5
    /// configuration and no outside shutdown mechanism.
    pub fn connect_to_mixnet_via_socks5(&self) -> (result: Result<(), Error>)
        ensures
            match result {
                Ok(_) => self.socks5_config is Some && !self.custom_shutdown,
                Err(e) => if self.socks5_config is None {
                    e == (Error::Socks5Config { set: false })
                } else {
                    self.custom_shutdown && e == Error::Socks5WithCustomShutdown
                },
            },
    {
        if self.socks5_config.is_none() {
            return Err(Error::Socks5Config { set: false });
        }
        if self.custom_shutdown {
            return Err(Error::Socks5WithCustomShutdown);
        }
        Ok(())
    }
}

} // verus!
