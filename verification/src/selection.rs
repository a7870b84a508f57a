//! Choosing a gateway among the candidates of the topology, the transport to
//! reach it by, and how long to wait before trying an unreachable one again.

use crate::bytes::str_eq;
use crate::errors::Error;
use crate::bytes::read_be;
use crate::primitives::random_block;
use crate::text::{append_str, chars_of, decimal, has_at, push_decimal, starts_with_at, string_of};
use vstd::prelude::*;

verus! {

/// A gateway as the topology describes it.
#[derive(Debug, Clone, PartialEq, Eq)]
pub struct GatewayNode {
    pub identity: String,
    pub owner: String,
    pub host: String,
    pub clients_ws_port: u16,
    pub clients_wss_port: Option<u16>,
}

/// A candidate gateway as a mathematical value.
pub struct GatewayNodeView {
    pub identity: Seq<char>,
    pub owner: Seq<char>,
    pub host: Seq<char>,
    pub clients_ws_port: u16,
    pub clients_wss_port: Option<u16>,
}

impl View for GatewayNode {
    type V = GatewayNodeView;

    open spec fn view(&self) -> GatewayNodeView {
        GatewayNodeView {
            identity: self.identity@,
            owner: self.owner@,
            host: self.host@,
            clients_ws_port: self.clients_ws_port,
            clients_wss_port: self.clients_wss_port,
        }
    }
}

impl GatewayNodeView {
    /// The address of the plain listener: `ws://`, the host, a colon and the
    /// port in decimal.
    pub open spec fn clients_address(self) -> Seq<char> {
        "ws://"@ + self.host + ":"@ + decimal(self.clients_ws_port as nat)
    }

    /// The address of the TLS listener, where the gateway has one.
    pub open spec fn clients_address_tls(self) -> Option<Seq<char>> {
        match self.clients_wss_port {
            Some(port) => Some("wss://"@ + self.host + ":"@ + decimal(port as nat)),
            None => None,
        }
    }

    /// Whether the gateway can be used where TLS is, or is not, required.
    pub open spec fn eligible(self, must_use_tls: bool) -> bool {
        must_use_tls ==> self.clients_wss_port is Some
    }

    /// The address by which a client reaches the gateway: the TLS listener
    /// where TLS is required, the plain one where it is not.
    pub open spec fn listener(self, must_use_tls: bool) -> Option<Seq<char>> {
        if must_use_tls {
            self.clients_address_tls()
        } else {
            Some(self.clients_address())
        }
    }
}

impl GatewayNode {
    /// A copy of the candidate.
    pub fn clone_node(&self) -> (copy: GatewayNode)
        ensures
            copy@ == self@,
    {
        GatewayNode {
            identity: self.identity.clone(),
            owner: self.owner.clone(),
            host: self.host.clone(),
            clients_ws_port: self.clients_ws_port,
            clients_wss_port: self.clients_wss_port,
        }
    }

    /// The address of the plain listener.
    pub fn clients_address(&self) -> (address: String)
        ensures
            address@ == self@.clients_address(),
    {
        let mut out: Vec<char> = Vec::new();
        append_str(&mut out, "ws://");
        append_str(&mut out, self.host.as_str());
        append_str(&mut out, ":");
        push_decimal(&mut out, self.clients_ws_port as u64);
        assert(out@ =~= self@.clients_address());
        string_of(&out)
    }

    /// The address of the TLS listener, where the gateway has one.
    pub fn clients_address_tls(&self) -> (address: Option<String>)
        ensures
            match address {
                Some(address) => self@.clients_address_tls() == Some(address@),
                None => self@.clients_address_tls() is None,
            },
    {
        match self.clients_wss_port {
            None => None,
            Some(port) => {
                let mut out: Vec<char> = Vec::new();
                append_str(&mut out, "wss://");
                append_str(&mut out, self.host.as_str());
                append_str(&mut out, ":");
                push_decimal(&mut out, port as u64);
                assert(out@ =~= "wss://"@ + self.host@ + ":"@ + decimal(port as nat));
                Some(string_of(&out))
            },
        }
    }

    /// The address by which a client reaches the gateway.
    pub fn listener(&self, must_use_tls: bool) -> (address: Option<String>)
        ensures
            match address {
                Some(address) => self@.listener(must_use_tls) == Some(address@),
                None => self@.listener(must_use_tls) is None,
            },
    {
        if must_use_tls {
            self.clients_address_tls()
        } else {
            Some(self.clients_address())
        }
    }
}

/// How the frames travel to a gateway.
#[derive(Debug, Clone, Copy, PartialEq, Eq, Structural)]
pub enum Transport {
    Plain,
    Tls,
}

/// The transport that the scheme of a listener address asks for.
pub open spec fn transport_of(listener: Seq<char>) -> Option<Transport> {
    if has_at(listener, 0, "wss://"@) {
        Some(Transport::Tls)
    } else if has_at(listener, 0, "ws://"@) {
        Some(Transport::Plain)
    } else {
        None
    }
}

/// The listeners of a gateway are addresses that a transport exists for: the
/// plain one for the plain listener, TLS for the TLS listener.
pub proof fn lemma_listeners_have_transports(node: GatewayNodeView)
    ensures
        transport_of(node.clients_address()) == Some(Transport::Plain),
        node.clients_address_tls() matches Some(address) ==> transport_of(address) == Some(
            Transport::Tls,
        ),
{
    reveal_strlit("ws://");
    reveal_strlit("wss://");
    reveal_strlit(":");
    let plain = node.clients_address();
    assert(plain.subrange(0, 5) =~= "ws://"@);
    assert(plain[2] == ':');
    assert(!has_at(plain, 0, "wss://"@)) by {
        if has_at(plain, 0, "wss://"@) {
            assert(plain.subrange(0, 6)[2] == 's');
        }
    }
    match node.clients_address_tls() {
        Some(address) => {
            assert(address.subrange(0, 6) =~= "wss://"@);
        },
        None => {},
    }
}

/// The transport for a listener address: TLS for `wss://`, plain for
/// `ws://`; any other address is refused.
pub fn transport_for(listener: &str) -> (result: Result<Transport, Error>)
    ensures
        match transport_of(listener@) {
            Some(transport) => result == Ok::<Transport, Error>(transport),
            None => result == Err::<Transport, Error>(Error::UnsupportedListener),
        },
{
    let text = chars_of(listener);
    let secure = chars_of("wss://");
    let plain = chars_of("ws://");
    if starts_with_at(&text, 0, &secure) {
        Ok(Transport::Tls)
    } else if starts_with_at(&text, 0, &plain) {
        Ok(Transport::Plain)
    } else {
        Err(Error::UnsupportedListener)
    }
}

/// Which gateway a client wants.
#[derive(Debug, Clone, PartialEq, Eq)]
pub enum GatewaySelectionSpecification {
    /// Any gateway, each as likely as the other.
    UniformRemote { must_use_tls: bool },
    /// The gateway with this identity.
    Specified { must_use_tls: bool, identity: String },
}

/// A selection as a mathematical value.
pub enum GatewaySelectionView {
    UniformRemote { must_use_tls: bool },
    Specified { must_use_tls: bool, identity: Seq<char> },
}

impl View for GatewaySelectionSpecification {
    type V = GatewaySelectionView;

    open spec fn view(&self) -> GatewaySelectionView {
        match self {
            GatewaySelectionSpecification::UniformRemote { must_use_tls } =>
                GatewaySelectionView::UniformRemote { must_use_tls: *must_use_tls },
            GatewaySelectionSpecification::Specified { must_use_tls, identity } =>
                GatewaySelectionView::Specified {
                    must_use_tls: *must_use_tls,
                    identity: identity@,
                },
        }
    }
}

impl GatewaySelectionView {
    /// The selection of a client: the gateway it named, or any.
    pub open spec fn of(gateway_identity: Option<Seq<char>>, must_use_tls: bool) -> Self {
        match gateway_identity {
            Some(identity) => GatewaySelectionView::Specified { must_use_tls, identity },
            None => GatewaySelectionView::UniformRemote { must_use_tls },
        }
    }
}

impl GatewaySelectionSpecification {
    /// The selection of a client: the gateway it named, or any.
    pub fn new(gateway_identity: Option<String>, must_use_tls: bool) -> (selection: Self)
        ensures
            selection@ == GatewaySelectionView::of(
                match gateway_identity {
                    Some(identity) => Some(identity@),
                    None => None,
                },
                must_use_tls,
            ),
    {
        match gateway_identity {
            Some(identity) => GatewaySelectionSpecification::Specified { must_use_tls, identity },
            None => GatewaySelectionSpecification::UniformRemote { must_use_tls },
        }
    }
}

/// The positions of the candidates that can be used, in order.
pub open spec fn eligible_positions(candidates: Seq<GatewayNode>, must_use_tls: bool) -> Seq<int>
    decreases candidates.len(),
{
    if candidates.len() == 0 {
        Seq::empty()
    } else {
        let before = eligible_positions(candidates.drop_last(), must_use_tls);
        if candidates.last()@.eligible(must_use_tls) {
            before.push(candidates.len() - 1)
        } else {
            before
        }
    }
}

/// The position of the first candidate with `identity`.
pub open spec fn position_of(candidates: Seq<GatewayNode>, identity: Seq<char>) -> Option<int>
    decreases candidates.len(),
{
    if candidates.len() == 0 {
        None
    } else {
        match position_of(candidates.drop_last(), identity) {
            Some(position) => Some(position),
            None => if candidates.last().identity@ == identity {
                Some(candidates.len() - 1)
            } else {
                None
            },
        }
    }
}

/// The position of the gateway that a selection picks among `candidates`.
/// A named gateway is taken if it is there and has the listener that is
/// required. Otherwise `random` decides among the candidates that can be
/// used, each as likely as the other where `random` is uniform.
pub open spec fn selected(
    selection: GatewaySelectionView,
    candidates: Seq<GatewayNode>,
    random: u64,
) -> Result<int, Error> {
    match selection {
        GatewaySelectionView::Specified { must_use_tls, identity } => match position_of(
            candidates,
            identity,
        ) {
            None => Err(Error::NoGatewayWithId),
            Some(position) => if candidates[position]@.eligible(must_use_tls) {
                Ok(position)
            } else {
                Err(Error::UnsupportedWssProtocol)
            },
        },
        GatewaySelectionView::UniformRemote { must_use_tls } => {
            let eligible = eligible_positions(candidates, must_use_tls);
            if eligible.len() == 0 {
                Err(Error::NoGatewaysAvailable)
            } else {
                Ok(eligible[random as int % eligible.len() as int])
            }
        },
    }
}

/// Every eligible position is the position of a candidate that can be used,
/// and every such candidate is among them.
pub proof fn lemma_eligible_positions(candidates: Seq<GatewayNode>, must_use_tls: bool)
    ensures
        eligible_positions(candidates, must_use_tls).len() <= candidates.len(),
        forall|k: int|
            0 <= k < eligible_positions(candidates, must_use_tls).len() ==> {
                let position = #[trigger] eligible_positions(candidates, must_use_tls)[k];
                &&& 0 <= position < candidates.len()
                &&& candidates[position]@.eligible(must_use_tls)
            },
        forall|i: int|
            0 <= i < candidates.len() && (#[trigger] candidates[i])@.eligible(must_use_tls)
                ==> eligible_positions(candidates, must_use_tls).contains(i),
    decreases candidates.len(),
{
    if candidates.len() > 0 {
        let head = candidates.drop_last();
        lemma_eligible_positions(head, must_use_tls);
        let before = eligible_positions(head, must_use_tls);
        let all = eligible_positions(candidates, must_use_tls);
        assert forall|i: int|
            0 <= i < candidates.len() && (#[trigger] candidates[i])@.eligible(
                must_use_tls,
            ) implies all.contains(i) by {
            if i < candidates.len() - 1 {
                assert(head[i] == candidates[i]);
                let k = choose|k: int| 0 <= k < before.len() && before[k] == i;
                assert(all[k] == i);
            } else {
                assert(all[all.len() - 1] == i);
            }
        }
        assert forall|k: int| 0 <= k < all.len() implies {
            let position = #[trigger] all[k];
            &&& 0 <= position < candidates.len()
            &&& candidates[position]@.eligible(must_use_tls)
        } by {
            if k < before.len() {
                assert(all[k] == before[k]);
                assert(head[before[k]] == candidates[before[k]]);
            }
        }
    }
}

/// The gateway that is picked is one of the candidates, has a TLS listener
/// where one is required, and is the first with the identity that was asked
/// for where one was.
pub proof fn lemma_selected_gateway_is_eligible(
    selection: GatewaySelectionView,
    candidates: Seq<GatewayNode>,
    random: u64,
)
    ensures
        selected(selection, candidates, random) matches Ok(position) ==> {
            &&& 0 <= position < candidates.len()
            &&& match selection {
                GatewaySelectionView::Specified { must_use_tls, identity } => {
                    &&& candidates[position].identity@ == identity
                    &&& candidates[position]@.eligible(must_use_tls)
                    &&& forall|i: int| 0 <= i < position ==> candidates[i].identity@ != identity
                },
                GatewaySelectionView::UniformRemote { must_use_tls } => candidates[position]@.eligible(
                    must_use_tls,
                ),
            }
        },
{
    match selection {
        GatewaySelectionView::Specified { must_use_tls, identity } => {
            lemma_position_of(candidates, identity);
        },
        GatewaySelectionView::UniformRemote { must_use_tls } => {
            lemma_eligible_positions(candidates, must_use_tls);
            let eligible = eligible_positions(candidates, must_use_tls);
            if eligible.len() > 0 {
                let pick = random as int % eligible.len() as int;
                assert(0 <= pick < eligible.len()) by (nonlinear_arith)
                    requires
                        random >= 0,
                        eligible.len() > 0,
                        pick == random as int % eligible.len() as int,
                ;
                assert(candidates[eligible[pick]]@.eligible(must_use_tls));
            }
        },
    }
}

/// Where any gateway will do, the candidates that can be used take turns as
/// `random` counts up: the choice depends on `random` only by its remainder,
/// and each remainder picks another candidate. So a `random` that is even
/// over a whole number of turns makes every such candidate as likely as every
/// other.
pub proof fn lemma_random_choice_is_even(
    candidates: Seq<GatewayNode>,
    must_use_tls: bool,
    random: u64,
    turn: int,
)
    requires
        candidates.len() <= usize::MAX,
        0 <= turn < eligible_positions(candidates, must_use_tls).len(),
    ensures
        ({
            let selection = GatewaySelectionView::UniformRemote { must_use_tls };
            let eligible = eligible_positions(candidates, must_use_tls);
            &&& selected(selection, candidates, turn as u64) == Ok::<int, Error>(eligible[turn])
            &&& selected(selection, candidates, random) == selected(
                selection,
                candidates,
                (random as int % eligible.len() as int) as u64,
            )
            &&& forall|other: int|
                0 <= other < eligible.len() && other != turn ==> eligible[other] != eligible[turn]
        }),
{
    let eligible = eligible_positions(candidates, must_use_tls);
    let count = eligible.len() as int;
    lemma_eligible_positions(candidates, must_use_tls);
    lemma_eligible_positions_increase(candidates, must_use_tls);
    assert(count <= candidates.len());
    assert(turn % count == turn) by (nonlinear_arith)
        requires
            0 <= turn < count,
    ;
    let remainder = random as int % count;
    assert(0 <= remainder < count && remainder % count == remainder) by (nonlinear_arith)
        requires
            random >= 0,
            count > 0,
            remainder == random as int % count,
    ;
    assert((turn as u64) as int == turn);
    assert((remainder as u64) as int == remainder);
    assert forall|other: int| 0 <= other < count && other != turn implies eligible[other]
        != eligible[turn] by {
        if other < turn {
            assert(eligible[other] < eligible[turn]);
        } else {
            assert(eligible[turn] < eligible[other]);
        }
    }
}

/// The positions of the candidates that can be used come in rising order.
pub proof fn lemma_eligible_positions_increase(candidates: Seq<GatewayNode>, must_use_tls: bool)
    ensures
        forall|a: int, b: int|
            0 <= a < b < eligible_positions(candidates, must_use_tls).len()
                ==> #[trigger] eligible_positions(candidates, must_use_tls)[a]
                < #[trigger] eligible_positions(candidates, must_use_tls)[b],
    decreases candidates.len(),
{
    if candidates.len() > 0 {
        let head = candidates.drop_last();
        lemma_eligible_positions_increase(head, must_use_tls);
        lemma_eligible_positions(head, must_use_tls);
        let before = eligible_positions(head, must_use_tls);
        let all = eligible_positions(candidates, must_use_tls);
        assert forall|a: int, b: int| 0 <= a < b < all.len() implies #[trigger] all[a]
            < #[trigger] all[b] by {
            if b < before.len() {
                assert(all[a] == before[a] && all[b] == before[b]);
            } else {
                assert(all[a] == before[a]);
                assert(before[a] < head.len());
            }
        }
    }
}

/// The position that is found for an identity is the first at which a
/// candidate has it.
pub proof fn lemma_position_of(candidates: Seq<GatewayNode>, identity: Seq<char>)
    ensures
        match position_of(candidates, identity) {
            Some(position) => {
                &&& 0 <= position < candidates.len()
                &&& candidates[position].identity@ == identity
                &&& forall|i: int| 0 <= i < position ==> candidates[i].identity@ != identity
            },
            None => forall|i: int| 0 <= i < candidates.len() ==> candidates[i].identity@ != identity,
        },
    decreases candidates.len(),
{
    if candidates.len() > 0 {
        let head = candidates.drop_last();
        lemma_position_of(head, identity);
        assert forall|i: int| 0 <= i < head.len() implies head[i] == candidates[i] by {}
    }
}

/// Picks a gateway among `candidates` and returns its position.
pub fn select_gateway(
    selection: &GatewaySelectionSpecification,
    candidates: &Vec<GatewayNode>,
    random: u64,
) -> (result: Result<usize, Error>)
    ensures
        match result {
            Ok(position) => selected(selection@, candidates@, random) == Ok::<int, Error>(
                position as int,
            ) && position < candidates@.len(),
            Err(e) => selected(selection@, candidates@, random) == Err::<int, Error>(e),
        },
{
    match selection {
        GatewaySelectionSpecification::Specified { must_use_tls, identity } => {
            let mut i: usize = 0;
            assert(candidates@.subrange(0, 0) =~= Seq::<GatewayNode>::empty());
            while i < candidates.len()
                invariant
                    i <= candidates@.len(),
                    selection@ == (GatewaySelectionView::Specified {
                        must_use_tls: *must_use_tls,
                        identity: identity@,
                    }),
                    position_of(candidates@.subrange(0, i as int), identity@) is None,
                decreases candidates@.len() - i,
            {
                let ghost longer = candidates@.subrange(0, i + 1);
                assert(longer.drop_last() =~= candidates@.subrange(0, i as int));
                assert(longer.last() == candidates@[i as int]);
                if str_eq(candidates[i].identity.as_str(), identity.as_str()) {
                    proof {
                        assert(position_of(longer.drop_last(), identity@) is None);
                        assert(position_of(longer, identity@) == Some(i as int));
                        lemma_position_of_prefix(candidates@, i + 1, identity@);
                    }
                    if *must_use_tls && candidates[i].clients_wss_port.is_none() {
                        return Err(Error::UnsupportedWssProtocol);
                    }
                    return Ok(i);
                }
                assert(position_of(longer.drop_last(), identity@) is None);
                assert(position_of(longer, identity@) is None);
                i += 1;
            }
            assert(candidates@.subrange(0, i as int) =~= candidates@);
            Err(Error::NoGatewayWithId)
        },
        GatewaySelectionSpecification::UniformRemote { must_use_tls } => {
            let mut eligible: Vec<usize> = Vec::new();
            let mut i: usize = 0;
            assert(candidates@.subrange(0, 0) =~= Seq::<GatewayNode>::empty());
            while i < candidates.len()
                invariant
                    i <= candidates@.len(),
                    eligible@.len() <= i,
                    eligible@.map_values(|p: usize| p as int) == eligible_positions(
                        candidates@.subrange(0, i as int),
                        *must_use_tls,
                    ),
                    forall|k: int| 0 <= k < eligible@.len() ==> eligible@[k] < candidates@.len(),
                decreases candidates@.len() - i,
            {
                let ghost longer = candidates@.subrange(0, i + 1);
                let ghost before = eligible@;
                assert(longer.drop_last() =~= candidates@.subrange(0, i as int));
                assert(longer.last() == candidates@[i as int]);
                if !*must_use_tls || candidates[i].clients_wss_port.is_some() {
                    eligible.push(i);
                    assert(eligible@.map_values(|p: usize| p as int) =~= before.map_values(
                        |p: usize| p as int,
                    ).push(i as int));
                }
                i += 1;
            }
            assert(candidates@.subrange(0, i as int) =~= candidates@);
            if eligible.len() == 0 {
                return Err(Error::NoGatewaysAvailable);
            }
            let pick = (random % (eligible.len() as u64)) as usize;
            assert(eligible@.map_values(|p: usize| p as int)[pick as int] == eligible@[pick as int]);
            Ok(eligible[pick])
        },
    }
}

/// The first position of an identity in a prefix is its first position in
/// the whole.
proof fn lemma_position_of_prefix(candidates: Seq<GatewayNode>, length: int, identity: Seq<char>)
    requires
        0 <= length <= candidates.len(),
        position_of(candidates.subrange(0, length), identity) is Some,
    ensures
        position_of(candidates, identity) == position_of(candidates.subrange(0, length), identity),
    decreases candidates.len() - length,
{
    if length < candidates.len() {
        let longer = candidates.subrange(0, length + 1);
        assert(longer.drop_last() =~= candidates.subrange(0, length));
        lemma_position_of_prefix(candidates, length + 1, identity);
    } else {
        assert(candidates.subrange(0, length) =~= candidates);
    }
}

/// The delay before the first retry, in milliseconds.
pub const BACKOFF_BASE_MS: u64 = 500;

/// The longest delay between two tries, before jitter, in milliseconds.
pub const BACKOFF_CAP_MS: u64 = 30_000;

/// How far a delay may be moved either way, in hundredths of itself.
pub const BACKOFF_JITTER_PERCENT: u64 = 20;

/// The number of retries after which an unreachable gateway is given up.
pub const MAX_GATEWAY_RETRIES: u32 = 10;

/// Two to the power `exponent`.
pub open spec fn pow2(exponent: nat) -> nat
    decreases exponent,
{
    if exponent == 0 {
        1
    } else {
        2 * pow2((exponent - 1) as nat)
    }
}

/// The delay before retry number `attempt`, counted from zero, before
/// jitter: the base delay doubled with every retry, up to the cap.
pub open spec fn backoff_delay(attempt: nat) -> nat {
    if 500 * pow2(attempt) < 30_000 {
        500 * pow2(attempt)
    } else {
        30_000
    }
}

/// A delay moved by jitter: between four fifths and six fifths of `delay`,
/// the place in between decided by `random`.
pub open spec fn jittered(delay: nat, random: u64) -> nat {
    let low = delay * 80 / 100;
    let high = delay * 120 / 100;
    (low + random as nat % ((high - low + 1) as nat)) as nat
}

/// What a client does about a gateway that it could not reach: it waits
/// for the delay of retry number `attempt`, unless it does not wait for
/// gateways at all or the ceiling of retries is reached; then it gives up.
pub open spec fn retry_delay_of(wait_for_gateway: bool, attempt: u32, random: u64) -> Result<
    nat,
    Error,
> {
    if !wait_for_gateway || attempt >= MAX_GATEWAY_RETRIES {
        Err(Error::GatewayUnreachable)
    } else {
        Ok(jittered(backoff_delay(attempt as nat), random))
    }
}

/// Powers of two grow, so the delay reaches its cap for good at the sixth
/// retry.
pub proof fn lemma_backoff_delay(attempt: nat)
    ensures
        500 <= backoff_delay(attempt) <= 30_000,
        attempt >= 6 ==> backoff_delay(attempt) == 30_000,
        attempt < 6 ==> backoff_delay(attempt) == 500 * pow2(attempt),
        backoff_delay(attempt) <= backoff_delay(attempt + 1),
        pow2(attempt) >= 1,
        attempt >= 6 ==> pow2(attempt) >= 64,
    decreases attempt,
{
    reveal_with_fuel(pow2, 8);
    if attempt > 6 {
        lemma_backoff_delay((attempt - 1) as nat);
    } else if attempt > 0 {
        lemma_backoff_delay((attempt - 1) as nat);
    }
}

/// Jitter moves a delay by a fifth of itself at most, and to every place
/// within that.
pub proof fn lemma_jitter_bounds(delay: nat, random: u64)
    ensures
        delay * 80 / 100 <= jittered(delay, random) <= delay * 120 / 100,
        forall|moved: nat|
            delay * 80 / 100 <= moved <= delay * 120 / 100 && moved - delay * 80 / 100 <= u64::MAX
                ==> #[trigger] jittered(delay, (moved - delay * 80 / 100) as u64) == moved,
{
    lemma_jitter_reaches(delay);
    let low = delay * 80 / 100;
    let high = delay * 120 / 100;
    assert(low <= high) by (nonlinear_arith)
        requires
            low == delay * 80 / 100,
            high == delay * 120 / 100,
    ;
    let span = (high - low + 1) as nat;
    assert(random as nat % span < span) by (nonlinear_arith)
        requires
            span > 0,
    ;
}

/// Every delay between two tries is between four fifths of the base delay
/// and six fifths of the cap.
pub proof fn lemma_retry_delay_bounds(wait_for_gateway: bool, attempt: u32, random: u64)
    ensures
        retry_delay_of(wait_for_gateway, attempt, random) matches Ok(delay) ==> 400 <= delay
            <= 36_000,
        retry_delay_of(wait_for_gateway, attempt, random) is Ok <==> wait_for_gateway && attempt
            < MAX_GATEWAY_RETRIES,
{
    let base = backoff_delay(attempt as nat);
    lemma_backoff_delay(attempt as nat);
    lemma_jitter_bounds(base, random);
    assert(base * 80 / 100 >= 400 && base * 120 / 100 <= 36_000) by (nonlinear_arith)
        requires
            500 <= base <= 30_000,
    ;
}

/// There is a `random` for every place that jitter may move a delay to.
proof fn lemma_jitter_reaches(delay: nat)
    ensures
        forall|moved: nat|
            delay * 80 / 100 <= moved <= delay * 120 / 100 && moved - delay * 80 / 100 <= u64::MAX
                ==> #[trigger] jittered(delay, (moved - delay * 80 / 100) as u64) == moved,
{
    let low = delay * 80 / 100;
    let high = delay * 120 / 100;
    assert forall|moved: nat| low <= moved <= high && moved - low <= u64::MAX implies #[trigger] jittered(
        delay,
        (moved - low) as u64,
    ) == moved by {
        let offset = (moved - low) as nat;
        let span = (high - low + 1) as nat;
        assert(offset % span == offset) by (nonlinear_arith)
            requires
                offset < span,
        ;
    }
}

/// The delay before retry number `attempt`, before jitter.
pub fn backoff_base_delay(attempt: u32) -> (delay: u64)
    ensures
        delay == backoff_delay(attempt as nat),
{
    let mut delay: u64 = BACKOFF_BASE_MS;
    let mut i: u32 = 0;
    while i < attempt && delay < BACKOFF_CAP_MS
        invariant
            i <= attempt,
            delay == backoff_delay(i as nat),
            500 <= delay <= 30_000,
        decreases attempt - i,
    {
        proof {
            lemma_backoff_delay(i as nat);
            lemma_backoff_delay((i + 1) as nat);
            assert(pow2((i + 1) as nat) == 2 * pow2(i as nat));
        }
        delay = if delay * 2 < BACKOFF_CAP_MS {
            delay * 2
        } else {
            BACKOFF_CAP_MS
        };
        i += 1;
    }
    proof {
        lemma_backoff_delay(i as nat);
        lemma_backoff_delay(attempt as nat);
        if i < attempt {
            lemma_backoff_capped(i as nat, attempt as nat);
        }
    }
    delay
}

/// Once the delay is at its cap it stays there.
proof fn lemma_backoff_capped(from: nat, to: nat)
    requires
        from <= to,
        backoff_delay(from) == 30_000,
    ensures
        backoff_delay(to) == 30_000,
    decreases to - from,
{
    if from < to {
        lemma_backoff_delay(from);
        lemma_backoff_capped(from + 1, to);
    }
}

/// A delay moved by jitter.
pub(crate) fn with_jitter(delay: u64, random: u64) -> (moved: u64)
    requires
        delay <= 30_000,
    ensures
        moved == jittered(delay as nat, random),
{
    let low = delay * 80 / 100;
    let high = delay * 120 / 100;
    proof {
        lemma_jitter_bounds(delay as nat, random);
    }
    low + random % (high - low + 1)
}

/// How long to wait, in milliseconds, before retry number `attempt` of a
/// gateway that could not be reached, or the error of giving up.
pub fn retry_delay(wait_for_gateway: bool, attempt: u32, random: u64) -> (delay: Result<u64, Error>)
    ensures
        match delay {
            Ok(delay) => retry_delay_of(wait_for_gateway, attempt, random) == Ok::<nat, Error>(
                delay as nat,
            ),
            Err(e) => retry_delay_of(wait_for_gateway, attempt, random) == Err::<nat, Error>(e),
        },
{
    if !wait_for_gateway || attempt >= MAX_GATEWAY_RETRIES {
        return Err(Error::GatewayUnreachable);
    }
    let base = backoff_base_delay(attempt);
    proof {
        lemma_backoff_delay(attempt as nat);
    }
    Ok(with_jitter(base, random))
}

/// Draws the number that decides a choice or a jitter from the operating
/// system's randomness; `None` when there is none to be had.
pub fn draw_random() -> (number: Option<u64>) {
    match random_block() {
        Some(block) => Some(read_be(block.as_slice(), 0, 8)),
        None => None,
    }
}

} // verus!
