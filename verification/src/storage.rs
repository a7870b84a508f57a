//! What a client keeps between sessions: its identity keys, the gateway it
//! registered with and the keys it shares with that gateway. The store is an
//! interface; the one kept in memory is here.

use crate::bytes::{bytes_eq, str_eq};
use crate::errors::StorageError;
use crate::primitives::{sha256, sha256_digest};
use crate::selection::{transport_for, transport_of};
use crate::shared_keys::SharedKeys;
use vstd::prelude::*;

verus! {

/// The long-term identity keys of a client.
#[derive(Debug, Clone, Copy, PartialEq, Eq)]
pub struct IdentityKeys {
    pub private_key: [u8; 32],
    pub public_key: [u8; 32],
}

/// The gateway a client registered with, and the fingerprint of the keys it
/// shares with it.
#[derive(Debug, Clone, PartialEq, Eq)]
pub struct GatewayDetails {
    pub gateway_id: String,
    pub gateway_owner: String,
    pub gateway_listener: String,
    pub key_hash: [u8; 32],
}

/// A gateway descriptor as a mathematical value.
pub struct GatewayDetailsView {
    pub gateway_id: Seq<char>,
    pub gateway_owner: Seq<char>,
    pub gateway_listener: Seq<char>,
    pub key_hash: [u8; 32],
}

impl View for GatewayDetails {
    type V = GatewayDetailsView;

    open spec fn view(&self) -> GatewayDetailsView {
        GatewayDetailsView {
            gateway_id: self.gateway_id@,
            gateway_owner: self.gateway_owner@,
            gateway_listener: self.gateway_listener@,
            key_hash: self.key_hash,
        }
    }
}

/// Why a stored descriptor cannot be used.
#[derive(Debug, Clone, Copy, PartialEq, Eq, Structural)]
pub enum GatewayDetailsError {
    /// There are no shared keys to go with the descriptor.
    MissingSharedKey,
    /// The shared keys are not the ones the descriptor was stored with.
    MismatchedSharedKey,
    /// The listener is neither a `ws://` nor a `wss://` address.
    UnsupportedListener,
}

/// The fingerprint of shared keys: the SHA-256 digest of their bytes.
pub open spec fn key_fingerprint(keys: SharedKeys) -> [u8; 32] {
    sha256(keys.encryption_key@ + keys.mac_key@)
}

impl GatewayDetailsView {
    /// Whether the descriptor may be used with `shared_key`: there must be
    /// keys, they must be the ones the descriptor was stored with, and the
    /// listener must be an address that a transport exists for.
    pub open spec fn validated(self, shared_key: Option<SharedKeys>) -> Result<
        (),
        GatewayDetailsError,
    > {
        match shared_key {
            None => Err(GatewayDetailsError::MissingSharedKey),
            Some(keys) => if key_fingerprint(keys) != self.key_hash {
                Err(GatewayDetailsError::MismatchedSharedKey)
            } else if transport_of(self.gateway_listener) is None {
                Err(GatewayDetailsError::UnsupportedListener)
            } else {
                Ok(())
            },
        }
    }
}

impl GatewayDetails {
    /// The descriptor of a gateway, bound to the keys shared with it.
    pub fn new(
        gateway_id: String,
        gateway_owner: String,
        gateway_listener: String,
        shared_key: &SharedKeys,
    ) -> (details: GatewayDetails)
        ensures
            details@ == (GatewayDetailsView {
                gateway_id: gateway_id@,
                gateway_owner: gateway_owner@,
                gateway_listener: gateway_listener@,
                key_hash: key_fingerprint(*shared_key),
            }),
            details.key_hash == key_fingerprint(*shared_key),
    {
        let bytes = shared_key.to_bytes();
        let key_hash = sha256_digest(bytes.as_slice());
        GatewayDetails { gateway_id, gateway_owner, gateway_listener, key_hash }
    }

    /// Whether `shared_key` are the keys this descriptor was stored with.
    pub fn verify(&self, shared_key: &SharedKeys) -> (same: bool)
        ensures
            same == (key_fingerprint(*shared_key) == self.key_hash),
    {
        let bytes = shared_key.to_bytes();
        let digest = sha256_digest(bytes.as_slice());
        let same = bytes_eq(digest.as_slice(), self.key_hash.as_slice());
        proof {
            if same {
                assert(digest =~= self.key_hash);
            }
        }
        same
    }

    /// Checks the descriptor against the stored shared keys, which it must
    /// pass before it is used.
    pub fn validate(&self, shared_key: Option<&SharedKeys>) -> (result: Result<
        (),
        GatewayDetailsError,
    >)
        ensures
            result == self@.validated(
                match shared_key {
                    Some(keys) => Some(*keys),
                    None => None,
                },
            ),
    {
        match shared_key {
            None => Err(GatewayDetailsError::MissingSharedKey),
            Some(keys) => if !self.verify(keys) {
                Err(GatewayDetailsError::MismatchedSharedKey)
            } else if transport_for(self.gateway_listener.as_str()).is_err() {
                Err(GatewayDetailsError::UnsupportedListener)
            } else {
                Ok(())
            },
        }
    }
}

/// Whether what was loaded from a store allows a client to go back to the
/// gateway it was registered with: both loads succeeded, and the descriptor
/// passes against the keys.
pub open spec fn stored_gateway_is_valid(
    keys: Result<SharedKeys, StorageError>,
    details: Result<GatewayDetails, StorageError>,
) -> bool {
    match (keys, details) {
        (Ok(keys), Ok(details)) => details@.validated(Some(keys)) is Ok,
        _ => false,
    }
}

/// Whether what was loaded from a store allows a client to go back to the
/// gateway it was registered with.
pub fn gateway_info_is_valid(
    keys: &Result<SharedKeys, StorageError>,
    details: &Result<GatewayDetails, StorageError>,
) -> (valid: bool)
    ensures
        valid == stored_gateway_is_valid(*keys, *details),
{
    let keys = match keys {
        Ok(keys) => keys,
        Err(_) => {
            return false;
        },
    };
    let details = match details {
        Ok(details) => details,
        Err(_) => {
            return false;
        },
    };
    details.validate(Some(keys)).is_ok()
}

/// What the protocol asks of a key store. Every operation may fail, and the
/// error is handed on as it is.
///
/// A store may answer for what it holds: it then says so, and says what it
/// holds of the gateway in its two views. Of such a store a load that
/// succeeds gives what the view says, and a store that succeeds makes the
/// view say what was stored. A store may also be reliable: it then stores
/// whenever it is asked to, and loads whatever it holds. A store that says
/// neither promises nothing; that is the part of a store that can fail, or
/// whose content others can change behind it.
pub trait KeyStore {
    /// Whether the store answers for its views.
    open spec fn answers_for_views(&self) -> bool {
        false
    }

    /// Whether the store never fails to store, and never fails to load what
    /// it holds.
    open spec fn is_reliable(&self) -> bool {
        false
    }

    /// The gateway descriptor that the store holds, if it holds one.
    open spec fn gateway_view(&self) -> Option<GatewayDetailsView> {
        None
    }

    /// The keys shared with the gateway `gateway_id` that the store holds,
    /// if it holds any.
    open spec fn shared_view(&self, gateway_id: Seq<char>) -> Option<SharedKeys> {
        None
    }

    fn load_identity_keys(&self) -> Result<IdentityKeys, StorageError>;

    fn store_identity_keys(&mut self, keys: &IdentityKeys) -> (result: Result<(), StorageError>)
        ensures
            final(self).answers_for_views() == old(self).answers_for_views(),
            final(self).is_reliable() == old(self).is_reliable(),
            old(self).is_reliable() ==> result is Ok,
            old(self).answers_for_views() && result is Ok ==> final(self).gateway_view() == old(self).gateway_view() && forall|gateway_id: Seq<char>|
                final(self).shared_view(gateway_id) == old(self).shared_view(gateway_id),
    ;

    fn load_gateway_descriptor(&self) -> (result: Result<GatewayDetails, StorageError>)
        ensures
            self.answers_for_views() ==> (result matches Ok(details) ==> self.gateway_view()
                == Some(details@)),
            self.answers_for_views() && self.is_reliable() ==> (result is Err
                ==> self.gateway_view() is None),
    ;

    fn store_gateway_descriptor(&mut self, details: &GatewayDetails) -> (result: Result<
        (),
        StorageError,
    >)
        ensures
            final(self).answers_for_views() == old(self).answers_for_views(),
            final(self).is_reliable() == old(self).is_reliable(),
            old(self).is_reliable() ==> result is Ok,
            old(self).answers_for_views() && result is Ok ==> final(self).gateway_view() == Some(
                details@,
            ) && forall|gateway_id: Seq<char>|
                final(self).shared_view(gateway_id) == old(self).shared_view(gateway_id),
    ;

    fn load_shared_keys(&self, gateway_id: &str) -> (result: Result<SharedKeys, StorageError>)
        ensures
            self.answers_for_views() ==> (result matches Ok(keys) ==> self.shared_view(gateway_id@)
                == Some(keys)),
            self.answers_for_views() && self.is_reliable() ==> (result is Err ==> self.shared_view(
                gateway_id@,
            ) is None),
    ;

    fn store_shared_keys(&mut self, gateway_id: &str, keys: &SharedKeys) -> (result: Result<
        (),
        StorageError,
    >)
        ensures
            final(self).answers_for_views() == old(self).answers_for_views(),
            final(self).is_reliable() == old(self).is_reliable(),
            old(self).is_reliable() ==> result is Ok,
            old(self).answers_for_views() && result is Ok ==> final(self).shared_view(gateway_id@)
                == Some(*keys) && final(self).gateway_view() == old(self).gateway_view()
                && forall|other: Seq<char>|
                other != gateway_id@ ==> final(self).shared_view(other) == old(self).shared_view(
                    other,
                ),
    ;
}

/// Whether a store holds a gateway descriptor and shared keys for that
/// gateway that go together.
pub open spec fn holds_valid_gateway<S: KeyStore>(store: S) -> bool {
    &&& store.gateway_view() matches Some(details)
    &&& store.shared_view(details.gateway_id) matches Some(keys)
    &&& details.validated(Some(keys)) is Ok
}

/// Loads the descriptor from `store`, and the shared keys of the gateway
/// that the descriptor names, and says whether they allow the client to go
/// back to its gateway: where it says so, a store that answers for its views
/// holds a descriptor and keys that go together, and of a store that is
/// reliable as well it says so whenever it holds them. A load that fails
/// means that they do not.
pub fn has_valid_gateway_info<S: KeyStore>(store: &S) -> (valid: bool)
    ensures
        valid && store.answers_for_views() ==> holds_valid_gateway(*store),
        store.answers_for_views() && store.is_reliable() ==> valid == holds_valid_gateway(*store),
{
    let details = store.load_gateway_descriptor();
    let keys = match &details {
        Ok(details) => store.load_shared_keys(details.gateway_id.as_str()),
        Err(_) => Err(StorageError { message: "no gateway is stored".to_string() }),
    };
    gateway_info_is_valid(&keys, &details)
}

/// A key store kept in memory, which is gone with the client.
#[derive(Debug, Clone, PartialEq, Eq)]
pub struct Ephemeral {
    identity: Option<IdentityKeys>,
    gateway: Option<GatewayDetails>,
    shared: Vec<(String, SharedKeys)>,
}

/// The keys that the most recent entry for `gateway_id` among `entries`
/// holds.
pub open spec fn latest_keys(entries: Seq<(String, SharedKeys)>, gateway_id: Seq<char>) -> Option<
    SharedKeys,
>
    decreases entries.len(),
{
    if entries.len() == 0 {
        None
    } else if entries.last().0@ == gateway_id {
        Some(entries.last().1)
    } else {
        latest_keys(entries.drop_last(), gateway_id)
    }
}

impl Ephemeral {
    /// The identity keys in the store.
    pub closed spec fn identity(&self) -> Option<IdentityKeys> {
        self.identity
    }

    /// The gateway descriptor in the store.
    pub closed spec fn gateway(&self) -> Option<GatewayDetailsView> {
        match self.gateway {
            Some(details) => Some(details@),
            None => None,
        }
    }

    /// The keys shared with the gateway `gateway_id` in the store.
    pub closed spec fn shared(&self, gateway_id: Seq<char>) -> Option<SharedKeys> {
        latest_keys(self.shared@, gateway_id)
    }

    /// An empty store.
    pub fn new() -> (store: Ephemeral)
        ensures
            store.identity() is None,
            store.gateway() is None,
            forall|id: Seq<char>| store.shared(id) is None,
    {
        Ephemeral { identity: None, gateway: None, shared: Vec::new() }
    }
}

impl KeyStore for Ephemeral {
    open spec fn answers_for_views(&self) -> bool {
        true
    }

    open spec fn is_reliable(&self) -> bool {
        true
    }

    open spec fn gateway_view(&self) -> Option<GatewayDetailsView> {
        self.gateway()
    }

    open spec fn shared_view(&self, gateway_id: Seq<char>) -> Option<SharedKeys> {
        self.shared(gateway_id)
    }

    /// The identity keys that were stored last.
    fn load_identity_keys(&self) -> (result: Result<IdentityKeys, StorageError>)
        ensures
            match result {
                Ok(keys) => self.identity() == Some(keys),
                Err(_) => self.identity() is None,
            },
    {
        match self.identity {
            Some(keys) => Ok(keys),
            None => Err(StorageError { message: "no identity keys are stored".to_string() }),
        }
    }

    /// Keeps `keys` as the identity keys; never fails.
    fn store_identity_keys(&mut self, keys: &IdentityKeys) -> (result: Result<(), StorageError>)
        ensures
            result is Ok,
            final(self).identity() == Some(*keys),
            final(self).gateway() == old(self).gateway(),
            forall|id: Seq<char>| final(self).shared(id) == old(self).shared(id),
    {
        self.identity = Some(*keys);
        Ok(())
    }

    /// The gateway descriptor that was stored last.
    fn load_gateway_descriptor(&self) -> (result: Result<GatewayDetails, StorageError>)
        ensures
            match result {
                Ok(details) => self.gateway() == Some(details@),
                Err(_) => self.gateway() is None,
            },
    {
        match &self.gateway {
            Some(details) => Ok(details.clone_details()),
            None => Err(StorageError { message: "no gateway is stored".to_string() }),
        }
    }

    /// Keeps `details` as the gateway descriptor; never fails.
    fn store_gateway_descriptor(&mut self, details: &GatewayDetails) -> (result: Result<
        (),
        StorageError,
    >)
        ensures
            result is Ok,
            final(self).gateway() == Some(details@),
            final(self).identity() == old(self).identity(),
            forall|id: Seq<char>| final(self).shared(id) == old(self).shared(id),
    {
        self.gateway = Some(details.clone_details());
        Ok(())
    }

    /// The keys that were stored last for `gateway_id`.
    fn load_shared_keys(&self, gateway_id: &str) -> (result: Result<SharedKeys, StorageError>)
        ensures
            match result {
                Ok(keys) => self.shared(gateway_id@) == Some(keys),
                Err(_) => self.shared(gateway_id@) is None,
            },
    {
        let mut i: usize = self.shared.len();
        assert(self.shared@.subrange(0, i as int) =~= self.shared@);
        while i > 0
            invariant
                i <= self.shared@.len(),
                latest_keys(self.shared@, gateway_id@) == latest_keys(
                    self.shared@.subrange(0, i as int),
                    gateway_id@,
                ),
            decreases i,
        {
            let ghost prefix = self.shared@.subrange(0, i as int);
            i -= 1;
            assert(prefix.drop_last() =~= self.shared@.subrange(0, i as int));
            assert(prefix.last() == self.shared@[i as int]);
            if str_eq(self.shared[i].0.as_str(), gateway_id) {
                return Ok(self.shared[i].1);
            }
        }
        Err(StorageError { message: "no shared keys are stored for this gateway".to_string() })
    }

    /// Keeps `keys` as the keys shared with `gateway_id`, in place of the
    /// ones that were kept for it; never fails. The keys of other gateways
    /// stay as they are.
    fn store_shared_keys(&mut self, gateway_id: &str, keys: &SharedKeys) -> (result: Result<
        (),
        StorageError,
    >)
        ensures
            result is Ok,
            final(self).shared(gateway_id@) == Some(*keys),
            forall|id: Seq<char>| id != gateway_id@ ==> final(self).shared(id) == old(self).shared(id),
            final(self).identity() == old(self).identity(),
            final(self).gateway() == old(self).gateway(),
    {
        let mut i: usize = self.shared.len();
        while i > 0
            invariant
                i <= self.shared@.len(),
                self.shared@ == old(self).shared@,
                self.identity == old(self).identity,
                self.gateway == old(self).gateway,
                forall|j: int| i <= j < self.shared@.len() ==> self.shared@[j].0@ != gateway_id@,
            decreases i,
        {
            i -= 1;
            if str_eq(self.shared[i].0.as_str(), gateway_id) {
                let entry = (gateway_id.to_string(), *keys);
                proof {
                    lemma_latest_after_update(self.shared@, i as int, entry);
                }
                self.shared.set(i, entry);
                return Ok(());
            }
        }
        self.shared.push((gateway_id.to_string(), *keys));
        assert(self.shared@.drop_last() =~= old(self).shared@);
        Ok(())
    }
}

/// Replacing the most recent entry of a gateway replaces the keys that are
/// found for it, and no others.
proof fn lemma_latest_after_update(
    entries: Seq<(String, SharedKeys)>,
    position: int,
    entry: (String, SharedKeys),
)
    requires
        0 <= position < entries.len(),
        entries[position].0@ == entry.0@,
        forall|j: int| position < j < entries.len() ==> entries[j].0@ != entry.0@,
    ensures
        latest_keys(entries.update(position, entry), entry.0@) == Some(entry.1),
        forall|id: Seq<char>|
            id != entry.0@ ==> latest_keys(entries.update(position, entry), id) == latest_keys(
                entries,
                id,
            ),
    decreases entries.len(),
{
    let updated = entries.update(position, entry);
    if position == entries.len() - 1 {
        assert(updated.drop_last() =~= entries.drop_last());
        assert forall|id: Seq<char>| id != entry.0@ implies latest_keys(updated, id)
            == latest_keys(entries, id) by {
            assert(latest_keys(updated, id) == latest_keys(updated.drop_last(), id));
            assert(latest_keys(entries, id) == latest_keys(entries.drop_last(), id));
        }
    } else {
        assert(updated.drop_last() =~= entries.drop_last().update(position, entry));
        assert(updated.last() == entries.last());
        lemma_latest_after_update(entries.drop_last(), position, entry);
        assert forall|id: Seq<char>| id != entry.0@ implies latest_keys(updated, id)
            == latest_keys(entries, id) by {
            assert(latest_keys(entries.drop_last().update(position, entry), id) == latest_keys(
                entries.drop_last(),
                id,
            ));
        }
    }
}

impl GatewayDetails {
    /// A copy of the descriptor.
    pub fn clone_details(&self) -> (copy: GatewayDetails)
        ensures
            copy@ == self@,
    {
        GatewayDetails {
            gateway_id: self.gateway_id.clone(),
            gateway_owner: self.gateway_owner.clone(),
            gateway_listener: self.gateway_listener.clone(),
            key_hash: self.key_hash,
        }
    }
}

} // verus!
