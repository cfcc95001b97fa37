//! The connections that a node keeps open, by the address of the peer.
//!
//! A node keeps the connections it has used last, up to a fixed number of
//! them. A connection that is looked up counts as used. When a connection is
//! added to a full cache, the one that was not used for the longest time is
//! dropped.

use crate::comm::{Address, CONNECTIONS_CACHE_SIZE};
use lru_time_cache::LruCache;
use qp2p::Connection;
use std::sync::Arc;
use vstd::prelude::*;

verus! {

/// An address as the cache orders it: 4 or 6 for the kind, then the IP
/// address, the port, the flow information and the scope.
pub type AddressKey = (u8, u128, u16, u32, u32);

/// A connection of the transport. Nothing is known of it here.
#[verifier::external_type_specification]
#[verifier::external_body]
pub struct ExConnection(Connection);

/// The cache of `lru_time_cache`.
#[verifier::external_type_specification]
#[verifier::external_body]
#[verifier::reject_recursive_types(Key)]
#[verifier::reject_recursive_types(Value)]
pub struct ExLruCache<Key, Value>(LruCache<Key, Value>);

/// The keys that a cache holds, the one used last coming last.
pub uninterp spec fn cached_keys(cache: LruCache<AddressKey, Arc<Connection>>) -> Seq<AddressKey>;

/// The number of entries that a cache was made to hold.
pub uninterp spec fn cache_capacity(cache: LruCache<AddressKey, Arc<Connection>>) -> nat;

/// Whether a cache drops its entries after a time. The order of the keys and
/// what a lookup finds can be told from the calls alone only of a cache that
/// does not.
pub uninterp spec fn cache_expires(cache: LruCache<AddressKey, Arc<Connection>>) -> bool;

/// The keys once `key` has been used: it comes last.
pub open spec fn touched(keys: Seq<AddressKey>, key: AddressKey) -> Seq<AddressKey> {
    keys.remove_value(key).push(key)
}

/// The keys once room has been made for one more: as many of the first are
/// dropped as it takes to stay within `capacity`.
pub open spec fn with_room(keys: Seq<AddressKey>, capacity: nat) -> Seq<AddressKey> {
    if keys.len() >= capacity {
        keys.skip(keys.len() - capacity + 1)
    } else {
        keys
    }
}

/// The keys once `key` has been inserted.
pub open spec fn inserted(keys: Seq<AddressKey>, capacity: nat, key: AddressKey) -> Seq<AddressKey> {
    if keys.contains(key) {
        touched(keys, key)
    } else {
        with_room(keys, capacity).push(key)
    }
}

/// Trusted: `lru_time_cache::LruCache::with_capacity`. The cache is empty and
/// holds up to `capacity` entries; it has no expiry time.
#[verifier::external_body]
fn cache_with_capacity(capacity: usize) -> (cache: LruCache<AddressKey, Arc<Connection>>)
    ensures
        cached_keys(cache) == Seq::<AddressKey>::empty(),
        cache_capacity(cache) == capacity,
        !cache_expires(cache),
{
    LruCache::with_capacity(capacity)
}

/// Trusted: `lru_time_cache::LruCache::get`, on a cache without an expiry
/// time. It finds the value of a key that is held, and that key then counts as
/// the one used last. Nothing else changes. (A cache with an expiry time
/// would first drop what is too old: such a cache is left out.)
#[verifier::external_body]
fn cache_get(cache: &mut LruCache<AddressKey, Arc<Connection>>, key: &AddressKey) -> (found: Option<Arc<Connection>>)
    requires
        !cache_expires(*old(cache)),
    ensures
        !cache_expires(*final(cache)),
        found is Some <==> cached_keys(*old(cache)).contains(*key),
        cached_keys(*final(cache)) == (if cached_keys(*old(cache)).contains(*key) {
            touched(cached_keys(*old(cache)), *key)
        } else {
            cached_keys(*old(cache))
        }),
        cache_capacity(*final(cache)) == cache_capacity(*old(cache)),
{
    cache.get(key).cloned()
}

/// Trusted: `lru_time_cache::LruCache::insert`, on a cache without an expiry
/// time and with room for one entry at least. A key that is held gets the
/// new value and counts as used last. For a new key room is made first, by
/// dropping from the side of the least recently used as many entries as it
/// takes, and the key comes last. The value that the key had is handed back.
#[verifier::external_body]
fn cache_insert(
    cache: &mut LruCache<AddressKey, Arc<Connection>>,
    key: AddressKey,
    value: Arc<Connection>,
) -> (replaced: Option<Arc<Connection>>)
    requires
        cache_capacity(*old(cache)) > 0,
        !cache_expires(*old(cache)),
    ensures
        !cache_expires(*final(cache)),
        replaced is Some <==> cached_keys(*old(cache)).contains(key),
        cached_keys(*final(cache)) == inserted(cached_keys(*old(cache)), cache_capacity(*old(cache)), key),
        cache_capacity(*final(cache)) == cache_capacity(*old(cache)),
{
    cache.insert(key, value)
}

/// The key under which the connection to `addr` is kept.
pub open spec fn key_of(addr: Address) -> AddressKey {
    match addr {
        Address::V4 { ip, port } => (4u8, ip as u128, port, 0u32, 0u32),
        Address::V6 { ip, port, flowinfo, scope_id } => (6u8, ip, port, flowinfo, scope_id),
    }
}

/// Different addresses have different keys.
pub proof fn lemma_key_of_injective(a: Address, b: Address)
    requires
        key_of(a) == key_of(b),
    ensures
        a == b,
{
}

/// The key under which the connection to `addr` is kept.
pub fn address_key(addr: &Address) -> (key: AddressKey)
    ensures
        key == key_of(*addr),
{
    match *addr {
        Address::V4 { ip, port } => (4u8, ip as u128, port, 0u32, 0u32),
        Address::V6 { ip, port, flowinfo, scope_id } => (6u8, ip, port, flowinfo, scope_id),
    }
}

/// Using a key that is held changes the order of the keys and nothing else.
pub proof fn lemma_touched(keys: Seq<AddressKey>, key: AddressKey)
    requires
        keys.no_duplicates(),
        keys.contains(key),
    ensures
        touched(keys, key).len() == keys.len(),
        touched(keys, key).no_duplicates(),
        touched(keys, key).last() == key,
        forall|k: AddressKey| touched(keys, key).contains(k) <==> keys.contains(k),
{
    keys.index_of_first_ensures(key);
    let at = keys.index_of_first(key).unwrap();
    let rest = keys.remove(at);
    keys.remove_ensures(at);
    let all = touched(keys, key);
    assert(all == rest.push(key));
    assert forall|i: int| 0 <= i < rest.len() implies rest[i] != key && keys.contains(#[trigger] rest[i]) by {
        if i < at {
            assert(rest[i] == keys[i]);
        } else {
            assert(rest[i] == keys[i + 1]);
        }
    }
    assert forall|i: int, j: int| 0 <= i < all.len() && 0 <= j < all.len() && i != j implies all[i] != all[j] by {
        if i < rest.len() && j < rest.len() {
            let from = |n: int| if n < at { n } else { n + 1 };
            assert(rest[i] == keys[from(i)]);
            assert(rest[j] == keys[from(j)]);
        }
    }
    assert forall|k: AddressKey| all.contains(k) <==> keys.contains(k) by {
        if all.contains(k) {
            let i = choose|i: int| 0 <= i < all.len() && all[i] == k;
            if i < rest.len() {
                assert(keys.contains(rest[i]));
            }
        }
        if keys.contains(k) {
            let i = choose|i: int| 0 <= i < keys.len() && keys[i] == k;
            if i < at {
                assert(all[i] == k);
            } else if i == at {
                assert(all[all.len() - 1] == k);
            } else {
                assert(rest[i - 1] == keys[i]);
                assert(all[i - 1] == k);
            }
        }
    }
}

/// Inserting a new key keeps the cache within its capacity. Nothing comes in
/// but the new key, and nothing goes out while there is room.
pub proof fn lemma_inserted_new(keys: Seq<AddressKey>, capacity: nat, key: AddressKey)
    requires
        keys.no_duplicates(),
        !keys.contains(key),
        0 < capacity,
        keys.len() <= capacity,
    ensures
        inserted(keys, capacity, key).len() <= capacity,
        inserted(keys, capacity, key).no_duplicates(),
        inserted(keys, capacity, key).last() == key,
        forall|k: AddressKey| inserted(keys, capacity, key).contains(k) ==> k == key || keys.contains(k),
        keys.len() < capacity ==> forall|k: AddressKey| keys.contains(k) ==> inserted(keys, capacity, key).contains(k),
{
    let room = with_room(keys, capacity);
    let all = inserted(keys, capacity, key);
    let dropped: int = if keys.len() >= capacity {
        keys.len() - capacity + 1
    } else {
        0
    };
    assert(room =~= keys.skip(dropped));
    assert(all == room.push(key));
    assert forall|i: int| 0 <= i < room.len() implies #[trigger] room[i] == keys[i + dropped] by {}
    assert forall|i: int, j: int| 0 <= i < all.len() && 0 <= j < all.len() && i != j implies all[i] != all[j] by {
        if i < room.len() {
            assert(all[i] == keys[i + dropped]);
        }
        if j < room.len() {
            assert(all[j] == keys[j + dropped]);
        }
    }
    assert forall|k: AddressKey| all.contains(k) implies k == key || keys.contains(k) by {
        let i = choose|i: int| 0 <= i < all.len() && all[i] == k;
        if i < room.len() {
            assert(all[i] == keys[i + dropped]);
        }
    }
    if keys.len() < capacity {
        assert forall|k: AddressKey| keys.contains(k) implies all.contains(k) by {
            let i = choose|i: int| 0 <= i < keys.len() && keys[i] == k;
            assert(all[i] == k);
        }
    }
}

/// The connections that a node keeps open for reuse.
pub struct ConnectionCache {
    connections: LruCache<AddressKey, Arc<Connection>>,
}

impl ConnectionCache {
    /// The keys of the connections held, the one used last coming last.
    pub closed spec fn keys(&self) -> Seq<AddressKey> {
        cached_keys(self.connections)
    }

    /// The number of connections that the cache was made to hold.
    pub closed spec fn capacity(&self) -> nat {
        cache_capacity(self.connections)
    }

    /// Whether the cache drops its connections after a time.
    pub closed spec fn expires(&self) -> bool {
        cache_expires(self.connections)
    }

    /// Whether a connection to `addr` is held.
    pub open spec fn holds(&self, addr: Address) -> bool {
        self.keys().contains(key_of(addr))
    }

    /// What holds of every cache: it drops nothing for its age, it holds at
    /// most as many connections as a node keeps, and one at most to each
    /// address.
    pub open spec fn wf(&self) -> bool {
        &&& !self.expires()
        &&& self.capacity() == CONNECTIONS_CACHE_SIZE
        &&& self.keys().len() <= CONNECTIONS_CACHE_SIZE
        &&& self.keys().no_duplicates()
    }

    /// A cache without connections.
    pub fn new() -> (cache: ConnectionCache)
        ensures
            cache.wf(),
            cache.keys().len() == 0,
    {
        ConnectionCache { connections: cache_with_capacity(CONNECTIONS_CACHE_SIZE) }
    }

    /// The connection to `addr`, if one is held. It then counts as the one
    /// used last; the cache holds what it held.
    pub fn get(&mut self, addr: &Address) -> (found: Option<Arc<Connection>>)
        requires
            old(self).wf(),
        ensures
            final(self).wf(),
            found is Some <==> old(self).holds(*addr),
            old(self).holds(*addr) ==> final(self).keys() == touched(old(self).keys(), key_of(*addr)),
            !old(self).holds(*addr) ==> final(self).keys() == old(self).keys(),
            forall|k: AddressKey| final(self).keys().contains(k) <==> old(self).keys().contains(k),
            forall|a: Address| final(self).holds(a) <==> old(self).holds(a),
    {
        let key = address_key(addr);
        proof {
            if self.keys().contains(key) {
                lemma_touched(self.keys(), key);
            }
        }
        cache_get(&mut self.connections, &key)
    }

    /// Keeps `connection` as the connection to `addr`, in place of the one
    /// held so far, if any, which is handed back. If the cache is full and
    /// holds none to `addr`, the connection that was not used for the longest
    /// time is dropped. No other connection leaves the cache.
    pub fn insert(&mut self, addr: Address, connection: Arc<Connection>) -> (replaced: Option<Arc<Connection>>)
        requires
            old(self).wf(),
        ensures
            final(self).wf(),
            final(self).keys() == inserted(old(self).keys(), CONNECTIONS_CACHE_SIZE as nat, key_of(addr)),
            final(self).holds(addr),
            final(self).keys().last() == key_of(addr),
            replaced is Some <==> old(self).holds(addr),
            forall|k: AddressKey| final(self).keys().contains(k) ==> k == key_of(addr) || old(self).keys().contains(k),
            old(self).holds(addr) || old(self).keys().len() < CONNECTIONS_CACHE_SIZE ==> forall|k: AddressKey|
                old(self).keys().contains(k) ==> final(self).keys().contains(k),
            forall|a: Address| final(self).holds(a) ==> a == addr || old(self).holds(a),
    {
        let key = address_key(&addr);
        proof {
            if self.keys().contains(key) {
                lemma_touched(self.keys(), key);
            } else {
                lemma_inserted_new(self.keys(), CONNECTIONS_CACHE_SIZE as nat, key);
            }
        }
        let replaced = cache_insert(&mut self.connections, key, connection);
        proof {
            let keys = self.keys();
            assert(keys[keys.len() - 1] == key);
            assert forall|a: Address| self.holds(a) implies a == addr || old(self).holds(a) by {
                if key_of(a) == key {
                    lemma_key_of_injective(a, addr);
                }
            }
        }
        replaced
    }
}

} // verus!
