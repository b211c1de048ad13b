//! The peer directory: an in-memory record store keyed by username,
//! with TTL-based freshness, opportunistic eviction on lookup, sweep
//! cleanup and statistics.
//!
//! All time-dependent operations take the current time as an argument
//! and are verified for every value of it; thin companions read the
//! wall clock and delegate.

use vstd::prelude::*;
use crate::routing::RoutingTable;

verus! {

/// Default record time-to-live: one hour.
pub const DEFAULT_TTL_SECS: u32 = 3600;

/// A network endpoint as plain values: IP octets and a port.
#[derive(Debug)]
pub struct Endpoint {
    /// IP address octets (4 for IPv4, 16 for IPv6).
    pub ip: Vec<u8>,
    /// UDP/TCP port.
    pub port: u16,
}

/// The mathematical value of an [`Endpoint`].
pub struct EndpointView {
    /// IP address octets.
    pub ip: Seq<u8>,
    /// Port.
    pub port: u16,
}

impl View for Endpoint {
    type V = EndpointView;

    open spec fn view(&self) -> EndpointView {
        EndpointView { ip: self.ip@, port: self.port }
    }
}

impl Endpoint {
    /// An exact copy of this endpoint.
    pub fn clone(&self) -> (r: Self)
        ensures
            r@ == self@,
    {
        let ip = clone_bytes(&self.ip);
        Endpoint { ip, port: self.port }
    }
}

/// Copy a byte vector exactly.
pub(crate) fn clone_bytes(v: &Vec<u8>) -> (r: Vec<u8>)
    ensures
        r@ == v@,
{
    let r = v.clone();
    proof {
        assert(r@ =~= v@);
    }
    r
}

/// One published peer record.
#[derive(Debug)]
pub struct PeerInfo {
    /// Username the record is keyed by.
    pub username: String,
    /// Public key used to verify the record's signature.
    pub public_key: Vec<u8>,
    /// Network endpoints the peer listens on.
    pub endpoints: Vec<Endpoint>,
    /// Signature proving ownership of the private key.
    pub signature: Vec<u8>,
    /// Publication time, Unix seconds.
    pub timestamp: i64,
    /// Time-to-live in seconds.
    pub ttl: u32,
}

/// The mathematical value of a [`PeerInfo`].
pub struct PeerView {
    /// Username.
    pub username: Seq<char>,
    /// Public key bytes.
    pub public_key: Seq<u8>,
    /// Endpoints.
    pub endpoints: Seq<EndpointView>,
    /// Signature bytes.
    pub signature: Seq<u8>,
    /// Publication time, Unix seconds.
    pub timestamp: int,
    /// Time-to-live in seconds.
    pub ttl: int,
}

impl PeerView {
    /// A record is expired when its age exceeds its time-to-live.
    pub open spec fn expired_at(self, now: int) -> bool {
        now - self.timestamp > self.ttl
    }
}

impl View for PeerInfo {
    type V = PeerView;

    open spec fn view(&self) -> PeerView {
        PeerView {
            username: self.username@,
            public_key: self.public_key@,
            endpoints: self.endpoints@.map_values(|e: Endpoint| e@),
            signature: self.signature@,
            timestamp: self.timestamp as int,
            ttl: self.ttl as int,
        }
    }
}

impl PeerInfo {
    /// Create a record published now, with the default TTL.
    pub fn new(
        username: String,
        public_key: Vec<u8>,
        endpoints: Vec<Endpoint>,
        signature: Vec<u8>,
    ) -> (r: PeerInfo)
        ensures
            r.username@ == username@,
            r.public_key@ == public_key@,
            r.endpoints == endpoints,
            r.signature@ == signature@,
            r.ttl == DEFAULT_TTL_SECS,
    {
        let timestamp = crate::clock::now_timestamp_secs();
        PeerInfo { username, public_key, endpoints, signature, timestamp, ttl: DEFAULT_TTL_SECS }
    }

    /// Whether this record is expired at the given time.
    pub fn is_expired_at(&self, now: i64) -> (r: bool)
        ensures
            r == self@.expired_at(now as int),
    {
        (now as i128) - (self.timestamp as i128) > (self.ttl as i128)
    }

    /// Whether this record is expired at the wall clock's current
    /// time; the verified freshness rule is [`PeerInfo::is_expired_at`].
    pub fn is_expired(&self) -> bool {
        let now = crate::clock::now_timestamp_secs();
        self.is_expired_at(now)
    }

    /// An exact copy of this record.
    pub fn clone(&self) -> (r: Self)
        ensures
            r@ == self@,
    {
        let username = self.username.clone();
        let public_key = clone_bytes(&self.public_key);
        let signature = clone_bytes(&self.signature);
        let mut endpoints: Vec<Endpoint> = Vec::new();
        let mut i: usize = 0;
        while i < self.endpoints.len()
            invariant
                i <= self.endpoints@.len(),
                endpoints@.len() == i,
                forall|j: int| 0 <= j < i ==> endpoints@[j]@ == self.endpoints@[j]@,
            decreases self.endpoints@.len() - i,
        {
            endpoints.push(self.endpoints[i].clone());
            i = i + 1;
        }
        let r = PeerInfo {
            username,
            public_key,
            endpoints,
            signature,
            timestamp: self.timestamp,
            ttl: self.ttl,
        };
        proof {
            assert(r@.endpoints =~= self@.endpoints);
        }
        r
    }
}

/// Whether some record in `s` is keyed by username `u`.
pub open spec fn has_user(s: Seq<PeerView>, u: Seq<char>) -> bool {
    exists|i: int| 0 <= i < s.len() && s[i].username == u
}

/// The index of the record keyed by `u`.
pub open spec fn user_index(s: Seq<PeerView>, u: Seq<char>) -> int {
    choose|i: int| 0 <= i < s.len() && s[i].username == u
}

/// The record keyed by `u`; meaningful when `has_user(s, u)` and the
/// usernames in `s` are unique.
pub open spec fn user_record(s: Seq<PeerView>, u: Seq<char>) -> PeerView {
    s[user_index(s, u)]
}

/// No two records share a username.
pub open spec fn unique_usernames(s: Seq<PeerView>) -> bool {
    forall|i: int, j: int| 0 <= i < j < s.len() ==> s[i].username != s[j].username
}

/// Statistics about the record store at one point in time.
#[derive(Debug)]
pub struct DHTStats {
    /// All stored records.
    pub total_peers: usize,
    /// Records not yet expired.
    pub active_peers: usize,
    /// Records already expired but not yet swept.
    pub expired_peers: usize,
}

/// How many records of `s` are expired at `now`.
pub open spec fn n_expired(s: Seq<PeerView>, now: int) -> nat
    decreases s.len(),
{
    if s.len() == 0 {
        0
    } else {
        n_expired(s.drop_last(), now) + if s.last().expired_at(now) { 1nat } else { 0nat }
    }
}

/// The directory node: a record store keyed by username, plus a
/// routing table for distance-based peer lookups.
pub struct DHTNode {
    /// This node's identifier.
    peer_id: Vec<u8>,
    /// Stored records, at most one per username.
    entries: Vec<PeerInfo>,
    /// Distance-bucketed routing table, seeded with this node's id.
    routing_table: RoutingTable,
}

impl DHTNode {
    /// The stored records, as mathematical values.
    pub closed spec fn spec_entries(self) -> Seq<PeerView> {
        self.entries@.map_values(|p: PeerInfo| p@)
    }

    /// This node's identifier.
    pub closed spec fn spec_peer_id(self) -> Seq<u8> {
        self.peer_id@
    }

    /// The store never holds two records for one username.
    pub closed spec fn wf(self) -> bool {
        unique_usernames(self.spec_entries())
    }

    /// Create an empty directory node.
    pub fn new(peer_id: Vec<u8>) -> (r: Self)
        ensures
            r.wf(),
            r.spec_peer_id() == peer_id@,
            r.spec_entries().len() == 0,
    {
        let local_id = clone_bytes(&peer_id);
        let r = DHTNode {
            peer_id,
            entries: Vec::new(),
            routing_table: RoutingTable::with_local_id(local_id, 20),
        };
        proof {
            assert(r.spec_entries() =~= Seq::<PeerView>::empty());
        }
        r
    }

    /// This node's identifier.
    pub fn peer_id(&self) -> (r: &Vec<u8>)
        ensures
            r@ == self.spec_peer_id(),
    {
        &self.peer_id
    }

    /// Insert or overwrite the record stored under its username.
    ///
    /// Afterwards the store holds exactly the new record for that
    /// username and every other username's record is unchanged.
    pub fn publish(&mut self, peer_info: PeerInfo) -> (r: Result<(), String>)
        requires
            old(self).wf(),
        ensures
            final(self).wf(),
            r is Ok,
            final(self).spec_peer_id() == old(self).spec_peer_id(),
            has_user(final(self).spec_entries(), peer_info@.username),
            user_record(final(self).spec_entries(), peer_info@.username) == peer_info@,
            forall|u: Seq<char>| u != peer_info@.username ==> (
                #[trigger] has_user(final(self).spec_entries(), u)
                    <==> has_user(old(self).spec_entries(), u)),
            forall|u: Seq<char>| u != peer_info@.username
                && has_user(old(self).spec_entries(), u)
                ==> #[trigger] user_record(final(self).spec_entries(), u)
                    == user_record(old(self).spec_entries(), u),
    {
        let ghost old_views = self.spec_entries();
        let mut i: usize = 0;
        while i < self.entries.len()
            invariant
                *self == *old(self),
                old(self).wf(),
                old_views == old(self).spec_entries(),
                i <= self.entries@.len(),
                forall|j: int| 0 <= j < i ==> self.spec_entries()[j].username != peer_info@.username,
            decreases self.entries@.len() - i,
        {
            if self.entries[i].username == peer_info.username {
                self.entries[i] = peer_info;
                proof {
                    let s_new = self.spec_entries();
                    let s_old = old_views;
                    assert(s_new =~= s_old.update(i as int, self.entries@[i as int]@));
                    lemma_store_update(s_old, s_new, i as int);
                }
                return Ok(());
            }
            i = i + 1;
        }
        self.entries.push(peer_info);
        proof {
            let s_new = self.spec_entries();
            let s_old = old_views;
            assert(s_new =~= s_old.push(s_new.last()));
            lemma_store_push(s_old, s_new);
        }
        Ok(())
    }

    /// Look up a username at a given time.
    ///
    /// Returns the stored record when it exists and is fresh; on an
    /// expired hit the record is evicted and `None` is returned; the
    /// store is otherwise unchanged.
    pub fn lookup_at(&mut self, username: &str, now: i64) -> (r: Option<PeerInfo>)
        requires
            old(self).wf(),
        ensures
            final(self).wf(),
            final(self).spec_peer_id() == old(self).spec_peer_id(),
            lookup_post(old(self).spec_entries(), final(self).spec_entries(), username@, now as int, r),
    {
        let ghost old_views = self.spec_entries();
        let uname = username.to_string();
        let mut i: usize = 0;
        while i < self.entries.len()
            invariant
                *self == *old(self),
                old(self).wf(),
                old_views == old(self).spec_entries(),
                uname@ == username@,
                i <= self.entries@.len(),
                forall|j: int| 0 <= j < i ==> self.spec_entries()[j].username != username@,
            decreases self.entries@.len() - i,
        {
            if self.entries[i].username == uname {
                proof {
                    assert(old_views[i as int].username == username@);
                    lemma_unique_user_index(old_views, username@, i as int);
                }
                if self.entries[i].is_expired_at(now) {
                    self.entries.remove(i);
                    proof {
                        let s_new = self.spec_entries();
                        assert(s_new =~= old_views.remove(i as int));
                        lemma_store_remove(old_views, s_new, i as int);
                    }
                    return None;
                } else {
                    let record = self.entries[i].clone();
                    return Some(record);
                }
            }
            i = i + 1;
        }
        None
    }

    /// Look up a username at the wall clock's current time. The
    /// verified freshness rule is [`DHTNode::lookup_at`], which this
    /// calls with the time it read.
    pub fn lookup(&mut self, username: &str) -> (r: Result<Option<PeerInfo>, String>)
        requires
            old(self).wf(),
        ensures
            final(self).wf(),
            final(self).spec_peer_id() == old(self).spec_peer_id(),
            match r {
                Ok(found) => exists|now: int| lookup_post(
                    old(self).spec_entries(), final(self).spec_entries(), username@, now, found),
                Err(_) => false,
            },
    {
        let now = crate::clock::now_timestamp_secs();
        let r = self.lookup_at(username, now);
        proof {
            assert(lookup_post(
                old(self).spec_entries(), self.spec_entries(), username@, now as int, r));
        }
        Ok(r)
    }

    /// Drop every record that is expired at the given time; fresh
    /// records are kept unchanged.
    pub fn cleanup_expired_at(&mut self, now: i64)
        requires
            old(self).wf(),
        ensures
            final(self).wf(),
            final(self).spec_peer_id() == old(self).spec_peer_id(),
            forall|u: Seq<char>| #[trigger] has_user(final(self).spec_entries(), u)
                <==> has_user(old(self).spec_entries(), u)
                    && !user_record(old(self).spec_entries(), u).expired_at(now as int),
            forall|u: Seq<char>| #[trigger] has_user(final(self).spec_entries(), u)
                ==> user_record(final(self).spec_entries(), u)
                    == user_record(old(self).spec_entries(), u),
    {
        let ghost old_views = self.spec_entries();
        let mut retained: Vec<PeerInfo> = Vec::new();
        let mut i: usize = 0;
        while i < self.entries.len()
            invariant
                *self == *old(self),
                old(self).wf(),
                i <= self.entries@.len(),
                old_views == old(self).spec_entries(),
                retained@.map_values(|p: PeerInfo| p@)
                    =~= old_views.take(i as int).filter(|p: PeerView| !p.expired_at(now as int)),
            decreases self.entries@.len() - i,
        {
            proof {
                assert(old_views.take(i + 1 as int).drop_last() =~= old_views.take(i as int));
                reveal_with_fuel(Seq::filter, 2);
            }
            if !self.entries[i].is_expired_at(now) {
                retained.push(self.entries[i].clone());
            }
            i = i + 1;
        }
        proof {
            assert(old_views.take(old_views.len() as int) =~= old_views);
        }
        self.entries = retained;
        proof {
            let s_new = self.spec_entries();
            let pred = |p: PeerView| !p.expired_at(now as int);
            assert(s_new =~= old_views.filter(pred));
            lemma_store_filter(old_views, s_new, pred);
        }
    }

    /// Drop every record expired at the wall clock's current time.
    /// The verified sweep rule is [`DHTNode::cleanup_expired_at`].
    pub fn cleanup_expired(&mut self)
        requires
            old(self).wf(),
        ensures
            final(self).wf(),
            final(self).spec_peer_id() == old(self).spec_peer_id(),
    {
        let now = crate::clock::now_timestamp_secs();
        self.cleanup_expired_at(now);
    }

    /// Count total, active and expired records at a given time.
    pub fn stats_at(&self, now: i64) -> (r: DHTStats)
        ensures
            r.total_peers == self.spec_entries().len(),
            r.expired_peers == n_expired(self.spec_entries(), now as int),
            r.active_peers == self.spec_entries().len() - n_expired(self.spec_entries(), now as int),
            r.total_peers == r.active_peers + r.expired_peers,
    {
        let mut expired: usize = 0;
        let mut i: usize = 0;
        while i < self.entries.len()
            invariant
                i <= self.entries@.len(),
                expired == n_expired(self.spec_entries().take(i as int), now as int),
                expired <= i,
            decreases self.entries@.len() - i,
        {
            proof {
                let s = self.spec_entries();
                assert(s.take(i + 1 as int).drop_last() =~= s.take(i as int));
                assert(s.take(i + 1 as int).last() == s[i as int]);
            }
            if self.entries[i].is_expired_at(now) {
                expired = expired + 1;
            }
            i = i + 1;
        }
        proof {
            assert(self.spec_entries().take(self.spec_entries().len() as int)
                =~= self.spec_entries());
        }
        DHTStats {
            total_peers: self.entries.len(),
            active_peers: self.entries.len() - expired,
            expired_peers: expired,
        }
    }

    /// Count records at the wall clock's current time. The verified
    /// counting rule is [`DHTNode::stats_at`].
    pub fn stats(&self) -> (r: DHTStats)
        ensures
            r.total_peers == self.spec_entries().len(),
            r.total_peers == r.active_peers + r.expired_peers,
    {
        let now = crate::clock::now_timestamp_secs();
        self.stats_at(now)
    }
}

/// What a lookup at time `now` returns and leaves behind: the fresh
/// stored record (store unchanged), or `None` with the store
/// unchanged (no record) or with exactly the expired record evicted.
pub open spec fn lookup_post(
    old_s: Seq<PeerView>,
    new_s: Seq<PeerView>,
    u: Seq<char>,
    now: int,
    r: Option<PeerInfo>,
) -> bool {
    match r {
        Option::Some(rec) => {
            &&& new_s == old_s
            &&& has_user(old_s, u)
            &&& rec@ == user_record(old_s, u)
            &&& !rec@.expired_at(now)
        },
        Option::None => {
            if !has_user(old_s, u) {
                new_s == old_s
            } else {
                &&& user_record(old_s, u).expired_at(now)
                &&& !has_user(new_s, u)
                &&& forall|v: Seq<char>| v != u ==> (
                    #[trigger] has_user(new_s, v) <==> has_user(old_s, v))
                &&& forall|v: Seq<char>| v != u && has_user(old_s, v)
                    ==> #[trigger] user_record(new_s, v) == user_record(old_s, v)
            }
        },
    }
}

/// Directory expiry law: a record published `ttl + 1` seconds before
/// `now` is expired at `now`, so by [`DHTNode::lookup_at`]'s contract
/// a lookup at `now` returns `None` and leaves the store without it.
pub proof fn lemma_expired_record_rejected(
    s_old: Seq<PeerView>,
    s_new: Seq<PeerView>,
    u: Seq<char>,
    now: int,
    r: Option<PeerInfo>,
)
    requires
        has_user(s_old, u),
        user_record(s_old, u).timestamp == now - user_record(s_old, u).ttl - 1,
        lookup_post(s_old, s_new, u, now, r),
    ensures
        user_record(s_old, u).expired_at(now),
        r is None,
        !has_user(s_new, u),
{
    assert(user_record(s_old, u).expired_at(now));
    if r is Some {
        assert(!r.unwrap()@.expired_at(now));
    }
}

/// With unique usernames, any index holding username `u` is the index
/// that `user_index` picks.
proof fn lemma_unique_user_index(s: Seq<PeerView>, u: Seq<char>, i: int)
    requires
        unique_usernames(s),
        0 <= i < s.len(),
        s[i].username == u,
    ensures
        has_user(s, u),
        user_index(s, u) == i,
        user_record(s, u) == s[i],
{
    assert(has_user(s, u));
    let j = user_index(s, u);
    if j != i {
        if j < i {
            assert(s[j].username != s[i].username);
        } else {
            assert(s[i].username != s[j].username);
        }
    }
}

/// Updating one record in place with a record of the same username
/// keeps uniqueness and changes only that username's record.
proof fn lemma_store_update(s_old: Seq<PeerView>, s_new: Seq<PeerView>, i: int)
    requires
        unique_usernames(s_old),
        0 <= i < s_old.len(),
        s_new == s_old.update(i, s_new[i]),
        s_new.len() == s_old.len(),
        s_new[i].username == s_old[i].username,
    ensures
        unique_usernames(s_new),
        has_user(s_new, s_new[i].username),
        user_record(s_new, s_new[i].username) == s_new[i],
        forall|u: Seq<char>| u != s_new[i].username ==> (
            #[trigger] has_user(s_new, u) <==> has_user(s_old, u)),
        forall|u: Seq<char>| u != s_new[i].username && has_user(s_old, u)
            ==> #[trigger] user_record(s_new, u) == user_record(s_old, u),
{
    assert forall|p: int, q: int| 0 <= p < q < s_new.len()
        implies s_new[p].username != s_new[q].username by {
        assert(s_old[p].username != s_old[q].username);
    }
    lemma_unique_user_index(s_new, s_new[i].username, i);
    assert forall|u: Seq<char>| u != s_new[i].username
        implies (has_user(s_new, u) <==> has_user(s_old, u)) by {
        if has_user(s_new, u) {
            let j = choose|j: int| 0 <= j < s_new.len() && s_new[j].username == u;
            assert(s_old[j].username == u);
        }
        if has_user(s_old, u) {
            let j = choose|j: int| 0 <= j < s_old.len() && s_old[j].username == u;
            assert(s_new[j].username == u);
        }
    }
    assert forall|u: Seq<char>| u != s_new[i].username && has_user(s_old, u)
        implies user_record(s_new, u) == user_record(s_old, u) by {
        let j = choose|j: int| 0 <= j < s_old.len() && s_old[j].username == u;
        lemma_unique_user_index(s_old, u, j);
        assert(s_new[j].username == u);
        lemma_unique_user_index(s_new, u, j);
    }
}

/// Appending a record with a fresh username keeps uniqueness, stores
/// it under its username, and leaves every other record unchanged.
proof fn lemma_store_push(s_old: Seq<PeerView>, s_new: Seq<PeerView>)
    requires
        unique_usernames(s_old),
        s_new.len() == s_old.len() + 1,
        s_new == s_old.push(s_new.last()),
        !has_user(s_old, s_new.last().username),
    ensures
        unique_usernames(s_new),
        has_user(s_new, s_new.last().username),
        user_record(s_new, s_new.last().username) == s_new.last(),
        forall|u: Seq<char>| u != s_new.last().username ==> (
            #[trigger] has_user(s_new, u) <==> has_user(s_old, u)),
        forall|u: Seq<char>| u != s_new.last().username && has_user(s_old, u)
            ==> #[trigger] user_record(s_new, u) == user_record(s_old, u),
{
    let n = s_old.len() as int;
    assert forall|p: int, q: int| 0 <= p < q < s_new.len()
        implies s_new[p].username != s_new[q].username by {
        if q < n {
            assert(s_old[p].username != s_old[q].username);
        } else {
            if s_new[p].username == s_new[q].username {
                assert(s_old[p].username == s_new.last().username);
                assert(has_user(s_old, s_new.last().username));
            }
        }
    }
    lemma_unique_user_index(s_new, s_new.last().username, n);
    assert forall|u: Seq<char>| u != s_new.last().username
        implies (has_user(s_new, u) <==> has_user(s_old, u)) by {
        if has_user(s_new, u) {
            let j = choose|j: int| 0 <= j < s_new.len() && s_new[j].username == u;
            assert(j < n);
            assert(s_old[j].username == u);
        }
        if has_user(s_old, u) {
            let j = choose|j: int| 0 <= j < s_old.len() && s_old[j].username == u;
            assert(s_new[j].username == u);
        }
    }
    assert forall|u: Seq<char>| u != s_new.last().username && has_user(s_old, u)
        implies user_record(s_new, u) == user_record(s_old, u) by {
        let j = choose|j: int| 0 <= j < s_old.len() && s_old[j].username == u;
        lemma_unique_user_index(s_old, u, j);
        assert(s_new[j].username == u);
        lemma_unique_user_index(s_new, u, j);
    }
}

/// Removing the record at one index keeps uniqueness, drops exactly
/// its username, and leaves every other record in place.
proof fn lemma_store_remove(s_old: Seq<PeerView>, s_new: Seq<PeerView>, i: int)
    requires
        unique_usernames(s_old),
        0 <= i < s_old.len(),
        s_new == s_old.remove(i),
    ensures
        unique_usernames(s_new),
        !has_user(s_new, s_old[i].username),
        forall|u: Seq<char>| u != s_old[i].username ==> (
            #[trigger] has_user(s_new, u) <==> has_user(s_old, u)),
        forall|u: Seq<char>| u != s_old[i].username && has_user(s_old, u)
            ==> #[trigger] user_record(s_new, u) == user_record(s_old, u),
{
    let n = s_old.len() as int;
    assert forall|p: int, q: int| 0 <= p < q < s_new.len()
        implies s_new[p].username != s_new[q].username by {
        let p0 = if p < i { p } else { p + 1 };
        let q0 = if q < i { q } else { q + 1 };
        assert(s_new[p] == s_old[p0]);
        assert(s_new[q] == s_old[q0]);
        assert(s_old[p0].username != s_old[q0].username);
    }
    assert forall|j: int| 0 <= j < s_new.len()
        implies s_new[j].username != s_old[i].username by {
        let j0 = if j < i { j } else { j + 1 };
        assert(s_new[j] == s_old[j0]);
        if j0 < i {
            assert(s_old[j0].username != s_old[i].username);
        } else {
            assert(s_old[i].username != s_old[j0].username);
        }
    }
    assert forall|u: Seq<char>| u != s_old[i].username
        implies (has_user(s_new, u) <==> has_user(s_old, u)) by {
        if has_user(s_new, u) {
            let j = choose|j: int| 0 <= j < s_new.len() && s_new[j].username == u;
            let j0 = if j < i { j } else { j + 1 };
            assert(s_old[j0].username == u);
        }
        if has_user(s_old, u) {
            let j = choose|j: int| 0 <= j < s_old.len() && s_old[j].username == u;
            if j < i {
                assert(s_new[j].username == u);
            } else {
                assert(j != i);
                assert(s_new[j - 1].username == u);
            }
        }
    }
    assert forall|u: Seq<char>| u != s_old[i].username && has_user(s_old, u)
        implies user_record(s_new, u) == user_record(s_old, u) by {
        let j = choose|j: int| 0 <= j < s_old.len() && s_old[j].username == u;
        lemma_unique_user_index(s_old, u, j);
        if j < i {
            assert(s_new[j].username == u);
            lemma_unique_user_index(s_new, u, j);
        } else {
            assert(j != i);
            assert(s_new[j - 1].username == u);
            lemma_unique_user_index(s_new, u, j - 1);
        }
    }
}

/// Filtering a store by freshness keeps uniqueness, keeps exactly the
/// usernames whose records satisfy the predicate, and leaves the kept
/// records unchanged.
proof fn lemma_store_filter(
    s_old: Seq<PeerView>,
    s_new: Seq<PeerView>,
    pred: spec_fn(PeerView) -> bool,
)
    requires
        unique_usernames(s_old),
        s_new == s_old.filter(pred),
    ensures
        unique_usernames(s_new),
        forall|u: Seq<char>| #[trigger] has_user(s_new, u)
            <==> has_user(s_old, u) && pred(user_record(s_old, u)),
        forall|u: Seq<char>| #[trigger] has_user(s_new, u)
            ==> user_record(s_new, u) == user_record(s_old, u),
    decreases s_old.len(),
{
    reveal_with_fuel(Seq::filter, 2);
    if s_old.len() == 0 {
        assert(s_new =~= Seq::<PeerView>::empty());
    } else {
        let prefix = s_old.drop_last();
        let last = s_old.last();
        let prefix_f = prefix.filter(pred);
        lemma_store_filter(prefix, prefix_f, pred);
        let n = s_old.len() - 1;
        assert forall|u: Seq<char>| u != last.username
            implies (has_user(prefix, u) <==> has_user(s_old, u)) by {
            if has_user(s_old, u) {
                let j = choose|j: int| 0 <= j < s_old.len() && s_old[j].username == u;
                assert(j < n);
                assert(prefix[j].username == u);
            }
            if has_user(prefix, u) {
                let j = choose|j: int| 0 <= j < prefix.len() && prefix[j].username == u;
                assert(s_old[j].username == u);
            }
        }
        assert(!has_user(prefix, last.username));
        assert forall|u: Seq<char>| u != last.username && has_user(prefix, u)
            implies user_record(prefix, u) == user_record(s_old, u) by {
            let j = user_index(prefix, u);
            assert(s_old[j].username == u);
            lemma_unique_user_index(s_old, u, j);
        }
        lemma_unique_user_index(s_old, last.username, n);
        if pred(last) {
            assert(s_new == prefix_f.push(last));
            lemma_store_push(prefix_f, s_new);
        } else {
            assert(s_new == prefix_f);
            assert(!has_user(s_new, last.username));
        }
    }
}

} // verus!
