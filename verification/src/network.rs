//! The peer-to-peer network core: a directory node plus the table of
//! per-peer connection records. The decision logic here is
//! synchronous and verified; asynchronous lock plumbing around it is
//! a caller's concern.

use vstd::prelude::*;
use crate::directory::DHTNode;
use crate::directory::DHTStats;
use crate::directory::PeerInfo;
use crate::directory::PeerView;
use crate::directory::has_user;
use crate::directory::lookup_post;
use crate::directory::user_record;

verus! {

/// Connection lifecycle states.
#[derive(Debug, Clone)]
pub enum ConnectionStatus {
    /// Connection being established.
    Connecting,
    /// Transport established, not yet authenticated.
    Connected,
    /// Handshake complete.
    Authenticated,
    /// Connection closed.
    Disconnected,
    /// Connection failed.
    Error(String),
}

/// Connection state for one peer.
#[derive(Debug)]
pub struct PeerConnection {
    /// Peer username.
    pub username: String,
    /// Connection status.
    pub status: ConnectionStatus,
    /// Last activity timestamp, Unix seconds.
    pub last_activity: i64,
    /// Session secret agreed with the peer, once established.
    pub shared_secret: Option<Vec<u8>>,
}

/// Whether some connection in `s` belongs to username `u`.
pub open spec fn has_conn(s: Seq<PeerConnection>, u: Seq<char>) -> bool {
    exists|i: int| 0 <= i < s.len() && s[i].username@ == u
}

/// The index of the connection for `u`.
pub open spec fn conn_index(s: Seq<PeerConnection>, u: Seq<char>) -> int {
    choose|i: int| 0 <= i < s.len() && s[i].username@ == u
}

/// Whether the connection for `u` is authenticated; meaningful when
/// `has_conn(s, u)` and usernames are unique.
pub open spec fn conn_authenticated(s: Seq<PeerConnection>, u: Seq<char>) -> bool {
    s[conn_index(s, u)].status is Authenticated
}

/// No two connections share a username.
pub open spec fn unique_conn_usernames(s: Seq<PeerConnection>) -> bool {
    forall|i: int, j: int| 0 <= i < j < s.len() ==> s[i].username@ != s[j].username@
}

/// The peer-to-peer network manager: the directory node and the
/// active connection records.
pub struct P2PNetwork {
    /// Username discovery.
    dht: DHTNode,
    /// Connection records, at most one per username.
    peers: Vec<PeerConnection>,
}

impl P2PNetwork {
    /// The directory's stored records.
    pub closed spec fn spec_entries(self) -> Seq<PeerView> {
        self.dht.spec_entries()
    }

    /// The connection records.
    pub closed spec fn spec_peers(self) -> Seq<PeerConnection> {
        self.peers@
    }

    /// Both stores hold at most one entry per username.
    pub closed spec fn wf(self) -> bool {
        &&& self.dht.wf()
        &&& unique_conn_usernames(self.peers@)
    }

    /// Create a network manager with an empty directory and no
    /// connections.
    pub fn new(peer_id: Vec<u8>) -> (r: Self)
        ensures
            r.wf(),
            r.spec_entries().len() == 0,
            r.spec_peers().len() == 0,
    {
        P2PNetwork { dht: DHTNode::new(peer_id), peers: Vec::new() }
    }

    /// Publish this peer's record to the directory.
    pub fn publish_self(&mut self, peer_info: PeerInfo) -> (r: Result<(), String>)
        requires
            old(self).wf(),
        ensures
            final(self).wf(),
            final(self).spec_peers() == old(self).spec_peers(),
            r is Ok,
            has_user(final(self).spec_entries(), peer_info@.username),
            user_record(final(self).spec_entries(), peer_info@.username) == peer_info@,
            forall|u: Seq<char>| u != peer_info@.username ==> (
                #[trigger] has_user(final(self).spec_entries(), u)
                    <==> has_user(old(self).spec_entries(), u)),
    {
        self.dht.publish(peer_info)
    }

    /// Look up a peer's record in the directory.
    pub fn discover_peer(&mut self, username: &str) -> (r: Result<Option<PeerInfo>, String>)
        requires
            old(self).wf(),
        ensures
            final(self).wf(),
            final(self).spec_peers() == old(self).spec_peers(),
            match r {
                Ok(found) => exists|now: int| lookup_post(
                    old(self).spec_entries(), final(self).spec_entries(), username@, now, found),
                Err(_) => false,
            },
    {
        let r = self.dht.lookup(username);
        proof {
            if r is Ok {
                let now = choose|now: int| lookup_post(
                    old(self).dht.spec_entries(), self.dht.spec_entries(), username@, now,
                    r.unwrap());
                assert(lookup_post(
                    old(self).spec_entries(), self.spec_entries(), username@, now, r.unwrap()));
            }
        }
        r
    }

    /// Connect to a peer by username: look it up in the directory and
    /// record a connection in the `Connecting` state.
    ///
    /// Fails exactly when the lookup finds no fresh record; the
    /// connection table is then unchanged.
    pub fn connect_to_peer(&mut self, username: &str) -> (r: Result<(), String>)
        requires
            old(self).wf(),
        ensures
            final(self).wf(),
            match r {
                Ok(_) => {
                    &&& has_conn(final(self).spec_peers(), username@)
                    &&& final(self).spec_peers()[conn_index(final(self).spec_peers(), username@)]
                        .status is Connecting
                    &&& forall|u: Seq<char>| u != username@ ==> (
                        #[trigger] has_conn(final(self).spec_peers(), u)
                            <==> has_conn(old(self).spec_peers(), u))
                },
                Err(_) => final(self).spec_peers() == old(self).spec_peers(),
            },
    {
        let found = match self.dht.lookup(username) {
            Ok(f) => f,
            Err(e) => {
                return Err(e);
            },
        };
        if found.is_none() {
            return Err("Peer not found".to_string());
        }

        let connection = PeerConnection {
            username: username.to_string(),
            status: ConnectionStatus::Connecting,
            last_activity: crate::clock::now_timestamp_secs(),
            shared_secret: None,
        };

        let ghost old_peers = self.peers@;
        let uname = username.to_string();
        let mut found = false;
        let mut i: usize = 0;
        while !found && i < self.peers.len()
            invariant
                old_peers == self.peers@,
                unique_conn_usernames(self.peers@),
                uname@ == username@,
                i <= self.peers@.len(),
                forall|j: int| 0 <= j < i ==> self.peers@[j].username@ != username@,
                found ==> i < self.peers@.len() && self.peers@[i as int].username@ == username@,
            decreases self.peers@.len() - i, (if found { 0int } else { 1int }),
        {
            if self.peers[i].username == uname {
                found = true;
            } else {
                i = i + 1;
            }
        }
        if found {
            proof {
                assert(self.peers@[i as int].username@ == username@);
            }
            self.peers[i] = connection;
            proof {
                lemma_conn_update(old_peers, self.peers@, i as int, username@);
            }
        } else {
            proof {
                assert(!has_conn(self.peers@, username@));
            }
            self.peers.push(connection);
            proof {
                lemma_conn_push(old_peers, self.peers@, username@);
            }
        }
        Ok(())
    }

    /// Whether a message may be sent to the peer: requires an
    /// authenticated connection.
    ///
    /// Succeeds exactly when an authenticated connection for the
    /// username exists; the message itself is handed to the transport
    /// by the caller.
    pub fn send_message(&self, username: &str, message: &[u8]) -> (r: Result<(), String>)
        requires
            self.wf(),
        ensures
            r is Ok <==> has_conn(self.spec_peers(), username@)
                && conn_authenticated(self.spec_peers(), username@),
    {
        let uname = username.to_string();
        let mut i: usize = 0;
        while i < self.peers.len()
            invariant
                self.wf(),
                uname@ == username@,
                i <= self.peers@.len(),
                forall|j: int| 0 <= j < i ==> self.peers@[j].username@ != username@,
            decreases self.peers@.len() - i,
        {
            if self.peers[i].username == uname {
                proof {
                    lemma_unique_conn_index(self.peers@, username@, i as int);
                }
                if matches!(&self.peers[i].status, ConnectionStatus::Authenticated) {
                    return Ok(());
                } else {
                    return Err("Not authenticated with peer".to_string());
                }
            }
            i = i + 1;
        }
        Err("No connection to peer".to_string())
    }

    /// Directory statistics at the wall clock's current time.
    pub fn get_stats(&self) -> (r: DHTStats)
        ensures
            r.total_peers == self.spec_entries().len(),
            r.total_peers == r.active_peers + r.expired_peers,
    {
        self.dht.stats()
    }

    /// Sweep expired records from the directory.
    pub fn cleanup(&mut self)
        requires
            old(self).wf(),
        ensures
            final(self).wf(),
            final(self).spec_peers() == old(self).spec_peers(),
    {
        self.dht.cleanup_expired();
    }
}

/// With unique usernames, any index holding username `u` is the index
/// that `conn_index` picks.
proof fn lemma_unique_conn_index(s: Seq<PeerConnection>, u: Seq<char>, i: int)
    requires
        unique_conn_usernames(s),
        0 <= i < s.len(),
        s[i].username@ == u,
    ensures
        has_conn(s, u),
        conn_index(s, u) == i,
{
    assert(has_conn(s, u));
    let j = conn_index(s, u);
    if j != i {
        if j < i {
            assert(s[j].username@ != s[i].username@);
        } else {
            assert(s[i].username@ != s[j].username@);
        }
    }
}

/// Replacing the connection at an index with one of the same
/// username keeps uniqueness and other usernames' presence.
proof fn lemma_conn_update(s_old: Seq<PeerConnection>, s_new: Seq<PeerConnection>, i: int, u: Seq<char>)
    requires
        unique_conn_usernames(s_old),
        0 <= i < s_old.len(),
        s_new == s_old.update(i, s_new[i]),
        s_new.len() == s_old.len(),
        s_old[i].username@ == u,
        s_new[i].username@ == u,
    ensures
        unique_conn_usernames(s_new),
        has_conn(s_new, u),
        conn_index(s_new, u) == i,
        forall|v: Seq<char>| v != u ==> (
            #[trigger] has_conn(s_new, v) <==> has_conn(s_old, v)),
{
    assert forall|p: int, q: int| 0 <= p < q < s_new.len()
        implies s_new[p].username@ != s_new[q].username@ by {
        assert(s_old[p].username@ != s_old[q].username@);
    }
    lemma_unique_conn_index(s_new, u, i);
    assert forall|v: Seq<char>| v != u
        implies (has_conn(s_new, v) <==> has_conn(s_old, v)) by {
        if has_conn(s_new, v) {
            let j = choose|j: int| 0 <= j < s_new.len() && s_new[j].username@ == v;
            assert(s_old[j].username@ == v);
        }
        if has_conn(s_old, v) {
            let j = choose|j: int| 0 <= j < s_old.len() && s_old[j].username@ == v;
            assert(s_new[j].username@ == v);
        }
    }
}

/// Appending a connection with a fresh username keeps uniqueness and
/// other usernames' presence.
proof fn lemma_conn_push(s_old: Seq<PeerConnection>, s_new: Seq<PeerConnection>, u: Seq<char>)
    requires
        unique_conn_usernames(s_old),
        s_new.len() == s_old.len() + 1,
        s_new == s_old.push(s_new.last()),
        s_new.last().username@ == u,
        !has_conn(s_old, u),
    ensures
        unique_conn_usernames(s_new),
        has_conn(s_new, u),
        conn_index(s_new, u) == s_old.len(),
        forall|v: Seq<char>| v != u ==> (
            #[trigger] has_conn(s_new, v) <==> has_conn(s_old, v)),
{
    let n = s_old.len() as int;
    assert forall|p: int, q: int| 0 <= p < q < s_new.len()
        implies s_new[p].username@ != s_new[q].username@ by {
        if q < n {
            assert(s_old[p].username@ != s_old[q].username@);
        } else {
            if s_new[p].username@ == s_new[q].username@ {
                assert(s_old[p].username@ == u);
                assert(has_conn(s_old, u));
            }
        }
    }
    lemma_unique_conn_index(s_new, u, n);
    assert forall|v: Seq<char>| v != u
        implies (has_conn(s_new, v) <==> has_conn(s_old, v)) by {
        if has_conn(s_new, v) {
            let j = choose|j: int| 0 <= j < s_new.len() && s_new[j].username@ == v;
            assert(j < n);
            assert(s_old[j].username@ == v);
        }
        if has_conn(s_old, v) {
            let j = choose|j: int| 0 <= j < s_old.len() && s_old[j].username@ == v;
            assert(s_new[j].username@ == v);
        }
    }
}

} // verus!
