use chakchat_core::clock::now_timestamp_secs;
use chakchat_core::directory::{DHTNode, Endpoint, PeerInfo};
use chakchat_core::network::P2PNetwork;
use chakchat_core::routing::{DHTNodeInfo, RoutingTable};

fn endpoint(ip: [u8; 4], port: u16) -> Endpoint {
    Endpoint { ip: ip.to_vec(), port }
}

#[test]
fn test_dht_publish_and_lookup() {
    let mut dht = DHTNode::new(b"peer1".to_vec());

    let peer_info = PeerInfo::new(
        "alice@chakchat".to_string(),
        b"pubkey123".to_vec(),
        vec![endpoint([192, 168, 1, 1], 8080)],
        b"signature".to_vec(),
    );

    // Publish
    dht.publish(peer_info.clone()).unwrap();

    // Lookup
    let found = dht.lookup("alice@chakchat").unwrap();
    assert!(found.is_some());
    assert_eq!(found.unwrap().username, "alice@chakchat");
}

#[test]
fn test_dht_lookup_nonexistent() {
    let mut dht = DHTNode::new(b"peer1".to_vec());

    let found = dht.lookup("nonexistent@chakchat").unwrap();
    assert!(found.is_none());
}

#[test]
fn test_p2p_network_discovery() {
    let mut network = P2PNetwork::new(b"peer1".to_vec());

    let peer_info = PeerInfo::new(
        "bob@chakchat".to_string(),
        b"pubkey456".to_vec(),
        vec![endpoint([192, 168, 1, 2], 8081)],
        b"signature2".to_vec(),
    );

    network.publish_self(peer_info).unwrap();

    let found = network.discover_peer("bob@chakchat").unwrap();
    assert!(found.is_some());
}

#[test]
fn test_dht_stats() {
    let mut dht = DHTNode::new(b"peer1".to_vec());

    let peer1 = PeerInfo::new(
        "alice".to_string(),
        b"key1".to_vec(),
        vec![],
        b"sig1".to_vec(),
    );

    let peer2 = PeerInfo::new(
        "bob".to_string(),
        b"key2".to_vec(),
        vec![],
        b"sig2".to_vec(),
    );

    dht.publish(peer1).unwrap();
    dht.publish(peer2).unwrap();

    let stats = dht.stats();
    assert_eq!(stats.total_peers, 2);
    assert_eq!(stats.active_peers, 2);
}

#[test]
fn test_routing_table_add_node() {
    let mut rt = RoutingTable::new(20);

    let node = DHTNodeInfo {
        node_id: b"node1".to_vec(),
        addr: endpoint([192, 168, 1, 1], 8080),
        last_seen: now_timestamp_secs(),
    };

    rt.add_node(node);

    let nearby = rt.get_nearby_nodes(b"target", 5);
    assert_eq!(nearby.len(), 1);
}

#[test]
fn expired_record_lookup_returns_none_and_evicts() {
    let mut dht = DHTNode::new(b"peer1".to_vec());

    let mut record = PeerInfo::new(
        "alice".to_string(),
        b"key".to_vec(),
        vec![],
        b"sig".to_vec(),
    );
    record.ttl = 0;
    record.timestamp = now_timestamp_secs() - 1;
    dht.publish(record).unwrap();

    let found = dht.lookup("alice").unwrap();
    assert!(found.is_none());
    let stats = dht.stats();
    assert_eq!(stats.total_peers, 0);
}

#[test]
fn expiry_boundary_is_exact() {
    let mut dht = DHTNode::new(b"peer1".to_vec());
    let mut record = PeerInfo::new("bob".to_string(), b"key".to_vec(), vec![], b"sig".to_vec());
    record.timestamp = 1000;
    record.ttl = 10;
    dht.publish(record).unwrap();

    // age == ttl: still fresh
    let found = dht.lookup_at("bob", 1010);
    assert!(found.is_some());
    assert!(!found.unwrap().is_expired_at(1010));
    // age == ttl + 1: expired, evicted
    let found = dht.lookup_at("bob", 1011);
    assert!(found.is_none());
    assert_eq!(dht.stats_at(1011).total_peers, 0);
}

#[test]
fn publish_overwrites_and_cleanup_sweeps() {
    let mut dht = DHTNode::new(b"peer1".to_vec());

    let mut fresh = PeerInfo::new("alice".to_string(), b"k1".to_vec(), vec![], b"s1".to_vec());
    fresh.timestamp = 1000;
    fresh.ttl = 100;
    dht.publish(fresh).unwrap();

    // overwrite under the same username
    let mut newer = PeerInfo::new("alice".to_string(), b"k2".to_vec(), vec![], b"s2".to_vec());
    newer.timestamp = 1050;
    newer.ttl = 100;
    dht.publish(newer).unwrap();
    assert_eq!(dht.stats_at(1060).total_peers, 1);
    let found = dht.lookup_at("alice", 1060).unwrap();
    assert_eq!(found.public_key, b"k2".to_vec());

    // one expired record beside it
    let mut stale = PeerInfo::new("carol".to_string(), b"k3".to_vec(), vec![], b"s3".to_vec());
    stale.timestamp = 100;
    stale.ttl = 10;
    dht.publish(stale).unwrap();

    let stats = dht.stats_at(1060);
    assert_eq!(stats.total_peers, 2);
    assert_eq!(stats.active_peers, 1);
    assert_eq!(stats.expired_peers, 1);

    dht.cleanup_expired_at(1060);
    let stats = dht.stats_at(1060);
    assert_eq!(stats.total_peers, 1);
    assert_eq!(stats.expired_peers, 0);
}

#[test]
fn routing_bucket_keeps_twenty_most_recent() {
    // local id is empty, so a node's bucket is the highest bit of its
    // own id: every two-byte id [1, x] lands in bucket 8.
    let mut rt = RoutingTable::new(20);
    for x in 0..25u8 {
        rt.add_node(DHTNodeInfo {
            node_id: vec![1, x],
            addr: endpoint([10, 0, 0, x], 1000 + x as u16),
            last_seen: x as i64,
        });
    }

    let nearby = rt.get_nearby_nodes(&[1, 0], 100);
    assert_eq!(nearby.len(), 20);
    // the most recently inserted distinct ids are retained, newest first
    for (i, node) in nearby.iter().enumerate() {
        assert_eq!(node.node_id, vec![1, 24 - i as u8]);
    }

    // re-adding an existing id moves it to the front without growing
    rt.add_node(DHTNodeInfo {
        node_id: vec![1, 10],
        addr: endpoint([10, 0, 0, 10], 1010),
        last_seen: 99,
    });
    let nearby = rt.get_nearby_nodes(&[1, 0], 100);
    assert_eq!(nearby.len(), 20);
    assert_eq!(nearby[0].node_id, vec![1, 10]);
    assert_eq!(nearby[0].last_seen, 99);
}

#[test]
fn nearby_walks_buckets_by_distance() {
    let mut rt = RoutingTable::new(20);
    // with an empty local id, an id's bucket is its own highest set
    // bit: [1] lands in bucket 0, [2] in bucket 1, [128] in bucket 7
    rt.add_node(DHTNodeInfo { node_id: vec![2], addr: endpoint([0, 0, 0, 2], 2), last_seen: 2 });
    rt.add_node(DHTNodeInfo { node_id: vec![128], addr: endpoint([0, 0, 0, 3], 3), last_seen: 3 });
    rt.add_node(DHTNodeInfo { node_id: vec![1], addr: endpoint([0, 0, 0, 1], 1), last_seen: 1 });

    // target [1]: bucket 0 first, then outward: bit 1, then bit 7
    let nearby = rt.get_nearby_nodes(&[1], 10);
    assert_eq!(nearby.len(), 3);
    assert_eq!(nearby[0].node_id, vec![1]);
    assert_eq!(nearby[1].node_id, vec![2]);
    assert_eq!(nearby[2].node_id, vec![128]);

    // a count of two stops after the two nearest
    let nearby = rt.get_nearby_nodes(&[1], 2);
    assert_eq!(nearby.len(), 2);
}

#[test]
fn connect_and_send_follow_connection_state() {
    let mut network = P2PNetwork::new(b"peer1".to_vec());

    // no record: connect fails, send fails
    assert!(network.connect_to_peer("dave").is_err());
    assert!(network.send_message("dave", b"hi").is_err());

    let peer_info = PeerInfo::new(
        "dave".to_string(),
        b"pk".to_vec(),
        vec![endpoint([127, 0, 0, 1], 9000)],
        b"sig".to_vec(),
    );
    network.publish_self(peer_info).unwrap();

    // record found: connection recorded, but not yet authenticated
    network.connect_to_peer("dave").unwrap();
    assert!(network.send_message("dave", b"hi").is_err());

    let stats = network.get_stats();
    assert_eq!(stats.total_peers, 1);
    network.cleanup();
}
