//! Kademlia-style routing table: 160 buckets of at most `k` nodes,
//! indexed by the position of the highest bit of the XOR distance
//! between the local node id and the stored node id (big-endian,
//! shorter ids zero-extended at the front).

use vstd::prelude::*;
use crate::directory::Endpoint;
use crate::directory::EndpointView;
use crate::directory::clone_bytes;

verus! {

/// Number of distance buckets.
pub const BUCKET_COUNT: usize = 160;

/// A routing entry: node id, address, and when it was last seen.
#[derive(Debug)]
pub struct DHTNodeInfo {
    /// Node identifier.
    pub node_id: Vec<u8>,
    /// Network address.
    pub addr: Endpoint,
    /// Last-seen timestamp, Unix seconds.
    pub last_seen: i64,
}

/// The mathematical value of a [`DHTNodeInfo`].
pub struct NodeView {
    /// Node identifier.
    pub node_id: Seq<u8>,
    /// Network address.
    pub addr: EndpointView,
    /// Last-seen timestamp.
    pub last_seen: int,
}

impl View for DHTNodeInfo {
    type V = NodeView;

    open spec fn view(&self) -> NodeView {
        NodeView { node_id: self.node_id@, addr: self.addr@, last_seen: self.last_seen as int }
    }
}

impl DHTNodeInfo {
    /// An exact copy of this entry.
    pub fn clone(&self) -> (r: Self)
        ensures
            r@ == self@,
    {
        DHTNodeInfo {
            node_id: clone_bytes(&self.node_id),
            addr: self.addr.clone(),
            last_seen: self.last_seen,
        }
    }
}

/// The `i`-th byte of `s` counting from the least significant end,
/// zero-extended beyond the id's length.
pub open spec fn byte_from_end(s: Seq<u8>, i: int) -> u8 {
    if 0 <= i < s.len() {
        s[s.len() - 1 - i]
    } else {
        0
    }
}

/// Position of the highest set bit of a non-zero byte (0 for zero).
pub open spec fn high_bit(x: u8) -> int {
    if x >= 128 { 7 }
    else if x >= 64 { 6 }
    else if x >= 32 { 5 }
    else if x >= 16 { 4 }
    else if x >= 8 { 3 }
    else if x >= 4 { 2 }
    else if x >= 2 { 1 }
    else { 0 }
}

/// Bit position of the highest differing bit between the two ids,
/// considering only their `m` least significant (zero-extended)
/// bytes; 0 when they agree on all of them.
pub open spec fn xor_high_bit(a: Seq<u8>, b: Seq<u8>, m: int) -> int
    decreases m,
{
    if m <= 0 {
        0
    } else if byte_from_end(a, m - 1) != byte_from_end(b, m - 1) {
        8 * (m - 1) + high_bit(byte_from_end(a, m - 1) ^ byte_from_end(b, m - 1))
    } else {
        xor_high_bit(a, b, m - 1)
    }
}

/// The number of bytes that cover both ids.
pub open spec fn id_span(a: Seq<u8>, b: Seq<u8>) -> int {
    if a.len() >= b.len() { a.len() as int } else { b.len() as int }
}

/// The bucket index of node id `b` relative to local id `a`: the
/// position of the highest bit of their XOR distance, capped at 159.
pub open spec fn bucket_index_spec(a: Seq<u8>, b: Seq<u8>) -> int {
    let raw = xor_high_bit(a, b, id_span(a, b));
    if raw <= 159 { raw } else { 159 }
}

/// The highest differing bit position is never negative.
proof fn lemma_xor_high_bit_nonneg(a: Seq<u8>, b: Seq<u8>, m: int)
    ensures
        0 <= xor_high_bit(a, b, m),
    decreases m,
{
    if m > 0 {
        lemma_xor_high_bit_nonneg(a, b, m - 1);
    }
}

/// The first `n` elements of `s`, or all of `s` if it is shorter.
pub open spec fn take_at_most<T>(s: Seq<T>, n: int) -> Seq<T> {
    if s.len() <= n { s } else { s.take(n) }
}

/// The bucket contents after inserting `node`: the new entry in
/// front, the previous entries with its node id removed, truncated
/// to `k`.
pub open spec fn bucket_after_add(bucket: Seq<NodeView>, node: NodeView, k: int) -> Seq<NodeView> {
    take_at_most(seq![node] + bucket.filter(|n: NodeView| n.node_id != node.node_id), k)
}

/// Routing bucket bound: a bucket never exceeds `k` entries after an
/// insert, and for `k >= 1` the freshest entry stands in front.
pub proof fn lemma_routing_bucket_bound(bucket: Seq<NodeView>, node: NodeView, k: int)
    requires
        k >= 0,
    ensures
        bucket_after_add(bucket, node, k).len() <= k,
        k >= 1 ==> bucket_after_add(bucket, node, k)[0] == node,
{
    let stacked = seq![node] + bucket.filter(|n: NodeView| n.node_id != node.node_id);
    assert(stacked[0] == node);
}

/// The order in which buckets are visited for a target in bucket `t`:
/// distance `d` from `t` ascending, lower index first at equal
/// distance, starting at `d` and walking outward.
pub open spec fn visit_from(t: int, d: int) -> Seq<int>
    decreases BUCKET_COUNT - d,
{
    if d < 0 || d >= BUCKET_COUNT {
        Seq::empty()
    } else {
        let here: Seq<int> = if d == 0 {
            seq![t]
        } else {
            (if t - d >= 0 { seq![t - d] } else { Seq::empty() })
                + (if t + d <= 159 { seq![t + d] } else { Seq::empty() })
        };
        here + visit_from(t, d + 1)
    }
}

/// Walk the buckets in the given order, emitting entries until
/// `count` are collected or the order is exhausted.
pub open spec fn collect_nearby(
    buckets: Seq<Seq<NodeView>>,
    order: Seq<int>,
    count: int,
) -> Seq<NodeView>
    decreases order.len(),
{
    if order.len() == 0 || count <= 0 {
        Seq::empty()
    } else {
        let b = buckets[order[0]];
        let take_n = if b.len() <= count { b.len() as int } else { count };
        b.take(take_n) + collect_nearby(buckets, order.drop_first(), count - take_n)
    }
}

/// Distance-bucketed routing table.
pub struct RoutingTable {
    /// 160 buckets of routing entries.
    buckets: Vec<Vec<DHTNodeInfo>>,
    /// Bound on the entries kept per bucket.
    k: usize,
    /// The local node id distances are measured from.
    local_id: Vec<u8>,
}

impl RoutingTable {
    /// The buckets, as mathematical values.
    pub closed spec fn spec_buckets(self) -> Seq<Seq<NodeView>> {
        self.buckets@.map_values(|b: Vec<DHTNodeInfo>| b@.map_values(|n: DHTNodeInfo| n@))
    }

    /// The per-bucket bound.
    pub closed spec fn spec_k(self) -> int {
        self.k as int
    }

    /// The local node id.
    pub closed spec fn spec_local_id(self) -> Seq<u8> {
        self.local_id@
    }

    /// 160 buckets, each within the bound.
    pub closed spec fn wf(self) -> bool {
        &&& self.spec_buckets().len() == BUCKET_COUNT
        &&& forall|b: int| 0 <= b < BUCKET_COUNT
            ==> #[trigger] self.spec_buckets()[b].len() <= self.spec_k()
    }

    /// Create a routing table with an empty local id and the given
    /// per-bucket bound.
    pub fn new(k: usize) -> (r: Self)
        ensures
            r.wf(),
            r.spec_k() == k,
            r.spec_local_id().len() == 0,
            forall|b: int| 0 <= b < BUCKET_COUNT ==> #[trigger] r.spec_buckets()[b].len() == 0,
    {
        Self::with_local_id(Vec::new(), k)
    }

    /// Create a routing table that measures distance from `local_id`.
    pub fn with_local_id(local_id: Vec<u8>, k: usize) -> (r: Self)
        ensures
            r.wf(),
            r.spec_k() == k,
            r.spec_local_id() == local_id@,
            forall|b: int| 0 <= b < BUCKET_COUNT ==> #[trigger] r.spec_buckets()[b].len() == 0,
    {
        let mut buckets: Vec<Vec<DHTNodeInfo>> = Vec::new();
        let mut i: usize = 0;
        while i < BUCKET_COUNT
            invariant
                i <= BUCKET_COUNT,
                buckets@.len() == i,
                forall|b: int| 0 <= b < i ==> #[trigger] buckets@[b]@.len() == 0,
            decreases BUCKET_COUNT - i,
        {
            buckets.push(Vec::new());
            i = i + 1;
        }
        let r = RoutingTable { buckets, k, local_id };
        proof {
            assert(forall|b: int| 0 <= b < BUCKET_COUNT
                ==> #[trigger] r.spec_buckets()[b].len() == 0);
        }
        r
    }

    /// The `i`-th byte from the least significant end, zero-extended.
    fn byte_from_end_exec(s: &[u8], i: usize) -> (r: u8)
        ensures
            r == byte_from_end(s@, i as int),
    {
        if i < s.len() {
            s[s.len() - 1 - i]
        } else {
            0
        }
    }

    /// Position of the highest set bit of a byte.
    fn high_bit_exec(x: u8) -> (r: u8)
        ensures
            r == high_bit(x),
    {
        if x >= 128 { 7 }
        else if x >= 64 { 6 }
        else if x >= 32 { 5 }
        else if x >= 16 { 4 }
        else if x >= 8 { 3 }
        else if x >= 4 { 2 }
        else if x >= 2 { 1 }
        else { 0 }
    }

    /// The bucket index of `node_id` relative to `local_id`.
    fn bucket_index(local_id: &[u8], node_id: &[u8]) -> (r: usize)
        ensures
            r == bucket_index_spec(local_id@, node_id@),
            r < BUCKET_COUNT,
    {
        let la = local_id.len();
        let lb = node_id.len();
        let span = if la >= lb { la } else { lb };
        let mut m = span;
        while m > 0
            invariant
                m <= span,
                span as int == id_span(local_id@, node_id@),
                xor_high_bit(local_id@, node_id@, span as int)
                    == xor_high_bit(local_id@, node_id@, m as int),
            decreases m,
        {
            let x = Self::byte_from_end_exec(local_id, m - 1);
            let y = Self::byte_from_end_exec(node_id, m - 1);
            if x != y {
                proof {
                    lemma_xor_high_bit_nonneg(local_id@, node_id@, m as int);
                    assert(byte_from_end(local_id@, m - 1 as int) == x);
                    assert(byte_from_end(node_id@, m - 1 as int) == y);
                    assert(xor_high_bit(local_id@, node_id@, m as int)
                        == 8 * (m - 1 as int) + high_bit(x ^ y));
                }
                if m - 1 >= 20 {
                    proof {
                        assert(high_bit(x ^ y) >= 0);
                        assert(8 * (m - 1 as int) >= 160);
                    }
                    return 159;
                }
                let hb = Self::high_bit_exec(x ^ y);
                let bit = 8 * (m - 1) + (hb as usize);
                proof {
                    assert(high_bit(x ^ y) <= 7);
                    assert(bit <= 159);
                }
                return bit;
            }
            m = m - 1;
        }
        0
    }

    /// Insert a node: its bucket gets the entry in front, any prior
    /// entry with the same id is removed, and the bucket is truncated
    /// to the bound; all other buckets are unchanged.
    pub fn add_node(&mut self, node: DHTNodeInfo)
        requires
            old(self).wf(),
        ensures
            final(self).wf(),
            final(self).spec_k() == old(self).spec_k(),
            final(self).spec_local_id() == old(self).spec_local_id(),
            final(self).spec_buckets() == old(self).spec_buckets().update(
                bucket_index_spec(old(self).spec_local_id(), node@.node_id),
                bucket_after_add(
                    old(self).spec_buckets()[bucket_index_spec(
                        old(self).spec_local_id(), node@.node_id)],
                    node@,
                    old(self).spec_k(),
                ),
            ),
    {
        let ghost old_buckets = self.spec_buckets();
        let ghost nv = node@;
        let ghost pred = |n: NodeView| n.node_id != nv.node_id;
        let idx = Self::bucket_index(self.local_id.as_slice(), node.node_id.as_slice());
        let ghost old_bucket = old_buckets[idx as int];
        let target_id = clone_bytes(&node.node_id);
        let mut new_bucket: Vec<DHTNodeInfo> = Vec::new();
        if self.k > 0 {
            new_bucket.push(node);
        }
        let ghost stacked0 = seq![nv] + old_bucket.take(0).filter(pred);
        proof {
            assert(old_bucket.take(0) =~= Seq::<NodeView>::empty());
            reveal_with_fuel(Seq::filter, 1);
            assert(stacked0 =~= seq![nv]);
            assert(new_bucket@.map_values(|n: DHTNodeInfo| n@)
                =~= take_at_most(stacked0, self.k as int));
        }
        let mut j: usize = 0;
        let bucket_len = self.buckets[idx].len();
        while j < bucket_len
            invariant
                *self == *old(self),
                old(self).wf(),
                idx < BUCKET_COUNT,
                old_buckets == old(self).spec_buckets(),
                old_bucket == old_buckets[idx as int],
                bucket_len == self.buckets@[idx as int]@.len(),
                j <= bucket_len,
                target_id@ == nv.node_id,
                pred == (|n: NodeView| n.node_id != nv.node_id),
                new_bucket@.map_values(|n: DHTNodeInfo| n@)
                    =~= take_at_most(seq![nv] + old_bucket.take(j as int).filter(pred), self.k as int),
            decreases bucket_len - j,
        {
            proof {
                assert(old_bucket.take(j + 1 as int).drop_last() =~= old_bucket.take(j as int));
                assert(old_bucket.take(j + 1 as int).last() == old_bucket[j as int]);
                reveal_with_fuel(Seq::filter, 2);
                assert(old_bucket[j as int] == self.buckets@[idx as int]@[j as int]@);
            }
            let same = crate::utils::constant_time_compare(
                self.buckets[idx][j].node_id.as_slice(),
                target_id.as_slice(),
            );
            if !same && new_bucket.len() < self.k {
                new_bucket.push(self.buckets[idx][j].clone());
            }
            proof {
                let stacked_j = seq![nv] + old_bucket.take(j as int).filter(pred);
                let stacked_j1 = seq![nv] + old_bucket.take(j + 1 as int).filter(pred);
                if pred(old_bucket[j as int]) {
                    assert(stacked_j1 =~= stacked_j.push(old_bucket[j as int]));
                    if stacked_j.len() < self.k as int {
                        assert(take_at_most(stacked_j1, self.k as int)
                            =~= take_at_most(stacked_j, self.k as int).push(old_bucket[j as int]));
                    } else {
                        assert(take_at_most(stacked_j1, self.k as int)
                            =~= take_at_most(stacked_j, self.k as int));
                    }
                } else {
                    assert(stacked_j1 =~= stacked_j);
                }
                assert(new_bucket@.map_values(|n: DHTNodeInfo| n@)
                    =~= take_at_most(seq![nv] + old_bucket.take(j + 1 as int).filter(pred),
                        self.k as int));
            }
            j = j + 1;
        }
        proof {
            assert(old_bucket.take(old_bucket.len() as int) =~= old_bucket);
        }
        self.buckets[idx] = new_bucket;
        proof {
            assert(self.spec_buckets() =~= old_buckets.update(
                idx as int, bucket_after_add(old_bucket, nv, old(self).spec_k())));
            assert(bucket_after_add(old_bucket, nv, old(self).spec_k()).len()
                <= old(self).spec_k());
            assert forall|b: int| 0 <= b < BUCKET_COUNT
                implies #[trigger] self.spec_buckets()[b].len() <= self.spec_k() by {
                if b != idx as int {
                    assert(self.spec_buckets()[b] == old_buckets[b]);
                }
            }
        }
    }

    /// Collect up to `count` entries, walking buckets outward from
    /// the target's bucket in order of increasing distance.
    pub fn get_nearby_nodes(&self, target_id: &[u8], count: usize) -> (r: Vec<DHTNodeInfo>)
        requires
            self.wf(),
        ensures
            r@.map_values(|n: DHTNodeInfo| n@) == collect_nearby(
                self.spec_buckets(),
                visit_from(bucket_index_spec(self.spec_local_id(), target_id@), 0),
                count as int,
            ),
            r@.len() <= count,
    {
        let t = Self::bucket_index(self.local_id.as_slice(), target_id);
        let ghost full_order = visit_from(t as int, 0);

        let mut order: Vec<usize> = Vec::new();
        order.push(t);
        let mut d: usize = 1;
        proof {
            assert(full_order =~= seq![t as int] + visit_from(t as int, 1));
            assert(order@.map_values(|x: usize| x as int) + visit_from(t as int, 1)
                =~= full_order);
        }
        while d < BUCKET_COUNT
            invariant
                1 <= d <= BUCKET_COUNT,
                t < BUCKET_COUNT,
                order@.map_values(|x: usize| x as int) + visit_from(t as int, d as int)
                    =~= full_order,
                forall|i: int| 0 <= i < order@.len() ==> #[trigger] order@[i] < BUCKET_COUNT,
            decreases BUCKET_COUNT - d,
        {
            let ghost before = order@.map_values(|x: usize| x as int);
            if t >= d {
                order.push(t - d);
            }
            if t + d <= 159 {
                order.push(t + d);
            }
            proof {
                let here: Seq<int> = (if t as int - d as int >= 0 { seq![t as int - d as int] }
                    else { Seq::empty() })
                    + (if t as int + d as int <= 159 { seq![t as int + d as int] }
                    else { Seq::empty() });
                assert(visit_from(t as int, d as int)
                    =~= here + visit_from(t as int, d + 1 as int));
                assert(order@.map_values(|x: usize| x as int) =~= before + here);
                assert(order@.map_values(|x: usize| x as int) + visit_from(t as int, d + 1 as int)
                    =~= full_order);
            }
            d = d + 1;
        }
        proof {
            assert(visit_from(t as int, BUCKET_COUNT as int) =~= Seq::<int>::empty());
            assert(order@.map_values(|x: usize| x as int) =~= full_order);
        }

        let mut result: Vec<DHTNodeInfo> = Vec::new();
        proof {
            assert(full_order.skip(0) =~= full_order);
            assert(result@.map_values(|n: DHTNodeInfo| n@) =~= Seq::<NodeView>::empty());
        }
        let mut oi: usize = 0;
        while oi < order.len()
            invariant
                self.wf(),
                oi <= order@.len(),
                t as int == bucket_index_spec(self.spec_local_id(), target_id@),
                full_order == visit_from(t as int, 0),
                order@.map_values(|x: usize| x as int) == full_order,
                forall|i: int| 0 <= i < order@.len() ==> #[trigger] order@[i] < BUCKET_COUNT,
                result@.len() <= count,
                result@.map_values(|n: DHTNodeInfo| n@) + collect_nearby(
                    self.spec_buckets(),
                    full_order.skip(oi as int),
                    count as int - result@.len(),
                ) =~= collect_nearby(self.spec_buckets(), full_order, count as int),
            decreases order@.len() - oi,
        {
            if result.len() == count {
                proof {
                    assert(collect_nearby(self.spec_buckets(), full_order.skip(oi as int), 0)
                        =~= Seq::<NodeView>::empty());
                    assert(result@.map_values(|n: DHTNodeInfo| n@)
                        =~= collect_nearby(self.spec_buckets(), full_order, count as int));
                }
                return result;
            }
            let b = order[oi];
            let ghost suffix = full_order.skip(oi as int);
            let ghost bucket_view = self.spec_buckets()[b as int];
            let ghost before_len = result@.len() as int;
            let ghost remaining = count as int - before_len;
            let ghost take_n = if bucket_view.len() <= remaining { bucket_view.len() as int }
                else { remaining };
            proof {
                assert(suffix[0] == b as int);
                assert(suffix.drop_first() =~= full_order.skip(oi + 1 as int));
                assert(collect_nearby(self.spec_buckets(), suffix, remaining)
                    == bucket_view.take(take_n) + collect_nearby(
                        self.spec_buckets(), full_order.skip(oi + 1 as int),
                        remaining - take_n));
            }
            let ghost before_views = result@.map_values(|n: DHTNodeInfo| n@);
            let mut bj: usize = 0;
            let blen = self.buckets[b].len();
            let remaining_exec = count - result.len();
            let take_exec = if blen <= remaining_exec { blen } else { remaining_exec };
            proof {
                assert(take_exec as int == take_n);
            }
            while bj < take_exec
                invariant
                    self.wf(),
                    b < BUCKET_COUNT,
                    blen == self.buckets@[b as int]@.len(),
                    bucket_view == self.spec_buckets()[b as int],
                    bj <= blen,
                    bj <= take_n,
                    take_exec as int == take_n,
                    0 <= take_n <= bucket_view.len(),
                    before_len + take_n <= count,
                    before_len == before_views.len(),
                    result@.map_values(|n: DHTNodeInfo| n@)
                        =~= before_views + bucket_view.take(bj as int),
                decreases blen - bj,
            {
                proof {
                    assert(bucket_view[bj as int]
                        == self.buckets@[b as int]@[bj as int]@);
                }
                let ghost prev_views = result@.map_values(|n: DHTNodeInfo| n@);
                result.push(self.buckets[b][bj].clone());
                proof {
                    assert(result@.map_values(|n: DHTNodeInfo| n@)
                        =~= prev_views.push(bucket_view[bj as int]));
                    assert(bucket_view.take((bj + 1) as int)
                        =~= bucket_view.take(bj as int).push(bucket_view[bj as int]));
                    assert(result@.map_values(|n: DHTNodeInfo| n@)
                        =~= before_views + bucket_view.take((bj + 1) as int));
                }
                bj = bj + 1;
            }
            proof {
                assert(bj as int == take_n);
                assert(result@.map_values(|n: DHTNodeInfo| n@)
                    =~= before_views + bucket_view.take(take_n));
                assert(result@.len() as int == before_len + take_n);
                assert(result@.map_values(|n: DHTNodeInfo| n@) + collect_nearby(
                    self.spec_buckets(),
                    full_order.skip(oi + 1 as int),
                    count as int - result@.len(),
                ) =~= collect_nearby(self.spec_buckets(), full_order, count as int));
            }
            oi = oi + 1;
        }
        proof {
            assert(full_order.skip(full_order.len() as int) =~= Seq::<int>::empty());
            assert(result@.map_values(|n: DHTNodeInfo| n@)
                =~= collect_nearby(self.spec_buckets(), full_order, count as int));
        }
        result
    }
}

} // verus!
