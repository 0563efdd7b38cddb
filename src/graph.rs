//! A read-only snapshot of the channel graph and the first-match channel
//! search over it.

use vstd::prelude::*;

use crate::node_id::{hex_bytes, is_hex_text, parse_node_id};

verus! {

/// Forwarding terms one endpoint advertises for its direction of a channel.
#[derive(Clone, Copy, Debug, PartialEq, Eq, Structural)]
pub struct RoutingPolicy {
    pub time_lock_delta: u32,
    pub min_htlc: i64,
    pub fee_base_msat: i64,
    pub fee_rate_milli_msat: i64,
    pub disabled: bool,
    pub max_htlc_msat: u64,
    pub last_update: u32,
}

/// A channel as the node describes it, endpoints given as hex text.
#[derive(Debug)]
pub struct AnnouncedEdge {
    pub channel_id: u64,
    pub node1_pub: String,
    pub node2_pub: String,
    pub capacity: i64,
    pub node1_policy: Option<RoutingPolicy>,
    pub node2_policy: Option<RoutingPolicy>,
}

/// A channel of the snapshot. `node1_policy` governs traversal from `node1`
/// to `node2`, `node2_policy` the opposite direction; `None` means that
/// endpoint advertised no terms.
#[derive(Debug)]
pub struct ChannelEdge {
    pub channel_id: u64,
    pub node1: Vec<u8>,
    pub node2: Vec<u8>,
    pub capacity: i64,
    pub node1_policy: Option<RoutingPolicy>,
    pub node2_policy: Option<RoutingPolicy>,
}

/// A search result: a channel with its direction of traversal resolved.
#[derive(Debug)]
pub struct FoundChannel {
    pub channel_id: u64,
    pub source: Vec<u8>,
    pub dest: Vec<u8>,
    pub policy: Option<RoutingPolicy>,
}

pub ghost struct EdgeView {
    pub channel_id: u64,
    pub node1: Seq<u8>,
    pub node2: Seq<u8>,
    pub capacity: i64,
    pub node1_policy: Option<RoutingPolicy>,
    pub node2_policy: Option<RoutingPolicy>,
}

pub ghost struct FoundView {
    pub channel_id: u64,
    pub source: Seq<u8>,
    pub dest: Seq<u8>,
    pub policy: Option<RoutingPolicy>,
}

impl View for ChannelEdge {
    type V = EdgeView;

    open spec fn view(&self) -> EdgeView {
        EdgeView {
            channel_id: self.channel_id,
            node1: self.node1@,
            node2: self.node2@,
            capacity: self.capacity,
            node1_policy: self.node1_policy,
            node2_policy: self.node2_policy,
        }
    }
}

impl View for FoundChannel {
    type V = FoundView;

    open spec fn view(&self) -> FoundView {
        FoundView {
            channel_id: self.channel_id,
            source: self.source@,
            dest: self.dest@,
            policy: self.policy,
        }
    }
}

pub open spec fn found_view(r: Option<FoundChannel>) -> Option<FoundView> {
    match r {
        Some(f) => Some(f@),
        None => None,
    }
}

pub open spec fn node_view(n: Option<&[u8]>) -> Option<Seq<u8>> {
    match n {
        Some(s) => Some(s@),
        None => None,
    }
}

/// The edge traversed from `node1` to `node2` (`forward`) or back, with the
/// policy of the endpoint it leaves from.
pub open spec fn oriented(e: EdgeView, forward: bool) -> FoundView {
    if forward {
        FoundView { channel_id: e.channel_id, source: e.node1, dest: e.node2, policy: e.node1_policy }
    } else {
        FoundView { channel_id: e.channel_id, source: e.node2, dest: e.node1, policy: e.node2_policy }
    }
}

/// How one edge answers a query: `None` where it does not qualify.
/// With both ends given, the edge must join them in that direction or the
/// reverse; with one end given, the matching endpoint takes that role.
pub open spec fn edge_answer(
    e: EdgeView,
    source: Option<Seq<u8>>,
    dest: Option<Seq<u8>>,
    capacity: i64,
) -> Option<FoundView> {
    if e.capacity != capacity {
        None
    } else {
        match (source, dest) {
            (Some(s), Some(d)) => if e.node1 == s && e.node2 == d {
                Some(oriented(e, true))
            } else if e.node2 == s && e.node1 == d {
                Some(oriented(e, false))
            } else {
                None
            },
            (Some(s), None) => if e.node1 == s {
                Some(oriented(e, true))
            } else if e.node2 == s {
                Some(oriented(e, false))
            } else {
                None
            },
            (None, Some(d)) => if e.node2 == d {
                Some(oriented(e, true))
            } else if e.node1 == d {
                Some(oriented(e, false))
            } else {
                None
            },
            (None, None) => None,
        }
    }
}

/// The answer of the first edge at or after index `i` that qualifies.
pub open spec fn first_answer_from(
    edges: Seq<EdgeView>,
    i: int,
    source: Option<Seq<u8>>,
    dest: Option<Seq<u8>>,
    capacity: i64,
) -> Option<FoundView>
    decreases edges.len() - i,
{
    if i < 0 || i >= edges.len() {
        None
    } else {
        match edge_answer(edges[i], source, dest, capacity) {
            Some(f) => Some(f),
            None => first_answer_from(edges, i + 1, source, dest, capacity),
        }
    }
}

/// The answer of the earliest qualifying edge of the snapshot.
pub open spec fn first_answer(
    edges: Seq<EdgeView>,
    source: Option<Seq<u8>>,
    dest: Option<Seq<u8>>,
    capacity: i64,
) -> Option<FoundView> {
    first_answer_from(edges, 0, source, dest, capacity)
}

fn same_bytes(a: &[u8], b: &[u8]) -> (r: bool)
    ensures
        r == (a@ == b@),
{
    if a.len() != b.len() {
        return false;
    }
    let mut i: usize = 0;
    while i < a.len()
        invariant
            a@.len() == b@.len(),
            i <= a@.len(),
            forall|j: int| 0 <= j < i ==> a@[j] == b@[j],
        decreases a@.len() - i,
    {
        if a[i] != b[i] {
            return false;
        }
        i += 1;
    }
    assert(a@ =~= b@);
    true
}

fn copy_bytes(v: &Vec<u8>) -> (r: Vec<u8>)
    ensures
        r@ == v@,
{
    let r = v.clone();
    assert(r@ =~= v@);
    r
}

impl ChannelEdge {
    fn orient(&self, forward: bool) -> (r: FoundChannel)
        ensures
            r@ == oriented(self@, forward),
    {
        if forward {
            FoundChannel {
                channel_id: self.channel_id,
                source: copy_bytes(&self.node1),
                dest: copy_bytes(&self.node2),
                policy: self.node1_policy,
            }
        } else {
            FoundChannel {
                channel_id: self.channel_id,
                source: copy_bytes(&self.node2),
                dest: copy_bytes(&self.node1),
                policy: self.node2_policy,
            }
        }
    }

    fn answer(&self, source: Option<&[u8]>, dest: Option<&[u8]>, capacity: i64) -> (r: Option<
        FoundChannel,
    >)
        ensures
            found_view(r) == edge_answer(self@, node_view(source), node_view(dest), capacity),
    {
        if self.capacity != capacity {
            return None;
        }
        match (source, dest) {
            (Some(s), Some(d)) => {
                if same_bytes(self.node1.as_slice(), s) && same_bytes(self.node2.as_slice(), d) {
                    Some(self.orient(true))
                } else if same_bytes(self.node2.as_slice(), s) && same_bytes(
                    self.node1.as_slice(),
                    d,
                ) {
                    Some(self.orient(false))
                } else {
                    None
                }
            },
            (Some(s), None) => {
                if same_bytes(self.node1.as_slice(), s) {
                    Some(self.orient(true))
                } else if same_bytes(self.node2.as_slice(), s) {
                    Some(self.orient(false))
                } else {
                    None
                }
            },
            (None, Some(d)) => {
                if same_bytes(self.node2.as_slice(), d) {
                    Some(self.orient(true))
                } else if same_bytes(self.node1.as_slice(), d) {
                    Some(self.orient(false))
                } else {
                    None
                }
            },
            (None, None) => None,
        }
    }
}

/// Why a snapshot could not be built.
#[derive(Clone, Copy, Debug, PartialEq, Eq, Structural)]
pub enum GraphError {
    /// An endpoint of this channel is not hex text.
    InvalidNodeKey { channel_id: u64 },
}

/// Both endpoints of the announced channel read as node identities.
pub open spec fn announced_valid(a: AnnouncedEdge) -> bool {
    is_hex_text(a.node1_pub@) && is_hex_text(a.node2_pub@)
}

/// The snapshot edge an announced channel stands for.
pub open spec fn decoded_edge(a: AnnouncedEdge) -> EdgeView {
    EdgeView {
        channel_id: a.channel_id,
        node1: hex_bytes(a.node1_pub@),
        node2: hex_bytes(a.node2_pub@),
        capacity: a.capacity,
        node1_policy: a.node1_policy,
        node2_policy: a.node2_policy,
    }
}

/// An immutable view of the channel graph as one node saw it, edges kept in
/// the order the node reported them.
pub struct ChannelFinder {
    edges: Vec<ChannelEdge>,
}

impl View for ChannelFinder {
    type V = Seq<EdgeView>;

    closed spec fn view(&self) -> Seq<EdgeView> {
        self.edges@.map_values(|e: ChannelEdge| e@)
    }
}

impl ChannelFinder {
    /// Takes a snapshot of already decoded edges, keeping their order.
    pub fn from_edges(edges: Vec<ChannelEdge>) -> (r: ChannelFinder)
        ensures
            r@ == edges@.map_values(|e: ChannelEdge| e@),
    {
        ChannelFinder { edges }
    }

    /// Takes a snapshot of the channels a node described, reading every
    /// endpoint as a node identity; the first channel with an endpoint that
    /// is not hex text is reported instead.
    pub fn new(announced: Vec<AnnouncedEdge>) -> (r: Result<ChannelFinder, GraphError>)
        ensures
            r is Ok <==> forall|i: int| 0 <= i < announced@.len() ==> announced_valid(#[trigger] announced@[i]),
            r matches Ok(f) ==> f@ == announced@.map_values(|a: AnnouncedEdge| decoded_edge(a)),
            r matches Err(e) ==> exists|i: int|
                0 <= i < announced@.len()
                && !announced_valid(#[trigger] announced@[i])
                && (forall|j: int| 0 <= j < i ==> announced_valid(#[trigger] announced@[j]))
                && e == (GraphError::InvalidNodeKey { channel_id: announced@[i].channel_id }),
    {
        let mut edges: Vec<ChannelEdge> = Vec::new();
        let mut i: usize = 0;
        while i < announced.len()
            invariant
                i <= announced@.len(),
                edges@.len() == i,
                forall|j: int| 0 <= j < i ==> announced_valid(#[trigger] announced@[j]),
                forall|j: int| 0 <= j < i ==> (#[trigger] edges@[j])@ == decoded_edge(announced@[j]),
            decreases announced@.len() - i,
        {
            let a = &announced[i];
            let node1 = match parse_node_id(a.node1_pub.as_str()) {
                Ok(n) => n,
                Err(_) => {
                    return Err(GraphError::InvalidNodeKey { channel_id: a.channel_id });
                },
            };
            let node2 = match parse_node_id(a.node2_pub.as_str()) {
                Ok(n) => n,
                Err(_) => {
                    return Err(GraphError::InvalidNodeKey { channel_id: a.channel_id });
                },
            };
            edges.push(ChannelEdge {
                channel_id: a.channel_id,
                node1,
                node2,
                capacity: a.capacity,
                node1_policy: a.node1_policy,
                node2_policy: a.node2_policy,
            });
            i += 1;
        }
        let r = ChannelFinder { edges };
        assert(r@ =~= announced@.map_values(|a: AnnouncedEdge| decoded_edge(a)));
        Ok(r)
    }

    /// Searches the snapshot in order and returns the first channel of
    /// capacity `amt` whose endpoints satisfy the given ends, oriented so
    /// that the given ends take their roles; `None` where no edge qualifies.
    pub fn search(&self, source_nodeid: Option<&[u8]>, dest_nodeid: Option<&[u8]>, amt: i64) -> (r:
        Option<FoundChannel>)
        requires
            source_nodeid is Some || dest_nodeid is Some,
        ensures
            found_view(r) == first_answer(self@, node_view(source_nodeid), node_view(dest_nodeid), amt),
            r matches Some(f) ==> (source_nodeid matches Some(s) ==> f.source@ == s@),
            r matches Some(f) ==> (dest_nodeid matches Some(d) ==> f.dest@ == d@),
    {
        proof {
            lemma_answer_respects_ends(self@, node_view(source_nodeid), node_view(dest_nodeid), amt);
        }
        let ghost edges = self@;
        let ghost s = node_view(source_nodeid);
        let ghost d = node_view(dest_nodeid);
        let mut i: usize = 0;
        while i < self.edges.len()
            invariant
                edges == self@,
                edges.len() == self.edges@.len(),
                s == node_view(source_nodeid),
                d == node_view(dest_nodeid),
                i <= edges.len(),
                first_answer(edges, s, d, amt) == first_answer_from(edges, i as int, s, d, amt),
            decreases edges.len() - i,
        {
            let found = self.edges[i].answer(source_nodeid, dest_nodeid, amt);
            if found.is_some() {
                return found;
            }
            i += 1;
        }
        None
    }
}

/// Where the search from index `i` stops: nowhere exactly when no edge from
/// `i` on qualifies, else at the earliest qualifying edge from `i` on.
pub proof fn lemma_first_answer_from(
    edges: Seq<EdgeView>,
    i: int,
    source: Option<Seq<u8>>,
    dest: Option<Seq<u8>>,
    capacity: i64,
)
    requires
        0 <= i <= edges.len(),
    ensures
        first_answer_from(edges, i, source, dest, capacity) is None <==> forall|j: int|
            i <= j < edges.len() ==> edge_answer(#[trigger] edges[j], source, dest, capacity) is None,
        first_answer_from(edges, i, source, dest, capacity) matches Some(f) ==> exists|j: int|
            i <= j < edges.len() && edge_answer(#[trigger] edges[j], source, dest, capacity) == Some(f)
                && forall|k: int|
                i <= k < j ==> edge_answer(#[trigger] edges[k], source, dest, capacity) is None,
    decreases edges.len() - i,
{
    if i < edges.len() {
        lemma_first_answer_from(edges, i + 1, source, dest, capacity);
        if edge_answer(edges[i], source, dest, capacity) is None {
            if let Some(f) = first_answer_from(edges, i, source, dest, capacity) {
                let j = choose|j: int|
                    i + 1 <= j < edges.len() && edge_answer(#[trigger] edges[j], source, dest, capacity)
                        == Some(f) && forall|k: int|
                        i + 1 <= k < j ==> edge_answer(#[trigger] edges[k], source, dest, capacity)
                            is None;
                assert(forall|k: int|
                    i <= k < j ==> edge_answer(#[trigger] edges[k], source, dest, capacity) is None);
            }
        }
    }
}

/// A found channel runs from the given source and to the given destination.
pub proof fn lemma_answer_respects_ends(
    edges: Seq<EdgeView>,
    source: Option<Seq<u8>>,
    dest: Option<Seq<u8>>,
    capacity: i64,
)
    ensures
        first_answer(edges, source, dest, capacity) matches Some(f) ==> (source matches Some(s)
            ==> f.source == s),
        first_answer(edges, source, dest, capacity) matches Some(f) ==> (dest matches Some(d) ==> f.dest
            == d),
{
    lemma_first_answer_from(edges, 0, source, dest, capacity);
}

/// A search finds nothing exactly when no edge of the snapshot has the
/// capacity and the endpoints asked for; it never fails otherwise.
pub proof fn lemma_not_found(
    edges: Seq<EdgeView>,
    source: Option<Seq<u8>>,
    dest: Option<Seq<u8>>,
    capacity: i64,
)
    ensures
        first_answer(edges, source, dest, capacity) is None <==> forall|i: int|
            0 <= i < edges.len() ==> edge_answer(#[trigger] edges[i], source, dest, capacity) is None,
{
    lemma_first_answer_from(edges, 0, source, dest, capacity);
}

/// Of several qualifying edges, the one earliest in snapshot order is the
/// answer, however many later ones also qualify. The answer depends on the
/// snapshot and the query alone, so repeating a search repeats its result.
pub proof fn lemma_earliest_match_wins(
    edges: Seq<EdgeView>,
    source: Option<Seq<u8>>,
    dest: Option<Seq<u8>>,
    capacity: i64,
    i: int,
)
    requires
        0 <= i < edges.len(),
        edge_answer(edges[i], source, dest, capacity) is Some,
        forall|j: int| 0 <= j < i ==> edge_answer(#[trigger] edges[j], source, dest, capacity) is None,
    ensures
        first_answer(edges, source, dest, capacity) == edge_answer(edges[i], source, dest, capacity),
{
    lemma_first_answer_from(edges, 0, source, dest, capacity);
    let f = first_answer(edges, source, dest, capacity)->0;
    let j = choose|j: int|
        0 <= j < edges.len() && edge_answer(#[trigger] edges[j], source, dest, capacity) == Some(f)
            && forall|k: int| 0 <= k < j ==> edge_answer(#[trigger] edges[k], source, dest, capacity) is None;
    assert(j == i);
}

/// Asking for a channel between `a` and `b` in either direction finds the
/// same channel, with source and destination swapped, each answer carrying
/// the policy of the endpoint it leaves from.
pub proof fn lemma_direction_symmetry(edges: Seq<EdgeView>, a: Seq<u8>, b: Seq<u8>, capacity: i64, k: int)
    requires
        0 <= k < edges.len(),
        edges[k].capacity == capacity,
        (edges[k].node1 == a && edges[k].node2 == b) || (edges[k].node1 == b && edges[k].node2 == a),
    ensures
        ({
            let ab = first_answer(edges, Some(a), Some(b), capacity);
            let ba = first_answer(edges, Some(b), Some(a), capacity);
            &&& ab is Some
            &&& ba is Some
            &&& ab->0.source == a && ab->0.dest == b
            &&& ba->0.source == b && ba->0.dest == a
            &&& exists|j: int|
                0 <= j < edges.len() && ab->0 == oriented(#[trigger] edges[j], edges[j].node1 == a)
                    && ba->0 == oriented(edges[j], edges[j].node1 == b)
        }),
{
    let sa = Some(a);
    let sb = Some(b);
    assert(forall|i: int|
        0 <= i < edges.len() ==> (edge_answer(#[trigger] edges[i], sa, sb, capacity) is None <==> edge_answer(
            edges[i],
            sb,
            sa,
            capacity,
        ) is None));
    lemma_first_answer_from(edges, 0, sa, sb, capacity);
    lemma_first_answer_from(edges, 0, sb, sa, capacity);
    assert(edge_answer(edges[k], sa, sb, capacity) is Some);
    let f = first_answer(edges, sa, sb, capacity)->0;
    let g = first_answer(edges, sb, sa, capacity)->0;
    let j = choose|j: int|
        0 <= j < edges.len() && edge_answer(#[trigger] edges[j], sa, sb, capacity) == Some(f)
            && forall|m: int| 0 <= m < j ==> edge_answer(#[trigger] edges[m], sa, sb, capacity) is None;
    let j2 = choose|j: int|
        0 <= j < edges.len() && edge_answer(#[trigger] edges[j], sb, sa, capacity) == Some(g)
            && forall|m: int| 0 <= m < j ==> edge_answer(#[trigger] edges[m], sb, sa, capacity) is None;
    assert(j == j2) by {
        if j < j2 {
            assert(edge_answer(edges[j], sb, sa, capacity) is None);
        }
        if j2 < j {
            assert(edge_answer(edges[j2], sa, sb, capacity) is None);
        }
    }
    lemma_answer_respects_ends(edges, sa, sb, capacity);
    lemma_answer_respects_ends(edges, sb, sa, capacity);
}

} // verus!
