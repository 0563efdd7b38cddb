//! Discovery of the five-channel cycle origin -> target -> X -> Y -> target
//! -> origin, each channel picked out of a snapshot by its capacity.

use vstd::prelude::*;

use crate::graph::{
    edge_answer, first_answer, lemma_answer_respects_ends, lemma_first_answer_from,
    lemma_not_found, ChannelFinder, EdgeView, FoundChannel, FoundView,
};

verus! {

/// Capacity of the channel each scenario node opens to the target.
pub const PROVISIONED_CAPACITY: i64 = 16777215;

/// Capacity of the known large channel leaving the target.
pub const BIG_CHANNEL_CAPACITY: i64 = 100000000;

/// Capacity of the known channel between the far ends of the big and small ones.
pub const MEDIUM_CHANNEL_CAPACITY: i64 = 4000000;

/// Capacity of the known small channel coming back into the target.
pub const SMALL_CHANNEL_CAPACITY: i64 = 400000;

/// The capacity by which each channel of the cycle is recognised.
#[derive(Clone, Copy, Debug, PartialEq, Eq, Structural)]
pub struct CyclePlan {
    pub first: i64,
    pub big: i64,
    pub medium: i64,
    pub small: i64,
    pub last: i64,
}

impl CyclePlan {
    /// The capacities of the topology this scenario is run against: the
    /// provisioned channel at both ends and the three known channels between.
    pub fn known_topology() -> (r: CyclePlan)
        ensures
            r == (CyclePlan {
                first: PROVISIONED_CAPACITY,
                big: BIG_CHANNEL_CAPACITY,
                medium: MEDIUM_CHANNEL_CAPACITY,
                small: SMALL_CHANNEL_CAPACITY,
                last: PROVISIONED_CAPACITY,
            }),
    {
        CyclePlan {
            first: PROVISIONED_CAPACITY,
            big: BIG_CHANNEL_CAPACITY,
            medium: MEDIUM_CHANNEL_CAPACITY,
            small: SMALL_CHANNEL_CAPACITY,
            last: PROVISIONED_CAPACITY,
        }
    }
}

/// The step of the discovery whose channel was not in the snapshot.
#[derive(Clone, Copy, Debug, PartialEq, Eq, Structural)]
pub enum CycleStage {
    First,
    Big,
    Medium,
    Small,
    Last,
}

/// Why no cycle was found.
#[derive(Clone, Copy, Debug, PartialEq, Eq, Structural)]
pub enum CycleError {
    ChannelMissing(CycleStage),
}

/// The channels of a discovered cycle, in the order they are traversed.
#[derive(Debug)]
pub struct Cycle {
    pub first: FoundChannel,
    pub big: FoundChannel,
    pub medium: FoundChannel,
    pub small: FoundChannel,
    pub last: FoundChannel,
}

pub ghost struct CycleView {
    pub first: FoundView,
    pub big: FoundView,
    pub medium: FoundView,
    pub small: FoundView,
    pub last: FoundView,
}

impl View for Cycle {
    type V = CycleView;

    open spec fn view(&self) -> CycleView {
        CycleView {
            first: self.first@,
            big: self.big@,
            medium: self.medium@,
            small: self.small@,
            last: self.last@,
        }
    }
}

pub open spec fn cycle_result_view(r: Result<Cycle, CycleError>) -> Result<CycleView, CycleError> {
    match r {
        Ok(c) => Ok(c@),
        Err(e) => Err(e),
    }
}

/// The discovery's outcome on a snapshot. The searches run in the order
/// big (out of the target), small (into the target), medium (between their
/// far ends), first (origin to target), last (target to origin); the first
/// one that finds nothing names the error.
pub open spec fn discover(
    edges: Seq<EdgeView>,
    origin: Seq<u8>,
    target: Seq<u8>,
    plan: CyclePlan,
) -> Result<CycleView, CycleError> {
    let big = first_answer(edges, Some(target), None, plan.big);
    let small = first_answer(edges, None, Some(target), plan.small);
    if big is None {
        Err(CycleError::ChannelMissing(CycleStage::Big))
    } else if small is None {
        Err(CycleError::ChannelMissing(CycleStage::Small))
    } else {
        let medium = first_answer(edges, Some(big->0.dest), Some(small->0.source), plan.medium);
        let first = first_answer(edges, Some(origin), Some(target), plan.first);
        let last = first_answer(edges, Some(target), Some(origin), plan.last);
        if medium is None {
            Err(CycleError::ChannelMissing(CycleStage::Medium))
        } else if first is None {
            Err(CycleError::ChannelMissing(CycleStage::First))
        } else if last is None {
            Err(CycleError::ChannelMissing(CycleStage::Last))
        } else {
            Ok(
                CycleView {
                    first: first->0,
                    big: big->0,
                    medium: medium->0,
                    small: small->0,
                    last: last->0,
                },
            )
        }
    }
}

/// Each channel ends where the next begins, starting and ending at `origin`
/// and passing through `target` twice.
pub open spec fn closes(c: CycleView, origin: Seq<u8>, target: Seq<u8>) -> bool {
    &&& c.first.source == origin
    &&& c.first.dest == target
    &&& c.big.source == c.first.dest
    &&& c.medium.source == c.big.dest
    &&& c.small.source == c.medium.dest
    &&& c.small.dest == target
    &&& c.last.source == c.small.dest
    &&& c.last.dest == origin
}

/// Finds the cycle through `target` that starts and ends at `origin`.
pub fn discover_cycle(finder: &ChannelFinder, origin: &[u8], target: &[u8], plan: &CyclePlan) -> (r:
    Result<Cycle, CycleError>)
    ensures
        cycle_result_view(r) == discover(finder@, origin@, target@, *plan),
        r matches Ok(c) ==> closes(c@, origin@, target@),
{
    let ghost edges = finder@;
    let big = match finder.search(Some(target), None, plan.big) {
        Some(f) => f,
        None => {
            return Err(CycleError::ChannelMissing(CycleStage::Big));
        },
    };
    let small = match finder.search(None, Some(target), plan.small) {
        Some(f) => f,
        None => {
            return Err(CycleError::ChannelMissing(CycleStage::Small));
        },
    };
    let medium = match finder.search(
        Some(big.dest.as_slice()),
        Some(small.source.as_slice()),
        plan.medium,
    ) {
        Some(f) => f,
        None => {
            return Err(CycleError::ChannelMissing(CycleStage::Medium));
        },
    };
    let first = match finder.search(Some(origin), Some(target), plan.first) {
        Some(f) => f,
        None => {
            return Err(CycleError::ChannelMissing(CycleStage::First));
        },
    };
    let last = match finder.search(Some(target), Some(origin), plan.last) {
        Some(f) => f,
        None => {
            return Err(CycleError::ChannelMissing(CycleStage::Last));
        },
    };
    Ok(Cycle { first, big, medium, small, last })
}

/// `a` and `b` are `x` and `y`, in either order.
pub open spec fn links(a: Seq<u8>, b: Seq<u8>, x: Seq<u8>, y: Seq<u8>) -> bool {
    (a == x && b == y) || (a == y && b == x)
}

/// The edge joins `x` and `y`.
pub open spec fn joins(e: EdgeView, x: Seq<u8>, y: Seq<u8>) -> bool {
    links(e.node1, e.node2, x, y)
}

/// The snapshot holds an edge of capacity `capacity` between `x` and `y`,
/// and every edge of that capacity joins `x` and `y`.
pub open spec fn marks_pair(edges: Seq<EdgeView>, x: Seq<u8>, y: Seq<u8>, capacity: i64) -> bool {
    &&& exists|i: int| 0 <= i < edges.len() && (#[trigger] edges[i]).capacity == capacity && joins(edges[i], x, y)
    &&& forall|i: int| 0 <= i < edges.len() && (#[trigger] edges[i]).capacity == capacity ==> joins(edges[i], x, y)
}

proof fn lemma_found_joins(
    edges: Seq<EdgeView>,
    source: Option<Seq<u8>>,
    dest: Option<Seq<u8>>,
    x: Seq<u8>,
    y: Seq<u8>,
    capacity: i64,
)
    requires
        marks_pair(edges, x, y, capacity),
        source is Some || dest is Some,
        source matches Some(s) ==> s == x || s == y,
        dest matches Some(d) ==> d == x || d == y,
        source matches Some(s) ==> (dest matches Some(d) ==> links(s, d, x, y)),
    ensures
        first_answer(edges, source, dest, capacity) matches Some(f) && links(f.source, f.dest, x, y),
{
    lemma_first_answer_from(edges, 0, source, dest, capacity);
    lemma_not_found(edges, source, dest, capacity);
    let i = choose|i: int| 0 <= i < edges.len() && (#[trigger] edges[i]).capacity == capacity && joins(edges[i], x, y);
    assert(edge_answer(edges[i], source, dest, capacity) is Some);
    let f = first_answer(edges, source, dest, capacity)->0;
    let j = choose|j: int|
        0 <= j < edges.len() && edge_answer(#[trigger] edges[j], source, dest, capacity) == Some(f)
            && forall|k: int| 0 <= k < j ==> edge_answer(#[trigger] edges[k], source, dest, capacity) is None;
    assert(joins(edges[j], x, y));
}

/// On a snapshot where the capacities of the plan pick out the channels of
/// a closed walk origin -> target -> x -> y -> target -> origin, the
/// discovery succeeds and returns that walk: each channel's destination is
/// the next one's source, and the last returns to `origin`.
pub proof fn lemma_cycle_closes(
    edges: Seq<EdgeView>,
    origin: Seq<u8>,
    target: Seq<u8>,
    x: Seq<u8>,
    y: Seq<u8>,
    plan: CyclePlan,
)
    requires
        marks_pair(edges, origin, target, plan.first),
        marks_pair(edges, target, x, plan.big),
        marks_pair(edges, x, y, plan.medium),
        marks_pair(edges, y, target, plan.small),
        marks_pair(edges, target, origin, plan.last),
    ensures
        discover(edges, origin, target, plan) matches Ok(c) && closes(c, origin, target)
            && c.big.dest == x && c.medium.dest == y,
{
    let t = Some(target);
    lemma_found_joins(edges, t, None, target, x, plan.big);
    lemma_answer_respects_ends(edges, t, None, plan.big);
    lemma_found_joins(edges, None, t, y, target, plan.small);
    lemma_answer_respects_ends(edges, None, t, plan.small);
    let big = first_answer(edges, t, None, plan.big)->0;
    let small = first_answer(edges, None, t, plan.small)->0;
    assert(big.dest == x);
    assert(small.source == y);
    lemma_found_joins(edges, Some(x), Some(y), x, y, plan.medium);
    lemma_answer_respects_ends(edges, Some(x), Some(y), plan.medium);
    lemma_found_joins(edges, Some(origin), t, origin, target, plan.first);
    lemma_answer_respects_ends(edges, Some(origin), t, plan.first);
    lemma_found_joins(edges, t, Some(origin), target, origin, plan.last);
    lemma_answer_respects_ends(edges, t, Some(origin), plan.last);
}

} // verus!
