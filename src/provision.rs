//! Idempotent channel provisioning as a state machine: the caller performs
//! each requested node call and feeds its outcome back as an event.

use vstd::prelude::*;

verus! {

/// Seconds to wait before polling a node that was not yet synchronised.
pub const SYNC_POLL_INTERVAL_SECS: u64 = 1;

/// How long to wait for a node to synchronise: at most `max_polls`
/// unsuccessful polls, the first of them counting even when `max_polls` is 0.
#[derive(Clone, Copy, Debug, PartialEq, Eq, Structural)]
pub struct SyncPolicy {
    pub max_polls: u64,
}

/// What to do after one poll of the node's synchronisation state.
#[derive(Clone, Copy, Debug, PartialEq, Eq, Structural)]
pub enum SyncDecision {
    Ready,
    PollAgain,
    GiveUp,
}

/// The decision after a poll, `failed_polls` unsuccessful polls having come
/// before it: ready once the node is synchronised both to the chain and to
/// the graph, else poll again until `max_polls` polls have failed.
pub open spec fn sync_outcome(
    synced_to_chain: bool,
    synced_to_graph: bool,
    failed_polls: u64,
    max_polls: u64,
) -> SyncDecision {
    if synced_to_chain && synced_to_graph {
        SyncDecision::Ready
    } else if failed_polls + 1 >= max_polls {
        SyncDecision::GiveUp
    } else {
        SyncDecision::PollAgain
    }
}

pub fn sync_decision(synced_to_chain: bool, synced_to_graph: bool, failed_polls: u64, max_polls: u64) -> (r:
    SyncDecision)
    ensures
        r == sync_outcome(synced_to_chain, synced_to_graph, failed_polls, max_polls),
{
    if synced_to_chain && synced_to_graph {
        SyncDecision::Ready
    } else if failed_polls >= max_polls || max_polls - failed_polls == 1 {
        SyncDecision::GiveUp
    } else {
        SyncDecision::PollAgain
    }
}

/// The channel to request from the node: `local_funding_amount` is the
/// capacity, of which `push_sat` goes to the counterparty at once.
#[derive(Debug)]
pub struct ChannelRequest {
    pub node_pubkey: Vec<u8>,
    pub local_funding_amount: i64,
    pub push_sat: i64,
    pub private: bool,
}

/// Why provisioning stopped without an answer.
#[derive(Clone, Copy, Debug, PartialEq, Eq, Structural)]
pub enum ProvisionError {
    /// A node call failed.
    RequestFailed,
    /// The node did not synchronise within the policy's polls.
    SyncTimedOut,
    /// An outcome arrived that answers no call of the current phase.
    UnexpectedEvent,
}

#[derive(Clone, Copy, Debug, PartialEq, Eq, Structural)]
pub enum ProvisionPhase {
    /// Waiting for the node's channel list.
    ListingChannels,
    /// Waiting for the node to synchronise.
    AwaitingSync { failed_polls: u64 },
    /// Waiting for the open request to be answered.
    Opening,
    Done { opened: bool },
    Failed(ProvisionError),
}

/// The outcome of the node call the provisioner asked for.
#[derive(Clone, Copy, Debug, PartialEq, Eq, Structural)]
pub enum NodeEvent {
    ChannelsListed { count: u64 },
    InfoReported { synced_to_chain: bool, synced_to_graph: bool },
    ChannelOpened,
    RequestFailed,
}

/// The node call to make next, or the end of provisioning.
#[derive(Clone, Copy, Debug, PartialEq, Eq, Structural)]
pub enum ProvisionAction {
    ListChannels,
    QueryInfo,
    WaitThenQueryInfo { secs: u64 },
    /// Open the provisioner's `request`.
    OpenChannel,
    Finish { opened: bool },
    Abort(ProvisionError),
}

pub open spec fn is_terminal(phase: ProvisionPhase) -> bool {
    phase is Done || phase is Failed
}

/// The phase after an event. A non-empty channel list ends provisioning
/// without opening; an empty one leads to waiting for synchronisation, then
/// to opening. Terminal phases ignore events.
pub open spec fn next_phase(phase: ProvisionPhase, event: NodeEvent, max_polls: u64) -> ProvisionPhase {
    if is_terminal(phase) {
        phase
    } else {
        match event {
            NodeEvent::RequestFailed => ProvisionPhase::Failed(ProvisionError::RequestFailed),
            NodeEvent::ChannelsListed { count } => match phase {
                ProvisionPhase::ListingChannels => if count > 0 {
                    ProvisionPhase::Done { opened: false }
                } else {
                    ProvisionPhase::AwaitingSync { failed_polls: 0 }
                },
                _ => ProvisionPhase::Failed(ProvisionError::UnexpectedEvent),
            },
            NodeEvent::InfoReported { synced_to_chain, synced_to_graph } => match phase {
                ProvisionPhase::AwaitingSync { failed_polls } => match sync_outcome(
                    synced_to_chain,
                    synced_to_graph,
                    failed_polls,
                    max_polls,
                ) {
                    SyncDecision::Ready => ProvisionPhase::Opening,
                    SyncDecision::PollAgain => ProvisionPhase::AwaitingSync {
                        failed_polls: (failed_polls + 1) as u64,
                    },
                    SyncDecision::GiveUp => ProvisionPhase::Failed(ProvisionError::SyncTimedOut),
                },
                _ => ProvisionPhase::Failed(ProvisionError::UnexpectedEvent),
            },
            NodeEvent::ChannelOpened => match phase {
                ProvisionPhase::Opening => ProvisionPhase::Done { opened: true },
                _ => ProvisionPhase::Failed(ProvisionError::UnexpectedEvent),
            },
        }
    }
}

/// What a phase asks of the caller.
pub open spec fn phase_action(phase: ProvisionPhase) -> ProvisionAction {
    match phase {
        ProvisionPhase::ListingChannels => ProvisionAction::ListChannels,
        ProvisionPhase::AwaitingSync { failed_polls } => if failed_polls == 0 {
            ProvisionAction::QueryInfo
        } else {
            ProvisionAction::WaitThenQueryInfo { secs: SYNC_POLL_INTERVAL_SECS }
        },
        ProvisionPhase::Opening => ProvisionAction::OpenChannel,
        ProvisionPhase::Done { opened } => ProvisionAction::Finish { opened },
        ProvisionPhase::Failed(e) => ProvisionAction::Abort(e),
    }
}

/// The phase reached from `phase` through `events`, in order.
pub open spec fn phase_after(phase: ProvisionPhase, events: Seq<NodeEvent>, max_polls: u64) -> ProvisionPhase
    decreases events.len(),
{
    if events.len() == 0 {
        phase
    } else {
        next_phase(phase_after(phase, events.drop_last(), max_polls), events.last(), max_polls)
    }
}

/// Provisioning of one channel from a node to a target; the node is left
/// alone when it already has any channel.
#[derive(Debug)]
pub struct Provisioner {
    pub request: ChannelRequest,
    pub sync: SyncPolicy,
    pub phase: ProvisionPhase,
}

impl Provisioner {
    /// Provisioning of a public channel of `capacity` to `target`, pushing
    /// `push_amount` of it to the target on opening.
    pub fn new(target: Vec<u8>, capacity: i64, push_amount: i64, sync: SyncPolicy) -> (r: Provisioner)
        ensures
            r.request.node_pubkey@ == target@,
            r.request.local_funding_amount == capacity,
            r.request.push_sat == push_amount,
            !r.request.private,
            r.sync == sync,
            r.phase == ProvisionPhase::ListingChannels,
    {
        Provisioner {
            request: ChannelRequest {
                node_pubkey: target,
                local_funding_amount: capacity,
                push_sat: push_amount,
                private: false,
            },
            sync,
            phase: ProvisionPhase::ListingChannels,
        }
    }

    /// The node call the current phase asks for.
    pub fn action(&self) -> (r: ProvisionAction)
        ensures
            r == phase_action(self.phase),
    {
        match self.phase {
            ProvisionPhase::ListingChannels => ProvisionAction::ListChannels,
            ProvisionPhase::AwaitingSync { failed_polls } => if failed_polls == 0 {
                ProvisionAction::QueryInfo
            } else {
                ProvisionAction::WaitThenQueryInfo { secs: SYNC_POLL_INTERVAL_SECS }
            },
            ProvisionPhase::Opening => ProvisionAction::OpenChannel,
            ProvisionPhase::Done { opened } => ProvisionAction::Finish { opened },
            ProvisionPhase::Failed(e) => ProvisionAction::Abort(e),
        }
    }

    /// Takes in the outcome of the last node call.
    pub fn step(&mut self, event: NodeEvent)
        ensures
            final(self).phase == next_phase(old(self).phase, event, old(self).sync.max_polls),
            final(self).request == old(self).request,
            final(self).sync == old(self).sync,
    {
        let next = match self.phase {
            ProvisionPhase::Done { .. } | ProvisionPhase::Failed(_) => self.phase,
            phase => match event {
                NodeEvent::RequestFailed => ProvisionPhase::Failed(ProvisionError::RequestFailed),
                NodeEvent::ChannelsListed { count } => match phase {
                    ProvisionPhase::ListingChannels => if count > 0 {
                        ProvisionPhase::Done { opened: false }
                    } else {
                        ProvisionPhase::AwaitingSync { failed_polls: 0 }
                    },
                    _ => ProvisionPhase::Failed(ProvisionError::UnexpectedEvent),
                },
                NodeEvent::InfoReported { synced_to_chain, synced_to_graph } => match phase {
                    ProvisionPhase::AwaitingSync { failed_polls } => match sync_decision(
                        synced_to_chain,
                        synced_to_graph,
                        failed_polls,
                        self.sync.max_polls,
                    ) {
                        SyncDecision::Ready => ProvisionPhase::Opening,
                        SyncDecision::PollAgain => ProvisionPhase::AwaitingSync {
                            failed_polls: failed_polls + 1,
                        },
                        SyncDecision::GiveUp => ProvisionPhase::Failed(ProvisionError::SyncTimedOut),
                    },
                    _ => ProvisionPhase::Failed(ProvisionError::UnexpectedEvent),
                },
                NodeEvent::ChannelOpened => match phase {
                    ProvisionPhase::Opening => ProvisionPhase::Done { opened: true },
                    _ => ProvisionPhase::Failed(ProvisionError::UnexpectedEvent),
                },
            },
        };
        self.phase = next;
    }
}

proof fn lemma_terminal_stays(phase: ProvisionPhase, events: Seq<NodeEvent>, max_polls: u64)
    requires
        is_terminal(phase),
    ensures
        phase_after(phase, events, max_polls) == phase,
    decreases events.len(),
{
    if events.len() > 0 {
        lemma_terminal_stays(phase, events.drop_last(), max_polls);
    }
}

/// Provisioning is idempotent: once the node reports any channel (as it
/// does after an earlier run opened one), provisioning finishes with
/// `opened == false` and, whatever events follow, never asks to open.
pub proof fn lemma_provisioned_node_left_alone(count: u64, events: Seq<NodeEvent>, max_polls: u64)
    requires
        count > 0,
        events.len() > 0,
        events[0] == (NodeEvent::ChannelsListed { count }),
    ensures
        phase_after(ProvisionPhase::ListingChannels, events, max_polls) == (ProvisionPhase::Done {
            opened: false,
        }),
        forall|k: int|
            0 <= k <= events.len() ==> phase_action(
                #[trigger] phase_after(ProvisionPhase::ListingChannels, events.take(k), max_polls),
            ) != ProvisionAction::OpenChannel,
{
    let start = ProvisionPhase::ListingChannels;
    let done = ProvisionPhase::Done { opened: false };
    assert forall|k: int| 1 <= k <= events.len() implies #[trigger] phase_after(
        start,
        events.take(k),
        max_polls,
    ) == done by {
        let rest = events.take(k).skip(1);
        assert(phase_after(start, events.take(1), max_polls) == done) by {
            assert(events.take(1).drop_last() =~= Seq::<NodeEvent>::empty());
            assert(phase_after(start, Seq::<NodeEvent>::empty(), max_polls) == start);
            assert(events.take(1).last() == events[0]);
        }
        lemma_after_split(start, events.take(1), rest, max_polls);
        assert(events.take(1) + rest =~= events.take(k));
        lemma_terminal_stays(done, rest, max_polls);
    }
    assert(phase_after(start, events.take(0), max_polls) == start);
    assert(events.take(events.len() as int) =~= events);
}

/// Running through two batches of events is running through the first,
/// then the second.
proof fn lemma_after_split(
    phase: ProvisionPhase,
    first: Seq<NodeEvent>,
    second: Seq<NodeEvent>,
    max_polls: u64,
)
    ensures
        phase_after(phase, first + second, max_polls) == phase_after(
            phase_after(phase, first, max_polls),
            second,
            max_polls,
        ),
    decreases second.len(),
{
    if second.len() == 0 {
        assert(first + second =~= first);
    } else {
        lemma_after_split(phase, first, second.drop_last(), max_polls);
        assert((first + second).drop_last() =~= first + second.drop_last());
    }
}

} // verus!
