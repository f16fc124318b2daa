//! The sinks: one that prints each event, and the batching loop that the
//! Datadog sink runs.

use vstd::prelude::*;

use crate::component::{Component, ComponentKind, Sink};
use crate::event::Event;

verus! {

/// The capacity of the channel in front of each sink.
pub const BUFFER_SIZE: usize = 100;

/// The console sink's configuration (it has no settings).
#[derive(Debug, Clone, Copy, PartialEq, Eq)]
pub struct ConsoleConfig;

/// Prints each event it receives.
#[derive(Debug, Clone, Copy, PartialEq, Eq)]
pub struct ConsoleExecutor;

/// What a batching sink does after asking its channel for events.
#[derive(Debug)]
pub enum BatchAction {
    /// Hand these events to the executor, then ask again.
    Deliver(Vec<Event>),
    /// The channel is closed and drained: the sink is done.
    Stop,
}

/// A sink that takes events from its channel in batches of up to
/// `batch_size` and hands each batch to its executor.
#[derive(Debug, Clone, Copy, PartialEq, Eq)]
pub struct SinkBatch {
    pub batch_size: usize,
}

/// What a batching sink does with one received batch: `None` to stop,
/// otherwise the events to deliver.
pub open spec fn step_outcome(received: Seq<Event>) -> Option<Seq<Event>> {
    if received.len() == 0 {
        None
    } else {
        Some(received)
    }
}

/// The batches a sink hands its executor when its successive receives
/// return `received`: each batch in turn, up to the first empty one.
pub open spec fn delivered_batches(received: Seq<Seq<Event>>) -> Seq<Seq<Event>>
    decreases received.len(),
{
    if received.len() == 0 {
        seq![]
    } else {
        match step_outcome(received[0]) {
            None => seq![],
            Some(b) => seq![b] + delivered_batches(received.drop_first()),
        }
    }
}

/// All events of a list of batches, in order.
pub open spec fn concat_batches(batches: Seq<Seq<Event>>) -> Seq<Event>
    decreases batches.len(),
{
    if batches.len() == 0 {
        seq![]
    } else {
        batches[0] + concat_batches(batches.drop_first())
    }
}

proof fn lemma_delivered_all_but_last(received: Seq<Seq<Event>>, size: nat)
    requires
        received.len() >= 1,
        received.last().len() == 0,
        forall|i: int| 0 <= i < received.len() - 1 ==> 1 <= (#[trigger] received[i]).len() <= size,
    ensures
        delivered_batches(received) == received.drop_last(),
        concat_batches(received) == concat_batches(received.drop_last()),
    decreases received.len(),
{
    if received.len() == 1 {
        assert(received.drop_last() =~= seq![]);
        assert(received.drop_first() =~= seq![]);
        assert(received[0] =~= seq![]);
    } else {
        let rest = received.drop_first();
        assert forall|i: int| 0 <= i < rest.len() - 1 implies 1 <= (#[trigger] rest[i]).len() <= size by {
            assert(rest[i] == received[i + 1]);
        }
        lemma_delivered_all_but_last(rest, size);
        assert(rest.drop_last() =~= received.drop_last().drop_first());
        assert(received.drop_last() =~= seq![received[0]] + rest.drop_last());
    }
}

/// A batching sink hands on every event of its channel exactly once, in the
/// order received, in batches of one to `batch_size` events: when its
/// receives return batches of at most `batch_size` events, each non-empty
/// until the last, which comes back empty once the channel is closed and
/// drained, the batches delivered are those batches before the empty one,
/// and together they are the channel's events in order.
pub proof fn law_batches_deliver_stream(received: Seq<Seq<Event>>, batch_size: nat, stream: Seq<Event>)
    requires
        received.len() >= 1,
        received.last().len() == 0,
        forall|i: int| 0 <= i < received.len() - 1 ==> 1 <= (#[trigger] received[i]).len() <= batch_size,
        concat_batches(received) == stream,
    ensures
        concat_batches(delivered_batches(received)) == stream,
        forall|i: int| 0 <= i < delivered_batches(received).len() ==> 1 <= (#[trigger] delivered_batches(
            received,
        )[i]).len() <= batch_size,
{
    lemma_delivered_all_but_last(received, batch_size);
}

impl SinkBatch {
    /// Decides on one batch just received: an empty batch means the channel
    /// is closed and nothing is left, so the sink stops; any other batch is
    /// delivered whole.
    pub fn step(&self, received: Vec<Event>) -> (a: BatchAction)
        ensures
            received@.len() == 0 ==> a is Stop,
            received@.len() > 0 ==> (a matches BatchAction::Deliver(b) && b@ == received@),
            match a {
                BatchAction::Stop => step_outcome(received@) is None,
                BatchAction::Deliver(b) => step_outcome(received@) == Some(b@),
            },
    {
        if received.len() == 0 {
            BatchAction::Stop
        } else {
            BatchAction::Deliver(received)
        }
    }
}

impl Component for SinkBatch {
    fn component_kind(&self) -> (k: ComponentKind)
        ensures
            k == ComponentKind::Sink,
    {
        ComponentKind::Sink
    }
}

impl Sink for SinkBatch {}

/// A sink that hands events to its executor one at a time.
#[derive(Debug, Clone, Copy, PartialEq, Eq)]
pub struct SinkSingle;

impl Component for SinkSingle {
    fn component_kind(&self) -> (k: ComponentKind)
        ensures
            k == ComponentKind::Sink,
    {
        ComponentKind::Sink
    }
}

impl Sink for SinkSingle {}

} // verus!
