//! The collection run as a state machine: from a partition to its tables,
//! one event at a time.

use crate::types::collection::collect_by_block::{
    collected, consume, consumed, drained, CollectByBlock,
};
use crate::types::dataframes::{table_views, DataFrames, OutputTableView};
use crate::types::datatypes::Datatype;
use crate::types::errors::CollectError;
use crate::types::partitions::{params_views, Params, ParamsView, Partition};
use crate::types::schemas::Schemas;
use vstd::prelude::*;

verus! {

/// The states of a collection run.
pub enum Pipeline<D> {
    /// Nothing has been asked for yet.
    Idle,
    /// Requests are out; delivered results are being folded into `columns`.
    Consuming { columns: D, chain_id: u64 },
    /// The run has ended with its tables.
    Assembled(DataFrames),
    /// The run has ended with a failure; nothing is folded any more.
    Failed(CollectError),
}

/// The states of a collection run as plain values.
pub enum PipelineView<M> {
    Idle,
    Consuming { columns: M, chain_id: u64 },
    Assembled(Map<Datatype, OutputTableView>),
    Failed(CollectError),
}

impl<D: CollectByBlock> View for Pipeline<D> {
    type V = PipelineView<D::V>;

    open spec fn view(&self) -> PipelineView<D::V> {
        match self {
            Pipeline::Idle => PipelineView::Idle,
            Pipeline::Consuming { columns, chain_id } => PipelineView::Consuming {
                columns: columns@,
                chain_id: *chain_id,
            },
            Pipeline::Assembled(tables) => PipelineView::Assembled(table_views(tables@)),
            Pipeline::Failed(e) => PipelineView::Failed(*e),
        }
    }
}

/// What happens to a collection run.
pub enum Event<R> {
    /// A partition is to be collected from the chain `chain_id`.
    Start { partition: Partition, chain_id: u64 },
    /// The relay queue has delivered the result of one request.
    Delivered(Result<R, CollectError>),
    /// The relay queue is closed and empty: every request has been answered.
    Closed,
}

/// What the driver of a collection run does next.
#[derive(Debug, PartialEq, Eq)]
pub enum Action {
    /// Extract these requests concurrently and relay each result, then
    /// take the first result from the relay queue.
    Extract(Vec<Params>),
    /// Take the next result from the relay queue.
    Receive,
    /// Abandon the relay queue and stop: the run has ended.
    Stop,
}

/// What the driver does next, as plain values.
pub enum ActionView {
    Extract(Seq<ParamsView>),
    Receive,
    Stop,
}

impl View for Action {
    type V = ActionView;

    open spec fn view(&self) -> ActionView {
        match self {
            Action::Extract(requests) => ActionView::Extract(params_views(requests@)),
            Action::Receive => ActionView::Receive,
            Action::Stop => ActionView::Stop,
        }
    }
}

impl Action {
    /// Whether the driver, once it has done what the action says, takes a
    /// result from the relay queue: after every action but `Stop`.
    pub fn receives(&self) -> (more: bool)
        ensures
            more == !(self@ is Stop),
    {
        match self {
            Action::Stop => false,
            _ => true,
        }
    }
}

/// The state after an event, and what the driver does next.
///
/// An idle run starts by expanding the partition into requests. A consuming
/// run folds each successful result, fails on the first result that is a
/// failure or cannot be folded, and assembles its tables when the queue is
/// closed. An event that a state does not expect changes nothing: an idle
/// run that is not started tells its driver to stop, a consuming run that
/// is started again goes on receiving. A run that has ended stays as it
/// ended.
pub open spec fn next<D: CollectByBlock>(
    state: PipelineView<D::V>,
    event: Event<D::Response>,
    schemas: &Schemas,
) -> (PipelineView<D::V>, ActionView) {
    match state {
        PipelineView::Idle => match event {
            Event::Start { partition, chain_id } => match partition@.expand_result(
                D::spec_parameters(),
            ) {
                Ok(requests) => (
                    PipelineView::Consuming { columns: D::initial(), chain_id },
                    ActionView::Extract(requests),
                ),
                Err(e) => (PipelineView::Failed(e), ActionView::Stop),
            },
            _ => (state, ActionView::Stop),
        },
        PipelineView::Consuming { columns, chain_id } => match event {
            Event::Start { .. } => (state, ActionView::Receive),
            Event::Delivered(message) => match consumed::<D>(columns, message, schemas) {
                Ok(after) => (
                    PipelineView::Consuming { columns: after, chain_id },
                    ActionView::Receive,
                ),
                Err(e) => (PipelineView::Failed(e), ActionView::Stop),
            },
            Event::Closed => match D::assembled(columns, schemas, chain_id) {
                Ok(tables) => (PipelineView::Assembled(tables), ActionView::Stop),
                Err(e) => (PipelineView::Failed(e), ActionView::Stop),
            },
        },
        _ => (state, ActionView::Stop),
    }
}

impl<D: CollectByBlock> Pipeline<D> {
    /// A run that has not started.
    pub fn new() -> (state: Self)
        ensures
            state@ == PipelineView::<D::V>::Idle,
    {
        Pipeline::Idle
    }

    /// Whether the run has ended, with tables or with a failure.
    pub open spec fn ended(state: PipelineView<D::V>) -> bool {
        state is Assembled || state is Failed
    }

    /// Takes the run one event further, and says what its driver does next.
    pub fn step(self, event: Event<D::Response>, schemas: &Schemas) -> (r: (Self, Action))
        ensures
            (r.0@, r.1@) == next::<D>(self@, event, schemas),
    {
        match self {
            Pipeline::Idle => match event {
                Event::Start { partition, chain_id } => match partition.param_sets(
                    D::parameters(),
                ) {
                    Ok(requests) => (
                        Pipeline::Consuming { columns: D::empty(), chain_id },
                        Action::Extract(requests),
                    ),
                    Err(e) => (Pipeline::Failed(e), Action::Stop),
                },
                _ => (Pipeline::Idle, Action::Stop),
            },
            Pipeline::Consuming { columns, chain_id } => match event {
                Event::Start { .. } => (Pipeline::Consuming { columns, chain_id }, Action::Receive),
                Event::Delivered(message) => match consume(columns, message, schemas) {
                    Ok(after) => (
                        Pipeline::Consuming { columns: after, chain_id },
                        Action::Receive,
                    ),
                    Err(e) => (Pipeline::Failed(e), Action::Stop),
                },
                Event::Closed => match columns.create_dfs(schemas, chain_id) {
                    Ok(tables) => (Pipeline::Assembled(tables), Action::Stop),
                    Err(e) => (Pipeline::Failed(e), Action::Stop),
                },
            },
            Pipeline::Assembled(tables) => (Pipeline::Assembled(tables), Action::Stop),
            Pipeline::Failed(e) => (Pipeline::Failed(e), Action::Stop),
        }
    }

    /// What the run has ended with; `None` while it has not ended.
    pub fn outcome(self) -> (r: Option<Result<DataFrames, CollectError>>)
        ensures
            match r {
                Some(Ok(tables)) => self@ == PipelineView::<D::V>::Assembled(table_views(tables@)),
                Some(Err(e)) => self@ == PipelineView::<D::V>::Failed(e),
                None => !Self::ended(self@),
            },
    {
        match self {
            Pipeline::Assembled(tables) => Some(Ok(tables)),
            Pipeline::Failed(e) => Some(Err(e)),
            _ => None,
        }
    }

    /// A run that has ended stays as it ended: whatever arrives later is
    /// not folded, and the driver is told to stop.
    pub proof fn ended_is_final(
        state: PipelineView<D::V>,
        event: Event<D::Response>,
        schemas: &Schemas,
    )
        requires
            Self::ended(state),
        ensures
            next::<D>(state, event, schemas) == (state, ActionView::Stop),
    {
    }
}

/// The events of a run whose results are delivered in the order of
/// `messages` and whose queue is then closed.
pub open spec fn deliveries<R>(messages: Seq<Result<R, CollectError>>) -> Seq<Event<R>> {
    messages.map_values(|message: Result<R, CollectError>| Event::Delivered(message)).push(
        Event::Closed,
    )
}

/// The state after a sequence of events.
pub open spec fn run<D: CollectByBlock>(
    state: PipelineView<D::V>,
    events: Seq<Event<D::Response>>,
    schemas: &Schemas,
) -> PipelineView<D::V>
    decreases events.len(),
{
    if events.len() == 0 {
        state
    } else {
        run::<D>(next::<D>(state, events[0], schemas).0, events.skip(1), schemas)
    }
}

/// How a consuming run ends once its queue is closed.
pub open spec fn ending<D: CollectByBlock>(
    columns: D::V,
    chain_id: u64,
    messages: Seq<Result<D::Response, CollectError>>,
    schemas: &Schemas,
) -> PipelineView<D::V> {
    match drained::<D>(columns, messages, schemas) {
        Err(e) => PipelineView::Failed(e),
        Ok(after) => match D::assembled(after, schemas, chain_id) {
            Ok(tables) => PipelineView::Assembled(tables),
            Err(e) => PipelineView::Failed(e),
        },
    }
}

/// A run that has ended is not changed by any sequence of events.
pub proof fn ended_run_stays<D: CollectByBlock>(
    state: PipelineView<D::V>,
    events: Seq<Event<D::Response>>,
    schemas: &Schemas,
)
    requires
        Pipeline::<D>::ended(state),
    ensures
        run::<D>(state, events, schemas) == state,
    decreases events.len(),
{
    if events.len() > 0 {
        ended_run_stays::<D>(state, events.skip(1), schemas);
    }
}

/// Stepping through a run one event at a time ends as draining the whole
/// queue does: with the first failure, or with the tables of all the
/// results folded. A result that arrives after a failure changes nothing.
pub proof fn run_ends_as_drained<D: CollectByBlock>(
    columns: D::V,
    chain_id: u64,
    messages: Seq<Result<D::Response, CollectError>>,
    schemas: &Schemas,
)
    ensures
        run::<D>(PipelineView::Consuming { columns, chain_id }, deliveries(messages), schemas)
            == ending::<D>(columns, chain_id, messages, schemas),
    decreases messages.len(),
{
    let state = PipelineView::<D::V>::Consuming { columns, chain_id };
    let events = deliveries(messages);
    if messages.len() == 0 {
        let after = next::<D>(state, Event::Closed, schemas).0;
        assert(events[0] == Event::<D::Response>::Closed);
        assert(events.skip(1) =~= Seq::empty());
        assert(run::<D>(after, events.skip(1), schemas) == after);
    } else {
        assert(events[0] == Event::Delivered(messages[0]));
        assert(events.skip(1) =~= deliveries(messages.skip(1)));
        match consumed::<D>(columns, messages[0], schemas) {
            Ok(after) => {
                run_ends_as_drained::<D>(after, chain_id, messages.skip(1), schemas);
            },
            Err(e) => {
                ended_run_stays::<D>(PipelineView::Failed(e), events.skip(1), schemas);
            },
        }
    }
}

/// A run that is stepped through from its start to the closing of its
/// queue ends as the replay of the same results does: with the same tables,
/// or with the same failure.
pub proof fn run_ends_as_collected<D: CollectByBlock>(
    partition: Partition,
    chain_id: u64,
    messages: Seq<Result<D::Response, CollectError>>,
    schemas: &Schemas,
)
    ensures
        run::<D>(
            PipelineView::Idle,
            seq![Event::Start { partition, chain_id }] + deliveries(messages),
            schemas,
        ) == match collected::<D>(partition@, chain_id, messages, schemas) {
            Ok(tables) => PipelineView::<D::V>::Assembled(tables),
            Err(e) => PipelineView::<D::V>::Failed(e),
        },
{
    let start = Event::<D::Response>::Start { partition, chain_id };
    let events = seq![start] + deliveries(messages);
    assert(events[0] == start);
    assert(events.skip(1) =~= deliveries(messages));
    match partition@.expand_result(D::spec_parameters()) {
        Ok(_) => {
            run_ends_as_drained::<D>(D::initial(), chain_id, messages, schemas);
        },
        Err(e) => {
            ended_run_stays::<D>(PipelineView::Failed(e), deliveries(messages), schemas);
        },
    }
}

} // verus!
