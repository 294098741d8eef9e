//! Collection by block: what a dataset supplies, and the pipeline that folds
//! the answers to a partition's requests into output tables.

use crate::types::dataframes::{table_views, DataFrames, OutputTableView};
use crate::types::datatypes::Datatype;
use crate::types::errors::CollectError;
use crate::types::partitions::{Dim, Params, Partition, PartitionView};
use crate::types::schemas::{Schemas, Table};
use vstd::prelude::*;

verus! {

/// How many delivered results the relay queue holds at most before the
/// consumer takes one: producers cannot run further ahead than this.
pub const RELAY_CAPACITY: usize = 1;

/// A read-only call against a contract, as of a block.
#[derive(Clone, Debug, PartialEq, Eq)]
pub struct EthCall {
    /// The contract to call
    pub address: Vec<u8>,
    /// The payload of the call
    pub call_data: Vec<u8>,
    /// The block as of which to call
    pub block_number: u64,
}

/// A call as plain values.
pub struct EthCallView {
    pub address: Seq<u8>,
    pub call_data: Seq<u8>,
    pub block_number: u64,
}

impl View for EthCall {
    type V = EthCallView;

    open spec fn view(&self) -> EthCallView {
        EthCallView {
            address: self.address@,
            call_data: self.call_data@,
            block_number: self.block_number,
        }
    }
}

/// What the extraction of one request asks for next.
pub enum Extraction<P, R> {
    /// Make the call, then resume with its answer and this progress.
    Call(P, EthCall),
    /// The request is answered, or it has failed.
    Done(Result<R, CollectError>),
}

/// A named dataset with a default row order.
pub trait Dataset {
    /// Name of the dataset.
    spec fn spec_name() -> Seq<char>;

    /// The columns that give the default row order.
    spec fn spec_default_sort() -> Seq<Seq<char>>;

    /// Name of the dataset.
    fn name() -> (name: &'static str)
        ensures
            name@ == Self::spec_name(),
    ;

    /// The columns that give the default row order.
    fn default_sort() -> (columns: Vec<String>)
        ensures
            columns@.map_values(|column: String| column@) == Self::spec_default_sort(),
    ;
}

/// Columns that can be turned into output tables.
pub trait ToDataFrames: Sized + View {
    /// The tables that the columns assemble into under `schemas`, or the
    /// reason why they cannot be assembled.
    spec fn assembled(columns: Self::V, schemas: &Schemas, chain_id: u64) -> Result<
        Map<Datatype, OutputTableView>,
        CollectError,
    >;

    /// Turns the columns into output tables.
    fn create_dfs(self, schemas: &Schemas, chain_id: u64) -> (r: Result<DataFrames, CollectError>)
        ensures
            match r {
                Ok(tables) => Self::assembled(self@, schemas, chain_id) == Ok::<_, CollectError>(
                    table_views(tables@),
                ),
                Err(e) => Self::assembled(self@, schemas, chain_id) == Err::<
                    Map<Datatype, OutputTableView>,
                    _,
                >(e),
            },
    ;
}

/// defines how to collect dataset by block
pub trait CollectByBlock: ToDataFrames {
    /// type of block data responses
    type Response;

    /// What is known of a request between two of its calls.
    type Progress;

    /// The dataset type whose table metadata governs the columns.
    spec fn spec_datatype() -> Datatype;

    /// parameters for requesting data by block; by the block number alone
    /// where a dataset says nothing else
    open spec fn spec_parameters() -> Seq<Dim> {
        seq![Dim::BlockNumber]
    }

    /// The columns before anything is folded in.
    spec fn initial() -> Self::V;

    /// The row counter.
    spec fn rows(columns: Self::V) -> nat;

    /// The columns after `response` is folded in under `table`.
    spec fn folded(columns: Self::V, response: Self::Response, table: &Table) -> Self::V;

    /// The row-count invariant under `table`: the row counter equals the
    /// length of every column that `table` includes, and every other column
    /// is empty.
    spec fn consistent(columns: Self::V, table: &Table) -> bool;

    /// Empty columns meet the row-count invariant, and count no row.
    proof fn lemma_initial(table: &Table)
        ensures
            Self::consistent(Self::initial(), table),
            Self::rows(Self::initial()) == 0,
    ;

    /// A fold keeps the row-count invariant, and counts one row.
    proof fn lemma_folded(columns: Self::V, response: Self::Response, table: &Table)
        requires
            Self::consistent(columns, table),
            Self::rows(columns) < u64::MAX,
        ensures
            Self::consistent(Self::folded(columns, response, table), table),
            Self::rows(Self::folded(columns, response, table)) == Self::rows(columns) + 1,
    ;

    /// The dataset type whose table metadata governs the columns.
    fn datatype() -> (datatype: Datatype)
        ensures
            datatype == Self::spec_datatype(),
    ;

    /// parameters for requesting data by block
    fn parameters() -> (dims: Vec<Dim>)
        ensures
            dims@ == Self::spec_parameters(),
    ;

    /// Empty columns.
    fn empty() -> (columns: Self)
        ensures
            columns@ == Self::initial(),
    ;

    /// The row counter.
    fn n_rows(&self) -> (n: u64)
        ensures
            n == Self::rows(self@),
    ;

    /// fetch dataset data by block: the first thing to do for `request`.
    fn extract(request: &Params, schemas: &Schemas) -> Extraction<Self::Progress, Self::Response>;

    /// fetch dataset data by block: what to do for `request` after a call
    /// has been answered with `reply`.
    fn resume(
        request: &Params,
        progress: Self::Progress,
        reply: Result<Vec<u8>, CollectError>,
        schemas: &Schemas,
    ) -> Extraction<Self::Progress, Self::Response>;

    /// transform block data response into column data
    fn transform(response: Self::Response, columns: &mut Self, schemas: &Schemas)
        requires
            schemas@.contains_key(Self::spec_datatype()),
            Self::rows(old(columns)@) < u64::MAX,
        ensures
            final(columns)@ == Self::folded(
                old(columns)@,
                response,
                &schemas@[Self::spec_datatype()],
            ),
    ;
}

/// The parameters of a dataset that is requested by block number alone.
pub fn default_parameters() -> (dims: Vec<Dim>)
    ensures
        dims@ == seq![Dim::BlockNumber],
{
    let mut dims = Vec::new();
    dims.push(Dim::BlockNumber);
    assert(dims@ =~= seq![Dim::BlockNumber]);
    dims
}

/// The columns after one delivered result, or the failure that ends the run:
/// the failure that was delivered, a missing schema, or a row counter that
/// cannot count another row.
pub open spec fn consumed<D: CollectByBlock>(
    columns: D::V,
    message: Result<D::Response, CollectError>,
    schemas: &Schemas,
) -> Result<D::V, CollectError> {
    match message {
        Err(e) => Err(e),
        Ok(response) => if !schemas@.contains_key(D::spec_datatype()) {
            Err(CollectError::MissingSchema(D::spec_datatype()))
        } else if D::rows(columns) >= u64::MAX {
            Err(CollectError::RowCountMismatch(D::spec_datatype()))
        } else {
            Ok(D::folded(columns, response, &schemas@[D::spec_datatype()]))
        },
    }
}

/// The columns after a sequence of delivered results, folded in delivery
/// order, or the first failure met on the way.
pub open spec fn drained<D: CollectByBlock>(
    columns: D::V,
    messages: Seq<Result<D::Response, CollectError>>,
    schemas: &Schemas,
) -> Result<D::V, CollectError>
    decreases messages.len(),
{
    if messages.len() == 0 {
        Ok(columns)
    } else {
        match consumed::<D>(columns, messages[0], schemas) {
            Ok(next) => drained::<D>(next, messages.skip(1), schemas),
            Err(e) => Err(e),
        }
    }
}

/// Folds one delivered result into the columns, or ends the run with a
/// failure.
pub fn consume<D: CollectByBlock>(
    columns: D,
    message: Result<D::Response, CollectError>,
    schemas: &Schemas,
) -> (r: Result<D, CollectError>)
    ensures
        match r {
            Ok(next) => consumed::<D>(columns@, message, schemas) == Ok::<_, CollectError>(next@),
            Err(e) => consumed::<D>(columns@, message, schemas) == Err::<D::V, _>(e),
        },
{
    match message {
        Err(e) => Err(e),
        Ok(response) => {
            let datatype = D::datatype();
            if !schemas.contains_key(&datatype) {
                Err(CollectError::MissingSchema(datatype))
            } else if columns.n_rows() == u64::MAX {
                Err(CollectError::RowCountMismatch(datatype))
            } else {
                let mut columns = columns;
                D::transform(response, &mut columns, schemas);
                Ok(columns)
            }
        },
    }
}

/// Drains a queue of delivered results in delivery order, folding each
/// successful one into columns that start empty. The first failure ends the
/// run: it is returned, nothing after it is looked at, and the columns built
/// so far are dropped. A successful result that cannot be folded, for want
/// of the dataset's schema or of room in the row counter, is such a failure
/// too, and ends the run in the same way.
pub fn transform_channel<D: CollectByBlock>(
    messages: Vec<Result<D::Response, CollectError>>,
    schemas: &Schemas,
) -> (r: Result<D, CollectError>)
    ensures
        match r {
            Ok(columns) => drained::<D>(D::initial(), messages@, schemas) == Ok::<_, CollectError>(
                columns@,
            ),
            Err(e) => drained::<D>(D::initial(), messages@, schemas) == Err::<D::V, _>(e),
        },
{
    let ghost all = messages@;
    let mut columns = D::empty();
    proof {
        assert(all.skip(0) =~= all);
    }
    for message in it: messages
        invariant
            it.seq() == all,
            drained::<D>(D::initial(), all, schemas) == drained::<D>(
                columns@,
                all.skip(it.index() as int),
                schemas,
            ),
    {
        proof {
            let rest = all.skip(it.index() as int);
            assert(rest[0] == message);
            assert(rest.skip(1) =~= all.skip(it.index() + 1));
            assert(drained::<D>(columns@, rest, schemas) == match consumed::<D>(
                columns@,
                message,
                schemas,
            ) {
                Ok(next) => drained::<D>(next, rest.skip(1), schemas),
                Err(e) => Err(e),
            });
        }
        columns = match consume(columns, message, schemas) {
            Ok(next) => next,
            Err(e) => {
                return Err(e);
            },
        };
    }
    proof {
        assert(all.skip(all.len() as int) =~= Seq::empty());
    }
    Ok(columns)
}

/// What a whole run yields: the tables of the columns that the delivered
/// results fold into, or the first failure. The partition must expand into
/// requests along the dataset's parameters, every result must be a success,
/// and the columns must assemble.
pub open spec fn collected<D: CollectByBlock>(
    partition: PartitionView,
    chain_id: u64,
    messages: Seq<Result<D::Response, CollectError>>,
    schemas: &Schemas,
) -> Result<Map<Datatype, OutputTableView>, CollectError> {
    match partition.expand_result(D::spec_parameters()) {
        Err(e) => Err(e),
        Ok(_) => match drained::<D>(D::initial(), messages, schemas) {
            Err(e) => Err(e),
            Ok(columns) => D::assembled(columns, schemas, chain_id),
        },
    }
}

/// collect data into DataFrame: replays a run on a partition whose results
/// are at hand, in the order in which they were delivered. The results are
/// taken as they come: that there is one for each request of the partition
/// is the business of the driver, which gets the requests from
/// `Pipeline::step`.
pub fn collect_by_block<D: CollectByBlock>(
    partition: &Partition,
    chain_id: u64,
    messages: Vec<Result<D::Response, CollectError>>,
    schemas: &Schemas,
) -> (r: Result<DataFrames, CollectError>)
    ensures
        match r {
            Ok(tables) => collected::<D>(partition@, chain_id, messages@, schemas) == Ok::<
                _,
                CollectError,
            >(table_views(tables@)),
            Err(e) => collected::<D>(partition@, chain_id, messages@, schemas) == Err::<
                Map<Datatype, OutputTableView>,
                _,
            >(e),
        },
{
    match partition.check_dims(D::parameters().as_slice()) {
        Ok(_) => {},
        Err(e) => {
            return Err(e);
        },
    }
    let columns = match transform_channel::<D>(messages, schemas) {
        Ok(columns) => columns,
        Err(e) => {
            return Err(e);
        },
    };
    columns.create_dfs(schemas, chain_id)
}

/// One failed result fails the queue: whatever is delivered before or after
/// it, and whatever the columns hold when draining starts, draining yields a
/// failure and no columns.
pub proof fn fail_fast<D: CollectByBlock>(
    columns: D::V,
    messages: Seq<Result<D::Response, CollectError>>,
    schemas: &Schemas,
    k: int,
)
    requires
        0 <= k < messages.len(),
        messages[k] is Err,
    ensures
        drained::<D>(columns, messages, schemas) is Err,
    decreases messages.len(),
{
    if k > 0 {
        match consumed::<D>(columns, messages[0], schemas) {
            Ok(next) => {
                assert(messages.skip(1)[k - 1] == messages[k]);
                fail_fast::<D>(next, messages.skip(1), schemas, k - 1);
            },
            Err(_) => {},
        }
    }
}

/// One failed request fails the run: if the extraction of any request of a
/// partition fails, collecting the partition yields a failure and no table.
pub proof fn failed_request_fails_run<D: CollectByBlock>(
    partition: PartitionView,
    chain_id: u64,
    messages: Seq<Result<D::Response, CollectError>>,
    schemas: &Schemas,
    k: int,
)
    requires
        0 <= k < messages.len(),
        messages[k] is Err,
    ensures
        collected::<D>(partition, chain_id, messages, schemas) is Err,
{
    fail_fast::<D>(D::initial(), messages, schemas, k);
}

/// Nothing that is delivered after the first failure matters: the queue
/// drains to the failure that stands first in it, if everything before it
/// could be folded.
pub proof fn first_failure_wins<D: CollectByBlock>(
    columns: D::V,
    messages: Seq<Result<D::Response, CollectError>>,
    schemas: &Schemas,
    k: int,
)
    requires
        0 <= k < messages.len(),
        messages[k] is Err,
        drained::<D>(columns, messages.take(k), schemas) is Ok,
    ensures
        drained::<D>(columns, messages, schemas) == Err::<D::V, _>(messages[k]->Err_0),
    decreases messages.len(),
{
    if k > 0 {
        let head = messages.take(k);
        assert(head[0] == messages[0]);
        match consumed::<D>(columns, messages[0], schemas) {
            Ok(next) => {
                assert(head.skip(1) =~= messages.skip(1).take(k - 1));
                assert(messages.skip(1)[k - 1] == messages[k]);
                first_failure_wins::<D>(next, messages.skip(1), schemas, k - 1);
            },
            Err(_) => {},
        }
    }
}

/// Folds keep the row-count invariant: columns that meet it still meet it
/// after any number of folds, and the row counter has counted the folds.
/// Stated of any sequence of delivered results that drains without failure,
/// and so of each of its prefixes.
pub proof fn row_count_invariant<D: CollectByBlock>(
    columns: D::V,
    messages: Seq<Result<D::Response, CollectError>>,
    schemas: &Schemas,
)
    requires
        schemas@.contains_key(D::spec_datatype()),
        D::consistent(columns, &schemas@[D::spec_datatype()]),
    ensures
        drained::<D>(columns, messages, schemas) matches Ok(after) ==> D::consistent(
            after,
            &schemas@[D::spec_datatype()],
        ) && D::rows(after) == D::rows(columns) + messages.len(),
    decreases messages.len(),
{
    if messages.len() > 0 {
        match consumed::<D>(columns, messages[0], schemas) {
            Ok(next) => {
                D::lemma_folded(columns, messages[0]->Ok_0, &schemas@[D::spec_datatype()]);
                row_count_invariant::<D>(next, messages.skip(1), schemas);
            },
            Err(_) => {},
        }
    }
}

/// The row-count invariant of a run: after any number of folds into columns
/// that started empty, the columns meet the invariant and the row counter
/// equals the number of folds.
pub proof fn row_count_from_empty<D: CollectByBlock>(
    messages: Seq<Result<D::Response, CollectError>>,
    schemas: &Schemas,
)
    requires
        schemas@.contains_key(D::spec_datatype()),
    ensures
        drained::<D>(D::initial(), messages, schemas) matches Ok(after) ==> D::consistent(
            after,
            &schemas@[D::spec_datatype()],
        ) && D::rows(after) == messages.len(),
{
    D::lemma_initial(&schemas@[D::spec_datatype()]);
    row_count_invariant::<D>(D::initial(), messages, schemas);
}

} // verus!
