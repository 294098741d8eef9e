//! Names and symbols of ERC-721 contracts, by block and contract address.

use crate::encoding::{decode_hex, decode_text, is_hex_text, utf8_text};
use crate::types::collection::collect_by_block::{
    consumed, drained, row_count_from_empty, CollectByBlock, Dataset, EthCall, EthCallView,
    Extraction, ToDataFrames,
};
use crate::types::dataframes::{
    bytes_views, hex_texts, table_views, text_views, Column, ColumnValues, ColumnValuesView,
    ColumnView, DataFrames, OutputTable, OutputTableView,
};
use crate::types::datatypes::Datatype;
use crate::types::errors::CollectError;
use crate::types::files::ColumnEncoding;
use crate::types::maps::DatatypeMap;
use crate::types::partitions::{Dim, Params, ParamsView, PartitionView};
use crate::types::schemas::{column_consistent, stored, write_column, Schemas, Table};
use vstd::prelude::*;

verus! {

/// columns for ERC-721 metadata: one row for each answered request
#[derive(Debug)]
pub struct Erc721Metadata {
    n_rows: u64,
    block_number: Vec<u32>,
    erc721: Vec<Vec<u8>>,
    name: Vec<Option<String>>,
    symbol: Vec<Option<String>>,
}

/// The columns as plain values.
pub struct Erc721MetadataView {
    pub n_rows: u64,
    pub block_number: Seq<u32>,
    pub erc721: Seq<Seq<u8>>,
    pub name: Seq<Option<Seq<char>>>,
    pub symbol: Seq<Option<Seq<char>>>,
}

impl View for Erc721Metadata {
    type V = Erc721MetadataView;

    closed spec fn view(&self) -> Erc721MetadataView {
        Erc721MetadataView {
            n_rows: self.n_rows,
            block_number: self.block_number@,
            erc721: bytes_views(self.erc721@),
            name: text_views(self.name@),
            symbol: text_views(self.symbol@),
        }
    }
}

/// The answer to one request: block, contract address, name and symbol.
pub type BlockAddressNameSymbol = (u32, Vec<u8>, Option<String>, Option<String>);

/// A text that may be missing, as plain values.
pub open spec fn text_view(text: Option<String>) -> Option<Seq<char>> {
    match text {
        Some(t) => Some(t@),
        None => None,
    }
}

impl Default for Erc721Metadata {
    fn default() -> (columns: Self)
        ensures
            columns@ == <Erc721Metadata as CollectByBlock>::initial(),
    {
        let columns = Erc721Metadata {
            n_rows: 0,
            block_number: Vec::new(),
            erc721: Vec::new(),
            name: Vec::new(),
            symbol: Vec::new(),
        };
        proof {
            assert(columns@.erc721 =~= Seq::empty());
            assert(columns@.name =~= Seq::empty());
            assert(columns@.symbol =~= Seq::empty());
        }
        columns
    }
}

impl Dataset for Erc721Metadata {
    open spec fn spec_name() -> Seq<char> {
        Datatype::Erc721Metadata.spec_name()
    }

    open spec fn spec_default_sort() -> Seq<Seq<char>> {
        seq!["symbol"@, "block_number"@]
    }

    fn name() -> (name: &'static str) {
        "erc721_metadata"
    }

    fn default_sort() -> (columns: Vec<String>) {
        let mut columns = Vec::new();
        columns.push(String::from_str("symbol"));
        columns.push(String::from_str("block_number"));
        assert(columns@.map_values(|column: String| column@) =~= Self::spec_default_sort());
        columns
    }
}

/// One answer as plain values.
pub struct RowView {
    pub block_number: u32,
    pub address: Seq<u8>,
    pub name: Option<Seq<char>>,
    pub symbol: Option<Seq<char>>,
}

/// The answer to one request as plain values.
pub open spec fn row_view(response: BlockAddressNameSymbol) -> RowView {
    RowView {
        block_number: response.0,
        address: response.1@,
        name: text_view(response.2),
        symbol: text_view(response.3),
    }
}

/// What is known of a request between two of its calls.
#[derive(Debug, PartialEq, Eq)]
pub enum Erc721Progress {
    /// The name has been asked for.
    Name,
    /// The name is known, and the symbol has been asked for.
    Symbol { name: Option<String> },
}

/// The progress of a request as plain values.
pub enum Erc721ProgressView {
    Name,
    Symbol { name: Option<Seq<char>> },
}

impl View for Erc721Progress {
    type V = Erc721ProgressView;

    open spec fn view(&self) -> Erc721ProgressView {
        match self {
            Erc721Progress::Name => Erc721ProgressView::Name,
            Erc721Progress::Symbol { name } => Erc721ProgressView::Symbol {
                name: text_view(*name),
            },
        }
    }
}

/// A step of an extraction as plain values.
pub enum StepView {
    Call(Erc721ProgressView, EthCallView),
    Done(Result<RowView, CollectError>),
}

/// A step of an extraction as plain values.
pub open spec fn step_view(step: Extraction<Erc721Progress, BlockAddressNameSymbol>) -> StepView {
    match step {
        Extraction::Call(progress, call) => StepView::Call(progress@, call@),
        Extraction::Done(Ok(response)) => StepView::Done(Ok(row_view(response))),
        Extraction::Done(Err(e)) => StepView::Done(Err(e)),
    }
}

/// The answer to a call as plain values.
pub open spec fn reply_view(reply: Result<Vec<u8>, CollectError>) -> Result<Seq<u8>, CollectError> {
    match reply {
        Ok(bytes) => Ok(bytes@),
        Err(e) => Err(e),
    }
}

/// The selector of `name()`.
pub open spec fn name_selector() -> Seq<u8> {
    seq![0x06u8, 0xfdu8, 0xdeu8, 0x03u8]
}

/// The selector of `symbol()`.
pub open spec fn symbol_selector() -> Seq<u8> {
    seq![0x95u8, 0xd8u8, 0x9bu8, 0x41u8]
}

/// The first dimension that the dataset needs and `request` does not fix.
pub open spec fn unresolved(request: ParamsView) -> Option<Dim> {
    if request.block_number is None {
        Some(Dim::BlockNumber)
    } else if request.address is None {
        Some(Dim::Address)
    } else {
        None
    }
}

/// The call that asks the contract of `request` for what `selector` names,
/// as of the block of `request`.
pub open spec fn call_of(request: ParamsView, selector: Seq<u8>) -> EthCallView {
    EthCallView {
        address: request.address->0,
        call_data: selector,
        block_number: request.block_number->0,
    }
}

/// The first step for `request`: ask for the name.
pub open spec fn begun(request: ParamsView) -> StepView {
    match unresolved(request) {
        Some(dim) => StepView::Done(Err(CollectError::MissingDimension(dim))),
        None => StepView::Call(Erc721ProgressView::Name, call_of(request, name_selector())),
    }
}

/// The step after a call has been answered. A call that failed fails the
/// request. An answer that is not UTF-8 text gives a missing value. After the
/// name the symbol is asked for; after the symbol the request is answered,
/// with the block number cut to 32 bits.
pub open spec fn resumed(
    request: ParamsView,
    progress: Erc721ProgressView,
    reply: Result<Seq<u8>, CollectError>,
) -> StepView {
    match unresolved(request) {
        Some(dim) => StepView::Done(Err(CollectError::MissingDimension(dim))),
        None => match reply {
            Err(e) => StepView::Done(Err(e)),
            Ok(bytes) => match progress {
                Erc721ProgressView::Name => StepView::Call(
                    Erc721ProgressView::Symbol { name: utf8_text(bytes) },
                    call_of(request, symbol_selector()),
                ),
                Erc721ProgressView::Symbol { name } => StepView::Done(
                    Ok(
                        RowView {
                            block_number: request.block_number->0 as u32,
                            address: request.address->0,
                            name,
                            symbol: utf8_text(bytes),
                        },
                    ),
                ),
            },
        },
    }
}

/// The call data that asks a contract for its name.
pub fn name_call_data() -> (data: Vec<u8>)
    ensures
        data@ == name_selector(),
{
    proof {
        reveal_strlit("0x06fdde03");
        assert(is_hex_text("0x06fdde03"@));
    }
    let data = decode_hex("0x06fdde03").expect("Decoding failed");
    assert(data@ =~= name_selector());
    data
}

/// The call data that asks a contract for its symbol.
pub fn symbol_call_data() -> (data: Vec<u8>)
    ensures
        data@ == symbol_selector(),
{
    proof {
        reveal_strlit("0x95d89b41");
        assert(is_hex_text("0x95d89b41"@));
    }
    let data = decode_hex("0x95d89b41").expect("Decoding failed");
    assert(data@ =~= symbol_selector());
    data
}

fn copy_bytes(bytes: &Vec<u8>) -> (copy: Vec<u8>)
    ensures
        copy@ == bytes@,
{
    let copy = bytes.clone();
    assert(copy@ =~= bytes@);
    copy
}

impl Erc721Metadata {
    /// The block of each row.
    pub fn block_number(&self) -> (column: &Vec<u32>)
        ensures
            column@ == self@.block_number,
    {
        &self.block_number
    }

    /// The contract address of each row.
    pub fn erc721(&self) -> (column: &Vec<Vec<u8>>)
        ensures
            bytes_views(column@) == self@.erc721,
    {
        &self.erc721
    }

    /// The name of each row's contract, where it could be read.
    pub fn name(&self) -> (column: &Vec<Option<String>>)
        ensures
            text_views(column@) == self@.name,
    {
        &self.name
    }

    /// The symbol of each row's contract, where it could be read.
    pub fn symbol(&self) -> (column: &Vec<Option<String>>)
        ensures
            text_views(column@) == self@.symbol,
    {
        &self.symbol
    }
}

/// `table` with the column called `name` at its end, if `schema` includes
/// it; a failure if the column does not hold one value for each row.
pub open spec fn added(
    table: Result<OutputTableView, CollectError>,
    schema: &Table,
    name: Seq<char>,
    values: ColumnValuesView,
) -> Result<OutputTableView, CollectError> {
    match table {
        Err(e) => Err(e),
        Ok(t) => if !schema.includes(name) {
            Ok(t)
        } else if values.len() != t.height {
            Err(CollectError::RowCountMismatch(Datatype::Erc721Metadata))
        } else {
            Ok(t.with_column(ColumnView { name, values }))
        },
    }
}

/// The addresses as the column that `schema` asks for: hexadecimal text
/// where it declares the column as hex, raw bytes otherwise.
pub open spec fn address_values(schema: &Table, addresses: Seq<Seq<u8>>) -> ColumnValuesView {
    if schema.encoding_of("erc721"@) == Some(ColumnEncoding::Hex) {
        ColumnValuesView::Text(hex_texts(addresses))
    } else {
        ColumnValuesView::Binary(addresses)
    }
}

/// The table of the columns under `schema`: as many rows as the row counter
/// says, and of `block_number`, `erc721`, `name`, `symbol` and `chain_id`, in
/// this order, the columns that `schema` includes.
pub open spec fn table_of(columns: Erc721MetadataView, schema: &Table, chain_id: u64) -> Result<
    OutputTableView,
    CollectError,
> {
    if columns.n_rows > usize::MAX {
        Err(CollectError::RowCountMismatch(Datatype::Erc721Metadata))
    } else {
        let empty = Ok(OutputTableView { height: columns.n_rows as nat, columns: Seq::empty() });
        let t1 = added(
            empty,
            schema,
            "block_number"@,
            ColumnValuesView::UInt32(columns.block_number),
        );
        let t2 = added(t1, schema, "erc721"@, address_values(schema, columns.erc721));
        let t3 = added(t2, schema, "name"@, ColumnValuesView::Text(columns.name));
        let t4 = added(t3, schema, "symbol"@, ColumnValuesView::Text(columns.symbol));
        added(
            t4,
            schema,
            "chain_id"@,
            ColumnValuesView::UInt64(Seq::new(columns.n_rows as nat, |i: int| chain_id)),
        )
    }
}

fn include_column(
    table: &mut OutputTable,
    schema: &Table,
    name: &str,
    values: ColumnValues,
) -> (r: Result<(), CollectError>)
    ensures
        match r {
            Ok(_) => added(Ok(old(table)@), schema, name@, values@) == Ok::<_, CollectError>(
                final(table)@,
            ),
            Err(e) => added(Ok(old(table)@), schema, name@, values@) == Err::<OutputTableView, _>(
                e,
            ),
        },
{
    if !schema.has_column(name) {
        return Ok(());
    }
    let column = Column { name: String::from_str(name), values };
    if table.add_column(column) {
        Ok(())
    } else {
        Err(CollectError::RowCountMismatch(Datatype::Erc721Metadata))
    }
}

impl ToDataFrames for Erc721Metadata {
    open spec fn assembled(columns: Erc721MetadataView, schemas: &Schemas, chain_id: u64) -> Result<
        Map<Datatype, OutputTableView>,
        CollectError,
    > {
        if !schemas@.contains_key(Datatype::Erc721Metadata) {
            Err(CollectError::MissingSchema(Datatype::Erc721Metadata))
        } else {
            match table_of(columns, &schemas@[Datatype::Erc721Metadata], chain_id) {
                Ok(table) => Ok(Map::empty().insert(Datatype::Erc721Metadata, table)),
                Err(e) => Err(e),
            }
        }
    }

    fn create_dfs(self, schemas: &Schemas, chain_id: u64) -> (r: Result<DataFrames, CollectError>) {
        let schema = match schemas.get(&Datatype::Erc721Metadata) {
            Some(schema) => schema,
            None => {
                return Err(CollectError::MissingSchema(Datatype::Erc721Metadata));
            },
        };
        if self.n_rows > usize::MAX as u64 {
            return Err(CollectError::RowCountMismatch(Datatype::Erc721Metadata));
        }
        let height = self.n_rows as usize;
        let mut table = OutputTable::new(height);
        let addresses = match schema.column_encoding("erc721") {
            Some(ColumnEncoding::Hex) => ColumnValues::hex(&self.erc721),
            _ => ColumnValues::Binary(self.erc721),
        };
        let blocks = ColumnValues::UInt32(self.block_number);
        match include_column(&mut table, schema, "block_number", blocks) {
            Ok(_) => {},
            Err(e) => {
                return Err(e);
            },
        }
        match include_column(&mut table, schema, "erc721", addresses) {
            Ok(_) => {},
            Err(e) => {
                return Err(e);
            },
        }
        match include_column(&mut table, schema, "name", ColumnValues::Text(self.name)) {
            Ok(_) => {},
            Err(e) => {
                return Err(e);
            },
        }
        match include_column(&mut table, schema, "symbol", ColumnValues::Text(self.symbol)) {
            Ok(_) => {},
            Err(e) => {
                return Err(e);
            },
        }
        let chain = ColumnValues::repeat(chain_id, height);
        match include_column(&mut table, schema, "chain_id", chain) {
            Ok(_) => {},
            Err(e) => {
                return Err(e);
            },
        }
        let ghost view = table@;
        let mut tables: DataFrames = DatatypeMap::new();
        tables.insert(Datatype::Erc721Metadata, table);
        proof {
            assert(table_views(tables@) =~= Map::empty().insert(Datatype::Erc721Metadata, view));
        }
        Ok(tables)
    }
}

impl CollectByBlock for Erc721Metadata {
    type Response = BlockAddressNameSymbol;

    type Progress = Erc721Progress;

    open spec fn spec_datatype() -> Datatype {
        Datatype::Erc721Metadata
    }

    open spec fn spec_parameters() -> Seq<Dim> {
        seq![Dim::BlockNumber, Dim::Address]
    }

    open spec fn initial() -> Erc721MetadataView {
        Erc721MetadataView {
            n_rows: 0,
            block_number: Seq::empty(),
            erc721: Seq::empty(),
            name: Seq::empty(),
            symbol: Seq::empty(),
        }
    }

    open spec fn rows(columns: Erc721MetadataView) -> nat {
        columns.n_rows as nat
    }

    open spec fn folded(
        columns: Erc721MetadataView,
        response: BlockAddressNameSymbol,
        table: &Table,
    ) -> Erc721MetadataView {
        Erc721MetadataView {
            n_rows: (columns.n_rows + 1) as u64,
            block_number: stored(table, columns.block_number, "block_number"@, response.0),
            erc721: stored(table, columns.erc721, "erc721"@, response.1@),
            name: stored(table, columns.name, "name"@, text_view(response.2)),
            symbol: stored(table, columns.symbol, "symbol"@, text_view(response.3)),
        }
    }

    open spec fn consistent(columns: Erc721MetadataView, table: &Table) -> bool {
        &&& column_consistent(table, "block_number"@, columns.block_number.len(), columns.n_rows)
        &&& column_consistent(table, "erc721"@, columns.erc721.len(), columns.n_rows)
        &&& column_consistent(table, "name"@, columns.name.len(), columns.n_rows)
        &&& column_consistent(table, "symbol"@, columns.symbol.len(), columns.n_rows)
    }

    proof fn lemma_initial(table: &Table) {
    }

    proof fn lemma_folded(
        columns: Erc721MetadataView,
        response: BlockAddressNameSymbol,
        table: &Table,
    ) {
    }

    fn datatype() -> (datatype: Datatype) {
        Datatype::Erc721Metadata
    }

    fn parameters() -> (dims: Vec<Dim>) {
        let mut dims = Vec::new();
        dims.push(Dim::BlockNumber);
        dims.push(Dim::Address);
        assert(dims@ =~= Self::spec_parameters());
        dims
    }

    fn empty() -> (columns: Self) {
        Erc721Metadata::default()
    }

    fn n_rows(&self) -> (n: u64) {
        self.n_rows
    }

    fn extract(request: &Params, schemas: &Schemas) -> (step: Extraction<
        Erc721Progress,
        BlockAddressNameSymbol,
    >)
        ensures
            step_view(step) == begun(request@),
    {
        let block_number = match request.block_number {
            Some(block_number) => block_number,
            None => {
                return Extraction::Done(Err(CollectError::MissingDimension(Dim::BlockNumber)));
            },
        };
        let address = match &request.address {
            Some(address) => copy_bytes(address),
            None => {
                return Extraction::Done(Err(CollectError::MissingDimension(Dim::Address)));
            },
        };
        let call_data = name_call_data();
        Extraction::Call(Erc721Progress::Name, EthCall { address, call_data, block_number })
    }

    fn resume(
        request: &Params,
        progress: Erc721Progress,
        reply: Result<Vec<u8>, CollectError>,
        schemas: &Schemas,
    ) -> (step: Extraction<Erc721Progress, BlockAddressNameSymbol>)
        ensures
            step_view(step) == resumed(request@, progress@, reply_view(reply)),
    {
        let block_number = match request.block_number {
            Some(block_number) => block_number,
            None => {
                return Extraction::Done(Err(CollectError::MissingDimension(Dim::BlockNumber)));
            },
        };
        let address = match &request.address {
            Some(address) => copy_bytes(address),
            None => {
                return Extraction::Done(Err(CollectError::MissingDimension(Dim::Address)));
            },
        };
        let output = match reply {
            Ok(output) => output,
            Err(e) => {
                return Extraction::Done(Err(e));
            },
        };
        match progress {
            Erc721Progress::Name => {
                let name = decode_text(output);
                let call_data = symbol_call_data();
                Extraction::Call(
                    Erc721Progress::Symbol { name },
                    EthCall { address, call_data, block_number },
                )
            },
            Erc721Progress::Symbol { name } => {
                let symbol = decode_text(output);
                Extraction::Done(Ok((block_number as u32, address, name, symbol)))
            },
        }
    }

    fn transform(response: BlockAddressNameSymbol, columns: &mut Self, schemas: &Schemas)
        ensures
            forall|name: Seq<char>|
                !schemas@[Datatype::Erc721Metadata].includes(name) ==> #[trigger] column_unchanged(
                    old(columns)@,
                    final(columns)@,
                    name,
                ),
    {
        let schema = schemas.get(&Datatype::Erc721Metadata).expect("missing schema");
        let (block, address, name, symbol) = response;
        let ghost before = columns@;
        columns.n_rows += 1;
        write_column(schema, &mut columns.block_number, "block_number", block);
        write_column(schema, &mut columns.erc721, "erc721", address);
        write_column(schema, &mut columns.name, "name", name);
        write_column(schema, &mut columns.symbol, "symbol", symbol);
        proof {
            let after = Self::folded(before, response, schema);
            assert(columns@.erc721 =~= after.erc721);
            assert(columns@.name =~= after.name);
            assert(columns@.symbol =~= after.symbol);
        }
    }
}

/// The requests that a partition expands into along the parameters of the
/// dataset are resolved: each names a block and an address, so none is
/// refused for a missing dimension.
pub proof fn expanded_requests_are_resolved(partition: PartitionView, i: int)
    requires
        0 <= i < partition.expand(<Erc721Metadata as CollectByBlock>::spec_parameters()).len(),
    ensures
        unresolved(
            partition.expand(<Erc721Metadata as CollectByBlock>::spec_parameters())[i],
        ) is None,
{
    let dims = <Erc721Metadata as CollectByBlock>::spec_parameters();
    partition.expand_fixes_dims(dims, i, 0);
    partition.expand_fixes_dims(dims, i, 1);
}

/// Whether `name` is one of the four columns that answers are stored in.
pub open spec fn is_answer_column(name: Seq<char>) -> bool {
    name == "block_number"@ || name == "erc721"@ || name == "name"@ || name == "symbol"@
}

/// The length of the backing array of the column called `name`.
pub open spec fn column_len(columns: Erc721MetadataView, name: Seq<char>) -> nat {
    if name == "block_number"@ {
        columns.block_number.len()
    } else if name == "erc721"@ {
        columns.erc721.len()
    } else if name == "name"@ {
        columns.name.len()
    } else {
        columns.symbol.len()
    }
}

/// Whether the backing array of the column called `name` holds in `after`
/// what it held in `before`. Of a name that is none of the four columns
/// that answers are stored in, this says nothing.
pub open spec fn column_unchanged(
    before: Erc721MetadataView,
    after: Erc721MetadataView,
    name: Seq<char>,
) -> bool {
    &&& name == "block_number"@ ==> after.block_number == before.block_number
    &&& name == "erc721"@ ==> after.erc721 == before.erc721
    &&& name == "name"@ ==> after.name == before.name
    &&& name == "symbol"@ ==> after.symbol == before.symbol
}

/// Schema projection, at one fold: a column that the schema excludes is not
/// written. Whatever the columns hold and whatever the answer is, the
/// backing array of the column is after the fold what it was before.
pub proof fn excluded_column_is_not_written(
    columns: Erc721MetadataView,
    response: BlockAddressNameSymbol,
    table: &Table,
    name: Seq<char>,
)
    requires
        !table.includes(name),
    ensures
        column_unchanged(
            columns,
            <Erc721Metadata as CollectByBlock>::folded(columns, response, table),
            name,
        ),
{
}

/// Schema projection, over a run: a column that the schema excludes is never
/// written. After any number of folds, into columns that hold anything, the
/// backing array of the column is what it was before the first fold.
pub proof fn excluded_column_is_never_written(
    columns: Erc721MetadataView,
    messages: Seq<Result<BlockAddressNameSymbol, CollectError>>,
    schemas: &Schemas,
    name: Seq<char>,
)
    requires
        schemas@.contains_key(Datatype::Erc721Metadata),
        !schemas@[Datatype::Erc721Metadata].includes(name),
    ensures
        drained::<Erc721Metadata>(columns, messages, schemas) matches Ok(after)
            ==> column_unchanged(columns, after, name),
    decreases messages.len(),
{
    if messages.len() > 0 {
        match consumed::<Erc721Metadata>(columns, messages[0], schemas) {
            Ok(next) => {
                excluded_column_is_not_written(
                    columns,
                    messages[0]->Ok_0,
                    &schemas@[Datatype::Erc721Metadata],
                    name,
                );
                excluded_column_is_never_written(next, messages.skip(1), schemas, name);
            },
            Err(_) => {},
        }
    }
}

/// Schema projection, in the columns: a column that the schema excludes is
/// never populated. After any number of folds into columns that started
/// empty, its backing array is still empty.
pub proof fn excluded_column_stays_empty(
    messages: Seq<Result<BlockAddressNameSymbol, CollectError>>,
    schemas: &Schemas,
    name: Seq<char>,
)
    requires
        schemas@.contains_key(Datatype::Erc721Metadata),
        is_answer_column(name),
        !schemas@[Datatype::Erc721Metadata].includes(name),
    ensures
        drained::<Erc721Metadata>(
            <Erc721Metadata as CollectByBlock>::initial(),
            messages,
            schemas,
        ) matches Ok(after) ==> column_len(after, name) == 0,
{
    row_count_from_empty::<Erc721Metadata>(messages, schemas);
}

/// Schema projection, in the table: a column that the schema excludes is
/// absent from the table that the columns assemble into.
pub proof fn excluded_column_is_absent(
    columns: Erc721MetadataView,
    schema: &Table,
    chain_id: u64,
    name: Seq<char>,
)
    requires
        !schema.includes(name),
    ensures
        table_of(columns, schema, chain_id) matches Ok(table) ==> !table.has_column(name),
{
}

} // verus!
