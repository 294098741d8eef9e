//! Partitioned collection of block-organised data into typed columnar tables.
//!
//! A partition of the request space expands into requests. Each request is
//! extracted against a node, concurrently with the others, and its result
//! is relayed to a single consumer that folds the results into the columns
//! of a dataset. When every request is answered the columns are assembled
//! into output tables, and each table is mapped to the path of its file.
//! The first failed request ends the run.

pub mod datasets;
pub mod encoding;
pub mod types;

pub use datasets::erc721_metadata::{BlockAddressNameSymbol, Erc721Metadata, Erc721Progress};
pub use types::collection::collect_by_block::{
    collect_by_block, consume, default_parameters, transform_channel, CollectByBlock, Dataset,
    EthCall, Extraction, ToDataFrames, RELAY_CAPACITY,
};
pub use types::collection::pipeline::{Action, Event, Pipeline};
pub use types::dataframes::{Column, ColumnValues, DataFrames, OutputTable};
pub use types::datatypes::{Datatype, MetaDatatype, MultiDatatype};
pub use types::errors::{CollectError, ErrorKind};
pub use types::files::{ColumnEncoding, FileFormat, FileOutput};
pub use types::maps::DatatypeMap;
pub use types::partitions::{BlockRange, Dim, Params, Partition};
pub use types::queries::Query;
pub use types::schemas::{write_column, ColumnSchema, Schemas, Table};
