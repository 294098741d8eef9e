use cryo_freeze::{
    BlockRange, CollectError, ColumnEncoding, ColumnSchema, Datatype, DatatypeMap, Dim,
    FileFormat, FileOutput, MetaDatatype, MultiDatatype, Partition, Query, Schemas, Table,
};
use polars::prelude::ParquetCompression;

fn config(output_dir: &str, prefix: &str, format: FileFormat) -> FileOutput {
    FileOutput {
        output_dir: output_dir.to_string(),
        prefix: prefix.to_string(),
        suffix: None,
        overwrite: false,
        format,
        row_group_size: None,
        parquet_statistics: true,
        parquet_compression: ParquetCompression::Uncompressed,
    }
}

fn table(datatype: Datatype) -> Table {
    Table {
        datatype,
        columns: vec![ColumnSchema {
            name: "block_number".to_string(),
            encoding: ColumnEncoding::Binary,
        }],
        sort_columns: vec!["block_number".to_string()],
    }
}

fn schemas(datatypes: &[Datatype]) -> Schemas {
    let mut schemas: Schemas = DatatypeMap::new();
    for datatype in datatypes {
        schemas.insert(*datatype, table(*datatype));
    }
    schemas
}

fn query(datatypes: Vec<MetaDatatype>, known: &[Datatype], partitioned_by: Vec<Dim>) -> Query {
    Query { datatypes, schemas: schemas(known), partitioned_by }
}

fn blocks(start: u64, end: u64) -> Partition {
    Partition { block_numbers: Some(BlockRange { start, end }), addresses: None }
}

#[test]
fn file_format_extensions() {
    assert_eq!(FileFormat::Parquet.as_str(), "parquet");
    assert_eq!(FileFormat::Csv.as_str(), "csv");
    assert_eq!(FileFormat::Json.as_str(), "json");
}

#[test]
fn column_encoding_names() {
    assert_eq!(ColumnEncoding::Binary.as_str(), "binary");
    assert_eq!(ColumnEncoding::Hex.as_str(), "hex");
}

#[test]
fn path_of_erc721_metadata_partition() {
    let config = config("/out", "run1", FileFormat::Csv);
    let query = query(
        vec![MetaDatatype::Scalar(Datatype::Erc721Metadata)],
        &[Datatype::Erc721Metadata],
        vec![Dim::BlockNumber],
    );
    let partition = blocks(1000000, 1000999);
    assert_eq!(partition.label(&query.partitioned_by), Ok("b1000000_to_1000999".to_string()));
    assert_eq!(
        config.get_path(&query, &partition, Datatype::Erc721Metadata),
        Ok("/out/run1__erc721_metadata__b1000000_to_1000999.csv".to_string())
    );
}

#[test]
fn path_uses_the_extension_of_each_format() {
    let query = query(vec![], &[Datatype::Blocks], vec![Dim::BlockNumber]);
    let partition = blocks(0, 9);
    assert_eq!(
        config("data", "eth", FileFormat::Parquet).get_path(&query, &partition, Datatype::Blocks),
        Ok("data/eth__blocks__b0_to_9.parquet".to_string())
    );
    assert_eq!(
        config("data", "eth", FileFormat::Json).get_path(&query, &partition, Datatype::Blocks),
        Ok("data/eth__blocks__b0_to_9.json".to_string())
    );
}

#[test]
fn path_of_unpartitioned_query_has_empty_label() {
    let query = query(vec![], &[Datatype::Transactions], vec![]);
    let partition = Partition { block_numbers: None, addresses: None };
    assert_eq!(
        config("/out", "p", FileFormat::Csv).get_path(&query, &partition, Datatype::Transactions),
        Ok("/out/p__transactions__.csv".to_string())
    );
}

#[test]
fn path_derivation_is_deterministic() {
    let first = config("/out", "run1", FileFormat::Parquet);
    let second = first.clone();
    let query_one = query(vec![], &[Datatype::Blocks], vec![Dim::BlockNumber, Dim::Address]);
    let query_two = query(vec![], &[Datatype::Blocks], vec![Dim::BlockNumber, Dim::Address]);
    let partition = Partition {
        block_numbers: Some(BlockRange { start: 5, end: 7 }),
        addresses: Some(vec![vec![0xde, 0xad], vec![0xbe, 0xef]]),
    };
    let one = first.get_path(&query_one, &partition, Datatype::Blocks);
    let two = second.get_path(&query_two, &partition.clone(), Datatype::Blocks);
    assert_eq!(one, two);
    assert_eq!(one, Ok("/out/run1__blocks__b5_to_7__a_0xdead_0xbeef.parquet".to_string()));
}

#[test]
fn path_fails_for_unresolved_datatype() {
    let query = query(vec![], &[Datatype::Blocks], vec![Dim::BlockNumber]);
    assert_eq!(
        config("/out", "p", FileFormat::Csv).get_path(
            &query,
            &blocks(1, 2),
            Datatype::Erc721Metadata
        ),
        Err(CollectError::UnknownDatatype(Datatype::Erc721Metadata))
    );
}

#[test]
fn path_fails_without_label() {
    let query = query(vec![], &[Datatype::Blocks], vec![Dim::BlockNumber, Dim::Address]);
    assert_eq!(
        config("/out", "p", FileFormat::Csv).get_path(&query, &blocks(1, 2), Datatype::Blocks),
        Err(CollectError::MissingDimension(Dim::Address))
    );
}

#[test]
fn unresolved_datatype_is_reported_before_missing_label() {
    let query = query(vec![], &[], vec![Dim::Address]);
    assert_eq!(
        config("/out", "p", FileFormat::Csv).get_path(&query, &blocks(1, 2), Datatype::Blocks),
        Err(CollectError::UnknownDatatype(Datatype::Blocks))
    );
}

#[test]
fn paths_cover_every_concrete_datatype() {
    let query = query(
        vec![
            MetaDatatype::Multi(MultiDatatype::BlocksAndTransactions),
            MetaDatatype::Scalar(Datatype::Erc721Metadata),
        ],
        &[Datatype::Blocks, Datatype::Transactions, Datatype::Erc721Metadata],
        vec![Dim::BlockNumber],
    );
    let config = config("/out", "run", FileFormat::Parquet);
    let paths = config.get_paths(&query, &blocks(10, 19)).unwrap();
    assert_eq!(paths.len(), 3);
    assert_eq!(
        paths.keys(),
        vec![Datatype::Blocks, Datatype::Transactions, Datatype::Erc721Metadata]
    );
    assert_eq!(
        paths.get(&Datatype::Blocks),
        Some(&"/out/run__blocks__b10_to_19.parquet".to_string())
    );
    assert_eq!(
        paths.get(&Datatype::Transactions),
        Some(&"/out/run__transactions__b10_to_19.parquet".to_string())
    );
    assert_eq!(
        paths.get(&Datatype::Erc721Metadata),
        Some(&"/out/run__erc721_metadata__b10_to_19.parquet".to_string())
    );
}

#[test]
fn paths_of_repeated_datatype_resolve_to_one_path() {
    let config = config("/out", "run", FileFormat::Json);
    let query = query(
        vec![
            MetaDatatype::Scalar(Datatype::Blocks),
            MetaDatatype::Multi(MultiDatatype::BlocksAndTransactions),
            MetaDatatype::Scalar(Datatype::Transactions),
        ],
        &[Datatype::Blocks, Datatype::Transactions],
        vec![Dim::BlockNumber],
    );
    let partition = blocks(1, 1);
    let paths = config.get_paths(&query, &partition).unwrap();
    assert_eq!(paths.len(), 2);
    assert_eq!(paths.keys(), vec![Datatype::Blocks, Datatype::Transactions]);
    assert_eq!(
        paths.get(&Datatype::Blocks).cloned(),
        config.get_path(&query, &partition, Datatype::Blocks).ok()
    );
    assert_eq!(paths.get(&Datatype::Blocks), Some(&"/out/run__blocks__b1_to_1.json".to_string()));
}

#[test]
fn paths_of_empty_query_are_empty() {
    let query = query(vec![], &[], vec![Dim::Address]);
    let paths = config("/out", "run", FileFormat::Csv).get_paths(&query, &blocks(1, 2)).unwrap();
    assert_eq!(paths.len(), 0);
    assert!(paths.keys().is_empty());
}

#[test]
fn paths_fail_as_the_first_failing_path() {
    let config = config("/out", "run", FileFormat::Csv);
    let unknown = query(
        vec![MetaDatatype::Multi(MultiDatatype::BlocksAndTransactions)],
        &[Datatype::Blocks],
        vec![Dim::BlockNumber],
    );
    assert_eq!(
        config.get_paths(&unknown, &blocks(1, 2)).unwrap_err(),
        CollectError::UnknownDatatype(Datatype::Transactions)
    );
    let unlabelled = query(
        vec![MetaDatatype::Scalar(Datatype::Blocks)],
        &[Datatype::Blocks],
        vec![Dim::Address],
    );
    assert_eq!(
        config.get_paths(&unlabelled, &blocks(1, 2)).unwrap_err(),
        CollectError::MissingDimension(Dim::Address)
    );
}

#[test]
fn meta_datatypes_expand_in_order() {
    assert_eq!(
        MetaDatatype::Scalar(Datatype::Erc721Metadata).datatypes(),
        vec![Datatype::Erc721Metadata]
    );
    assert_eq!(
        MetaDatatype::Multi(MultiDatatype::BlocksAndTransactions).datatypes(),
        vec![Datatype::Blocks, Datatype::Transactions]
    );
    assert_eq!(
        MultiDatatype::BlocksAndTransactions.datatypes(),
        vec![Datatype::Blocks, Datatype::Transactions]
    );
    let query = query(
        vec![
            MetaDatatype::Scalar(Datatype::Transactions),
            MetaDatatype::Multi(MultiDatatype::BlocksAndTransactions),
        ],
        &[],
        vec![],
    );
    assert_eq!(
        query.concrete_datatypes(),
        vec![Datatype::Transactions, Datatype::Blocks, Datatype::Transactions]
    );
}

#[test]
fn existing_files_are_overwritten_only_on_demand() {
    let mut config = config("/out", "run", FileFormat::Csv);
    assert!(config.writes(false));
    assert!(!config.writes(true));
    config.overwrite = true;
    assert!(config.writes(false));
    assert!(config.writes(true));
}

#[test]
fn datatype_names() {
    assert_eq!(Datatype::Blocks.name(), "blocks");
    assert_eq!(Datatype::Transactions.name(), "transactions");
    assert_eq!(Datatype::Erc721Metadata.name(), "erc721_metadata");
}
