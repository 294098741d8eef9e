use cryo_freeze::datasets::erc721_metadata::{name_call_data, symbol_call_data};
use cryo_freeze::{
    collect_by_block, BlockAddressNameSymbol, BlockRange, CollectByBlock, CollectError, Column,
    ColumnEncoding, ColumnSchema, ColumnValues, Dataset, Datatype, DatatypeMap, Dim,
    Erc721Metadata, Erc721Progress, EthCall, Extraction, Params, Partition, Schemas, Table,
    ToDataFrames, write_column,
};

fn table_of(columns: &[(&str, ColumnEncoding)]) -> Table {
    Table {
        datatype: Datatype::Erc721Metadata,
        columns: columns
            .iter()
            .map(|(name, encoding)| ColumnSchema { name: name.to_string(), encoding: *encoding })
            .collect(),
        sort_columns: Erc721Metadata::default_sort(),
    }
}

fn schemas_of(columns: &[(&str, ColumnEncoding)]) -> Schemas {
    let mut schemas: Schemas = DatatypeMap::new();
    schemas.insert(Datatype::Erc721Metadata, table_of(columns));
    schemas
}

fn full_schemas() -> Schemas {
    schemas_of(&[
        ("block_number", ColumnEncoding::Binary),
        ("erc721", ColumnEncoding::Binary),
        ("name", ColumnEncoding::Binary),
        ("symbol", ColumnEncoding::Binary),
    ])
}

fn request() -> Params {
    Params { block_number: Some(1000000), address: Some(vec![0xaa; 20]) }
}

fn answer(name_reply: Vec<u8>, symbol_reply: Vec<u8>) -> BlockAddressNameSymbol {
    let schemas = full_schemas();
    let request = request();
    let progress = match Erc721Metadata::extract(&request, &schemas) {
        Extraction::Call(progress, _) => progress,
        Extraction::Done(_) => panic!("the name is asked for first"),
    };
    let progress = match Erc721Metadata::resume(&request, progress, Ok(name_reply), &schemas) {
        Extraction::Call(progress, _) => progress,
        Extraction::Done(_) => panic!("the symbol is asked for second"),
    };
    match Erc721Metadata::resume(&request, progress, Ok(symbol_reply), &schemas) {
        Extraction::Done(Ok(response)) => response,
        _ => panic!("the request is answered after two calls"),
    }
}

fn column(name: &str, values: ColumnValues) -> Column {
    Column { name: name.to_string(), values }
}

#[test]
fn selectors_of_name_and_symbol() {
    assert_eq!(name_call_data(), vec![0x06, 0xfd, 0xde, 0x03]);
    assert_eq!(symbol_call_data(), vec![0x95, 0xd8, 0x9b, 0x41]);
}

#[test]
fn dataset_name_sort_and_parameters() {
    assert_eq!(<Erc721Metadata as Dataset>::name(), "erc721_metadata");
    assert_eq!(
        Erc721Metadata::default_sort(),
        vec!["symbol".to_string(), "block_number".to_string()]
    );
    assert_eq!(Erc721Metadata::parameters(), vec![Dim::BlockNumber, Dim::Address]);
    assert_eq!(Erc721Metadata::datatype(), Datatype::Erc721Metadata);
}

#[test]
fn extract_asks_for_name_then_symbol() {
    let schemas = full_schemas();
    let request = request();
    let (progress, call) = match Erc721Metadata::extract(&request, &schemas) {
        Extraction::Call(progress, call) => (progress, call),
        Extraction::Done(_) => panic!("the name is asked for first"),
    };
    assert_eq!(progress, Erc721Progress::Name);
    assert_eq!(
        call,
        EthCall {
            address: vec![0xaa; 20],
            call_data: vec![0x06, 0xfd, 0xde, 0x03],
            block_number: 1000000
        }
    );
    let (progress, call) =
        match Erc721Metadata::resume(&request, progress, Ok(b"MyToken".to_vec()), &schemas) {
            Extraction::Call(progress, call) => (progress, call),
            Extraction::Done(_) => panic!("the symbol is asked for second"),
        };
    assert_eq!(progress, Erc721Progress::Symbol { name: Some("MyToken".to_string()) });
    assert_eq!(
        call,
        EthCall {
            address: vec![0xaa; 20],
            call_data: vec![0x95, 0xd8, 0x9b, 0x41],
            block_number: 1000000
        }
    );
    match Erc721Metadata::resume(&request, progress, Ok(b"MTK".to_vec()), &schemas) {
        Extraction::Done(Ok(response)) => assert_eq!(
            response,
            (1000000, vec![0xaa; 20], Some("MyToken".to_string()), Some("MTK".to_string()))
        ),
        _ => panic!("the request is answered after two calls"),
    }
}

#[test]
fn one_answered_request_yields_one_row() {
    let schemas = full_schemas();
    let response = answer(b"MyToken".to_vec(), b"MTK".to_vec());
    let mut columns = Erc721Metadata::default();
    Erc721Metadata::transform(response, &mut columns, &schemas);
    assert_eq!(columns.n_rows(), 1);
    assert_eq!(columns.block_number(), &vec![1000000]);
    assert_eq!(columns.erc721(), &vec![vec![0xaa; 20]]);
    assert_eq!(columns.name(), &vec![Some("MyToken".to_string())]);
    assert_eq!(columns.symbol(), &vec![Some("MTK".to_string())]);
}

#[test]
fn undecodable_symbol_is_a_missing_value() {
    let schemas = full_schemas();
    let response = answer(b"MyToken".to_vec(), vec![0xff, 0xfe, 0x4d]);
    assert_eq!(response, (1000000, vec![0xaa; 20], Some("MyToken".to_string()), None));
    let partition = Partition {
        block_numbers: Some(BlockRange { start: 1000000, end: 1000000 }),
        addresses: Some(vec![vec![0xaa; 20]]),
    };
    let tables =
        collect_by_block::<Erc721Metadata>(&partition, 1, vec![Ok(response)], &schemas).unwrap();
    let table = tables.get(&Datatype::Erc721Metadata).unwrap();
    assert_eq!(table.height(), 1);
    assert_eq!(
        table.columns(),
        &vec![
            column("block_number", ColumnValues::UInt32(vec![1000000])),
            column("erc721", ColumnValues::Binary(vec![vec![0xaa; 20]])),
            column("name", ColumnValues::Text(vec![Some("MyToken".to_string())])),
            column("symbol", ColumnValues::Text(vec![None])),
        ]
    );
}

#[test]
fn undecodable_name_is_a_missing_value() {
    let response = answer(vec![0xc3, 0x28], b"MTK".to_vec());
    assert_eq!(response, (1000000, vec![0xaa; 20], None, Some("MTK".to_string())));
}

#[test]
fn failed_call_fails_the_request() {
    let schemas = full_schemas();
    let request = request();
    let failure = CollectError::NetworkFault("connection reset".to_string());
    match Erc721Metadata::resume(&request, Erc721Progress::Name, Err(failure.clone()), &schemas) {
        Extraction::Done(Err(e)) => assert_eq!(e, failure),
        _ => panic!("a failed name call fails the request"),
    }
    let fault = CollectError::NodeFault("execution reverted".to_string());
    let progress = Erc721Progress::Symbol { name: Some("MyToken".to_string()) };
    match Erc721Metadata::resume(&request, progress, Err(fault.clone()), &schemas) {
        Extraction::Done(Err(e)) => assert_eq!(e, fault),
        _ => panic!("a failed symbol call fails the request"),
    }
}

#[test]
fn request_without_block_or_address_cannot_be_extracted() {
    let schemas = full_schemas();
    let no_block = Params { block_number: None, address: Some(vec![0xaa; 20]) };
    match Erc721Metadata::extract(&no_block, &schemas) {
        Extraction::Done(Err(e)) => assert_eq!(e, CollectError::MissingDimension(Dim::BlockNumber)),
        _ => panic!("a request without a block cannot be extracted"),
    }
    let no_address = Params { block_number: Some(1), address: None };
    match Erc721Metadata::extract(&no_address, &schemas) {
        Extraction::Done(Err(e)) => assert_eq!(e, CollectError::MissingDimension(Dim::Address)),
        _ => panic!("a request without an address cannot be extracted"),
    }
    match Erc721Metadata::resume(&no_address, Erc721Progress::Name, Ok(vec![]), &schemas) {
        Extraction::Done(Err(e)) => assert_eq!(e, CollectError::MissingDimension(Dim::Address)),
        _ => panic!("a request without an address cannot be resumed"),
    }
}

#[test]
fn block_number_is_cut_to_32_bits() {
    let schemas = full_schemas();
    let request = Params { block_number: Some((1u64 << 32) + 7), address: Some(vec![0x01]) };
    let progress = Erc721Progress::Symbol { name: None };
    match Erc721Metadata::resume(&request, progress, Ok(b"S".to_vec()), &schemas) {
        Extraction::Done(Ok(response)) => {
            assert_eq!(response, (7, vec![0x01], None, Some("S".to_string())))
        }
        _ => panic!("the request is answered"),
    }
}

#[test]
fn row_counter_equals_column_lengths_after_each_fold() {
    let schemas = full_schemas();
    let mut columns = Erc721Metadata::empty();
    assert_eq!(columns.n_rows(), 0);
    for i in 0..5u32 {
        let response = (i, vec![i as u8; 20], Some(format!("token{}", i)), None);
        Erc721Metadata::transform(response, &mut columns, &schemas);
        let rows = columns.n_rows() as usize;
        assert_eq!(rows, i as usize + 1);
        assert_eq!(columns.block_number().len(), rows);
        assert_eq!(columns.erc721().len(), rows);
        assert_eq!(columns.name().len(), rows);
        assert_eq!(columns.symbol().len(), rows);
    }
    assert_eq!(columns.block_number(), &vec![0, 1, 2, 3, 4]);
    assert_eq!(columns.name()[3], Some("token3".to_string()));
    assert_eq!(columns.symbol(), &vec![None, None, None, None, None]);
}

#[test]
fn excluded_columns_are_never_populated() {
    let schemas = schemas_of(&[
        ("block_number", ColumnEncoding::Binary),
        ("symbol", ColumnEncoding::Binary),
    ]);
    let mut columns = Erc721Metadata::default();
    for i in 0..3u32 {
        let response = (i, vec![0xaa; 20], Some("MyToken".to_string()), Some("MTK".to_string()));
        Erc721Metadata::transform(response, &mut columns, &schemas);
    }
    assert_eq!(columns.n_rows(), 3);
    assert_eq!(columns.block_number(), &vec![0, 1, 2]);
    assert!(columns.erc721().is_empty());
    assert!(columns.name().is_empty());
    assert_eq!(columns.symbol().len(), 3);
    let tables = columns.create_dfs(&schemas, 1).unwrap();
    let table = tables.get(&Datatype::Erc721Metadata).unwrap();
    assert_eq!(table.height(), 3);
    assert_eq!(
        table.columns(),
        &vec![
            column("block_number", ColumnValues::UInt32(vec![0, 1, 2])),
            column(
                "symbol",
                ColumnValues::Text(vec![
                    Some("MTK".to_string()),
                    Some("MTK".to_string()),
                    Some("MTK".to_string())
                ])
            ),
        ]
    );
}

#[test]
fn write_column_is_gated_by_the_schema() {
    let table = table_of(&[("name", ColumnEncoding::Binary)]);
    let mut names: Vec<u8> = vec![1];
    write_column(&table, &mut names, "name", 2);
    assert_eq!(names, vec![1, 2]);
    write_column(&table, &mut names, "symbol", 3);
    assert_eq!(names, vec![1, 2]);
    write_column(&table, &mut names, "nam", 4);
    assert_eq!(names, vec![1, 2]);
}

#[test]
fn addresses_are_written_as_the_schema_encodes_them() {
    let hex = schemas_of(&[("erc721", ColumnEncoding::Hex), ("chain_id", ColumnEncoding::Binary)]);
    let mut columns = Erc721Metadata::default();
    Erc721Metadata::transform((5, vec![0x00, 0xab, 0xff], None, None), &mut columns, &hex);
    Erc721Metadata::transform((6, vec![], None, None), &mut columns, &hex);
    let tables = columns.create_dfs(&hex, 137).unwrap();
    assert_eq!(tables.keys(), vec![Datatype::Erc721Metadata]);
    let table = tables.get(&Datatype::Erc721Metadata).unwrap();
    assert_eq!(
        table.columns(),
        &vec![
            column(
                "erc721",
                ColumnValues::Text(vec![Some("0x00abff".to_string()), Some("0x".to_string())])
            ),
            column("chain_id", ColumnValues::UInt64(vec![137, 137])),
        ]
    );
    let raw = schemas_of(&[("erc721", ColumnEncoding::Binary)]);
    let mut columns = Erc721Metadata::default();
    Erc721Metadata::transform((5, vec![0x00, 0xab, 0xff], None, None), &mut columns, &raw);
    let tables = columns.create_dfs(&raw, 137).unwrap();
    assert_eq!(
        tables.get(&Datatype::Erc721Metadata).unwrap().columns(),
        &vec![column("erc721", ColumnValues::Binary(vec![vec![0x00, 0xab, 0xff]]))]
    );
}

#[test]
fn empty_columns_assemble_into_an_empty_table() {
    let schemas = full_schemas();
    let tables = Erc721Metadata::default().create_dfs(&schemas, 1).unwrap();
    let table = tables.get(&Datatype::Erc721Metadata).unwrap();
    assert_eq!(table.height(), 0);
    assert_eq!(table.columns().len(), 4);
    assert_eq!(table.columns()[0], column("block_number", ColumnValues::UInt32(vec![])));
}

#[test]
fn assembly_fails_without_schema() {
    let schemas: Schemas = DatatypeMap::new();
    assert_eq!(
        Erc721Metadata::default().create_dfs(&schemas, 1).unwrap_err(),
        CollectError::MissingSchema(Datatype::Erc721Metadata)
    );
}

#[test]
fn assembly_fails_on_row_count_mismatch() {
    let narrow = schemas_of(&[("block_number", ColumnEncoding::Binary)]);
    let mut columns = Erc721Metadata::default();
    Erc721Metadata::transform((1, vec![0x01], None, None), &mut columns, &narrow);
    assert_eq!(columns.n_rows(), 1);
    assert!(columns.name().is_empty());
    assert_eq!(
        columns.create_dfs(&full_schemas(), 1).unwrap_err(),
        CollectError::RowCountMismatch(Datatype::Erc721Metadata)
    );
}

#[test]
fn excluded_column_is_left_as_it_was() {
    let mut columns = Erc721Metadata::default();
    let first = (1, vec![0x01], Some("One".to_string()), Some("ONE".to_string()));
    Erc721Metadata::transform(first, &mut columns, &full_schemas());
    let narrow = schemas_of(&[("block_number", ColumnEncoding::Binary)]);
    let second = (2, vec![0x02], Some("Two".to_string()), None);
    Erc721Metadata::transform(second, &mut columns, &narrow);
    assert_eq!(columns.n_rows(), 2);
    assert_eq!(columns.block_number(), &vec![1, 2]);
    assert_eq!(columns.erc721(), &vec![vec![0x01]]);
    assert_eq!(columns.name(), &vec![Some("One".to_string())]);
    assert_eq!(columns.symbol(), &vec![Some("ONE".to_string())]);
}
