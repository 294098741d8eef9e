use cryo_freeze::{
    Column, ColumnEncoding, ColumnSchema, ColumnValues, Datatype, DatatypeMap, OutputTable, Table,
};

fn column(name: &str, values: ColumnValues) -> Column {
    Column { name: name.to_string(), values }
}

#[test]
fn map_insert_get_and_replace() {
    let mut map: DatatypeMap<u32> = DatatypeMap::new();
    assert_eq!(map.len(), 0);
    assert_eq!(map.get(&Datatype::Blocks), None);
    assert!(!map.contains_key(&Datatype::Blocks));
    map.insert(Datatype::Transactions, 1);
    map.insert(Datatype::Blocks, 2);
    assert_eq!(map.len(), 2);
    assert_eq!(map.get(&Datatype::Transactions), Some(&1));
    assert_eq!(map.get(&Datatype::Blocks), Some(&2));
    assert_eq!(map.get(&Datatype::Erc721Metadata), None);
    map.insert(Datatype::Transactions, 3);
    assert_eq!(map.len(), 2);
    assert_eq!(map.get(&Datatype::Transactions), Some(&3));
    assert_eq!(map.get(&Datatype::Blocks), Some(&2));
    assert!(map.contains_key(&Datatype::Transactions));
    assert_eq!(map.keys(), vec![Datatype::Transactions, Datatype::Blocks]);
}

#[test]
fn table_accepts_columns_of_its_height_only() {
    let mut table = OutputTable::new(2);
    assert_eq!(table.height(), 2);
    assert!(table.columns().is_empty());
    assert!(table.add_column(column("a", ColumnValues::UInt32(vec![1, 2]))));
    assert!(!table.add_column(column("b", ColumnValues::UInt32(vec![1]))));
    assert!(!table.add_column(column("c", ColumnValues::Text(vec![None, None, None]))));
    assert!(table.add_column(column("d", ColumnValues::Binary(vec![vec![], vec![1]]))));
    assert_eq!(table.height(), 2);
    assert_eq!(
        table.columns(),
        &vec![
            column("a", ColumnValues::UInt32(vec![1, 2])),
            column("d", ColumnValues::Binary(vec![vec![], vec![1]])),
        ]
    );
}

#[test]
fn column_values_lengths() {
    assert_eq!(ColumnValues::UInt32(vec![1, 2, 3]).len(), 3);
    assert_eq!(ColumnValues::UInt64(vec![]).len(), 0);
    assert_eq!(ColumnValues::Binary(vec![vec![1, 2]]).len(), 1);
    assert_eq!(ColumnValues::Text(vec![None, Some("x".to_string())]).len(), 2);
}

#[test]
fn hex_column_writes_lowercase_prefixed_text() {
    assert_eq!(
        ColumnValues::hex(&vec![vec![0x00], vec![0xAB, 0xCD, 0xEF], vec![], vec![0x10, 0x01]]),
        ColumnValues::Text(vec![
            Some("0x00".to_string()),
            Some("0xabcdef".to_string()),
            Some("0x".to_string()),
            Some("0x1001".to_string()),
        ])
    );
}

#[test]
fn repeated_column_repeats_its_value() {
    assert_eq!(ColumnValues::repeat(7, 3), ColumnValues::UInt64(vec![7, 7, 7]));
    assert_eq!(ColumnValues::repeat(7, 0), ColumnValues::UInt64(vec![]));
}

#[test]
fn schema_finds_columns_by_name() {
    let table = Table {
        datatype: Datatype::Blocks,
        columns: vec![
            ColumnSchema { name: "hash".to_string(), encoding: ColumnEncoding::Hex },
            ColumnSchema { name: "author".to_string(), encoding: ColumnEncoding::Binary },
            ColumnSchema { name: "hash".to_string(), encoding: ColumnEncoding::Binary },
        ],
        sort_columns: vec![],
    };
    assert!(table.has_column("hash"));
    assert!(table.has_column("author"));
    assert!(!table.has_column("Hash"));
    assert!(!table.has_column(""));
    assert_eq!(table.column_encoding("hash"), Some(ColumnEncoding::Hex));
    assert_eq!(table.column_encoding("author"), Some(ColumnEncoding::Binary));
    assert_eq!(table.column_encoding("number"), None);
}
