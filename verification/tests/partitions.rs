use cryo_freeze::encoding::{decimal_text, decode_text};
use cryo_freeze::{BlockRange, CollectError, Dim, Params, Partition};

fn blocks(start: u64, end: u64) -> Option<BlockRange> {
    Some(BlockRange { start, end })
}

fn params(block_number: Option<u64>, address: Option<Vec<u8>>) -> Params {
    Params { block_number, address }
}

#[test]
fn decimal_text_of_edge_values() {
    assert_eq!(decimal_text(0), "0");
    assert_eq!(decimal_text(9), "9");
    assert_eq!(decimal_text(10), "10");
    assert_eq!(decimal_text(1000999), "1000999");
    assert_eq!(decimal_text(u64::MAX), "18446744073709551615");
}

#[test]
fn decode_text_reads_utf8_only() {
    assert_eq!(decode_text(b"MyToken".to_vec()), Some("MyToken".to_string()));
    assert_eq!(decode_text(vec![]), Some(String::new()));
    let text = "na\u{ef}ve \u{1f600}";
    assert_eq!(decode_text(text.as_bytes().to_vec()), Some(text.to_string()));
    assert_eq!(decode_text(vec![0xff, 0xfe]), None);
    assert_eq!(decode_text(vec![0x4d, 0x54, 0xc3]), None);
}

#[test]
fn label_of_block_range() {
    let partition = Partition { block_numbers: blocks(1000000, 1000999), addresses: None };
    assert_eq!(partition.label(&[Dim::BlockNumber]), Ok("b1000000_to_1000999".to_string()));
}

#[test]
fn label_of_addresses() {
    let partition = Partition {
        block_numbers: None,
        addresses: Some(vec![vec![0xaa; 20], vec![0x00, 0x1f], vec![]]),
    };
    assert_eq!(
        partition.label(&[Dim::Address]),
        Ok("a_0xaaaaaaaaaaaaaaaaaaaaaaaaaaaaaaaaaaaaaaaa_0x001f_0x".to_string())
    );
    let none = Partition { block_numbers: None, addresses: Some(vec![]) };
    assert_eq!(none.label(&[Dim::Address]), Ok("a".to_string()));
}

#[test]
fn label_follows_the_order_of_the_dimensions() {
    let partition =
        Partition { block_numbers: blocks(7, 8), addresses: Some(vec![vec![0x01, 0xab]]) };
    assert_eq!(
        partition.label(&[Dim::BlockNumber, Dim::Address]),
        Ok("b7_to_8__a_0x01ab".to_string())
    );
    assert_eq!(
        partition.label(&[Dim::Address, Dim::BlockNumber]),
        Ok("a_0x01ab__b7_to_8".to_string())
    );
    assert_eq!(partition.label(&[]), Ok(String::new()));
}

#[test]
fn label_uses_only_the_partitioned_dimensions() {
    let one = Partition { block_numbers: blocks(7, 8), addresses: Some(vec![vec![0x01]]) };
    let two = Partition { block_numbers: blocks(7, 8), addresses: Some(vec![vec![0x02]]) };
    assert_eq!(one.label(&[Dim::BlockNumber]), two.label(&[Dim::BlockNumber]));
    assert_ne!(one.label(&[Dim::Address]), two.label(&[Dim::Address]));
}

#[test]
fn label_fails_on_the_first_missing_dimension() {
    let neither = Partition { block_numbers: None, addresses: None };
    assert_eq!(
        neither.label(&[Dim::Address, Dim::BlockNumber]),
        Err(CollectError::MissingDimension(Dim::Address))
    );
    assert_eq!(
        neither.label(&[Dim::BlockNumber, Dim::Address]),
        Err(CollectError::MissingDimension(Dim::BlockNumber))
    );
    let only_blocks = Partition { block_numbers: blocks(1, 2), addresses: None };
    assert_eq!(
        only_blocks.label(&[Dim::BlockNumber, Dim::Address, Dim::BlockNumber]),
        Err(CollectError::MissingDimension(Dim::Address))
    );
}

#[test]
fn labels_of_different_partitions_differ() {
    let dims = [Dim::BlockNumber, Dim::Address];
    let partitions = vec![
        Partition { block_numbers: blocks(1, 11), addresses: Some(vec![vec![0x0a], vec![0x0b]]) },
        Partition { block_numbers: blocks(11, 1), addresses: Some(vec![vec![0x0a], vec![0x0b]]) },
        Partition { block_numbers: blocks(1, 1), addresses: Some(vec![vec![0x0a], vec![0x0b]]) },
        Partition { block_numbers: blocks(1, 11), addresses: Some(vec![vec![0x0a, 0x0b]]) },
        Partition { block_numbers: blocks(1, 11), addresses: Some(vec![vec![0x0b], vec![0x0a]]) },
        Partition {
            block_numbers: blocks(1, 11),
            addresses: Some(vec![vec![0x0a], vec![0x0b], vec![]]),
        },
        Partition { block_numbers: blocks(1, 11), addresses: Some(vec![]) },
        Partition { block_numbers: blocks(1, 11), addresses: Some(vec![vec![]]) },
    ];
    for (i, one) in partitions.iter().enumerate() {
        for (j, two) in partitions.iter().enumerate() {
            let same = one.label(&dims).unwrap() == two.label(&dims).unwrap();
            assert_eq!(same, i == j);
        }
    }
}

#[test]
fn param_sets_cross_blocks_and_addresses() {
    let partition = Partition {
        block_numbers: blocks(10, 12),
        addresses: Some(vec![vec![0xaa], vec![0xbb]]),
    };
    assert_eq!(
        partition.param_sets(vec![Dim::BlockNumber, Dim::Address]),
        Ok(vec![
            params(Some(10), Some(vec![0xaa])),
            params(Some(10), Some(vec![0xbb])),
            params(Some(11), Some(vec![0xaa])),
            params(Some(11), Some(vec![0xbb])),
            params(Some(12), Some(vec![0xaa])),
            params(Some(12), Some(vec![0xbb])),
        ])
    );
    assert_eq!(
        partition.param_sets(vec![Dim::Address, Dim::BlockNumber]),
        Ok(vec![
            params(Some(10), Some(vec![0xaa])),
            params(Some(11), Some(vec![0xaa])),
            params(Some(12), Some(vec![0xaa])),
            params(Some(10), Some(vec![0xbb])),
            params(Some(11), Some(vec![0xbb])),
            params(Some(12), Some(vec![0xbb])),
        ])
    );
}

#[test]
fn param_sets_along_one_dimension() {
    let partition = Partition {
        block_numbers: blocks(u64::MAX - 1, u64::MAX),
        addresses: Some(vec![vec![0xaa], vec![0xbb]]),
    };
    assert_eq!(
        partition.param_sets(vec![Dim::BlockNumber]),
        Ok(vec![params(Some(u64::MAX - 1), None), params(Some(u64::MAX), None)])
    );
    assert_eq!(
        partition.param_sets(vec![Dim::Address]),
        Ok(vec![params(None, Some(vec![0xaa])), params(None, Some(vec![0xbb]))])
    );
    assert_eq!(partition.param_sets(vec![]), Ok(vec![Params::default()]));
    assert_eq!(Params::default(), params(None, None));
}

#[test]
fn param_sets_of_empty_dimension_are_empty() {
    let inverted = Partition { block_numbers: blocks(5, 4), addresses: Some(vec![vec![0x01]]) };
    assert_eq!(inverted.param_sets(vec![Dim::BlockNumber, Dim::Address]), Ok(vec![]));
    assert_eq!(inverted.param_sets(vec![Dim::Address, Dim::BlockNumber]), Ok(vec![]));
    let no_address = Partition { block_numbers: blocks(4, 5), addresses: Some(vec![]) };
    assert_eq!(no_address.param_sets(vec![Dim::BlockNumber, Dim::Address]), Ok(vec![]));
    assert_eq!(no_address.param_sets(vec![Dim::BlockNumber]).map(|sets| sets.len()), Ok(2));
}

#[test]
fn param_sets_fail_on_the_first_missing_dimension() {
    let only_blocks = Partition { block_numbers: blocks(1, 2), addresses: None };
    assert_eq!(
        only_blocks.param_sets(vec![Dim::BlockNumber, Dim::Address]),
        Err(CollectError::MissingDimension(Dim::Address))
    );
    let neither = Partition { block_numbers: None, addresses: None };
    assert_eq!(
        neither.param_sets(vec![Dim::BlockNumber, Dim::Address]),
        Err(CollectError::MissingDimension(Dim::BlockNumber))
    );
}

#[test]
fn check_dims_finds_the_first_missing_dimension() {
    let only_blocks = Partition { block_numbers: blocks(1, 2), addresses: None };
    assert_eq!(only_blocks.check_dims(&[]), Ok(()));
    assert_eq!(only_blocks.check_dims(&[Dim::BlockNumber, Dim::BlockNumber]), Ok(()));
    assert_eq!(
        only_blocks.check_dims(&[Dim::BlockNumber, Dim::Address]),
        Err(CollectError::MissingDimension(Dim::Address))
    );
    let neither = Partition { block_numbers: None, addresses: None };
    assert_eq!(
        neither.check_dims(&[Dim::BlockNumber, Dim::Address]),
        Err(CollectError::MissingDimension(Dim::BlockNumber))
    );
}
