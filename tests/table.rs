use binary_visualizer::table::{BinaryTable, LogRatio, CELLS};

fn parsed(bytes: &[u8]) -> BinaryTable {
    let mut table = BinaryTable::new();
    table.parse(bytes);
    table
}

#[test]
fn new_table_is_empty() {
    let table = BinaryTable::new();
    assert_eq!(table.max_count(), 0);
    assert_eq!(table.count(0, 0), 0);
    assert_eq!(table.count(255, 255), 0);
    let features = table.export();
    assert_eq!(features.len(), CELLS);
    assert!(features.iter().all(|f| f.is_zero()));
}

#[test]
fn default_table_is_empty() {
    let table = BinaryTable::default();
    assert_eq!(table.max_count(), 0);
    assert!(table.export().iter().all(|f| f.count == 0));
}

#[test]
fn empty_input_exports_zero() {
    let features = parsed(&[]).export();
    assert_eq!(features.len(), CELLS);
    assert!(features.iter().all(|f| f.is_zero()));
}

#[test]
fn single_byte_exports_zero() {
    let table = parsed(&[42]);
    assert_eq!(table.max_count(), 0);
    assert!(table.export().iter().all(|f| f.is_zero() && f.count == 0));
}

#[test]
fn pairs_are_counted_in_order() {
    // "abc": the pairs (a, b) and (b, c); (b, a) does not occur.
    let table = parsed(b"abc");
    assert_eq!(table.count(b'a', b'b'), 1);
    assert_eq!(table.count(b'b', b'c'), 1);
    assert_eq!(table.count(b'b', b'a'), 0);
    assert_eq!(table.count(b'c', b'a'), 0);
    assert_eq!(table.max_count(), 1);
}

#[test]
fn length_l_gives_l_minus_one_pairs() {
    let bytes: Vec<u8> = (0u8..100).collect();
    let table = parsed(&bytes);
    let total: u64 = table.export().iter().map(|f| f.count as u64).sum();
    assert_eq!(total, 99);
}

#[test]
fn cell_layout_is_row_of_second_byte() {
    let table = parsed(&[1, 2]);
    let features = table.export();
    assert_eq!(features[2 * 256 + 1].count, 1);
    assert_eq!(features[1 * 256 + 2].count, 0);
}

#[test]
fn maximum_tracks_most_frequent_pair() {
    let table = parsed(b"aaaab");
    assert_eq!(table.count(b'a', b'a'), 3);
    assert_eq!(table.count(b'a', b'b'), 1);
    assert_eq!(table.max_count(), 3);
}

#[test]
fn all_pairs_once_exports_zero() {
    let table = parsed(b"abcd");
    assert_eq!(table.max_count(), 1);
    assert!(table.export().iter().all(|f| f.is_zero()));
}

#[test]
fn exported_values_in_unit_range() {
    let bytes = b"hello hello hello world, this is text with repeated pairs";
    let features = parsed(bytes).export();
    assert!(features.iter().all(|f| f.count <= f.max));
}

#[test]
fn most_frequent_pair_exports_one() {
    let table = parsed(b"aaaab");
    let features = table.export();
    let top = features[b'a' as usize * 256 + b'a' as usize];
    assert_eq!(top, LogRatio { count: 3, max: 3 });
    assert!(top.is_one());
    let other = features[b'b' as usize * 256 + b'a' as usize];
    assert_eq!(other, LogRatio { count: 1, max: 3 });
    assert!(!other.is_one());
    assert!(!other.is_zero());
}

#[test]
fn parse_accumulates() {
    let mut table = BinaryTable::new();
    table.parse(b"ab");
    table.parse(b"ab");
    assert_eq!(table.count(b'a', b'b'), 2);
    assert_eq!(table.max_count(), 2);
}

#[test]
fn clear_resets_counts_and_maximum() {
    let mut table = parsed(b"aaaaaa");
    table.clear();
    assert_eq!(table.max_count(), 0);
    assert_eq!(table.count(b'a', b'a'), 0);
    assert!(table.export().iter().all(|f| f.count == 0));
}

#[test]
fn parse_twice_with_clear_is_deterministic() {
    let bytes = b"\x00\x01\x02\x00\x01\x02\xff\xfe binary-ish \x00\x00";
    let mut table = BinaryTable::new();
    table.parse(bytes);
    let first = table.export();
    table.clear();
    table.parse(bytes);
    let second = table.export();
    assert_eq!(first, second);
}

#[test]
fn reused_table_matches_fresh_one() {
    let mut reused = parsed(b"something else entirely, zzzzzzzz");
    reused.clear();
    reused.parse(b"the same bytes");
    let fresh = parsed(b"the same bytes");
    assert_eq!(reused.export(), fresh.export());
    assert_eq!(reused.max_count(), fresh.max_count());
}
