use snapshot_provider::jar::{IndexEntry, LoadedJar, LookupKey, SegmentRow};
use snapshot_provider::primitives::{Header, SealedHeader};
use snapshot_provider::provider::SnapshotJarProvider;
use snapshot_provider::ranges::{to_range, KeyBound};

fn header(number: u64, parent_hash: u64, timestamp: u64) -> Header {
    Header { number, parent_hash, timestamp }
}

fn header_row(h: Header, hash: u64, total_difficulty: u128) -> SegmentRow {
    SegmentRow::Header { header: h, hash, total_difficulty }
}

fn entry(hash: u64, row_key: u64) -> IndexEntry {
    IndexEntry { hash, row_key }
}

/// Two header rows at keys 0 and 1, with hashes 0xaa and 0xbb and total
/// difficulties 10 and 30, and a faithful hash index.
fn two_block_jar() -> LoadedJar {
    LoadedJar {
        start: 0,
        rows: vec![
            header_row(header(0, 0, 1000), 0xaa, 10),
            header_row(header(1, 0xaa, 1012), 0xbb, 30),
        ],
        index: vec![entry(0xaa, 0), entry(0xbb, 1)],
    }
}

#[test]
fn header_scenario_two_rows() {
    let provider = SnapshotJarProvider::from(two_block_jar());
    assert_eq!(provider.header(&0xaa), Ok(Some(header(0, 0, 1000))));
    assert_eq!(provider.header(&0xcc), Ok(None));
    assert_eq!(
        provider.headers_range(KeyBound::Included(0), KeyBound::Excluded(2)),
        Ok(vec![header(0, 0, 1000), header(1, 0xaa, 1012)])
    );
    assert_eq!(provider.block_number(0xbb), Ok(Some(1)));
}

#[test]
fn header_by_number_is_repeatable() {
    let provider = SnapshotJarProvider::from(two_block_jar());
    let first = provider.header_by_number(1);
    let second = provider.header_by_number(1);
    assert_eq!(first, Ok(Some(header(1, 0xaa, 1012))));
    assert_eq!(first, second);
}

#[test]
fn stale_index_entry_is_not_found_not_wrong() {
    // The index also claims the truncated hash 0xa resolves to row 0,
    // whose actual hash column holds 0xaa: every hash-keyed query must
    // answer "not found", never row 0's data.
    let mut jar = two_block_jar();
    jar.index.push(entry(0xa, 0));
    let provider = SnapshotJarProvider::from(jar);
    assert_eq!(provider.header(&0xa), Ok(None));
    assert_eq!(provider.header_td(&0xa), Ok(None));
    assert_eq!(provider.block_number(0xa), Ok(None));
}

#[test]
fn header_by_number_outside_span() {
    let provider = SnapshotJarProvider::from(two_block_jar());
    assert_eq!(provider.header_by_number(2), Ok(None));
    assert_eq!(provider.header_by_number(u64::MAX), Ok(None));
}

#[test]
fn header_td_queries() {
    let provider = SnapshotJarProvider::from(two_block_jar());
    assert_eq!(provider.header_td(&0xbb), Ok(Some(30)));
    assert_eq!(provider.header_td(&0xcc), Ok(None));
    assert_eq!(provider.header_td_by_number(0), Ok(Some(10)));
    assert_eq!(provider.header_td_by_number(9), Ok(None));
}

#[test]
fn headers_range_skips_absent_rows_and_is_bounded() {
    let provider = SnapshotJarProvider::from(two_block_jar());
    // The span 0..5 has five keys but only two populated rows.
    let got = provider
        .headers_range(KeyBound::Included(0), KeyBound::Excluded(5))
        .unwrap();
    assert_eq!(got.len(), 2);
    // Every returned header is what header_by_number yields at its key.
    assert_eq!(provider.header_by_number(0), Ok(Some(got[0])));
    assert_eq!(provider.header_by_number(1), Ok(Some(got[1])));
}

#[test]
fn headers_range_empty_and_inverted_spans() {
    let provider = SnapshotJarProvider::from(two_block_jar());
    assert_eq!(
        provider.headers_range(KeyBound::Included(1), KeyBound::Excluded(1)),
        Ok(vec![])
    );
    assert_eq!(
        provider.headers_range(KeyBound::Included(4), KeyBound::Excluded(1)),
        Ok(vec![])
    );
}

#[test]
fn headers_range_unbounded_end_stops_at_segment_end() {
    let provider = SnapshotJarProvider::from(two_block_jar());
    let got = provider
        .headers_range(KeyBound::Unbounded, KeyBound::Unbounded)
        .unwrap();
    assert_eq!(got, vec![header(0, 0, 1000), header(1, 0xaa, 1012)]);
}

#[test]
fn headers_range_on_offset_segment() {
    let mut jar = two_block_jar();
    jar.start = 100;
    let provider = SnapshotJarProvider::from(jar);
    assert_eq!(provider.header_by_number(99), Ok(None));
    assert_eq!(provider.header_by_number(100), Ok(Some(header(0, 0, 1000))));
    let got = provider
        .headers_range(KeyBound::Included(0), KeyBound::Excluded(200))
        .unwrap();
    assert_eq!(got, vec![header(0, 0, 1000), header(1, 0xaa, 1012)]);
}

#[test]
fn sealed_headers_pair_each_row_with_its_own_hash() {
    let provider = SnapshotJarProvider::from(two_block_jar());
    let got = provider
        .sealed_headers_range(KeyBound::Included(0), KeyBound::Excluded(2))
        .unwrap();
    assert_eq!(
        got,
        vec![
            SealedHeader { header: header(0, 0, 1000), hash: 0xaa },
            SealedHeader { header: header(1, 0xaa, 1012), hash: 0xbb },
        ]
    );
    // Each pair's hash is the hash column of the row its header came from.
    for sealed in got {
        let n = sealed.header.number;
        assert_eq!(provider.header_by_number(n), Ok(Some(sealed.header)));
        assert_eq!(provider.block_hash(n), Ok(Some(sealed.hash)));
    }
}

#[test]
fn sealed_header_single_row() {
    let provider = SnapshotJarProvider::from(two_block_jar());
    assert_eq!(
        provider.sealed_header(1),
        Ok(Some(SealedHeader { header: header(1, 0xaa, 1012), hash: 0xbb }))
    );
    assert_eq!(provider.sealed_header(7), Ok(None));
}

#[test]
fn block_hash_and_canonical_range() {
    let provider = SnapshotJarProvider::from(two_block_jar());
    assert_eq!(provider.block_hash(0), Ok(Some(0xaa)));
    assert_eq!(provider.block_hash(3), Ok(None));
    assert_eq!(provider.canonical_hashes_range(0, 2), Ok(vec![0xaa, 0xbb]));
    assert_eq!(provider.canonical_hashes_range(1, 9), Ok(vec![0xbb]));
    assert_eq!(provider.canonical_hashes_range(2, 2), Ok(vec![]));
}

#[test]
fn empty_segment_answers_nothing() {
    let provider = SnapshotJarProvider::from(LoadedJar {
        start: 0,
        rows: vec![],
        index: vec![],
    });
    assert_eq!(provider.header_by_number(0), Ok(None));
    assert_eq!(provider.header(&0xaa), Ok(None));
    assert_eq!(
        provider.headers_range(KeyBound::Unbounded, KeyBound::Unbounded),
        Ok(vec![])
    );
}

#[test]
fn cursor_reports_row_key_of_last_decode() {
    let provider = SnapshotJarProvider::from(two_block_jar());
    let mut cursor = provider.cursor();
    assert!(cursor.get_header(LookupKey::Number(1)).is_some());
    assert_eq!(cursor.number(), 1);
    // A failed decode leaves the tracked row key untouched.
    assert!(cursor.get_header(LookupKey::Number(9)).is_none());
    assert_eq!(cursor.number(), 1);
    assert!(cursor.get_header(LookupKey::Hash(0xaa)).is_some());
    assert_eq!(cursor.number(), 0);
}

#[test]
fn to_range_normalizes_each_bound_kind() {
    assert_eq!(to_range(KeyBound::Included(5), KeyBound::Excluded(9)).start, 5);
    assert_eq!(to_range(KeyBound::Included(5), KeyBound::Excluded(9)).end, 9);
    assert_eq!(to_range(KeyBound::Excluded(5), KeyBound::Included(9)).start, 6);
    assert_eq!(to_range(KeyBound::Excluded(5), KeyBound::Included(9)).end, 10);
    assert_eq!(to_range(KeyBound::Unbounded, KeyBound::Unbounded).start, 0);
    assert_eq!(to_range(KeyBound::Unbounded, KeyBound::Unbounded).end, u64::MAX);
}
