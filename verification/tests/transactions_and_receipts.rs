use snapshot_provider::error::ProviderError;
use snapshot_provider::jar::{IndexEntry, LoadedJar, SegmentRow};
use snapshot_provider::primitives::{
    BlockHashOrNumber, Receipt, TransactionSigned, TransactionSignedNoHash, SIGNER_SALT,
    TX_HASH_SALT,
};
use snapshot_provider::provider::SnapshotJarProvider;
use snapshot_provider::ranges::KeyBound;

fn record(payload: u64, signature: u64) -> TransactionSignedNoHash {
    TransactionSignedNoHash { payload, signature }
}

fn tx_row(t: TransactionSignedNoHash) -> SegmentRow {
    SegmentRow::Transaction { transaction: t }
}

fn receipt_row(success: bool, cumulative_gas_used: u64) -> SegmentRow {
    SegmentRow::Receipt { receipt: Receipt { success, cumulative_gas_used } }
}

fn entry(hash: u64, row_key: u64) -> IndexEntry {
    IndexEntry { hash, row_key }
}

/// A transaction segment whose single row sits at key 5, indexed by the
/// record's materialized hash.
fn tx_jar_row_five() -> (LoadedJar, TransactionSignedNoHash, u64) {
    let rec = record(0x1234, 0x77);
    let hash = rec.hash();
    let jar = LoadedJar {
        start: 5,
        rows: vec![tx_row(rec)],
        index: vec![entry(hash, 5)],
    };
    (jar, rec, hash)
}

#[test]
fn transaction_hash_formula_is_exact() {
    // payload 0 and signature 0 digest to the bare salt.
    assert_eq!(record(0, 0).hash(), TX_HASH_SALT);
    assert_eq!(record(0, 0).hash(), 0x9e3779b97f4a7c15);
    // The signature enters shifted left by one.
    assert_eq!(record(3, 1).hash(), (3 ^ TX_HASH_SALT) ^ 2);
}

#[test]
fn signer_recovery_formula_is_exact() {
    assert_eq!(record(0, 1).recover_signer(), Some(1 ^ SIGNER_SALT));
    assert_eq!(record(0, 1).recover_signer(), Some(0x6a09e667f3bcc909));
    assert_eq!(record(9, 0).recover_signer(), None);
}

#[test]
fn transaction_row_five_scenario() {
    let (jar, rec, t5h) = tx_jar_row_five();
    let provider = SnapshotJarProvider::from(jar);
    assert_eq!(provider.transaction_id(t5h), Ok(Some(5)));
    assert_eq!(
        provider.transaction_by_id(5),
        Ok(Some(TransactionSigned { transaction: rec, hash: t5h }))
    );
    assert_eq!(provider.transaction_by_id_no_hash(5), Ok(Some(rec)));
    assert_eq!(
        provider.transaction_by_hash(t5h),
        Ok(Some(TransactionSigned { transaction: rec, hash: t5h }))
    );
}

#[test]
fn unknown_transaction_hash_is_not_found_not_wrong() {
    let (mut jar, _, t5h) = tx_jar_row_five();
    // A stale entry resolves a different hash to the same row; the
    // materialized-hash check must reject it.
    let unknown = t5h ^ 1;
    jar.index.push(entry(unknown, 5));
    let provider = SnapshotJarProvider::from(jar);
    assert_eq!(provider.transaction_id(unknown), Ok(None));
    assert_eq!(provider.transaction_by_hash(unknown), Ok(None));
    // A hash with no index entry at all is equally absent.
    assert_eq!(provider.transaction_id(0xdead), Ok(None));
}

#[test]
fn senders_by_tx_range_returns_every_signer_in_order() {
    let recs = [record(1, 10), record(2, 20), record(3, 30)];
    let jar = LoadedJar {
        start: 10,
        rows: recs.iter().map(|r| tx_row(*r)).collect(),
        index: vec![],
    };
    let provider = SnapshotJarProvider::from(jar);
    let got = provider
        .senders_by_tx_range(KeyBound::Included(10), KeyBound::Excluded(13))
        .unwrap();
    assert_eq!(got.len(), 3);
    for (i, rec) in recs.iter().enumerate() {
        assert_eq!(Some(got[i]), rec.recover_signer());
    }
    // A wider span still yields exactly the populated rows' signers.
    let wide = provider
        .senders_by_tx_range(KeyBound::Included(0), KeyBound::Unbounded)
        .unwrap();
    assert_eq!(wide, got);
}

#[test]
fn senders_by_tx_range_fails_as_a_whole() {
    // The middle record's signature admits no recovery: no partial list.
    let jar = LoadedJar {
        start: 0,
        rows: vec![tx_row(record(1, 10)), tx_row(record(2, 0)), tx_row(record(3, 30))],
        index: vec![],
    };
    let provider = SnapshotJarProvider::from(jar);
    assert_eq!(
        provider.senders_by_tx_range(KeyBound::Included(0), KeyBound::Excluded(3)),
        Err(ProviderError::SenderRecovery)
    );
}

#[test]
fn transaction_sender_tolerates_failure_by_omission() {
    let jar = LoadedJar {
        start: 0,
        rows: vec![tx_row(record(1, 10)), tx_row(record(2, 0))],
        index: vec![],
    };
    let provider = SnapshotJarProvider::from(jar);
    assert_eq!(provider.transaction_sender(0), Ok(record(1, 10).recover_signer()));
    assert_eq!(provider.transaction_sender(1), Ok(None));
    assert_eq!(provider.transaction_sender(9), Ok(None));
}

#[test]
fn receipt_by_number() {
    let jar = LoadedJar {
        start: 5,
        rows: vec![receipt_row(true, 21000)],
        index: vec![],
    };
    let provider = SnapshotJarProvider::from(jar);
    assert_eq!(
        provider.receipt(5),
        Ok(Some(Receipt { success: true, cumulative_gas_used: 21000 }))
    );
    assert_eq!(provider.receipt(4), Ok(None));
}

#[test]
fn receipt_by_hash_without_auxiliary_is_always_not_found() {
    let (tx_jar, _, t5h) = tx_jar_row_five();
    // The matching transaction exists, but only in a segment that is not
    // attached as an auxiliary: the receipt provider alone answers None.
    let _unattached = SnapshotJarProvider::from(tx_jar);
    let receipts = SnapshotJarProvider::from(LoadedJar {
        start: 5,
        rows: vec![receipt_row(true, 21000)],
        index: vec![],
    });
    assert_eq!(receipts.receipt_by_hash(t5h), Ok(None));
}

#[test]
fn receipt_by_hash_with_auxiliary_follows_transaction_id() {
    let (tx_jar, _, t5h) = tx_jar_row_five();
    let aux = SnapshotJarProvider::from(tx_jar);
    let receipts = SnapshotJarProvider::from(LoadedJar {
        start: 5,
        rows: vec![receipt_row(false, 53000)],
        index: vec![],
    });
    let resolved = aux.transaction_id(t5h).unwrap().unwrap();
    let chained = receipts.with_auxiliar(aux);
    assert_eq!(chained.receipt_by_hash(t5h), chained.receipt(resolved));
    assert_eq!(
        chained.receipt_by_hash(t5h),
        Ok(Some(Receipt { success: false, cumulative_gas_used: 53000 }))
    );
    // A hash the auxiliary cannot resolve stays not found.
    assert_eq!(chained.receipt_by_hash(t5h ^ 1), Ok(None));
}

#[test]
fn indexing_queries_are_unsupported_by_this_provider() {
    let receipts = SnapshotJarProvider::from(LoadedJar {
        start: 0,
        rows: vec![receipt_row(true, 21000)],
        index: vec![],
    });
    assert_eq!(
        receipts.receipts_by_block(BlockHashOrNumber::Number(0)),
        Err(ProviderError::UnsupportedProvider)
    );
    assert_eq!(
        receipts.transaction_block(0),
        Err(ProviderError::UnsupportedProvider)
    );
    assert_eq!(
        receipts.transactions_by_block(BlockHashOrNumber::Hash(0xaa)),
        Err(ProviderError::UnsupportedProvider)
    );
    assert_eq!(
        receipts.transactions_by_block_range(KeyBound::Included(0), KeyBound::Excluded(2)),
        Err(ProviderError::UnsupportedProvider)
    );
    assert_eq!(
        receipts.transaction_by_hash_with_meta(0xaa),
        Err(ProviderError::UnsupportedProvider)
    );
    assert_eq!(receipts.chain_info(), Err(ProviderError::UnsupportedProvider));
    assert_eq!(
        receipts.best_block_number(),
        Err(ProviderError::UnsupportedProvider)
    );
    assert_eq!(
        receipts.last_block_number(),
        Err(ProviderError::UnsupportedProvider)
    );
}

#[test]
fn transactions_by_tx_range_skips_absent_rows() {
    let (jar, rec, _) = tx_jar_row_five();
    let provider = SnapshotJarProvider::from(jar);
    assert_eq!(
        provider.transactions_by_tx_range(KeyBound::Included(0), KeyBound::Excluded(100)),
        Ok(vec![rec])
    );
    assert_eq!(
        provider.transactions_by_tx_range(KeyBound::Included(6), KeyBound::Unbounded),
        Ok(vec![])
    );
}

#[test]
fn wrong_kind_of_segment_decodes_nothing() {
    // Header queries against a transaction segment fail to decode.
    let (jar, _, t5h) = tx_jar_row_five();
    let provider = SnapshotJarProvider::from(jar);
    assert_eq!(provider.header_by_number(5), Ok(None));
    assert_eq!(provider.header(&t5h), Ok(None));
    assert_eq!(provider.block_hash(5), Ok(None));
    assert_eq!(provider.receipt(5), Ok(None));
}
