use digest_indexer::{
    Checkpoint, CheckpointTransaction, IndexerError, StoredTransactionDigest,
    TransactionDigestHandler,
};

fn checkpoint(sequence_number: u64, digests: &[&str]) -> Checkpoint {
    Checkpoint {
        sequence_number,
        transactions: digests
            .iter()
            .map(|digest| CheckpointTransaction { digest: digest.to_string() })
            .collect(),
    }
}

fn record(digest: &str, sequence_number: i64) -> StoredTransactionDigest {
    StoredTransactionDigest {
        tx_digest: digest.to_string(),
        checkpoint_sequence_number: sequence_number,
    }
}

#[test]
fn handler_name_is_fixed() {
    assert_eq!(TransactionDigestHandler::NAME, "transaction_digest_handler");
}

#[test]
fn process_of_an_empty_checkpoint_gives_no_records() {
    let records = TransactionDigestHandler.process(&checkpoint(7, &[])).unwrap();
    assert!(records.is_empty());
}

#[test]
fn process_gives_one_record_per_transaction_in_order() {
    let records = TransactionDigestHandler
        .process(&checkpoint(100, &["a1", "b2"]))
        .unwrap();
    assert_eq!(records, vec![record("a1", 100), record("b2", 100)]);
}

#[test]
fn process_keeps_the_order_of_many_transactions() {
    let digests = ["z9", "a1", "m5", "b2", "a0"];
    let records = TransactionDigestHandler.process(&checkpoint(3, &digests)).unwrap();
    assert_eq!(records.len(), 5);
    for (i, digest) in digests.iter().enumerate() {
        assert_eq!(records[i].tx_digest, *digest);
        assert_eq!(records[i].checkpoint_sequence_number, 3);
    }
}

#[test]
fn process_does_not_drop_a_repeated_digest() {
    let records = TransactionDigestHandler
        .process(&checkpoint(5, &["a1", "a1", "b2"]))
        .unwrap();
    assert_eq!(records, vec![record("a1", 5), record("a1", 5), record("b2", 5)]);
}

#[test]
fn process_keeps_the_digest_text_as_it_is() {
    let digests = ["", "  spaced  ", "9WzDXwBbmkg8ZTbNMqUxvQRAyrZzDsGYdLVL9zYtAWWM", "d\u{e9}j\u{e0}\u{1f980}"];
    let records = TransactionDigestHandler.process(&checkpoint(1, &digests)).unwrap();
    assert_eq!(records.len(), 4);
    for (i, digest) in digests.iter().enumerate() {
        assert_eq!(records[i].tx_digest.as_bytes(), digest.as_bytes());
    }
}

#[test]
fn process_of_sequence_number_zero() {
    let records = TransactionDigestHandler.process(&checkpoint(0, &["a1"])).unwrap();
    assert_eq!(records, vec![record("a1", 0)]);
}

#[test]
fn process_keeps_the_largest_signed_sequence_number() {
    let records = TransactionDigestHandler
        .process(&checkpoint(9_223_372_036_854_775_807, &["a1"]))
        .unwrap();
    assert_eq!(records, vec![record("a1", i64::MAX)]);
}

#[test]
fn process_rejects_a_sequence_number_above_the_signed_range() {
    let just_above = TransactionDigestHandler.process(&checkpoint(9_223_372_036_854_775_808, &["a1"]));
    assert_eq!(just_above, Err(IndexerError::Extraction));
    let largest = TransactionDigestHandler.process(&checkpoint(u64::MAX, &["a1", "b2"]));
    assert_eq!(largest, Err(IndexerError::Extraction));
    let between = TransactionDigestHandler
        .process(&checkpoint(18_446_744_073_709_551_516, &["a1"]));
    assert_eq!(between, Err(IndexerError::Extraction));
    assert!(!between.unwrap_err().is_retriable());
}

#[test]
fn process_never_gives_a_negative_sequence_number() {
    let numbers = [
        0u64,
        1,
        100,
        9_223_372_036_854_775_806,
        9_223_372_036_854_775_807,
        9_223_372_036_854_775_808,
        9_223_372_036_854_775_809,
        u64::MAX - 1,
        u64::MAX,
    ];
    for number in numbers {
        match TransactionDigestHandler.process(&checkpoint(number, &["a1", "b2"])) {
            Ok(records) => {
                assert!(number <= 9_223_372_036_854_775_807);
                assert_eq!(records.len(), 2);
                for record in records {
                    assert!(record.checkpoint_sequence_number >= 0);
                    assert_eq!(record.checkpoint_sequence_number as u64, number);
                }
            }
            Err(error) => {
                assert!(number > 9_223_372_036_854_775_807);
                assert_eq!(error, IndexerError::Extraction);
            }
        }
    }
}

#[test]
fn process_of_an_empty_checkpoint_succeeds_whatever_its_number() {
    for number in [0u64, 9_223_372_036_854_775_807, 9_223_372_036_854_775_808, u64::MAX] {
        assert_eq!(TransactionDigestHandler.process(&checkpoint(number, &[])), Ok(Vec::new()));
    }
}

#[test]
fn process_leaves_the_checkpoint_untouched() {
    let input = checkpoint(42, &["a1", "b2"]);
    let before = input.clone();
    let first = TransactionDigestHandler.process(&input).unwrap();
    let second = TransactionDigestHandler.process(&input).unwrap();
    assert_eq!(input, before);
    assert_eq!(first, second);
}

#[test]
fn duplicate_copies_both_fields() {
    let first = record("a1", -3);
    let copy = first.duplicate();
    assert_eq!(copy, first);
}
