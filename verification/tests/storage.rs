use aicacia_db::bytes_order::compare_bytes;
use aicacia_db::change_key::{
    copy_bytes, DecodeError, DocumentChangeKey, DocumentType, FacadeDocumentChangeKeyCodec,
    FacadeVecBytesCodec,
};
use aicacia_db::engine_types::{
    decode_engine_type, encode_engine_type_into_sink, Cursor, EngineType, PrimaryKey,
};
use aicacia_db::key::{key_in_range, range_as_ref, Key, KeyBound, KeyRange};
use aicacia_db::layout::AutomergeSyncMetrics;
use aicacia_db::redb_store::RedbBTreeTransaction;
use aicacia_db::row_codec::{decode_incremental, encode_incremental, AutomergeRowCodec, EngineError};
use std::cmp::Ordering;

fn range(start: KeyBound<Vec<u8>>, end: KeyBound<Vec<u8>>) -> KeyRange<Vec<u8>> {
    KeyRange { start, end }
}

#[test]
fn byte_strings_order_lexicographically() {
    assert_eq!(compare_bytes(b"abc", b"abd"), -1);
    assert_eq!(compare_bytes(b"abd", b"abc"), 1);
    assert_eq!(compare_bytes(b"ab", b"abc"), -1);
    assert_eq!(compare_bytes(b"", b""), 0);
    assert_eq!(compare_bytes(b"abc", b"abc"), 0);
    assert_eq!(compare_bytes(&[0xff], &[0x00, 0x00]), 1);
}

#[test]
fn keys_fall_inside_or_outside_ranges() {
    let k = vec![5u8];
    assert!(key_in_range(&k, &range(KeyBound::Included(vec![5]), KeyBound::Included(vec![5]))));
    assert!(!key_in_range(&vec![6], &range(KeyBound::Included(vec![5]), KeyBound::Included(vec![5]))));
    assert!(!key_in_range(&k, &range(KeyBound::Excluded(vec![5]), KeyBound::Unbounded)));
    assert!(!key_in_range(&k, &range(KeyBound::Unbounded, KeyBound::Excluded(vec![5]))));
    assert!(key_in_range(&k, &range(KeyBound::Unbounded, KeyBound::Unbounded)));
    assert!(key_in_range(&vec![5, 0], &range(KeyBound::Excluded(vec![5]), KeyBound::Excluded(vec![6]))));
    assert!(!key_in_range(&vec![], &range(KeyBound::Included(vec![0]), KeyBound::Unbounded)));
}

#[test]
fn ranges_wrap_and_borrow_their_ends() {
    let r = Key::range(KeyRange { start: KeyBound::Included(3u32), end: KeyBound::Unbounded });
    assert!(matches!(r.start, KeyBound::Included(Key(3))));
    assert!(matches!(r.end, KeyBound::Unbounded));
    assert_eq!(Key::new(9u8).into_inner(), 9);

    let owned = range(KeyBound::Excluded(vec![1, 2]), KeyBound::Included(vec![3]));
    let borrowed = range_as_ref(&owned);
    assert_eq!(borrowed.start, KeyBound::Excluded(&[1u8, 2][..]));
    assert_eq!(borrowed.end, KeyBound::Included(&[3u8][..]));
}

fn change_key(id: u8, doc_type: DocumentType, hash: u8) -> DocumentChangeKey {
    DocumentChangeKey { doc_id: [id; 16], doc_type, change_hash: [hash; 32] }
}

#[test]
fn change_keys_round_trip_through_their_bytes() {
    let key = change_key(7, DocumentType::Snapshot, 9);
    let bytes = FacadeDocumentChangeKeyCodec::encode(&key);
    assert_eq!(bytes.len(), 49);
    assert_eq!(bytes[16], 1);
    assert_eq!(FacadeDocumentChangeKeyCodec::decode(&bytes), key);
    assert_eq!(FacadeDocumentChangeKeyCodec::decode_checked(&bytes), Ok(key));
    assert_eq!(FacadeDocumentChangeKeyCodec::decode_checked(&bytes[..48]), Err(DecodeError::Truncated));

    let mut scratch = vec![0xaa];
    FacadeDocumentChangeKeyCodec.encode_into(&key, &mut scratch);
    assert_eq!(scratch[0], 0xaa);
    assert_eq!(&scratch[1..], &bytes[..]);
}

#[test]
fn change_key_bytes_order_like_the_keys() {
    let a = FacadeDocumentChangeKeyCodec::encode(&change_key(1, DocumentType::Snapshot, 9));
    let b = FacadeDocumentChangeKeyCodec::encode(&change_key(2, DocumentType::Incremental, 0));
    let c = FacadeDocumentChangeKeyCodec::encode(&change_key(2, DocumentType::Snapshot, 0));
    let d = FacadeDocumentChangeKeyCodec::encode(&change_key(2, DocumentType::Snapshot, 1));
    assert_eq!(FacadeDocumentChangeKeyCodec::compare(&a, &b), Ordering::Less);
    assert_eq!(FacadeDocumentChangeKeyCodec::compare(&b, &c), Ordering::Less);
    assert_eq!(FacadeDocumentChangeKeyCodec.compare_encoded(&d, &c), Ordering::Greater);
    assert_eq!(FacadeDocumentChangeKeyCodec::compare(&d, &d), Ordering::Equal);
}

#[test]
fn entries_are_stored_as_they_are() {
    let entry = vec![1u8, 2, 3];
    assert_eq!(FacadeVecBytesCodec::encode(&entry), entry);
    assert_eq!(FacadeVecBytesCodec::decode(&entry), entry);
    assert_eq!(FacadeVecBytesCodec::decode_checked(&entry), Ok(entry.clone()));
    assert_eq!(copy_bytes(&[]), Vec::<u8>::new());
}

#[test]
fn column_types_round_trip_through_their_tag() {
    let all = [
        EngineType::Integer,
        EngineType::Float,
        EngineType::Text,
        EngineType::Blob,
        EngineType::Uuid,
        EngineType::Json,
    ];
    let mut sink = Vec::new();
    for t in &all {
        encode_engine_type_into_sink(&mut sink, t);
    }
    assert_eq!(sink, vec![0, 1, 2, 3, 4, 5]);
    let mut cursor = Cursor::new(&sink);
    for t in &all {
        assert_eq!(decode_engine_type(&mut cursor), Ok(t.clone()));
    }
    assert_eq!(decode_engine_type(&mut cursor), Err(DecodeError::Truncated));
    let bad = [6u8];
    assert_eq!(decode_engine_type(&mut Cursor::new(&bad)), Err(DecodeError::Malformed));
}

#[test]
fn primary_keys_hold_sixteen_bytes() {
    let key = PrimaryKey::new([4; 16]);
    assert_eq!(key.as_bytes(), &[4; 16]);
    assert_eq!(key.into_bytes(), [4; 16]);
}

#[test]
fn incremental_changes_carry_their_column_count() {
    let framed = encode_incremental(3, vec![9, 8]).unwrap();
    assert_eq!(framed, vec![0, 0, 0, 3, 9, 8]);
    let (count, rest) = decode_incremental(&framed).unwrap();
    assert_eq!(count, 3);
    assert_eq!(rest, &[9, 8]);
    let big = encode_incremental(0x0102_0304, vec![]).unwrap();
    assert_eq!(big, vec![1, 2, 3, 4]);
    assert_eq!(decode_incremental(&big).unwrap().0, 0x0102_0304);
    assert!(matches!(
        encode_incremental(1usize << 32, vec![]),
        Err(EngineError::InvalidQuery(m)) if m == "Logical row has too many columns"
    ));
    assert!(matches!(
        decode_incremental(&[0, 0, 1]),
        Err(EngineError::Custom(m)) if m == "Invalid Automerge row change"
    ));
}

#[test]
fn row_codecs_write_under_a_fresh_version_seven_actor() {
    let codec = AutomergeRowCodec::new();
    let actor = codec.actor();
    assert_eq!(actor.len(), 16);
    assert_eq!(actor[6] >> 4, 7);
    assert_eq!(actor[8] >> 6, 2);
    let other = AutomergeRowCodec::default();
    assert_ne!(other.actor(), codec.actor());
}

#[test]
fn row_ids_are_document_ids() {
    let id = [3u8; 16];
    assert_eq!(AutomergeRowCodec::document_id(&id), id.to_vec());
    assert_eq!(AutomergeRowCodec::row_id(&id).unwrap(), id);
    assert!(matches!(
        AutomergeRowCodec::row_id(&[1, 2, 3]),
        Err(EngineError::Custom(m)) if m == "invalid length: expected 16 bytes, found 3"
    ));
}

#[test]
fn metrics_sum_over_trees() {
    let m = AutomergeSyncMetrics::total(&[(2, 100), (0, 0), (5, 30)]);
    assert_eq!(m, AutomergeSyncMetrics { document_count: 7, total_document_bytes: 130 });
    assert_eq!(AutomergeSyncMetrics::total(&[]), AutomergeSyncMetrics::default());
}

#[test]
fn write_transactions_remember_their_table() {
    let db = redb::Database::builder()
        .create_with_backend(redb::backends::InMemoryBackend::new())
        .unwrap();
    let tx = db.begin_write().unwrap();
    let bound: RedbBTreeTransaction<u64, u64> = RedbBTreeTransaction::new(tx, "users".to_string());
    assert_eq!(bound.name(), "users");
    bound.into_transaction().abort().unwrap();
}
