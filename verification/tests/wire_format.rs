use storage::consensus::Entry;
use storage::consensus::EntryPayload;
use storage::consensus::LogId;
use storage::consensus::Vote;
use storage::store::StorageNodeRequest;
use storage::wire::from_bytes;
use storage::wire::to_bytes;

#[test]
fn integer_is_eight_bytes_most_significant_first() {
    assert_eq!(to_bytes(&0u64), vec![0, 0, 0, 0, 0, 0, 0, 0]);
    assert_eq!(to_bytes(&1u64), vec![0, 0, 0, 0, 0, 0, 0, 1]);
    assert_eq!(to_bytes(&256u64), vec![0, 0, 0, 0, 0, 0, 1, 0]);
    assert_eq!(to_bytes(&0x0102030405060708u64), vec![1, 2, 3, 4, 5, 6, 7, 8]);
    assert_eq!(to_bytes(&u64::MAX), vec![255; 8]);
    assert_eq!(to_bytes(&0x0102030405060708u64), 0x0102030405060708u64.to_be_bytes().to_vec());
    assert_eq!(from_bytes::<u64>(&[1, 2, 3, 4, 5, 6, 7, 8]), Some(0x0102030405060708u64));
    assert_eq!(from_bytes::<u64>(&[255; 8]), Some(u64::MAX));
    assert_eq!(from_bytes::<u64>(&[1, 2, 3, 4, 5, 6, 7]), None);
    assert_eq!(from_bytes::<u64>(&[1, 2, 3, 4, 5, 6, 7, 8, 9]), None);
}

#[test]
fn byte_string_follows_its_length() {
    assert_eq!(to_bytes(&vec![7u8, 8u8, 9u8]), vec![0, 0, 0, 0, 0, 0, 0, 3, 7, 8, 9]);
    assert_eq!(to_bytes(&Vec::<u8>::new()), vec![0, 0, 0, 0, 0, 0, 0, 0]);
    assert_eq!(
        from_bytes::<Vec<u8>>(&[0, 0, 0, 0, 0, 0, 0, 3, 7, 8, 9]),
        Some(vec![7u8, 8u8, 9u8])
    );
    assert_eq!(from_bytes::<Vec<u8>>(&[0, 0, 0, 0, 0, 0, 0, 4, 7, 8, 9]), None);
    assert_eq!(from_bytes::<Vec<u8>>(&[255, 255, 255, 255, 255, 255, 255, 255, 7]), None);
}

#[test]
fn text_is_written_in_utf8() {
    assert_eq!(
        to_bytes(&"h\u{e9}".to_string()),
        vec![0, 0, 0, 0, 0, 0, 0, 3, 0x68, 0xc3, 0xa9]
    );
    assert_eq!(
        from_bytes::<String>(&[0, 0, 0, 0, 0, 0, 0, 3, 0x68, 0xc3, 0xa9]),
        Some("h\u{e9}".to_string())
    );
    // Bytes that are no UTF-8 are no text.
    assert_eq!(from_bytes::<String>(&[0, 0, 0, 0, 0, 0, 0, 2, 0x68, 0xc3]), None);
    assert_eq!(from_bytes::<String>(&[0, 0, 0, 0, 0, 0, 0, 1, 0xff]), None);
}

#[test]
fn list_follows_its_count() {
    assert_eq!(
        to_bytes(&vec![1u64, 2u64]),
        vec![0, 0, 0, 0, 0, 0, 0, 2, 0, 0, 0, 0, 0, 0, 0, 1, 0, 0, 0, 0, 0, 0, 0, 2]
    );
    assert_eq!(
        from_bytes::<Vec<Vec<u64>>>(&to_bytes(&vec![vec![1u64], vec![], vec![2u64, 3u64]])),
        Some(vec![vec![1u64], vec![], vec![2u64, 3u64]])
    );
    // A count that promises more than there is.
    assert_eq!(from_bytes::<Vec<u64>>(&[0, 0, 0, 0, 0, 0, 0, 2, 0, 0, 0, 0, 0, 0, 0, 1]), None);
}

#[test]
fn optional_value_says_whether_it_is_there() {
    assert_eq!(to_bytes(&None::<u64>), vec![0]);
    assert_eq!(to_bytes(&Some(5u64)), vec![1, 0, 0, 0, 0, 0, 0, 0, 5]);
    assert_eq!(from_bytes::<Option<u64>>(&[0]), Some(None));
    assert_eq!(from_bytes::<Option<u64>>(&[1, 0, 0, 0, 0, 0, 0, 0, 5]), Some(Some(5)));
    assert_eq!(from_bytes::<Option<u64>>(&[2, 0, 0, 0, 0, 0, 0, 0, 5]), None);
    assert_eq!(to_bytes(&true), vec![1]);
    assert_eq!(to_bytes(&false), vec![0]);
    assert_eq!(from_bytes::<bool>(&[2]), None);
}

#[test]
fn vote_and_log_id_have_exact_forms() {
    let id = LogId { term: 1, node_id: 2, index: 3 };
    assert_eq!(
        to_bytes(&id),
        vec![0, 0, 0, 0, 0, 0, 0, 1, 0, 0, 0, 0, 0, 0, 0, 2, 0, 0, 0, 0, 0, 0, 0, 3]
    );
    assert_eq!(from_bytes::<LogId>(&to_bytes(&id)), Some(id));
    let vote = Vote { term: 4, voted_for: Some(9), committed: true };
    assert_eq!(
        to_bytes(&vote),
        vec![0, 0, 0, 0, 0, 0, 0, 4, 1, 0, 0, 0, 0, 0, 0, 0, 9, 1]
    );
    assert_eq!(from_bytes::<Vote>(&to_bytes(&vote)), Some(vote));
    let none = Vote { term: 4, voted_for: None, committed: false };
    assert_eq!(to_bytes(&none), vec![0, 0, 0, 0, 0, 0, 0, 4, 0, 0]);
    assert_eq!(from_bytes::<Vote>(&to_bytes(&none)), Some(none));
}

#[test]
fn entry_starts_with_its_id_and_the_kind_of_its_payload() {
    let blank = Entry { log_id: LogId { term: 1, node_id: 0, index: 2 }, payload: EntryPayload::Blank };
    assert_eq!(
        to_bytes(&blank),
        vec![0, 0, 0, 0, 0, 0, 0, 1, 0, 0, 0, 0, 0, 0, 0, 0, 0, 0, 0, 0, 0, 0, 0, 2, 0]
    );
    let write = Entry {
        log_id: LogId { term: 1, node_id: 0, index: 2 },
        payload: EntryPayload::Normal(StorageNodeRequest::StoreData {
            id: "ab".to_string(),
            value: vec![9u8],
        }),
    };
    assert_eq!(
        to_bytes(&write),
        vec![
            0, 0, 0, 0, 0, 0, 0, 1, 0, 0, 0, 0, 0, 0, 0, 0, 0, 0, 0, 0, 0, 0, 0, 2, 1, 0, 0, 0,
            0, 0, 0, 0, 2, 0x61, 0x62, 0, 0, 0, 0, 0, 0, 0, 1, 9
        ]
    );
    assert_eq!(from_bytes::<Entry>(&to_bytes(&write)), Some(write));
    assert_eq!(from_bytes::<Entry>(&to_bytes(&blank)), Some(blank));
    // An unknown kind of payload.
    assert_eq!(
        from_bytes::<Entry>(&[
            0, 0, 0, 0, 0, 0, 0, 1, 0, 0, 0, 0, 0, 0, 0, 0, 0, 0, 0, 0, 0, 0, 0, 2, 3
        ]),
        None
    );
}
