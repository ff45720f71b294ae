use s3_source::{
    object_messages, select_keys, split_lines, DataEncoding, FetchOutcome, ListingState,
    ListingStep, NextMessage, PageScan, S3SourceInfo, ScanError, SourceError, SourceInstanceId,
    MAX_LIST_ERRORS,
};

/// Queues each object's messages, in the given order, on a scanner source's
/// channel, then polls the source to its end: the payloads and offsets of the
/// records and the text of each failure, in the order the reader saw them.
fn scan_through_reader(objects: Vec<FetchOutcome>) -> Vec<Result<(i64, Vec<u8>), String>> {
    let id = SourceInstanceId { source_id: 1, dataflow_id: 1 };
    let (mut source, tx) =
        S3SourceInfo::new("src".to_string(), id, true, "bkt".to_string(), DataEncoding::Text).unwrap();
    let tx = tx.unwrap();
    let keys: Vec<String> = (0..objects.len()).map(|i| format!("key{}", i)).collect();
    let mut page = PageScan::new(keys);
    let mut objects = objects.into_iter();
    while let Some(_key) = page.next_key() {
        for message in page.on_fetched(objects.next().unwrap()).0 {
            tx.send(message).unwrap();
        }
    }
    drop(tx);
    let mut seen = Vec::new();
    loop {
        match source.get_next_message() {
            Ok(NextMessage::Ready(m)) => seen.push(Ok((m.offset.offset, m.payload.unwrap()))),
            Ok(NextMessage::Pending) => panic!("all messages were queued before polling"),
            Ok(NextMessage::Finished) => return seen,
            Err(SourceError::Scan(ScanError::Get(e))) => seen.push(Err(format!("get: {}", e))),
            Err(_) => panic!("unexpected error"),
        }
    }
}

fn records(fetched: FetchOutcome) -> Vec<Result<Vec<u8>, String>> {
    object_messages(fetched)
        .0
        .into_iter()
        .map(|m| match m {
            Ok(v) => Ok(v),
            Err(ScanError::Get(e)) => Err(format!("get: {}", e)),
            Err(ScanError::Read(e)) => Err(format!("read: {}", e)),
            Err(ScanError::Client(e)) => Err(format!("client: {}", e)),
            Err(ScanError::Pattern(e)) => Err(format!("pattern: {}", e)),
        })
        .collect()
}

#[test]
fn split_on_newlines() {
    assert_eq!(split_lines(b"a1\na2"), vec![b"a1".to_vec(), b"a2".to_vec()]);
    assert_eq!(split_lines(b"a\n"), vec![b"a".to_vec(), Vec::new()]);
    assert_eq!(split_lines(b""), vec![Vec::<u8>::new()]);
    assert_eq!(split_lines(b"\n\n"), vec![Vec::<u8>::new(), Vec::new(), Vec::new()]);
}

#[test]
fn body_becomes_lines_and_wakes_reader() {
    let (msgs, wake) = object_messages(FetchOutcome::Body(b"x\ny".to_vec()));
    assert!(wake);
    assert_eq!(msgs.len(), 2);
    let (msgs, wake) = object_messages(FetchOutcome::Body(Vec::new()));
    assert!(wake);
    assert_eq!(msgs.len(), 1);
    let (msgs, wake) = object_messages(FetchOutcome::NoBody);
    assert!(!wake);
    assert!(msgs.is_empty());
}

#[test]
fn fetch_failures_are_reported_once() {
    assert_eq!(records(FetchOutcome::GetFailed("denied".to_string())), vec![Err("get: denied".to_string())]);
    assert_eq!(records(FetchOutcome::ReadFailed("reset".to_string())), vec![Err("read: reset".to_string())]);
}

#[test]
fn objects_emitted_in_listing_order() {
    let seen = scan_through_reader(vec![
        FetchOutcome::Body(b"a1\na2".to_vec()),
        FetchOutcome::Body(b"b1".to_vec()),
    ]);
    assert_eq!(seen, vec![Ok((1, b"a1".to_vec())), Ok((2, b"a2".to_vec())), Ok((3, b"b1".to_vec()))]);
}

#[test]
fn failed_object_does_not_abort_scan() {
    let seen = scan_through_reader(vec![
        FetchOutcome::Body(b"k1".to_vec()),
        FetchOutcome::GetFailed("gone".to_string()),
        FetchOutcome::Body(b"k3".to_vec()),
    ]);
    assert_eq!(seen, vec![Ok((1, b"k1".to_vec())), Err("get: gone".to_string()), Ok((2, b"k3".to_vec()))]);
}

#[test]
fn page_hands_out_keys_in_order() {
    let mut page = PageScan::new(vec!["a".to_string(), "b".to_string()]);
    assert_eq!(page.next_key(), Some("a".to_string()));
    let (msgs, wake) = page.on_fetched(FetchOutcome::NoBody);
    assert!(msgs.is_empty() && !wake);
    assert_eq!(page.next_key(), Some("b".to_string()));
    let (msgs, wake) = page.on_fetched(FetchOutcome::Body(b"x".to_vec()));
    assert_eq!(msgs.len(), 1);
    assert!(wake);
    assert_eq!(page.next_key(), None);
}

#[test]
fn keys_filtered_by_glob_in_order() {
    let keys = vec![
        Some("data/b.json".to_string()),
        None,
        Some("data/a.csv".to_string()),
        Some("data/a.json".to_string()),
        Some("other/c.json".to_string()),
    ];
    assert_eq!(
        select_keys(Some("data/*.json"), &keys).unwrap(),
        vec!["data/b.json".to_string(), "data/a.json".to_string()]
    );
    assert_eq!(select_keys(None, &keys).unwrap().len(), 4);
    assert!(select_keys(Some("nothing/*"), &keys).unwrap().is_empty());
}

#[test]
fn unbuildable_pattern_is_reported() {
    let keys = vec![Some("data/a.json".to_string())];
    assert!(matches!(select_keys(Some("data/[a"), &keys), Err(ScanError::Pattern(_))));
    assert_eq!(select_keys(Some("data/[a"), &Vec::new()).unwrap(), Vec::<String>::new());
    assert_eq!(select_keys(Some("data/[a"), &vec![None]).unwrap(), Vec::<String>::new());
    assert!(select_keys(Some("data/[ab]*"), &keys).is_ok());
}

#[test]
fn listing_retries_exhaust() {
    let mut state = ListingState::new();
    assert_eq!(state.allowed_errors, MAX_LIST_ERRORS);
    for _ in 0..9 {
        assert_eq!(state.on_listing_failure(), ListingStep::Backoff);
    }
    assert_eq!(state.on_listing_failure(), ListingStep::Stop);
}

#[test]
fn listing_success_resets_retries() {
    let mut state = ListingState::new();
    assert_eq!(state.on_listing_failure(), ListingStep::Backoff);
    assert_eq!(state.on_listing_success(Some("tok".to_string())), ListingStep::Continue);
    assert_eq!(state.allowed_errors, MAX_LIST_ERRORS);
    assert_eq!(state.continuation_token, Some("tok".to_string()));
    assert_eq!(state.on_listing_success(None), ListingStep::Stop);
}
