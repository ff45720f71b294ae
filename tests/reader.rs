use s3_source::{
    activate_source_timestamping, Consistency, DataEncoding, MzOffset, NextMessage, PartitionId,
    Received, S3SourceInfo, ScanError, SourceError, SourceInstanceId, TimestampDataUpdate,
    TimestampMetadataUpdate,
};

fn id() -> SourceInstanceId {
    SourceInstanceId { source_id: 7, dataflow_id: 2 }
}

fn ready_offset(r: Result<NextMessage, SourceError>) -> (i64, Vec<u8>) {
    match r {
        Ok(NextMessage::Ready(m)) => {
            assert_eq!(m.partition, PartitionId::S3);
            (m.offset.offset, m.payload.unwrap())
        }
        _ => panic!("expected a ready message"),
    }
}

#[test]
fn rejects_other_encodings() {
    let r = S3SourceInfo::new("src".to_string(), id(), true, "bkt".to_string(), DataEncoding::Avro);
    assert!(matches!(r, Err(SourceError::UnsupportedEncoding(DataEncoding::Avro))));
    assert!(S3SourceInfo::new("src".to_string(), id(), true, "bkt".to_string(), DataEncoding::Text).is_ok());
}

#[test]
fn non_scanner_is_closed_and_empty() {
    let (mut s, tx) =
        S3SourceInfo::new("src".to_string(), id(), false, "bkt".to_string(), DataEncoding::Bytes).unwrap();
    assert!(tx.is_none());
    assert!(matches!(s.get_next_message(), Ok(NextMessage::Finished)));
    assert!(s.can_close_timestamp(MzOffset { offset: 0 }, MzOffset { offset: 1000 }));
}

#[test]
fn offsets_are_consecutive() {
    let (mut s, tx) =
        S3SourceInfo::new("src".to_string(), id(), true, "bkt".to_string(), DataEncoding::Text).unwrap();
    let tx = tx.unwrap();
    assert!(matches!(s.get_next_message(), Ok(NextMessage::Pending)));
    tx.send(Ok(b"a".to_vec())).unwrap();
    tx.send(Err(ScanError::Get("nope".to_string()))).unwrap();
    tx.send(Ok(b"b".to_vec())).unwrap();
    assert_eq!(ready_offset(s.get_next_message()), (1, b"a".to_vec()));
    assert!(matches!(s.get_next_message(), Err(SourceError::Scan(ScanError::Get(_)))));
    assert_eq!(ready_offset(s.get_next_message()), (2, b"b".to_vec()));
    assert_eq!(s.offset(), MzOffset { offset: 2 });
    drop(tx);
    assert!(matches!(s.get_next_message(), Ok(NextMessage::Finished)));
}

#[test]
fn buffered_message_is_redelivered() {
    let (mut s, tx) =
        S3SourceInfo::new("src".to_string(), id(), true, "bkt".to_string(), DataEncoding::Text).unwrap();
    let tx = tx.unwrap();
    tx.send(Ok(b"line".to_vec())).unwrap();
    tx.send(Ok(b"next".to_vec())).unwrap();
    let m = match s.get_next_message() {
        Ok(NextMessage::Ready(m)) => m,
        _ => panic!("expected a ready message"),
    };
    s.buffer_message(m);
    assert!(s.has_buffered_message());
    assert_eq!(ready_offset(s.get_next_message()), (1, b"line".to_vec()));
    assert!(!s.has_buffered_message());
    assert_eq!(ready_offset(s.get_next_message()), (2, b"next".to_vec()));
}

#[test]
fn accept_maps_each_outcome() {
    let (mut s, _tx) =
        S3SourceInfo::new("src".to_string(), id(), true, "bkt".to_string(), DataEncoding::Text).unwrap();
    assert!(matches!(s.accept(Received::Empty), Ok(NextMessage::Pending)));
    assert!(matches!(s.accept(Received::Closed), Ok(NextMessage::Finished)));
    assert!(matches!(s.accept(Received::Failure(ScanError::Read("x".to_string()))), Err(SourceError::Scan(ScanError::Read(_)))));
    assert_eq!(ready_offset(s.accept(Received::Record(b"r".to_vec()))), (1, b"r".to_vec()));
    assert_eq!(s.offset().offset, 1);
}

#[test]
fn scanner_window_waits_for_data() {
    let (s, _tx) =
        S3SourceInfo::new("src".to_string(), id(), true, "bkt".to_string(), DataEncoding::Text).unwrap();
    assert!(!s.can_close_timestamp(MzOffset { offset: 3 }, MzOffset { offset: 4 }));
    assert!(s.can_close_timestamp(MzOffset { offset: 4 }, MzOffset { offset: 4 }));
}

#[test]
fn partition_operations_unsupported() {
    let (mut s, _tx) =
        S3SourceInfo::new("src".to_string(), id(), true, "bkt".to_string(), DataEncoding::Text).unwrap();
    assert!(matches!(s.get_worker_partition_count(), Err(SourceError::PartitionsUnsupported)));
    assert!(matches!(s.has_partition(PartitionId::S3), Err(SourceError::PartitionsUnsupported)));
    assert!(matches!(s.ensure_has_partition(PartitionId::S3), Err(SourceError::PartitionsUnsupported)));
    s.update_partition_count(4);
    assert_eq!(s.offset().offset, 0);
    assert_eq!(s.bucket(), "bkt");
    assert_eq!(s.source_name(), "src");
    assert_eq!(s.id(), id());
}

#[test]
fn timestamping_registration() {
    let mut channel = Vec::new();
    let r = activate_source_timestamping(&id(), &Consistency::BringYourOwn("t".to_string()), true, &mut channel);
    assert!(matches!(r, Err(SourceError::ByoConsistencyUnsupported)));
    assert!(channel.is_empty());
    let r = activate_source_timestamping(&id(), &Consistency::RealTime, false, &mut channel);
    assert!(matches!(r, Ok(None)));
    assert!(channel.is_empty());
    let r = activate_source_timestamping(&id(), &Consistency::RealTime, true, &mut channel);
    assert!(matches!(r, Ok(Some(TimestampDataUpdate::RealTime(1)))));
    assert_eq!(channel, vec![TimestampMetadataUpdate::StartTimestamping(id())]);
}
