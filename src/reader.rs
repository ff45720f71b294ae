use std::sync::mpsc::{Receiver, SyncSender, TryRecvError};

use vstd::prelude::*;

use crate::offset::BucketOffset;
use crate::types::{
    DataEncoding, MzOffset, NextMessage, PartitionId, ScanError, ScanMessage, SourceError,
    SourceInstanceId, SourceMessage,
};

verus! {

/// The number of scanned records that may wait in the channel before the scanner blocks.
pub const CHANNEL_CAPACITY: usize = 10000;

#[verifier::external_type_specification]
#[verifier::external_body]
#[verifier::reject_recursive_types(T)]
pub struct ExReceiver<T>(Receiver<T>);

#[verifier::external_type_specification]
#[verifier::external_body]
#[verifier::reject_recursive_types(T)]
pub struct ExSyncSender<T>(SyncSender<T>);

/// What one non-blocking receive on the scanner's channel found.
#[derive(Clone, Debug)]
pub enum Received {
    /// A line of an object.
    Record(Vec<u8>),
    /// A failure that the scanner reported.
    Failure(ScanError),
    /// Nothing yet; the scanner is still running.
    Empty,
    /// The scanner has ended, or there never was one.
    Closed,
}

/// Relies on std::sync::mpsc::sync_channel: a channel that holds at most
/// `capacity` messages, its sending and its receiving end.
#[verifier::external_body]
fn bounded_channel(capacity: usize) -> (SyncSender<ScanMessage>, Receiver<ScanMessage>) {
    std::sync::mpsc::sync_channel(capacity)
}

/// Relies on std::sync::mpsc::Receiver::try_recv: takes the next message if one
/// is queued, and tells an empty channel from one whose senders are all gone.
#[verifier::external_body]
fn try_receive(rx: &Receiver<ScanMessage>) -> Received {
    match rx.try_recv() {
        Ok(Ok(record)) => Received::Record(record),
        Ok(Err(e)) => Received::Failure(e),
        Err(TryRecvError::Empty) => Received::Empty,
        Err(TryRecvError::Disconnected) => Received::Closed,
    }
}

/// The message that hands out `record` at position `offset`.
pub open spec fn record_message(offset: i64, record: Vec<u8>) -> SourceMessage {
    SourceMessage {
        partition: PartitionId::S3,
        offset: MzOffset { offset },
        upstream_time_millis: None,
        key: None,
        payload: Some(record),
    }
}

/// The offset after a receive that found `r`: one more for a record, else the same.
pub open spec fn offset_after(offset: int, r: Received) -> int {
    if r is Record {
        offset + 1
    } else {
        offset
    }
}

/// What a poll answers when the receive found `r` and the offset was `offset` before it.
pub open spec fn answer_for(offset: i64, r: Received) -> Result<NextMessage, SourceError> {
    match r {
        Received::Record(v) => Ok(NextMessage::Ready(record_message((offset + 1) as i64, v))),
        Received::Failure(e) => Err(SourceError::Scan(e)),
        Received::Empty => Ok(NextMessage::Pending),
        Received::Closed => Ok(NextMessage::Finished),
    }
}

/// The offsets that the records of a run of receives get, the run starting
/// where the offset is `offset`.
pub open spec fn delivered_offsets(offset: int, rs: Seq<Received>) -> Seq<int>
    decreases rs.len(),
{
    if rs.len() == 0 {
        seq![]
    } else {
        let rest = delivered_offsets(offset_after(offset, rs[0]), rs.drop_first());
        if rs[0] is Record {
            seq![offset + 1] + rest
        } else {
            rest
        }
    }
}

/// The offsets handed out with records are consecutive: over any run of
/// receives they are `offset + 1`, `offset + 2`, ..., with no gap and no repeat,
/// whatever failures, empty and closed polls come between them.
pub proof fn lemma_offsets_consecutive(offset: int, rs: Seq<Received>)
    ensures
        forall|i: int|
            0 <= i < delivered_offsets(offset, rs).len() ==> #[trigger] delivered_offsets(
                offset,
                rs,
            )[i] == offset + 1 + i,
    decreases rs.len(),
{
    if rs.len() > 0 {
        let next = offset_after(offset, rs[0]);
        lemma_offsets_consecutive(next, rs.drop_first());
        let rest = delivered_offsets(next, rs.drop_first());
        if rs[0] is Record {
            assert forall|i: int| 0 <= i < delivered_offsets(offset, rs).len() implies #[trigger] delivered_offsets(offset, rs)[i] == offset + 1 + i by {
                if i > 0 {
                    assert(delivered_offsets(offset, rs)[i] == rest[i - 1]);
                }
            }
        }
    }
}

/// Whether a source may be asked to decode its payload this way.
pub open spec fn supported_encoding(e: DataEncoding) -> bool {
    e == DataEncoding::Text || e == DataEncoding::Bytes
}

/// Information required to load data from S3
pub struct S3SourceInfo {
    /// The name of the source that the user entered
    source_name: String,
    /// The name of the S3 bucket we are pulling from
    bucket: String,
    /// Unique source ID
    id: SourceInstanceId,
    /// Field is set if this operator is responsible for ingesting data
    is_activated_reader: bool,
    /// Receiving end of the scanner's channel; none where this worker does not scan
    receiver_stream: Option<Receiver<ScanMessage>>,
    /// Buffer: store message that cannot yet be timestamped
    buffer: Option<SourceMessage>,
    /// Number of records handed out so far
    offset: BucketOffset,
}

impl S3SourceInfo {
    /// The position of the last record handed out.
    pub closed spec fn spec_offset(&self) -> int {
        self.offset.0 as int
    }

    /// The offset is never negative: it starts at zero and only grows.
    pub open spec fn wf(&self) -> bool {
        0 <= self.spec_offset()
    }

    /// The offset is a 64-bit signed integer.
    pub proof fn lemma_offset_range(&self)
        ensures
            i64::MIN <= self.spec_offset() <= i64::MAX,
    {
    }

    /// The message held back for the next poll, if any.
    pub closed spec fn spec_buffer(&self) -> Option<SourceMessage> {
        self.buffer
    }

    /// Whether this worker scans the bucket.
    pub closed spec fn spec_active(&self) -> bool {
        self.is_activated_reader
    }

    /// Whether this source can still receive from a scanner.
    pub closed spec fn spec_has_channel(&self) -> bool {
        self.receiver_stream is Some
    }

    pub closed spec fn spec_bucket(&self) -> Seq<char> {
        self.bucket@
    }

    pub closed spec fn spec_source_name(&self) -> Seq<char> {
        self.source_name@
    }

    pub closed spec fn spec_id(&self) -> SourceInstanceId {
        self.id
    }

    /// Builds the reading half of a bucket source. On the worker that scans, it
    /// also returns the sending end of a bounded channel, for the scanner to fill;
    /// on every other worker the source is closed and empty from the start.
    pub fn new(
        source_name: String,
        source_id: SourceInstanceId,
        active: bool,
        bucket: String,
        encoding: DataEncoding,
    ) -> (r: Result<(S3SourceInfo, Option<SyncSender<ScanMessage>>), SourceError>)
        ensures
            r is Err <==> !supported_encoding(encoding),
            r matches Err(e) ==> e == SourceError::UnsupportedEncoding(encoding),
            r matches Ok((s, tx)) ==> {
                &&& s.spec_offset() == 0
                &&& s.wf()
                &&& s.spec_buffer() is None
                &&& s.spec_active() == active
                &&& s.spec_has_channel() == active
                &&& tx is Some == active
                &&& s.spec_bucket() == bucket@
                &&& s.spec_source_name() == source_name@
                &&& s.spec_id() == source_id
            },
    {
        if !(encoding == DataEncoding::Text || encoding == DataEncoding::Bytes) {
            return Err(SourceError::UnsupportedEncoding(encoding));
        }
        // a single arbitrary worker is responsible for scanning the bucket
        let (receiver, sender) = if active {
            let (tx, rx) = bounded_channel(CHANNEL_CAPACITY);
            (Some(rx), Some(tx))
        } else {
            (None, None)
        };
        Ok((
            S3SourceInfo {
                source_name,
                bucket,
                id: source_id,
                is_activated_reader: active,
                receiver_stream: receiver,
                buffer: None,
                offset: BucketOffset(0),
            },
            sender,
        ))
    }

    pub fn source_name(&self) -> (r: &String)
        ensures
            r@ == self.spec_source_name(),
    {
        &self.source_name
    }

    pub fn bucket(&self) -> (r: &String)
        ensures
            r@ == self.spec_bucket(),
    {
        &self.bucket
    }

    pub fn id(&self) -> (r: SourceInstanceId)
        ensures
            r == self.spec_id(),
    {
        self.id
    }

    /// The position of the last record handed out; zero before the first.
    pub fn offset(&self) -> (r: MzOffset)
        ensures
            r.offset == self.spec_offset(),
    {
        MzOffset::from(self.offset)
    }

    /// Takes what one receive from the scanner's channel found and answers the
    /// poll with it: a record gets the next offset.
    pub fn accept(&mut self, received: Received) -> (r: Result<NextMessage, SourceError>)
        requires
            received is Record ==> old(self).spec_offset() < i64::MAX,
        ensures
            r == answer_for(old(self).spec_offset() as i64, received),
            final(self).spec_offset() == offset_after(old(self).spec_offset(), received),
            final(self).spec_buffer() == old(self).spec_buffer(),
            final(self).spec_active() == old(self).spec_active(),
            final(self).spec_has_channel() == old(self).spec_has_channel(),
            final(self).spec_bucket() == old(self).spec_bucket(),
            final(self).spec_source_name() == old(self).spec_source_name(),
            final(self).spec_id() == old(self).spec_id(),
    {
        match received {
            Received::Record(record) => {
                self.offset.add_assign(1);
                Ok(
                    NextMessage::Ready(
                        SourceMessage {
                            partition: PartitionId::S3,
                            offset: MzOffset::from(self.offset),
                            upstream_time_millis: None,
                            key: None,
                            payload: Some(record),
                        },
                    ),
                )
            },
            Received::Failure(e) => Err(SourceError::Scan(e)),
            Received::Empty => Ok(NextMessage::Pending),
            Received::Closed => Ok(NextMessage::Finished),
        }
    }

    /// Answers one poll of the scheduler without blocking: the buffered message
    /// if there is one, else what the scanner's channel holds next.
    pub fn get_next_message(&mut self) -> (r: Result<NextMessage, SourceError>)
        requires
            old(self).spec_buffer() is None ==> old(self).spec_offset() < i64::MAX,
        ensures
            old(self).spec_buffer() matches Some(m) ==> {
                &&& r == Ok::<NextMessage, SourceError>(NextMessage::Ready(m))
                &&& final(self).spec_offset() == old(self).spec_offset()
            },
            old(self).spec_buffer() is None && !old(self).spec_has_channel() ==> {
                &&& r == Ok::<NextMessage, SourceError>(NextMessage::Finished)
                &&& final(self).spec_offset() == old(self).spec_offset()
            },
            old(self).spec_buffer() is None && old(self).spec_has_channel() ==> exists|received: Received|
                {
                    &&& r == answer_for(old(self).spec_offset() as i64, received)
                    &&& final(self).spec_offset() == offset_after(
                        old(self).spec_offset(),
                        received,
                    )
                },
            final(self).spec_buffer() is None,
            final(self).spec_active() == old(self).spec_active(),
            final(self).spec_has_channel() == old(self).spec_has_channel(),
            final(self).spec_bucket() == old(self).spec_bucket(),
            final(self).spec_source_name() == old(self).spec_source_name(),
            final(self).spec_id() == old(self).spec_id(),
    {
        if let Some(message) = self.buffer.take() {
            return Ok(NextMessage::Ready(message));
        }
        let received = match &self.receiver_stream {
            Some(rx) => try_receive(rx),
            None => Received::Closed,
        };
        self.accept(received)
    }

    /// Whether the time window up to `offset` may close, given the last offset
    /// that the consistency tracking has seen from this source.
    pub fn can_close_timestamp(&self, last_offset: MzOffset, offset: MzOffset) -> (r: bool)
        ensures
            r == (!self.spec_active() || last_offset.offset >= offset.offset),
    {
        if !self.is_activated_reader {
            true
        } else {
            last_offset.offset >= offset.offset
        }
    }

    /// A bucket source has no partitions to count: calling this is a bug of the
    /// caller, reported as an error rather than recovered from.
    pub fn get_worker_partition_count(&self) -> (r: Result<i32, SourceError>)
        ensures
            r == Err::<i32, SourceError>(SourceError::PartitionsUnsupported),
    {
        Err(SourceError::PartitionsUnsupported)
    }

    /// A bucket source has no partitions to look up: calling this is a bug of
    /// the caller, reported as an error rather than recovered from.
    pub fn has_partition(&self, partition_id: PartitionId) -> (r: Result<bool, SourceError>)
        ensures
            r == Err::<bool, SourceError>(SourceError::PartitionsUnsupported),
    {
        Err(SourceError::PartitionsUnsupported)
    }

    /// A bucket source has no partitions to add: calling this is a bug of the
    /// caller, reported as an error rather than recovered from.
    pub fn ensure_has_partition(&mut self, pid: PartitionId) -> (r: Result<(), SourceError>)
        ensures
            r == Err::<(), SourceError>(SourceError::PartitionsUnsupported),
            *final(self) == *old(self),
    {
        Err(SourceError::PartitionsUnsupported)
    }

    /// A bucket is one partition, whatever count is announced: the update is ignored.
    pub fn update_partition_count(&mut self, partition_count: i32)
        ensures
            *final(self) == *old(self),
    {
    }

    /// Holds back a message that could not be timestamped yet, to be handed out
    /// again by the next poll. At most one message is ever held back.
    pub fn buffer_message(&mut self, message: SourceMessage)
        requires
            old(self).spec_buffer() is None,
        ensures
            final(self).spec_buffer() == Some(message),
            final(self).spec_offset() == old(self).spec_offset(),
            final(self).spec_active() == old(self).spec_active(),
            final(self).spec_has_channel() == old(self).spec_has_channel(),
            final(self).spec_bucket() == old(self).spec_bucket(),
            final(self).spec_source_name() == old(self).spec_source_name(),
            final(self).spec_id() == old(self).spec_id(),
    {
        self.buffer = Some(message);
    }

    /// Whether a message is held back for the next poll.
    pub fn has_buffered_message(&self) -> (r: bool)
        ensures
            r == self.spec_buffer() is Some,
    {
        self.buffer.is_some()
    }
}

} // verus!
