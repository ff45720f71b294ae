use vstd::prelude::*;

verus! {

/// A position in a source, comparable across all sources of the engine.
#[derive(Clone, Copy, Debug, PartialEq, Eq, Structural)]
pub struct MzOffset {
    pub offset: i64,
}

/// The identity of one instance of a source in one dataflow.
#[derive(Clone, Copy, Debug, PartialEq, Eq, Structural, Hash)]
pub struct SourceInstanceId {
    pub source_id: u64,
    pub dataflow_id: u64,
}

/// The partition a message came from; a bucket is one partition of its own.
#[derive(Clone, Copy, Debug, PartialEq, Eq, Structural)]
pub enum PartitionId {
    Kafka(i32),
    File,
    S3,
}

/// How the payload of a source is to be decoded downstream.
#[derive(Clone, Copy, Debug, PartialEq, Eq, Structural)]
pub enum DataEncoding {
    Avro,
    AvroOcf,
    Protobuf,
    Csv,
    Regex,
    Postgres,
    Bytes,
    Text,
}

/// How timestamps are assigned to the data of a source.
#[derive(Clone, Debug)]
pub enum Consistency {
    BringYourOwn(String),
    RealTime,
}

/// How the timestamper generates timestamps for a source.
#[derive(Clone, Copy, Debug, PartialEq, Eq, Structural)]
pub enum TimestampDataUpdate {
    /// Real-time timestamps over the given number of partitions.
    RealTime(i32),
}

/// A notice on the timestamper's metadata channel.
#[derive(Clone, Copy, Debug, PartialEq, Eq, Structural)]
pub enum TimestampMetadataUpdate {
    StartTimestamping(SourceInstanceId),
    StopTimestamping(SourceInstanceId),
}

/// A failure reported by the bucket scanner for one object, or for the scan as a whole.
#[derive(Clone, Debug)]
pub enum ScanError {
    /// The object-store client could not be built.
    Client(String),
    /// An object could not be fetched.
    Get(String),
    /// The body of a fetched object could not be read.
    Read(String),
    /// The key pattern could not be built into a matcher.
    Pattern(String),
}

/// What the scanner hands to the reader: one line of an object, or a failure.
pub type ScanMessage = Result<Vec<u8>, ScanError>;

/// The errors of a bucket source.
#[derive(Clone, Debug)]
pub enum SourceError {
    /// The source was asked to decode its payload as other than text or bytes.
    UnsupportedEncoding(DataEncoding),
    /// Bring-your-own consistency was asked of a source that does not support it.
    ByoConsistencyUnsupported,
    /// A partition operation was asked of a source that has no partitions.
    PartitionsUnsupported,
    /// The scanner reported a failure.
    Scan(ScanError),
}

/// One record handed to the dataflow.
#[derive(Clone, Debug)]
pub struct SourceMessage {
    pub partition: PartitionId,
    pub offset: MzOffset,
    pub upstream_time_millis: Option<i64>,
    pub key: Option<Vec<u8>>,
    pub payload: Option<Vec<u8>>,
}

/// The answer to one poll of a source.
#[derive(Clone, Debug)]
pub enum NextMessage {
    Ready(SourceMessage),
    Pending,
    Finished,
}

} // verus!
