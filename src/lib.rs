//! A bucket of an object store read as an ordered, replayable stream of line records.
//!
//! A scanner lists the bucket, keeps the keys that match a glob, fetches each
//! object and puts its lines on a bounded channel; a reader, polled by the
//! dataflow scheduler, hands the lines out one at a time with consecutive offsets.

mod offset;
mod prefix;
mod reader;
mod scan;
mod timestamping;
mod types;

pub use offset::BucketOffset;
pub use prefix::{
    find_prefix, is_meta, lemma_literal_start_kept, lemma_prefix_is_literal, literal_prefix,
};
pub use reader::{
    answer_for, delivered_offsets, lemma_offsets_consecutive, offset_after, record_message,
    supported_encoding, Received, S3SourceInfo, CHANNEL_CAPACITY,
};
pub use scan::{
    byte_views, failure_run, failure_step, glob_builds, glob_matches, key_selected, key_views,
    lemma_failed_fetch_isolated, lemma_failures_end_scan, lemma_lines_nonempty,
    lemma_objects_in_listing_order, lemma_page_messages_in_order, lemma_scan_output_concat, lines_of, listing_prefix,
    message_view, message_views, object_messages, object_output, object_wakes, pattern_view,
    scan_output, select_keys, selected_keys, some_key_present, split_lines, string_views, FetchOutcome,
    ListingState, PageScan, ListingStep, MAX_LIST_ERRORS,
};
pub use timestamping::activate_source_timestamping;
pub use types::{
    Consistency, DataEncoding, MzOffset, NextMessage, PartitionId, ScanError, ScanMessage,
    SourceError, SourceInstanceId, SourceMessage, TimestampDataUpdate, TimestampMetadataUpdate,
};
