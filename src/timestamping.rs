use vstd::prelude::*;

use crate::types::{
    Consistency, SourceError, SourceInstanceId, TimestampDataUpdate, TimestampMetadataUpdate,
};

verus! {

/// Registers a bucket source with the timestamper. Bring-your-own consistency is
/// refused. The worker that scans announces the source on the metadata channel
/// and returns how its timestamps are to be generated, for the timestamper's
/// registry under `id`; every other worker registers nothing.
pub fn activate_source_timestamping(
    id: &SourceInstanceId,
    consistency: &Consistency,
    active: bool,
    timestamp_metadata_channel: &mut Vec<TimestampMetadataUpdate>,
) -> (r: Result<Option<TimestampDataUpdate>, SourceError>)
    ensures
        consistency is BringYourOwn ==> {
            &&& r == Err::<Option<TimestampDataUpdate>, SourceError>(
                SourceError::ByoConsistencyUnsupported,
            )
            &&& final(timestamp_metadata_channel)@ == old(timestamp_metadata_channel)@
        },
        !(consistency is BringYourOwn) && active ==> {
            &&& r == Ok::<Option<TimestampDataUpdate>, SourceError>(
                Some(TimestampDataUpdate::RealTime(1)),
            )
            &&& final(timestamp_metadata_channel)@ == old(timestamp_metadata_channel)@.push(
                TimestampMetadataUpdate::StartTimestamping(*id),
            )
        },
        !(consistency is BringYourOwn) && !active ==> {
            &&& r == Ok::<Option<TimestampDataUpdate>, SourceError>(None)
            &&& final(timestamp_metadata_channel)@ == old(timestamp_metadata_channel)@
        },
{
    match consistency {
        Consistency::BringYourOwn(_) => Err(SourceError::ByoConsistencyUnsupported),
        Consistency::RealTime => {
            if active {
                timestamp_metadata_channel.push(TimestampMetadataUpdate::StartTimestamping(*id));
                Ok(Some(TimestampDataUpdate::RealTime(1)))
            } else {
                Ok(None)
            }
        },
    }
}

} // verus!
