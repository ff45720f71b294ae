use vstd::prelude::*;

use crate::types::MzOffset;

verus! {

/// The number of records a bucket source has handed out.
#[derive(Clone, Copy, Debug, PartialEq, Eq, Structural)]
pub struct BucketOffset(pub i64);

impl BucketOffset {
    pub fn add_assign(&mut self, other: i64)
        requires
            i64::MIN <= old(self).0 + other <= i64::MAX,
        ensures
            final(self).0 == old(self).0 + other,
    {
        self.0 = self.0 + other;
    }
}

impl From<BucketOffset> for MzOffset {
    fn from(offset: BucketOffset) -> (r: MzOffset) {
        MzOffset { offset: offset.0 }
    }
}

impl vstd::std_specs::convert::FromSpecImpl<BucketOffset> for MzOffset {
    open spec fn obeys_from_spec() -> bool {
        true
    }

    open spec fn from_spec(v: BucketOffset) -> MzOffset {
        MzOffset { offset: v.0 }
    }
}

} // verus!
