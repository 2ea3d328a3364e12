//! The shared set of introduction points handed from the manager to the
//! publisher, with the bookkeeping done when a publication attempt starts.

use vstd::prelude::*;

use crate::hs::FatalError;
use crate::relay_ids::copy_bytes;

verus! {

/// How long, in seconds, to keep maintaining an introduction point after
/// its published descriptor has expired: an allowance for client delays
/// and clock skew.
pub const IPT_PUBLISH_EXPIRY_SLOP_SECS: u64 = 300;

/// One introduction point as handed to the publisher.
#[derive(Debug)]
pub struct IptInSet {
    /// The manager's local identifier for this introduction point.
    pub lid: Vec<u8>,
    /// Until when, in seconds on the monotonic clock, the manager ought to
    /// maintain this introduction point even after it stops being
    /// published; `None` until the descriptor has first been published.
    pub last_descriptor_expiry_including_slop: Option<u64>,
}

/// A set of introduction points for publication, shared between the
/// manager and the publisher.
#[derive(Debug)]
pub struct IptSet {
    /// The introduction points themselves.
    pub ipts: Vec<IptInSet>,
    /// How long, in seconds, a published descriptor lives.
    pub lifetime: u64,
}

/// The expiry bound implied by a publication attempt that will finish by
/// `worst_case_end`: the attempt's end, plus the descriptor lifetime, plus
/// the slop.
pub open spec fn spec_publication_expiry(worst_case_end: u64, lifetime: u64) -> int {
    worst_case_end + lifetime + IPT_PUBLISH_EXPIRY_SLOP_SECS
}

/// The larger of an optional previous expiry and a new one: expiries only
/// ever move later.
pub open spec fn spec_raise_expiry(old_expiry: Option<u64>, new_expiry: u64) -> Option<u64> {
    match old_expiry {
        Some(x) => if x >= new_expiry {
            Some(x)
        } else {
            Some(new_expiry)
        },
        None => Some(new_expiry),
    }
}

impl IptSet {
    /// Note that a publication attempt is starting which will complete or
    /// be abandoned by `worst_case_end` (in seconds on the monotonic
    /// clock): raise every introduction point's expiry bound to at least
    /// the attempt's implied expiry.  An expiry that would overflow the
    /// clock is reported as a defect and changes nothing.
    pub fn note_publication_attempt(&mut self, worst_case_end: u64) -> (r: Result<(), FatalError>)
        ensures
            spec_publication_expiry(worst_case_end, old(self).lifetime) > u64::MAX ==> (
            r matches Err(e) && e is Bug && final(self).ipts@.len() == old(self).ipts@.len()
                && final(self).lifetime == old(self).lifetime && (forall|i: int|
                0 <= i < old(self).ipts@.len()
                    ==> #[trigger] final(self).ipts@[i].last_descriptor_expiry_including_slop
                    == old(self).ipts@[i].last_descriptor_expiry_including_slop)),
            spec_publication_expiry(worst_case_end, old(self).lifetime) <= u64::MAX ==> (r
                matches Ok(u) && final(self).ipts@.len() == old(self).ipts@.len()
                && final(self).lifetime == old(self).lifetime && (forall|i: int|
                0 <= i < old(self).ipts@.len() ==> {
                    &&& (#[trigger] final(self).ipts@[i]).lid@ == old(self).ipts@[i].lid@
                    &&& final(self).ipts@[i].last_descriptor_expiry_including_slop
                        == spec_raise_expiry(
                        old(self).ipts@[i].last_descriptor_expiry_including_slop,
                        spec_publication_expiry(worst_case_end, old(self).lifetime) as u64,
                    )
                })),
    {
        let step1 = match worst_case_end.checked_add(self.lifetime) {
            Some(x) => x,
            None => {
                return Err(FatalError::Bug);
            },
        };
        let new_expiry = match step1.checked_add(IPT_PUBLISH_EXPIRY_SLOP_SECS) {
            Some(x) => x,
            None => {
                return Err(FatalError::Bug);
            },
        };
        let n = self.ipts.len();
        let mut i: usize = 0;
        while i < n
            invariant
                i <= n,
                n == self.ipts@.len(),
                self.ipts@.len() == old(self).ipts@.len(),
                self.lifetime == old(self).lifetime,
                forall|j: int|
                    0 <= j < i ==> {
                        &&& (#[trigger] self.ipts@[j]).lid@ == old(self).ipts@[j].lid@
                        &&& self.ipts@[j].last_descriptor_expiry_including_slop
                            == spec_raise_expiry(
                            old(self).ipts@[j].last_descriptor_expiry_including_slop,
                            new_expiry,
                        )
                    },
                forall|j: int|
                    i <= j < n ==> #[trigger] self.ipts@[j] == old(self).ipts@[j],
            decreases n - i,
        {
            let raised: Option<u64> = match self.ipts[i].last_descriptor_expiry_including_slop {
                Some(x) => if x >= new_expiry {
                    Some(x)
                } else {
                    Some(new_expiry)
                },
                None => Some(new_expiry),
            };
            let lid = copy_bytes(&self.ipts[i].lid);
            self.ipts.set(
                i,
                IptInSet { lid, last_descriptor_expiry_including_slop: raised },
            );
            i = i + 1;
        }
        Ok(())
    }
}

} // verus!
