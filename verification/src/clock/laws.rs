//! What holds of the stamps of moments.

use vstd::prelude::*;

#[allow(unused_imports)]
use super::stamp_of;

verus! {

/// A moment is stamped with its milliseconds since the Unix epoch, as long as
/// they fit in 64 bits, so that a later moment never has the smaller stamp; one
/// before the epoch with 0.
pub proof fn law_stamps(ms: u128, later: u128)
    requires
        ms <= later <= u64::MAX,
    ensures
        stamp_of(Some(ms)) == ms,
        stamp_of(Some(ms)) <= stamp_of(Some(later)),
        stamp_of(None) == 0,
        stamp_of(Some((u64::MAX + 1 + ms) as u128)) == ms,
{
}

} // verus!
