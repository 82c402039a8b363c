//! The time, as the library reads it: milliseconds since the Unix epoch.

use vstd::prelude::*;

verus! {

/// `chrono::Utc::now`, in milliseconds since the Unix epoch. Nothing is
/// known of the outcome.
#[verifier::external_body]
pub(crate) fn now_millis() -> (millis: i64) {
    chrono::Utc::now().timestamp_millis()
}

/// `moment` moved by `millis`, stopping at the ends of the range.
pub fn later(moment: i64, millis: i64) -> (r: i64)
    ensures
        r == if moment + millis > i64::MAX {
            i64::MAX as int
        } else if moment + millis < i64::MIN {
            i64::MIN as int
        } else {
            moment + millis
        },
{
    if millis >= 0 && moment > i64::MAX - millis {
        i64::MAX
    } else if millis < 0 && moment < i64::MIN - millis {
        i64::MIN
    } else {
        moment + millis
    }
}

} // verus!
