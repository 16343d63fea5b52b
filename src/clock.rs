use vstd::prelude::*;
use chrono::Datelike;
use chrono::Timelike;
use crate::forecast::ForecastTime;

verus! {

/// Relies on chrono's `Local::now` for the local wall-clock time, and on its
/// `month`, `day` and `hour` accessors, documented to return 1 to 12, 1 to 31
/// and 0 to 23.
#[verifier::external_body]
pub(crate) fn local_now() -> (r: ForecastTime)
    ensures
        r.wf(),
{
    let now = chrono::Local::now();
    ForecastTime { month: now.month(), day: now.day(), hour: now.hour() }
}

} // verus!
