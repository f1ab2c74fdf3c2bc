//! Monitor mode for progress bars.
//!
//! In monitor mode a bar that its owner advances only now and then is
//! refreshed at fixed intervals by a second party, until the bar is
//! complete. Sleeping and locking are the caller's part; what to do at
//! each turn is decided here.

use vstd::prelude::*;
use crate::std_bar::{text_view, Bar, MonitorStep};

verus! {

/// One turn of the monitor of a bar: nothing is left to do once the
/// counter has reached the total, else the bar is refreshed whatever its
/// gates say.
pub fn bar(pb: &mut Bar, now: u64, columns: u16) -> (step: MonitorStep)
    requires
        old(pb)@.wf(),
    ensures
        final(pb)@.wf(),
        old(pb)@.completed() ==> step is Finished && final(pb)@ == old(pb)@,
        !old(pb)@.completed() ==> {
            &&& step matches MonitorStep::Refreshed(out)
            &&& text_view(out) == old(pb)@.refreshed(now as nat, columns as nat).1
            &&& final(pb)@ == old(pb)@.refreshed(now as nat, columns as nat).0
        },
{
    if pb.completed() {
        MonitorStep::Finished
    } else {
        MonitorStep::Refreshed(pb.refresh(now, columns))
    }
}

} // verus!
