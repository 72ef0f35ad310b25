//! Control surface: the operations callers invoke.
//!
//! `dmx_set_levels` records the requested port and replaces the frame;
//! the host shell then calls [`WriterControl::acquire_start`] under the
//! handle's own lock to decide whether this call must spawn the writer
//! loop, which exists at most once per process.

use vstd::prelude::*;
use crate::errors::DmxError;
use crate::state::{frame_after_update, DmxSharedState, CHANNEL_COUNT};

verus! {

/// Validate and apply a level submission. A submission of more than 512
/// levels is the caller's fault and is rejected before any mutation: the
/// frame, the desired port and the opened port all keep their prior
/// values. On success the frame is replaced and the desired port becomes
/// the submitted one.
pub fn dmx_set_levels(
    state: &mut DmxSharedState,
    port_path: String,
    levels: &[u8],
) -> (r: Result<(), DmxError>)
    requires
        old(state).wf(),
    ensures
        final(state).wf(),
        final(state).open_port == old(state).open_port,
        r.is_ok() <==> levels@.len() <= CHANNEL_COUNT,
        r.is_ok() ==> final(state).port_path == Some(port_path)
            && final(state).levels@ == frame_after_update(levels@),
        r.is_err() ==> r == Err::<(), DmxError>(DmxError::Validation)
            && *final(state) == *old(state),
{
    match state.update_levels(levels) {
        Ok(()) => {},
        Err(e) => {
            return Err(e);
        },
    }
    match state.set_port(port_path) {
        Ok(()) => Ok(()),
        Err(e) => Err(e),
    }
}

/// Guard around the writer-loop handle: records whether the loop has been
/// started, so that exactly one loop exists however many submissions race.
pub struct WriterControl {
    /// Whether a writer loop has been spawned in this process.
    pub started: bool,
}

impl WriterControl {
    /// Before any submission, no writer loop exists.
    pub fn new() -> (r: WriterControl)
        ensures
            !r.started,
    {
        WriterControl { started: false }
    }

    /// Claim the right to start the writer loop: true exactly on the first
    /// call, after which the control records the loop as running, so a
    /// second caller is a no-op for loop startup.
    pub fn acquire_start(&mut self) -> (start: bool)
        ensures
            start == !old(self).started,
            final(self).started,
    {
        let start = !self.started;
        self.started = true;
        start
    }
}

} // verus!
