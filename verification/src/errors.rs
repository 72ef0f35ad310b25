//! Error taxonomy of the control surface.

use vstd::prelude::*;

verus! {

/// Why a control-surface operation failed.
///
/// `Validation`: the caller supplied more than 512 channel levels; rejected
/// before any mutation of the frame. `Lock`: an internal synchronization
/// primitive was unavailable (reported by the host shell, never produced by
/// the verified state itself). `Transport`: serial-port enumeration or I/O
/// failed.
#[derive(Clone, Copy, Debug, PartialEq, Eq, Structural)]
pub enum DmxError {
    Validation,
    Lock,
    Transport,
}

impl DmxError {
    /// A short description of the error for the caller, fixed per variant.
    pub fn describe(&self) -> (r: &'static str)
        ensures
            r@.len() > 0,
            self is Validation ==> r@ == "the DMX buffer accepts at most 512 channels"@,
            self is Lock ==> r@ == "an internal lock could not be acquired"@,
            self is Transport ==> r@ == "the serial transport reported a failure"@,
    {
        proof {
            reveal_strlit("the DMX buffer accepts at most 512 channels");
            reveal_strlit("an internal lock could not be acquired");
            reveal_strlit("the serial transport reported a failure");
        }
        match self {
            DmxError::Validation => "the DMX buffer accepts at most 512 channels",
            DmxError::Lock => "an internal lock could not be acquired",
            DmxError::Transport => "the serial transport reported a failure",
        }
    }
}

} // verus!
