//! Shared state of the DMX link: the frame buffer and the port registry.
//!
//! The host shell keeps one value of [`DmxSharedState`] behind per-field
//! locks; every mutation and every read goes through the verified methods
//! here, so a snapshot never observes a partially updated frame.

use vstd::prelude::*;
use vstd::pervasive::VecAdditionalExecFns;
use crate::errors::DmxError;

verus! {

/// Number of caller-settable channels in one DMX universe.
pub const CHANNEL_COUNT: usize = 512;

/// Bytes in one transmitted frame: the start code plus every channel.
pub const FRAME_LEN: usize = 513;

/// The frame that results from replacing every channel with zero and then
/// copying `levels` in starting at channel 1: start code, the supplied
/// levels, then zeros up to 512 channels.
pub open spec fn frame_after_update(levels: Seq<u8>) -> Seq<u8> {
    seq![0u8] + levels + Seq::new((CHANNEL_COUNT - levels.len()) as nat, |i: int| 0u8)
}

/// The all-zero frame a fresh state starts from.
pub open spec fn zero_frame() -> Seq<u8> {
    Seq::new(FRAME_LEN as nat, |i: int| 0u8)
}

/// Frame buffer and port registry, shared between the control surface and
/// the writer loop.
pub struct DmxSharedState {
    /// Path of the serial port the caller last requested, if any.
    pub port_path: Option<String>,
    /// Path of the port the transport currently has open, if any.
    pub open_port: Option<String>,
    /// The DMX frame: index 0 is the start code (always 0), indices
    /// 1..=512 are the channel levels.
    pub levels: Vec<u8>,
}

impl DmxSharedState {
    /// The frame is exactly 513 bytes and its start code is 0.
    pub open spec fn wf(self) -> bool {
        &&& self.levels@.len() == FRAME_LEN
        &&& self.levels@[0] == 0u8
    }

    /// Whether the port the writer must stream to differs from what is
    /// open, so the transport has to be (re)opened before transmitting.
    pub open spec fn spec_needs_reopen(self, port: Seq<char>) -> bool {
        match self.open_port {
            Some(p) => p@ != port,
            None => true,
        }
    }

    /// A fresh state: no port selected, nothing open, an all-zero frame.
    pub fn new() -> (r: DmxSharedState)
        ensures
            r.wf(),
            r.port_path.is_none(),
            r.open_port.is_none(),
            r.levels@ == zero_frame(),
    {
        let levels: Vec<u8> = vec![0u8; FRAME_LEN];
        proof {
            assert(levels@ =~= zero_frame());
        }
        DmxSharedState { port_path: None, open_port: None, levels }
    }

    /// Record the port the caller wants active.
    pub fn set_port(&mut self, port: String) -> (r: Result<(), DmxError>)
        ensures
            r.is_ok(),
            final(self).port_path == Some(port),
            final(self).open_port == old(self).open_port,
            final(self).levels == old(self).levels,
    {
        self.port_path = Some(port);
        Ok(())
    }

    /// Replace the whole frame: reject more than 512 levels, otherwise
    /// clear every channel to 0 and copy the supplied values in starting
    /// at channel 1. On rejection the previous frame is untouched.
    pub fn update_levels(&mut self, levels: &[u8]) -> (r: Result<(), DmxError>)
        requires
            old(self).wf(),
        ensures
            final(self).wf(),
            final(self).port_path == old(self).port_path,
            final(self).open_port == old(self).open_port,
            r.is_ok() <==> levels@.len() <= CHANNEL_COUNT,
            r.is_ok() ==> final(self).levels@ == frame_after_update(levels@),
            r.is_err() ==> r == Err::<(), DmxError>(DmxError::Validation)
                && *final(self) == *old(self),
    {
        if levels.len() > CHANNEL_COUNT {
            return Err(DmxError::Validation);
        }
        let mut buffer: Vec<u8> = vec![0u8; FRAME_LEN];
        let mut i: usize = 0;
        while i < levels.len()
            invariant
                i <= levels@.len(),
                levels@.len() <= CHANNEL_COUNT,
                buffer@.len() == FRAME_LEN,
                forall|j: int| 0 <= j < FRAME_LEN && !(1 <= j <= i) ==> buffer@[j] == 0u8,
                forall|j: int| 1 <= j <= i ==> buffer@[j] == levels@[j - 1],
            decreases levels@.len() - i,
        {
            buffer.set(i + 1, levels[i]);
            i += 1;
        }
        proof {
            assert(buffer@ =~= frame_after_update(levels@));
        }
        self.levels = buffer;
        Ok(())
    }

    /// An independent copy of the current 513-byte frame, for transmission.
    pub fn snapshot_levels(&self) -> (r: Vec<u8>)
        requires
            self.wf(),
        ensures
            r@ == self.levels@,
            r@.len() == FRAME_LEN,
    {
        let copy = self.levels.clone();
        proof {
            assert(copy@ =~= self.levels@);
        }
        copy
    }

    /// Forget the opened port, forcing a reopen on the writer's next cycle.
    pub fn clear_open_port(&mut self)
        ensures
            final(self).open_port.is_none(),
            final(self).port_path == old(self).port_path,
            final(self).levels == old(self).levels,
    {
        self.open_port = None;
    }

    /// Record that the transport now holds `port` open.
    pub fn mark_opened(&mut self, port: String)
        ensures
            final(self).open_port == Some(port),
            final(self).port_path == old(self).port_path,
            final(self).levels == old(self).levels,
    {
        self.open_port = Some(port);
    }

    /// True iff the opened port differs from `port`, including the case
    /// where nothing is open.
    pub fn needs_reopen(&self, port: &String) -> (r: bool)
        ensures
            r == self.spec_needs_reopen(port@),
    {
        match &self.open_port {
            Some(p) => !(*p == *port),
            None => true,
        }
    }
}

/// The frame a successful update leaves behind, spelled out byte by byte:
/// 513 bytes, the start code 0 first, then the supplied levels at channels
/// 1 through `levels.len()`, then zeros — nothing of the previous frame
/// survives.
pub proof fn lemma_frame_after_update(levels: Seq<u8>)
    requires
        levels.len() <= CHANNEL_COUNT,
    ensures
        frame_after_update(levels).len() == FRAME_LEN,
        frame_after_update(levels)[0] == 0u8,
        forall|i: int| 1 <= i <= levels.len()
            ==> frame_after_update(levels)[i] == levels[i - 1],
        forall|i: int| levels.len() < i < FRAME_LEN
            ==> frame_after_update(levels)[i] == 0u8,
{
}

/// Level submissions coalesce: the frame a successful update leaves is a
/// function of the submitted levels alone, so however many submissions
/// preceded it, only the latest one determines what the writer snapshots
/// and transmits.
pub proof fn lemma_latest_update_wins(a: DmxSharedState, b: DmxSharedState, levels: Seq<u8>)
    requires
        a.levels@ == frame_after_update(levels),
        b.levels@ == frame_after_update(levels),
    ensures
        a.levels@ == b.levels@,
{
}

/// Lifecycle of the reopen test: before any `mark_opened` a reopen is
/// always needed; immediately after `mark_opened(p)` none is needed for
/// `p` but one still is for any other port; after `clear_open_port` a
/// reopen is needed again for every port.
pub proof fn lemma_needs_reopen_lifecycle(
    fresh: DmxSharedState,
    marked: DmxSharedState,
    cleared: DmxSharedState,
    p: String,
    q: Seq<char>,
)
    requires
        fresh.open_port.is_none(),
        marked.open_port == Some(p),
        cleared.open_port.is_none(),
    ensures
        fresh.spec_needs_reopen(q),
        !marked.spec_needs_reopen(p@),
        q != p@ ==> marked.spec_needs_reopen(q),
        cleared.spec_needs_reopen(q),
{
}

} // verus!
