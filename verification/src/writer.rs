//! Per-cycle decisions of the writer loop.
//!
//! The writer loop is one long-lived task that retransmits the current
//! frame at the DMX cadence. Each cycle it consults these functions: what
//! to do this cycle ([`plan_cycle`]), how to react to the outcome of an
//! open attempt ([`DmxSharedState::apply_open_result`]) and of each I/O
//! step ([`DmxSharedState::apply_io_result`]). The host shell performs the
//! sleeps and the serial I/O and feeds every outcome back in, so a
//! transmission fault never escapes the loop: it only clears the opened
//! port and the next cycle reopens.

use vstd::prelude::*;
use crate::state::DmxSharedState;

verus! {

/// Milliseconds between two writer cycles.
pub const CYCLE_INTERVAL_MS: u64 = 25;

/// Milliseconds to back off after a failed open attempt.
pub const OPEN_BACKOFF_MS: u64 = 500;

/// Microseconds the line break is held; the protocol demands at least 100.
pub const BREAK_HOLD_US: u64 = 110;

/// Microseconds of mark-after-break; the protocol demands at least 12.
pub const MARK_AFTER_BREAK_US: u64 = 12;

/// Fixed serial parameters a DMX port is opened with.
pub struct OpenParams {
    pub baud_rate: u32,
    pub data_bits: u8,
    pub stop_bits: u8,
    pub parity_none: bool,
    pub flow_control_none: bool,
    pub timeout_ms: u64,
}

/// The parameters DMX512 mandates: 250 kbit/s, 8 data bits, 2 stop bits,
/// no parity, no flow control, a 100 ms transport timeout.
pub fn dmx_open_params() -> (r: OpenParams)
    ensures
        r.baud_rate == 250000u32,
        r.data_bits == 8u8,
        r.stop_bits == 2u8,
        r.parity_none,
        r.flow_control_none,
        r.timeout_ms == 100u64,
{
    OpenParams {
        baud_rate: 250000,
        data_bits: 8,
        stop_bits: 2,
        parity_none: true,
        flow_control_none: true,
        timeout_ms: 100,
    }
}

/// What the writer does in one cycle.
pub enum CyclePlan {
    /// A stop signal arrived: leave the loop.
    Stop,
    /// No port has been selected yet: sleep one interval and re-poll.
    Idle,
    /// The named port is not the one open: attempt to open it.
    Open(String),
    /// The open port matches the target: transmit the current frame.
    Transmit(String),
}

impl CyclePlan {
    /// The port this plan acts on, if it acts on one.
    pub open spec fn port(self) -> Option<Seq<char>> {
        match self {
            CyclePlan::Stop => None,
            CyclePlan::Idle => None,
            CyclePlan::Open(p) => Some(p@),
            CyclePlan::Transmit(p) => Some(p@),
        }
    }
}

/// Decide one writer cycle from the stop flag and the registry: stop wins;
/// with no desired port the loop idles; a desired port that is not open is
/// opened first; otherwise the frame is transmitted to it.
pub fn plan_cycle(state: &DmxSharedState, stop_requested: bool) -> (r: CyclePlan)
    ensures
        r is Stop <==> stop_requested,
        r is Idle <==> !stop_requested && state.port_path.is_none(),
        r is Open <==> !stop_requested && state.port_path.is_some()
            && state.spec_needs_reopen(state.port_path->0@),
        r is Transmit <==> !stop_requested && state.port_path.is_some()
            && !state.spec_needs_reopen(state.port_path->0@),
        r.port().is_some() ==> r.port() == Some(state.port_path->0@),
{
    if stop_requested {
        return CyclePlan::Stop;
    }
    match &state.port_path {
        None => CyclePlan::Idle,
        Some(port) => {
            let target = port.clone();
            if state.needs_reopen(&target) {
                CyclePlan::Open(target)
            } else {
                CyclePlan::Transmit(target)
            }
        },
    }
}

impl DmxSharedState {
    /// React to the outcome of an open attempt: on success record the port
    /// as opened and proceed to transmit this cycle; on failure forget any
    /// opened port and back off before the next cycle.
    pub fn apply_open_result(&mut self, port: String, opened: bool) -> (proceed: bool)
        ensures
            proceed == opened,
            final(self).port_path == old(self).port_path,
            final(self).levels == old(self).levels,
            opened ==> final(self).open_port == Some(port),
            !opened ==> final(self).open_port.is_none(),
            opened ==> !final(self).spec_needs_reopen(port@),
    {
        if opened {
            self.mark_opened(port);
            true
        } else {
            self.clear_open_port();
            false
        }
    }

    /// After a failed I/O step the registry holds no opened port, so as
    /// long as a port stays selected the next cycle's plan is to reopen
    /// it before anything is transmitted.
    pub proof fn lemma_fault_forces_reopen(self)
        requires
            self.open_port.is_none(),
            self.port_path.is_some(),
        ensures
            self.spec_needs_reopen(self.port_path->0@),
    {
    }

    /// React to the outcome of one transmission I/O step (set break, clear
    /// break, or the frame write): a failure forgets the opened port, so
    /// the next cycle reopens; a success leaves the registry untouched.
    pub fn apply_io_result(&mut self, ok: bool)
        ensures
            final(self).port_path == old(self).port_path,
            final(self).levels == old(self).levels,
            ok ==> final(self).open_port == old(self).open_port,
            !ok ==> final(self).open_port.is_none(),
            !ok ==> forall|p: Seq<char>| final(self).spec_needs_reopen(p),
    {
        if !ok {
            self.clear_open_port();
        }
    }
}

} // verus!
