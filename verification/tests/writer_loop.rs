use dmx_core::control::{dmx_set_levels, WriterControl};
use dmx_core::errors::DmxError;
use dmx_core::state::DmxSharedState;
use dmx_core::writer::{
    dmx_open_params, plan_cycle, CyclePlan, BREAK_HOLD_US, CYCLE_INTERVAL_MS,
    MARK_AFTER_BREAK_US, OPEN_BACKOFF_MS,
};

/// A stand-in transport for tests: remembers what was written and can be
/// told to fail a number of write attempts first.
struct FakeTransport {
    open_should_fail: bool,
    write_failures_left: u32,
    written_frames: Vec<Vec<u8>>,
}

impl FakeTransport {
    fn new() -> FakeTransport {
        FakeTransport { open_should_fail: false, write_failures_left: 0, written_frames: Vec::new() }
    }

    fn open(&mut self) -> bool {
        !self.open_should_fail
    }

    fn write_bytes(&mut self, frame: &[u8]) -> bool {
        if self.write_failures_left > 0 {
            self.write_failures_left -= 1;
            false
        } else {
            self.written_frames.push(frame.to_vec());
            true
        }
    }
}

/// Run one writer cycle against the fake transport, as the host shell
/// does against the real one.
fn run_cycle(state: &mut DmxSharedState, transport: &mut FakeTransport, stop: bool) -> CyclePlan {
    let plan = plan_cycle(state, stop);
    match &plan {
        CyclePlan::Stop => {}
        CyclePlan::Idle => {}
        CyclePlan::Open(port) => {
            let opened = transport.open();
            let proceed = state.apply_open_result(port.clone(), opened);
            if proceed {
                let frame = state.snapshot_levels();
                state.apply_io_result(true); // break asserted
                state.apply_io_result(true); // break cleared
                let ok = transport.write_bytes(&frame);
                state.apply_io_result(ok);
            }
        }
        CyclePlan::Transmit(_) => {
            let frame = state.snapshot_levels();
            state.apply_io_result(true);
            state.apply_io_result(true);
            let ok = transport.write_bytes(&frame);
            state.apply_io_result(ok);
        }
    }
    plan
}

#[test]
fn plan_is_stop_when_stop_requested() {
    let state = DmxSharedState::new();
    assert!(matches!(plan_cycle(&state, true), CyclePlan::Stop));
}

#[test]
fn plan_is_idle_without_a_port() {
    let state = DmxSharedState::new();
    assert!(matches!(plan_cycle(&state, false), CyclePlan::Idle));
}

#[test]
fn plan_opens_then_transmits() {
    let mut state = DmxSharedState::new();
    assert!(state.set_port("COM7".to_string()).is_ok());
    match plan_cycle(&state, false) {
        CyclePlan::Open(port) => assert_eq!(port, "COM7"),
        _ => panic!("expected an open plan for a fresh port"),
    }
    state.mark_opened("COM7".to_string());
    match plan_cycle(&state, false) {
        CyclePlan::Transmit(port) => assert_eq!(port, "COM7"),
        _ => panic!("expected a transmit plan once the port is open"),
    }
}

#[test]
fn needs_reopen_lifecycle() {
    let mut state = DmxSharedState::new();
    let p = "COM3".to_string();
    let q = "COM4".to_string();
    assert!(state.needs_reopen(&p));
    state.mark_opened(p.clone());
    assert!(!state.needs_reopen(&p));
    assert!(state.needs_reopen(&q));
    state.mark_opened(q.clone());
    assert!(state.needs_reopen(&p));
    state.clear_open_port();
    assert!(state.needs_reopen(&p));
    assert!(state.needs_reopen(&q));
}

#[test]
fn failed_open_backs_off_and_clears() {
    let mut state = DmxSharedState::new();
    let proceed = state.apply_open_result("COM3".to_string(), false);
    assert!(!proceed);
    assert!(state.open_port.is_none());
}

#[test]
fn write_failure_forces_reopen_next_cycle() {
    let mut state = DmxSharedState::new();
    let mut transport = FakeTransport::new();
    transport.write_failures_left = 1;
    let levels: Vec<u8> = vec![1, 2, 3];
    assert!(dmx_set_levels(&mut state, "COM3".to_string(), &levels).is_ok());

    // first cycle: opens, then the write fails
    let plan = run_cycle(&mut state, &mut transport, false);
    assert!(matches!(plan, CyclePlan::Open(_)));
    assert!(state.needs_reopen(&"COM3".to_string()));
    assert!(transport.written_frames.is_empty());

    // next cycle: reopens and the write succeeds
    let plan = run_cycle(&mut state, &mut transport, false);
    assert!(matches!(plan, CyclePlan::Open(_)));
    assert!(!state.needs_reopen(&"COM3".to_string()));
    assert_eq!(transport.written_frames.len(), 1);
    assert_eq!(transport.written_frames[0][1], 1);

    // steady state: plain transmit
    let plan = run_cycle(&mut state, &mut transport, false);
    assert!(matches!(plan, CyclePlan::Transmit(_)));
    assert_eq!(transport.written_frames.len(), 2);
}

#[test]
fn invalid_submission_mutates_nothing() {
    let mut state = DmxSharedState::new();
    let good: Vec<u8> = vec![1, 2];
    assert!(dmx_set_levels(&mut state, "COM3".to_string(), &good).is_ok());
    let too_many: Vec<u8> = vec![7; 513];
    let r = dmx_set_levels(&mut state, "COM9".to_string(), &too_many);
    assert_eq!(r, Err(DmxError::Validation));
    assert_eq!(state.port_path.as_deref(), Some("COM3"), "the prior selection must stand");
    let snap = state.snapshot_levels();
    assert_eq!(snap[1], 1);
    assert_eq!(snap[2], 2);
    assert_eq!(snap[3], 0);
}

#[test]
fn rapid_updates_coalesce_to_latest_frame() {
    let mut state = DmxSharedState::new();
    let mut transport = FakeTransport::new();
    let first: Vec<u8> = vec![11, 12, 13];
    let second: Vec<u8> = vec![201, 202];
    assert!(dmx_set_levels(&mut state, "COM3".to_string(), &first).is_ok());
    assert!(dmx_set_levels(&mut state, "COM3".to_string(), &second).is_ok());

    run_cycle(&mut state, &mut transport, false);
    assert_eq!(transport.written_frames.len(), 1);
    let frame = &transport.written_frames[0];
    assert_eq!(frame[0], 0);
    assert_eq!(frame[1], 201);
    assert_eq!(frame[2], 202);
    assert_eq!(frame[3], 0, "a level of the earlier submission leaked through");
}

#[test]
fn stop_signal_ends_the_loop() {
    let mut state = DmxSharedState::new();
    let mut transport = FakeTransport::new();
    let levels: Vec<u8> = vec![1];
    assert!(dmx_set_levels(&mut state, "COM3".to_string(), &levels).is_ok());
    let plan = run_cycle(&mut state, &mut transport, true);
    assert!(matches!(plan, CyclePlan::Stop));
    assert!(transport.written_frames.is_empty());
}

#[test]
fn open_params_are_the_dmx_ones() {
    let p = dmx_open_params();
    assert_eq!(p.baud_rate, 250000);
    assert_eq!(p.data_bits, 8);
    assert_eq!(p.stop_bits, 2);
    assert!(p.parity_none);
    assert!(p.flow_control_none);
    assert_eq!(p.timeout_ms, 100);
}

#[test]
fn timing_constants_meet_the_protocol() {
    assert!(BREAK_HOLD_US >= 100);
    assert!(MARK_AFTER_BREAK_US >= 12);
    assert_eq!(CYCLE_INTERVAL_MS, 25);
    assert_eq!(OPEN_BACKOFF_MS, 500);
}

#[test]
fn writer_starts_exactly_once() {
    let mut control = WriterControl::new();
    assert!(control.acquire_start());
    assert!(!control.acquire_start());
    assert!(!control.acquire_start());
}
