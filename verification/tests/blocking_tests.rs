use axnet::blocking::{Attempt, BlockOutcome, Observation, StepDecision};
use axnet::err::SysError;
use axnet::options::GeneralOptions;

fn obs(interrupted: bool, now_nanos: u64, attempt: Attempt<u32>) -> Observation<u32> {
    Observation { interrupted, now_nanos, attempt }
}

fn busy() -> Attempt<u32> {
    Attempt::Ready(Err(SysError::WouldBlock))
}

#[test]
fn nonblocking_single_attempt_no_yields() {
    let mut opts = GeneralOptions::new();
    opts.nonblock = true;

    // nothing ready: WouldBlock comes back from the one and only attempt
    let r: BlockOutcome<u32> = opts.block_on(None, 0, vec![obs(false, 0, busy())]);
    assert_eq!(r.result, Some(Err(SysError::WouldBlock)));
    assert_eq!(r.yields, 0);
    assert_eq!(r.parks, 0);

    // a suspended attempt surfaces as WouldBlock just the same
    let r: BlockOutcome<u32> = opts.block_on(None, 0, vec![obs(false, 0, Attempt::Suspend)]);
    assert_eq!(r.result, Some(Err(SysError::WouldBlock)));
    assert_eq!(r.yields, 0);

    // a ready attempt propagates as is
    let r: BlockOutcome<u32> = opts.block_on(None, 0, vec![obs(false, 0, Attempt::Ready(Ok(7)))]);
    assert_eq!(r.result, Some(Ok(7)));
    assert_eq!(r.yields, 0);
}

#[test]
fn blocking_retries_until_ready() {
    let opts = GeneralOptions::new();
    let trace = vec![
        obs(false, 0, busy()),
        obs(false, 1_000_000, busy()),
        obs(false, 2_000_000, Attempt::Ready(Ok(42))),
    ];
    let r = opts.block_on(None, 0, trace);
    assert_eq!(r.result, Some(Ok(42)));
    assert_eq!(r.yields, 2);
    assert_eq!(r.parks, 0);
}

#[test]
fn timeout_fires_at_first_late_attempt() {
    let opts = GeneralOptions::new();
    // a 100ms receive timeout, the clock read once per quantum, no data ever
    let timeout = Some(100_000_000u64);
    let mut trace = Vec::new();
    for i in 0..10u64 {
        trace.push(obs(false, i * 10_000_000, busy()));
    }
    // first reading at or past the deadline
    trace.push(obs(false, 100_000_000, busy()));
    trace.push(obs(false, 110_000_000, Attempt::Ready(Ok(1))));

    let r = opts.block_on(timeout, 0, trace);
    assert_eq!(r.result, Some(Err(SysError::TimedOut)));
    // every attempt strictly before the deadline yielded; none after
    assert_eq!(r.yields, 10);
    assert_eq!(r.parks, 0);
}

#[test]
fn timeout_never_fires_early() {
    let opts = GeneralOptions::new();
    let timeout = Some(100_000_000u64);
    // all readings strictly before the deadline: the run keeps yielding and
    // the observations run out without a result
    let trace: Vec<Observation<u32>> =
        (0..10u64).map(|i| obs(false, i * 10_000_000, busy())).collect();
    let r = opts.block_on(timeout, 0, trace);
    assert_eq!(r.result, None);
    assert_eq!(r.yields, 10);
}

#[test]
fn interrupt_wins_over_ready_data() {
    let opts = GeneralOptions::new();
    // the flag is observed first: data that would be ready in the same
    // iteration is not delivered
    let trace = vec![obs(true, 0, Attempt::Ready(Ok(5)))];
    let r = opts.block_on(None, 0, trace);
    assert_eq!(r.result, Some(Err(SysError::Interrupted)));
    assert_eq!(r.yields, 0);
    assert_eq!(r.parks, 0);

    // and one iteration later: the interrupt still preempts the next value
    let trace = vec![obs(false, 0, busy()), obs(true, 1, Attempt::Ready(Ok(5)))];
    let r = opts.block_on(None, 0, trace);
    assert_eq!(r.result, Some(Err(SysError::Interrupted)));
    assert_eq!(r.yields, 1);
}

#[test]
fn suspend_parks_unless_externally_driven() {
    // not externally driven: the only way forward is a wake, so the task parks
    let opts = GeneralOptions::new();
    let trace = vec![
        obs(false, 0, Attempt::Suspend),
        obs(false, 1, Attempt::Ready(Ok(3))),
    ];
    let r = opts.block_on(None, 0, trace);
    assert_eq!(r.result, Some(Ok(3)));
    assert_eq!(r.parks, 1);
    assert_eq!(r.yields, 0);

    // externally driven: some other progress maker may satisfy the wake, so
    // the task busy-yields instead
    let mut opts = GeneralOptions::new();
    opts.externally_driven = true;
    let trace = vec![
        obs(false, 0, Attempt::Suspend),
        obs(false, 1, Attempt::Ready(Ok(3))),
    ];
    let r = opts.block_on(None, 0, trace);
    assert_eq!(r.result, Some(Ok(3)));
    assert_eq!(r.parks, 0);
    assert_eq!(r.yields, 1);
}

#[test]
fn engine_failures_propagate_verbatim() {
    let opts = GeneralOptions::new();
    let trace = vec![
        obs(false, 0, busy()),
        obs(false, 1, Attempt::Ready(Err(SysError::Protocol(104)))),
    ];
    let r = opts.block_on(None, 0, trace);
    assert_eq!(r.result, Some(Err(SysError::Protocol(104))));
}

#[test]
fn step_decisions_match_design() {
    // interrupted beats everything
    let d = obs(true, 0, Attempt::Ready(Ok(1))).step(Some(10), true);
    assert_eq!(d, StepDecision::Finish(Err(SysError::Interrupted)));

    // transient busy before the deadline yields
    let d = obs(false, 5, busy()).step(Some(10), false);
    assert_eq!(d, StepDecision::YieldRetry);

    // transient busy at the deadline times out
    let d = obs(false, 10, busy()).step(Some(10), false);
    assert_eq!(d, StepDecision::Finish(Err(SysError::TimedOut)));

    // without a deadline, transient busy yields forever
    let d = obs(false, u64::MAX, busy()).step(None, false);
    assert_eq!(d, StepDecision::YieldRetry);

    // suspend parks, unless the device is externally driven
    let d = obs(false, 0, Attempt::Suspend).step(None, false);
    assert_eq!(d, StepDecision::ParkRetry);
    let d = obs(false, 0, Attempt::Suspend).step(None, true);
    assert_eq!(d, StepDecision::YieldRetry);
}
