//! The blocking engine.
//!
//! Every socket operation is a single idempotent attempt that either
//! finishes or asks to be retried. This module turns one attempt into
//! blocking, non-blocking or deadline-bounded semantics.
//!
//! The engine is written over an explicit sequence of observations: what the
//! task would see at each iteration of its retry loop — whether it has been
//! interrupted, what the wall clock reads, and what the attempt reported
//! after a polling pass advanced the protocol engine. The decision taken at
//! every iteration, and the run as a whole, are specified exactly; the
//! surrounding runtime supplies the observations by really polling, really
//! reading the clock and really yielding between iterations.
//!
//! Deadlines are enforced at scheduling-quantum granularity: the clock is
//! read once per iteration, so a timeout may overshoot by up to one yield
//! cycle. That slack is accepted by design.

use vstd::prelude::*;

use crate::err::{SysError, SysResult};
use crate::options::GeneralOptions;

verus! {

/// What one attempt of a socket operation reported.
#[derive(Debug, PartialEq, Eq, Structural)]
pub enum Attempt<T> {
    /// The attempt finished: a success, or a failure with its error.
    /// `Err(SysError::WouldBlock)` means nothing happened and no wake will
    /// occur — the transient-busy class, retried by polling again later.
    Ready(SysResult<T>),
    /// Nothing happened, but the attempt registered a wake condition that
    /// some other task's polling will satisfy.
    Suspend,
}

/// Everything one retry-loop iteration observes of the outside world.
#[derive(Debug, PartialEq, Eq, Structural)]
pub struct Observation<T> {
    /// Whether the calling task has been marked interrupted, read at the top
    /// of the iteration.
    pub interrupted: bool,
    /// The wall clock, in nanoseconds.
    pub now_nanos: u64,
    /// What the attempt reported; on a blocking socket a polling pass ran
    /// first, so queued progress was visible to it.
    pub attempt: Attempt<T>,
}

/// The decision one blocking-loop iteration takes.
#[derive(Debug, PartialEq, Eq, Structural)]
pub enum StepDecision<T> {
    /// Leave the loop with this result.
    Finish(SysResult<T>),
    /// Yield the scheduling quantum and try again.
    YieldRetry,
    /// Park the task until a wake, then try again.
    ParkRetry,
}

/// How a run of the blocking engine went.
#[derive(Debug, PartialEq, Eq, Structural)]
pub struct BlockOutcome<T> {
    /// The operation's result, or `None` when the observations ran out with
    /// the operation still in progress.
    pub result: Option<SysResult<T>>,
    /// How many scheduling quanta were yielded.
    pub yields: usize,
    /// How many times the task parked awaiting a wake.
    pub parks: usize,
}

/// An attempt of the transient-busy class: nothing happened and no wake will
/// occur.
pub open spec fn is_transient_busy<T>(a: Attempt<T>) -> bool {
    a == Attempt::<T>::Ready(Err(SysError::WouldBlock))
}

/// The absolute deadline of a run: the entry clock plus the timeout,
/// saturating, or `None` when the socket waits forever.
pub open spec fn spec_deadline(timeout_nanos: Option<u64>, start_nanos: u64) -> Option<u64> {
    match timeout_nanos {
        Some(t) => Some(
            if start_nanos + t > u64::MAX {
                u64::MAX
            } else {
                (start_nanos + t) as u64
            },
        ),
        None => None,
    }
}

/// The decision of one blocking-loop iteration.
///
/// Interruption is checked first and wins unconditionally. A finished
/// attempt propagates. Transient busy times the run out once the deadline
/// has passed, else yields. A suspended attempt yields when the device is
/// externally driven — some other progress maker may satisfy the condition —
/// and parks otherwise.
pub open spec fn spec_step<T>(
    deadline: Option<u64>,
    externally_driven: bool,
    obs: Observation<T>,
) -> StepDecision<T> {
    if obs.interrupted {
        StepDecision::Finish(Err(SysError::Interrupted))
    } else {
        match obs.attempt {
            Attempt::Ready(res) => if res == Err::<T, SysError>(SysError::WouldBlock) {
                match deadline {
                    Some(d) => if obs.now_nanos >= d {
                        StepDecision::Finish(Err(SysError::TimedOut))
                    } else {
                        StepDecision::YieldRetry
                    },
                    None => StepDecision::YieldRetry,
                }
            } else {
                StepDecision::Finish(res)
            },
            Attempt::Suspend => if externally_driven {
                StepDecision::YieldRetry
            } else {
                StepDecision::ParkRetry
            },
        }
    }
}

/// The whole blocking run over a sequence of observations: the result (or
/// `None` when the observations end first), the yields taken and the parks
/// taken.
pub open spec fn spec_block_run<T>(
    deadline: Option<u64>,
    externally_driven: bool,
    obs: Seq<Observation<T>>,
) -> (Option<SysResult<T>>, nat, nat)
    decreases obs.len(),
{
    if obs.len() == 0 {
        (None, 0nat, 0nat)
    } else {
        match spec_step(deadline, externally_driven, obs[0]) {
            StepDecision::Finish(r) => (Some(r), 0nat, 0nat),
            StepDecision::YieldRetry => {
                let rest = spec_block_run(deadline, externally_driven, obs.skip(1));
                (rest.0, rest.1 + 1, rest.2)
            },
            StepDecision::ParkRetry => {
                let rest = spec_block_run(deadline, externally_driven, obs.skip(1));
                (rest.0, rest.1, rest.2 + 1)
            },
        }
    }
}

/// The result a single non-blocking attempt surfaces: a finished attempt
/// propagates as is; transient busy and suspend both surface as
/// `WouldBlock` immediately, with no retry.
pub open spec fn spec_nonblocking_result<T>(a: Attempt<T>) -> SysResult<T> {
    match a {
        Attempt::Ready(res) => res,
        Attempt::Suspend => Err(SysError::WouldBlock),
    }
}

impl<T> Observation<T> {
    /// Decides one blocking-loop iteration; see [`spec_step`].
    pub fn step(self, deadline: Option<u64>, externally_driven: bool) -> (r: StepDecision<T>)
        ensures
            r == spec_step(deadline, externally_driven, self),
    {
        if self.interrupted {
            return StepDecision::Finish(Err(SysError::Interrupted));
        }
        match self.attempt {
            Attempt::Ready(res) => {
                match res {
                    Err(SysError::WouldBlock) => {
                        match deadline {
                            Some(d) => if self.now_nanos >= d {
                                StepDecision::Finish(Err(SysError::TimedOut))
                            } else {
                                StepDecision::YieldRetry
                            },
                            None => StepDecision::YieldRetry,
                        }
                    },
                    _ => StepDecision::Finish(res),
                }
            },
            Attempt::Suspend => if externally_driven {
                StepDecision::YieldRetry
            } else {
                StepDecision::ParkRetry
            },
        }
    }
}

impl GeneralOptions {
    /// Runs one socket operation under this socket's options.
    ///
    /// On a non-blocking socket the attempt is invoked exactly once, without
    /// a polling pass or an interrupt check: a finished attempt propagates
    /// as is, and both retry classes surface as `WouldBlock` — no quanta are
    /// yielded. On a blocking socket the deadline is `start_nanos` plus
    /// `timeout_nanos` when a timeout is configured, and the run follows
    /// [`spec_block_run`] over the given observations.
    pub fn block_on<T>(
        &self,
        timeout_nanos: Option<u64>,
        start_nanos: u64,
        observations: Vec<Observation<T>>,
    ) -> (r: BlockOutcome<T>)
        ensures
            self.nonblock ==> r.yields == 0 && r.parks == 0 && r.result == (if observations@.len()
                > 0 {
                Some(spec_nonblocking_result(observations@[0].attempt))
            } else {
                None::<SysResult<T>>
            }),
            !self.nonblock ==> (r.result, r.yields as nat, r.parks as nat) == spec_block_run(
                spec_deadline(timeout_nanos, start_nanos),
                self.externally_driven,
                observations@,
            ),
    {
        let mut rest = observations;
        if self.nonblocking() {
            if rest.len() == 0 {
                return BlockOutcome { result: None, yields: 0, parks: 0 };
            }
            let first = rest.remove(0);
            let result = match first.attempt {
                Attempt::Ready(res) => res,
                Attempt::Suspend => Err(SysError::WouldBlock),
            };
            return BlockOutcome { result: Some(result), yields: 0, parks: 0 };
        }
        let deadline: Option<u64> = match timeout_nanos {
            Some(t) => Some(
                if start_nanos > u64::MAX - t {
                    u64::MAX
                } else {
                    start_nanos + t
                },
            ),
            None => None,
        };
        assert(deadline == spec_deadline(timeout_nanos, start_nanos));
        let externally_driven = self.externally_driven;
        let total = rest.len();
        let ghost whole = rest@;
        assert(whole.len() == total <= usize::MAX);
        let mut yields: usize = 0;
        let mut parks: usize = 0;
        while rest.len() > 0
            invariant
                !self.nonblock,
                deadline == spec_deadline(timeout_nanos, start_nanos),
                externally_driven == self.externally_driven,
                whole == observations@,
                whole.len() <= usize::MAX,
                yields + parks + rest@.len() <= whole.len(),
                spec_block_run(deadline, externally_driven, whole).0 == spec_block_run(
                    deadline,
                    externally_driven,
                    rest@,
                ).0,
                spec_block_run(deadline, externally_driven, whole).1 == yields + spec_block_run(
                    deadline,
                    externally_driven,
                    rest@,
                ).1,
                spec_block_run(deadline, externally_driven, whole).2 == parks + spec_block_run(
                    deadline,
                    externally_driven,
                    rest@,
                ).2,
            decreases rest@.len(),
        {
            let ghost before = rest@;
            let obs = rest.remove(0);
            proof {
                assert(before.remove(0) =~= before.skip(1));
                assert(obs == before[0]);
            }
            match obs.step(deadline, externally_driven) {
                StepDecision::Finish(r) => {
                    return BlockOutcome { result: Some(r), yields, parks };
                },
                StepDecision::YieldRetry => {
                    yields = yields + 1;
                },
                StepDecision::ParkRetry => {
                    parks = parks + 1;
                },
            }
        }
        BlockOutcome { result: None, yields, parks }
    }
}

/// Interruption preempts everything: when the task has been marked
/// interrupted, the very next loop iteration finishes with `Interrupted`,
/// whatever the attempt would have reported and whatever follows in the
/// trace — even a result that was about to be ready.
pub proof fn lemma_interrupt_preempts<T>(
    deadline: Option<u64>,
    externally_driven: bool,
    obs: Seq<Observation<T>>,
)
    requires
        obs.len() > 0,
        obs[0].interrupted,
    ensures
        spec_block_run(deadline, externally_driven, obs) == (
            Some(Err::<T, SysError>(SysError::Interrupted)),
            0nat,
            0nat,
        ),
{
}

/// A timeout never fires early: when a blocking run with deadline `d`
/// finishes with `TimedOut`, the iteration that decided so really saw the
/// clock at or past `d`.
///
/// The hypothesis that no attempt reports `TimedOut` itself holds of every
/// run: that error belongs to this layer, the protocol engine never raises
/// it.
pub proof fn lemma_timeout_not_early<T>(d: u64, externally_driven: bool, obs: Seq<Observation<T>>)
    requires
        forall|i: int|
            0 <= i < obs.len() ==> (#[trigger] obs[i]).attempt != Attempt::<T>::Ready(
                Err(SysError::TimedOut),
            ),
        spec_block_run(Some(d), externally_driven, obs).0 == Some(
            Err::<T, SysError>(SysError::TimedOut),
        ),
    ensures
        exists|i: int|
            0 <= i < obs.len() && (#[trigger] obs[i]).now_nanos >= d && !obs[i].interrupted,
    decreases obs.len(),
{
    let step = spec_step(Some(d), externally_driven, obs[0]);
    if step == StepDecision::<T>::Finish(Err::<T, SysError>(SysError::TimedOut)) {
        assert(obs[0].now_nanos >= d && !obs[0].interrupted);
    } else {
        assert forall|i: int| 0 <= i < obs.skip(1).len() implies (#[trigger] obs.skip(
            1,
        )[i]).attempt != Attempt::<T>::Ready(Err(SysError::TimedOut)) by {
            assert(obs.skip(1)[i] == obs[i + 1]);
        }
        lemma_timeout_not_early(d, externally_driven, obs.skip(1));
        let i = choose|i: int|
            0 <= i < obs.skip(1).len() && (#[trigger] obs.skip(1)[i]).now_nanos >= d && !obs.skip(
                1,
            )[i].interrupted;
        assert(obs[i + 1].now_nanos >= d && !obs[i + 1].interrupted);
    }
}

/// A timeout fires promptly: on a run where no data ever arrives (every
/// attempt reports transient busy) and the task is never interrupted, the
/// run finishes with `TimedOut` at the first iteration whose clock has
/// reached the deadline — the overshoot is bounded by the quantum between
/// two clock reads, and exactly the iterations strictly before the deadline
/// yield.
pub proof fn lemma_timeout_prompt<T>(
    d: u64,
    externally_driven: bool,
    obs: Seq<Observation<T>>,
    k: int,
)
    requires
        forall|i: int| 0 <= i < obs.len() ==> is_transient_busy((#[trigger] obs[i]).attempt),
        forall|i: int| 0 <= i < obs.len() ==> !(#[trigger] obs[i]).interrupted,
        0 <= k < obs.len(),
        obs[k].now_nanos >= d,
        forall|i: int| 0 <= i < k ==> (#[trigger] obs[i]).now_nanos < d,
    ensures
        spec_block_run(Some(d), externally_driven, obs) == (
            Some(Err::<T, SysError>(SysError::TimedOut)),
            k as nat,
            0nat,
        ),
    decreases obs.len(),
{
    if k == 0 {
    } else {
        assert(spec_step(Some(d), externally_driven, obs[0]) == StepDecision::<T>::YieldRetry);
        assert forall|i: int| 0 <= i < obs.skip(1).len() implies is_transient_busy(
            (#[trigger] obs.skip(1)[i]).attempt,
        ) && !obs.skip(1)[i].interrupted by {
            assert(obs.skip(1)[i] == obs[i + 1]);
        }
        assert forall|i: int| 0 <= i < k - 1 implies (#[trigger] obs.skip(1)[i]).now_nanos < d by {
            assert(obs.skip(1)[i] == obs[i + 1]);
        }
        assert(obs.skip(1)[k - 1] == obs[k]);
        lemma_timeout_prompt(d, externally_driven, obs.skip(1), k - 1);
    }
}

} // verus!
