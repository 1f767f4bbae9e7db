//! The generic repeat-until-ready polling engine: a pluggable wait/abort
//! strategy, the single decision step of the loop, and a driver over a
//! pre-recorded sequence of fetch outcomes.

use vstd::prelude::*;

use crate::client::{spec_is_ready, JobStatus};
use crate::errors::ApiError;

verus! {

/// Decides, from the 1-based iteration number and the state just observed,
/// whether polling should go on. `Some(wait)` means wait that many
/// milliseconds and check again; `None` means stop now, in which case the
/// poll ends successfully with the last observed state.
pub trait PollingStrategy<T> {
    /// What `next_wait` returns.
    spec fn next_wait_spec(&self, iteration_number: usize, state: T) -> Option<u64>;

    /// Decide whether to keep polling, and how long to wait first.
    fn next_wait(&self, iteration_number: usize, state: &T) -> (r: Option<u64>)
        ensures
            r == self.next_wait_spec(iteration_number, *state),
    ;
}

/// A strategy that always waits the same number of milliseconds and never
/// stops on its own.
pub struct FixedInterval(pub u64);

impl<T> PollingStrategy<T> for FixedInterval {
    open spec fn next_wait_spec(&self, iteration_number: usize, state: T) -> Option<u64> {
        Some(self.0)
    }

    fn next_wait(&self, iteration_number: usize, state: &T) -> (r: Option<u64>) {
        Some(self.0)
    }
}

/// A strategy that waits a fixed number of milliseconds but stops once the
/// iteration number reaches a bound.
pub struct BoundedAttempts {
    pub max_iterations: usize,
    pub wait_millis: u64,
}

impl<T> PollingStrategy<T> for BoundedAttempts {
    open spec fn next_wait_spec(&self, iteration_number: usize, state: T) -> Option<u64> {
        if iteration_number < self.max_iterations {
            Some(self.wait_millis)
        } else {
            None
        }
    }

    fn next_wait(&self, iteration_number: usize, state: &T) -> (r: Option<u64>) {
        if iteration_number < self.max_iterations {
            Some(self.wait_millis)
        } else {
            None
        }
    }
}

/// One decision of the polling loop after a successful status fetch: stop
/// and return the status just observed, or wait that many milliseconds and
/// fetch again.
#[derive(Copy, Clone, Debug, PartialEq, Eq, Structural)]
pub enum PollStep {
    Stop,
    Sleep(u64),
}

/// The decision the polling loop takes on a fetched status: stop on a ready
/// status, otherwise do what the strategy says.
pub open spec fn spec_poll_step<S: PollingStrategy<JobStatus>>(
    strategy: S,
    iteration_number: usize,
    status: JobStatus,
) -> PollStep {
    if spec_is_ready(status) {
        PollStep::Stop
    } else {
        match strategy.next_wait_spec(iteration_number, status) {
            Some(wait) => PollStep::Sleep(wait),
            None => PollStep::Stop,
        }
    }
}

/// The single decision point of the polling loop. A ready status (and only
/// `Completed` or `Failed` is ready — `Cancelled` is not) stops the poll;
/// otherwise the strategy decides whether to sleep and go on or stop with
/// the status seen.
pub fn poll_step<S: PollingStrategy<JobStatus>>(
    strategy: &S,
    iteration_number: usize,
    status: &JobStatus,
) -> (r: PollStep)
    ensures
        r == spec_poll_step(*strategy, iteration_number, *status),
{
    if status.is_ready() {
        PollStep::Stop
    } else {
        match strategy.next_wait(iteration_number, status) {
            Some(wait) => PollStep::Sleep(wait),
            None => PollStep::Stop,
        }
    }
}

/// What the polling loop does on a given sequence of fetch outcomes,
/// starting at the given iteration number: the poll's result and how many
/// fetches it makes; `None` when the sequence runs out before the loop
/// decides. A failed fetch ends the poll at once with that error; a ready
/// status ends it with that status; a strategy abort ends it with the last
/// observed, non-ready status, which is not an error.
pub open spec fn spec_poll<S: PollingStrategy<JobStatus>>(
    strategy: S,
    fetches: Seq<Result<JobStatus, ApiError>>,
    iteration_number: usize,
) -> Option<(Result<JobStatus, ApiError>, int)>
    decreases fetches.len(),
{
    if fetches.len() == 0 {
        None
    } else {
        match fetches[0] {
            Err(e) => Some((Err(e), 1)),
            Ok(status) => {
                if spec_is_ready(status) {
                    Some((Ok(status), 1))
                } else {
                    match strategy.next_wait_spec(iteration_number, status) {
                        None => Some((Ok(status), 1)),
                        Some(wait) => match spec_poll(
                            strategy,
                            fetches.drop_first(),
                            (iteration_number + 1) as usize,
                        ) {
                            None => None,
                            Some((res, count)) => Some((res, count + 1)),
                        },
                    }
                }
            },
        }
    }
}

/// Shift the fetch count of a poll outcome.
pub open spec fn spec_shift_count(
    r: Option<(Result<JobStatus, ApiError>, int)>,
    offset: int,
) -> Option<(Result<JobStatus, ApiError>, int)> {
    match r {
        None => None,
        Some((res, count)) => Some((res, count + offset)),
    }
}

/// Run the polling loop over a pre-recorded sequence of fetch outcomes,
/// with no waiting. Returns the poll's result together with the number of
/// fetches performed, or `None` when the sequence is exhausted before the
/// loop decides. This is the loop of `spec_poll`, step for step; the live
/// loop in an application differs only in performing the fetch and the
/// sleep itself.
#[verifier::loop_isolation(false)]
pub fn poll_scripted<S: PollingStrategy<JobStatus>>(
    strategy: &S,
    fetches: Vec<Result<JobStatus, ApiError>>,
) -> (r: Option<(Result<JobStatus, ApiError>, usize)>)
    ensures
        ({
            let sp = spec_poll(*strategy, fetches@, 1);
            &&& r is Some <==> sp is Some
            &&& (r matches Some((res, count)) ==> sp == Some((res, count as int)))
        }),
{
    let ghost script = fetches@;
    let mut rest = fetches;
    let total = rest.len();
    let mut i: usize = 0;
    proof {
        assert(script.skip(0) =~= script);
    }
    loop
        invariant
            total == script.len(),
            rest@ == script.skip(i as int),
            0 <= i <= script.len(),
            spec_poll(*strategy, script, 1) == spec_shift_count(
                spec_poll(*strategy, script.skip(i as int), (i + 1) as usize),
                i as int,
            ),
        decreases script.len() - i,
    {
        if rest.len() == 0 {
            return None;
        }
        let entry = rest.remove(0);
        proof {
            assert(entry == script.skip(i as int)[0]);
            assert(rest@ =~= script.skip(i + 1));
        }
        match entry {
            Result::Err(e) => {
                return Some((Err(e), i + 1));
            },
            Result::Ok(status) => {
                if status.is_ready() {
                    return Some((Ok(status), i + 1));
                }
                match strategy.next_wait(i + 1, &status) {
                    None => {
                        return Some((Ok(status), i + 1));
                    },
                    Some(_wait) => {
                        i += 1;
                    },
                }
            },
        }
    }
}

} // verus!
