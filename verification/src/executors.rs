//! The decisions of the constant arrival rate executor: when to start the
//! next iteration, when to report timing, and when the run is over.
use vstd::prelude::*;

use crate::config::ConstantArrivalRateConfig;
use crate::services::InfoMessage;
use crate::time::{max_duration_nanos, Duration};

verus! {

/// How often the timing of a running scenario is reported, in nanoseconds.
pub open spec fn update_interval_nanos() -> nat {
    500_000_000
}

/// The pacing state of a constant arrival rate run: iterations start every
/// `sleep_duration`, the next one at `next_run_time` after the start.
#[derive(Debug)]
pub struct ArrivalSchedule {
    pub duration: Duration,
    pub graceful_duration: Duration,
    pub sleep_duration: Duration,
    pub next_run_time: Duration,
}

/// What to do once an iteration has been started and paced.
#[derive(Debug)]
pub enum RunDecision {
    /// The run phase is over.
    Stop,
    /// Start another iteration, after sending the update if there is one.
    Continue(Option<InfoMessage>),
}

/// What to do while waiting for running iterations to end.
#[derive(Debug)]
pub enum DrainDecision {
    /// Every iteration has ended or the grace period is over.
    Finish,
    /// Send the update and look again a little later.
    Wait(InfoMessage),
}

impl ArrivalSchedule {
    /// The schedule of a run of `config` that starts an iteration every
    /// `sleep_duration`, begun `start` after the run's clock started.
    pub fn new(config: &ConstantArrivalRateConfig, sleep_duration: Duration, start: Duration) -> (s: ArrivalSchedule)
        requires
            config.duration@ + config.graceful_shutdown_timeout@ <= max_duration_nanos(),
            start@ + sleep_duration@ <= max_duration_nanos(),
        ensures
            s.duration == config.duration,
            s.graceful_duration@ == config.duration@ + config.graceful_shutdown_timeout@,
            s.sleep_duration == sleep_duration,
            s.next_run_time@ == start@ + sleep_duration@,
    {
        let graceful_duration = config.duration.checked_add(&config.graceful_shutdown_timeout).unwrap();
        let next_run_time = start.checked_add(&sleep_duration).unwrap();
        ArrivalSchedule { duration: config.duration, graceful_duration, sleep_duration, next_run_time }
    }

    /// After an iteration was started at `elapsed`: how long to wait before
    /// the next one, if its time has not come yet. The next start is then
    /// planned one `sleep_duration` later.
    pub fn pace(&mut self, elapsed: Duration) -> (wait: Option<Duration>)
        requires
            old(self).next_run_time@ + old(self).sleep_duration@ <= max_duration_nanos(),
        ensures
            final(self).next_run_time@ == old(self).next_run_time@ + old(self).sleep_duration@,
            final(self).duration == old(self).duration,
            final(self).graceful_duration == old(self).graceful_duration,
            final(self).sleep_duration == old(self).sleep_duration,
            elapsed@ < old(self).next_run_time@ ==> (wait matches Some(w) && w@ == old(self).next_run_time@ - elapsed@),
            old(self).next_run_time@ <= elapsed@ ==> wait is None,
    {
        let wait = if elapsed.lt(&self.next_run_time) {
            self.next_run_time.checked_sub(&elapsed)
        } else {
            None
        };
        self.next_run_time = self.next_run_time.checked_add(&self.sleep_duration).unwrap();
        wait
    }

    /// After pacing, `elapsed` into the run and `since_last_update` after the
    /// last timing report: stop once the run has lasted longer than its
    /// duration; otherwise go on, reporting the time elapsed and left when
    /// the last report is older than the update interval.
    pub fn after_iteration(&self, elapsed: Duration, since_last_update: Duration) -> (d: RunDecision)
        ensures
            elapsed@ > self.duration@ ==> d is Stop,
            elapsed@ <= self.duration@ && since_last_update@ > update_interval_nanos() ==> (d matches RunDecision::Continue(Some(InfoMessage::TimingUpdate((e, l))))
                && e == elapsed && l@ == self.duration@ - elapsed@),
            elapsed@ <= self.duration@ && since_last_update@ <= update_interval_nanos() ==> (d matches RunDecision::Continue(None)),
    {
        if self.duration.lt(&elapsed) {
            RunDecision::Stop
        } else if Duration::from_millis(500).lt(&since_last_update) {
            let left = self.duration.saturating_sub(&elapsed);
            RunDecision::Continue(Some(InfoMessage::TimingUpdate((elapsed, left))))
        } else {
            RunDecision::Continue(None)
        }
    }

    /// While iterations may still be running, `elapsed` into the run with
    /// `active_count` instances checked out: finish once none is checked out
    /// or the grace period is over, otherwise report that no time is left.
    pub fn drain(&self, elapsed: Duration, active_count: usize) -> (d: DrainDecision)
        ensures
            (elapsed@ > self.graceful_duration@ || active_count == 0) ==> d is Finish,
            !(elapsed@ > self.graceful_duration@ || active_count == 0) ==> (d matches DrainDecision::Wait(InfoMessage::TimingUpdate((e, l)))
                && e == elapsed && l@ == 0),
    {
        if self.graceful_duration.lt(&elapsed) || active_count == 0 {
            DrainDecision::Finish
        } else {
            DrainDecision::Wait(InfoMessage::TimingUpdate((elapsed, Duration::zero())))
        }
    }
}

/// Iterations are started at a constant rate: when each call of `pace`
/// moves the planned start by one interval, as its contract says, the start
/// planned after `n` calls lies `n` intervals after the first one.
pub proof fn lemma_pace_is_constant(planned: Seq<nat>, interval: nat)
    requires
        planned.len() >= 1,
        forall|i: int| 0 <= i < planned.len() - 1 ==> #[trigger] planned[i + 1] == planned[i] + interval,
    ensures
        forall|n: int| 0 <= n < planned.len() ==> #[trigger] planned[n] == planned[0] + n * interval,
    decreases planned.len(),
{
    if planned.len() > 1 {
        let shorter = planned.drop_last();
        assert forall|i: int| 0 <= i < shorter.len() - 1 implies #[trigger] shorter[i + 1] == shorter[i] + interval by {
            assert(planned[i + 1] == planned[i] + interval);
        }
        lemma_pace_is_constant(shorter, interval);
        assert forall|n: int| 0 <= n < planned.len() implies #[trigger] planned[n] == planned[0] + n * interval by {
            if n < planned.len() - 1 {
                assert(shorter[n] == planned[n]);
            } else {
                assert(shorter[n - 1] == planned[n - 1]);
                let i = n - 1;
                assert(planned[i + 1] == planned[i] + interval);
                assert(planned[0] + (n - 1) * interval + interval == planned[0] + n * interval) by (nonlinear_arith);
            }
        }
    }
}

} // verus!
