//! Executor configuration shared by the coordinator, the workers and the scenarios.
use vstd::prelude::*;

use crate::time::Duration;

verus! {

/// Settings of the constant arrival rate executor: `rate` scenario runs are
/// started per `time_unit`, for `duration`, with `allocated_vus` instances
/// prepared up front.
#[derive(Debug, Clone, PartialEq, Eq, Structural)]
pub struct ConstantArrivalRateConfig {
    pub duration: Duration,
    pub rate: usize,
    pub time_unit: Duration,
    pub allocated_vus: usize,
    pub graceful_shutdown_timeout: Duration,
}

/// The configuration of one of the available executors.
#[derive(Debug, Clone, PartialEq, Eq, Structural)]
pub enum Config {
    ConstantArrivalRate(ConstantArrivalRateConfig),
}

/// The rate each of `times` workers runs when a rate is split between them:
/// an even share rounded down, but never less than one.
pub open spec fn split_rate(rate: nat, times: nat) -> nat
    recommends
        times > 0,
{
    if rate / times == 0 {
        1
    } else {
        rate / times
    }
}

/// What splitting a constant arrival rate configuration between `times`
/// workers gives each of them.
pub open spec fn spec_split_constant(config: ConstantArrivalRateConfig, times: nat) -> ConstantArrivalRateConfig {
    ConstantArrivalRateConfig { rate: split_rate(config.rate as nat, times) as usize, ..config }
}

/// What splitting a configuration between `times` workers gives each of them.
pub open spec fn spec_split(config: Config, times: nat) -> Config {
    match config {
        Config::ConstantArrivalRate(c) => Config::ConstantArrivalRate(spec_split_constant(c, times)),
    }
}

/// A configuration that can be divided between several workers.
pub trait ExecutorConfig {
    /// The configuration each of `times` workers runs.
    fn split(&self, times: usize) -> Config
        requires
            times > 0,
    ;
}

impl ExecutorConfig for ConstantArrivalRateConfig {
    fn split(&self, times: usize) -> (r: Config)
        ensures
            r == Config::ConstantArrivalRate(spec_split_constant(*self, times as nat)),
    {
        let mut rate = self.rate / times;
        // a low rate spread over many workers would round down to zero
        if rate == 0 {
            rate = 1;
        }
        Config::ConstantArrivalRate(ConstantArrivalRateConfig {
            duration: self.duration,
            rate,
            time_unit: self.time_unit,
            allocated_vus: self.allocated_vus,
            graceful_shutdown_timeout: self.graceful_shutdown_timeout,
        })
    }
}

impl Config {
    /// The configuration each of `times` workers runs.
    pub fn split(&self, times: usize) -> (r: Config)
        requires
            times > 0,
        ensures
            r == spec_split(*self, times as nat),
    {
        match self {
            Config::ConstantArrivalRate(config) => config.split(times),
        }
    }

    /// A constant arrival rate configuration from the plain values a scenario
    /// reports, with all times in milliseconds.
    pub fn constant_arrival_rate_from_millis(
        duration_ms: u64,
        rate: u64,
        time_unit_ms: u64,
        allocated_vus: u64,
        graceful_shutdown_timeout_ms: u64,
    ) -> (r: Config)
        ensures
            r matches Config::ConstantArrivalRate(c) && {
                &&& c.duration@ == duration_ms * 1_000_000
                &&& c.rate == rate as usize
                &&& c.time_unit@ == time_unit_ms * 1_000_000
                &&& c.allocated_vus == allocated_vus as usize
                &&& c.graceful_shutdown_timeout@ == graceful_shutdown_timeout_ms * 1_000_000
            },
    {
        Config::ConstantArrivalRate(ConstantArrivalRateConfig {
            duration: Duration::from_millis(duration_ms),
            rate: rate as usize,
            time_unit: Duration::from_millis(time_unit_ms),
            allocated_vus: allocated_vus as usize,
            graceful_shutdown_timeout: Duration::from_millis(graceful_shutdown_timeout_ms),
        })
    }
}

impl Default for ConstantArrivalRateConfig {
    fn default() -> (c: ConstantArrivalRateConfig)
        ensures
            c.duration@ == 0,
            c.rate == 0,
            c.time_unit@ == 1_000_000_000,
            c.allocated_vus == 0,
            c.graceful_shutdown_timeout@ == 0,
    {
        ConstantArrivalRateConfig {
            duration: Duration::zero(),
            rate: 0,
            time_unit: Duration::from_secs(1),
            allocated_vus: 0,
            graceful_shutdown_timeout: Duration::zero(),
        }
    }
}

/// Splitting never leaves a worker with a zero rate, and keeps every other
/// setting as it was.
pub proof fn lemma_split_keeps_settings(config: ConstantArrivalRateConfig, times: nat)
    requires
        times > 0,
    ensures
        spec_split_constant(config, times).rate >= 1,
        spec_split_constant(config, times).duration == config.duration,
        spec_split_constant(config, times).time_unit == config.time_unit,
        spec_split_constant(config, times).allocated_vus == config.allocated_vus,
        spec_split_constant(config, times).graceful_shutdown_timeout
            == config.graceful_shutdown_timeout,
{
    assert(config.rate as nat / times <= config.rate) by (nonlinear_arith)
        requires times > 0;
}

/// When there are at least as many runs per time unit as workers, the
/// workers together run at most the rate they were split from and lose less than one
/// run per worker to rounding.
pub proof fn lemma_split_rates_add_up(rate: nat, times: nat)
    requires
        times > 0,
        rate >= times,
    ensures
        times * split_rate(rate, times) <= rate,
        rate < times * split_rate(rate, times) + times,
{
    assert(rate / times >= 1) by (nonlinear_arith)
        requires rate >= times, times > 0;
    assert(times * (rate / times) <= rate && rate < times * (rate / times) + times) by (nonlinear_arith)
        requires times > 0;
}

/// Splitting between a single worker leaves a positive rate unchanged.
pub proof fn lemma_split_single_worker(config: ConstantArrivalRateConfig)
    requires
        config.rate > 0,
    ensures
        spec_split_constant(config, 1) == config,
{
}

} // verus!
