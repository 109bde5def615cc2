use crows::bindings::{extract_from_return_value, host_reply, HTTPMethod, HTTPRequest};
use crows::cli::{parse_env_var, parse_env_vars};
use crows::config::{Config, ConstantArrivalRateConfig, ExecutorConfig};
use crows::coordinator::{plan_run, scenario_for_run, scenario_for_start, select_workers, ScenarioStore};
use crows::executors::{ArrivalSchedule, DrainDecision, RunDecision};
use crows::http_client::{connection_target, ClientError, TransferStats};
use crows::printers;
use crows::runtime::{Checkout, RuntimeInner};
use crows::services::{CoordinatorError, InfoMessage, IterationInfo, RequestInfo, RunId, WorkerError};
use crows::summary::{calculate_max, calculate_min, calculate_percentile, latencies, percentile_index, sort_latencies, summary_counts};
use crows::time::Duration;
use std::collections::HashMap;

fn ms(n: u64) -> Duration {
    Duration::from_millis(n)
}

#[test]
fn duration_conversions() {
    let d = Duration::new(3, 1_500_000_001);
    assert_eq!(d.as_secs(), 4);
    assert_eq!(d.subsec_nanos(), 500_000_001);
    assert_eq!(d.as_millis(), 4_500);
    assert_eq!(d.as_micros(), 4_500_000);
    assert_eq!(d.as_nanos(), 4_500_000_001);
    assert_eq!(Duration::from_millis(1_234).as_nanos(), 1_234_000_000);
    assert_eq!(Duration::from_micros(7).as_nanos(), 7_000);
    assert_eq!(Duration::default(), Duration::zero());
}

#[test]
fn duration_arithmetic() {
    let a = Duration::new(1, 900_000_000);
    let b = Duration::new(0, 200_000_000);
    assert_eq!(a.checked_add(&b), Some(Duration::new(2, 100_000_000)));
    assert_eq!(a.checked_sub(&b), Some(Duration::new(1, 700_000_000)));
    assert_eq!(b.checked_sub(&a), None);
    assert_eq!(b.saturating_sub(&a), Duration::zero());
    assert_eq!(Duration::new(u64::MAX, 999_999_999).checked_add(&Duration::from_nanos(1)), None);
    assert!(b.lt(&a));
    assert!(!a.lt(&a));
}

#[test]
fn config_default_uses_one_second_time_unit() {
    let c = ConstantArrivalRateConfig::default();
    assert_eq!(c.time_unit, Duration::from_secs(1));
    assert_eq!(c.rate, 0);
    assert_eq!(c.duration, Duration::zero());
}

#[test]
fn config_split_divides_rate() {
    let c = ConstantArrivalRateConfig { duration: Duration::from_secs(5), rate: 10, time_unit: Duration::from_secs(1), allocated_vus: 4, graceful_shutdown_timeout: ms(100) };
    let Config::ConstantArrivalRate(s) = c.split(4);
    assert_eq!(s.rate, 2);
    assert_eq!(s.duration, c.duration);
    assert_eq!(s.allocated_vus, 4);
    assert_eq!(s.graceful_shutdown_timeout, ms(100));
    let Config::ConstantArrivalRate(s) = Config::ConstantArrivalRate(c.clone()).split(1);
    assert_eq!(s, c);
}

#[test]
fn config_split_never_gives_zero_rate() {
    let c = ConstantArrivalRateConfig { rate: 2, ..ConstantArrivalRateConfig::default() };
    let Config::ConstantArrivalRate(s) = c.split(5);
    assert_eq!(s.rate, 1);
}

#[test]
fn config_from_millis() {
    let Config::ConstantArrivalRate(c) = Config::constant_arrival_rate_from_millis(10_000, 1, 1_000, 1, 1_000);
    assert_eq!(c.duration, Duration::from_secs(10));
    assert_eq!(c.rate, 1);
    assert_eq!(c.time_unit, Duration::from_secs(1));
    assert_eq!(c.allocated_vus, 1);
    assert_eq!(c.graceful_shutdown_timeout, Duration::from_secs(1));
}

#[test]
fn return_value_fields() {
    let value: u64 = (1u64 << 56) | (0x00AB_CDEFu64 << 32) | 0x1234_5678;
    assert_eq!(extract_from_return_value(value), (1, 0x00AB_CDEF, 0x1234_5678));
    assert_eq!(extract_from_return_value(u64::MAX), (0xFF, 0x00FF_FFFF, 0xFFFF_FFFF));
    let reply = host_reply((7u64 << 32) | 3);
    assert!(reply.ok);
    assert_eq!(reply.length, 7);
    assert_eq!(reply.index, 3);
    assert!(!host_reply(2u64 << 56).ok);
}

#[test]
fn http_request_always_has_body() {
    let r = HTTPRequest::new("https://test.k6.io".to_string(), HTTPMethod::GET, HashMap::new(), String::new());
    assert_eq!(r.body, Some(String::new()));
    assert_eq!(r.method, HTTPMethod::GET);
    assert_eq!(r.url, "https://test.k6.io");
}

#[test]
fn env_var_parsing() {
    assert_eq!(parse_env_var("SERVER_URL=http://127.0.0.1:8080"), Some(("SERVER_URL".to_string(), "http://127.0.0.1:8080".to_string())));
    assert_eq!(parse_env_var("A=b=c"), Some(("A".to_string(), "b=c".to_string())));
    assert_eq!(parse_env_var("=x"), Some((String::new(), "x".to_string())));
    assert_eq!(parse_env_var("NOVALUE"), None);
    let entries = vec!["A=1".to_string(), "junk".to_string(), "B=".to_string()];
    assert_eq!(parse_env_vars(&entries), vec![("A".to_string(), "1".to_string()), ("B".to_string(), String::new())]);
}

#[test]
fn scenario_store_reads_back_uploads() {
    let mut store = ScenarioStore::new();
    let name = "test_scenario".to_string();
    assert_eq!(scenario_for_start(&store, &name), Err(WorkerError::ScenarioNotFound));
    store.insert(name.clone(), vec![1, 2, 3]);
    store.insert("other".to_string(), vec![9]);
    assert_eq!(store.get(&name), Some(&vec![1, 2, 3]));
    store.insert(name.clone(), vec![4]);
    assert_eq!(scenario_for_run(&store, &name), Ok(vec![4]));
    assert_eq!(store.get(&"other".to_string()), Some(&vec![9]));
    assert_eq!(store.entries().len(), 2);
    assert_eq!(scenario_for_run(&store, &"missing".to_string()), Err(CoordinatorError::NoSuchModule("missing".to_string())));
}

#[test]
fn worker_selection() {
    let available = vec!["w1".to_string(), "w2".to_string(), "w3".to_string()];
    assert_eq!(select_workers(&available, 2), Ok(vec!["w1".to_string(), "w2".to_string()]));
    assert_eq!(select_workers(&available, 0), Ok(vec![]));
    assert_eq!(select_workers(&available, 4), Err(CoordinatorError::NotEnoughWorkers(3)));
}

#[test]
fn runtime_pool_checkout_and_checkin() {
    let mut pool: RuntimeInner<u32> = RuntimeInner::new();
    assert!(matches!(pool.checkout_or_create_instance(), Checkout::ReserveFirst));
    assert!(matches!(pool.reserve_instance(10), InfoMessage::InstanceReserved));
    assert!(matches!(pool.reserve_instance(11), InfoMessage::InstanceReserved));
    assert_eq!(pool.capacity(), 2);
    assert_eq!(pool.active_count(), 0);
    match pool.checkout_or_create_instance() {
        Checkout::Instance(h, m) => {
            assert_eq!(h, 10);
            assert!(matches!(m, InfoMessage::InstanceCheckedOut));
        }
        Checkout::ReserveFirst => panic!("an instance was idle"),
    }
    assert_eq!(pool.active_count(), 1);
    assert!(matches!(pool.checkin_instance(10), InfoMessage::InstanceCheckedIn));
    assert_eq!(pool.active_count(), 0);
    assert_eq!(pool.checkout_instance(), Some(11));
    assert_eq!(pool.checkout_instance(), Some(10));
    assert_eq!(pool.checkout_instance(), None);
    assert_eq!(pool.active_count(), 2);
}

#[test]
fn arrival_schedule_paces_and_stops() {
    let config = ConstantArrivalRateConfig { duration: Duration::from_secs(2), rate: 10, time_unit: Duration::from_secs(1), allocated_vus: 1, graceful_shutdown_timeout: Duration::from_secs(1) };
    let mut s = ArrivalSchedule::new(&config, ms(100), Duration::zero());
    assert_eq!(s.next_run_time, ms(100));
    assert_eq!(s.graceful_duration, Duration::from_secs(3));
    assert_eq!(s.pace(ms(30)), Some(ms(70)));
    assert_eq!(s.next_run_time, ms(200));
    assert_eq!(s.pace(ms(250)), None);
    assert_eq!(s.next_run_time, ms(300));
    assert!(matches!(s.after_iteration(ms(300), ms(100)), RunDecision::Continue(None)));
    match s.after_iteration(ms(600), ms(501)) {
        RunDecision::Continue(Some(InfoMessage::TimingUpdate((e, l)))) => {
            assert_eq!(e, ms(600));
            assert_eq!(l, ms(1_400));
        }
        other => panic!("unexpected {other:?}"),
    }
    assert!(matches!(s.after_iteration(ms(2_001), ms(0)), RunDecision::Stop));
    assert!(matches!(s.drain(ms(2_100), 0), DrainDecision::Finish));
    assert!(matches!(s.drain(ms(3_001), 5), DrainDecision::Finish));
    match s.drain(ms(2_500), 2) {
        DrainDecision::Wait(InfoMessage::TimingUpdate((e, l))) => {
            assert_eq!(e, ms(2_500));
            assert_eq!(l, Duration::zero());
        }
        other => panic!("unexpected {other:?}"),
    }
}

#[test]
fn summary_of_requests() {
    let requests = vec![
        RequestInfo { latency: ms(30), successful: true },
        RequestInfo { latency: ms(10), successful: false },
        RequestInfo { latency: ms(20), successful: true },
    ];
    let counts = summary_counts(&requests);
    assert_eq!((counts.total, counts.success_count, counts.fail_count), (3, 2, 1));
    let sorted = sort_latencies(&latencies(&requests));
    assert_eq!(sorted, vec![ms(10), ms(20), ms(30)]);
    assert_eq!(calculate_min(&sorted), ms(10));
    assert_eq!(calculate_max(&sorted), ms(30));
    assert_eq!(calculate_percentile(&sorted, 90), ms(30));
    let iterations = vec![IterationInfo { latency: ms(5) }];
    assert_eq!(summary_counts(&iterations).fail_count, 0);
}

#[test]
fn percentile_positions() {
    assert_eq!(percentile_index(20, 90), 17);
    assert_eq!(percentile_index(20, 95), 18);
    assert_eq!(percentile_index(10, 90), 8);
    assert_eq!(percentile_index(1, 95), 0);
    assert_eq!(percentile_index(3, 90), 2);
    assert_eq!(percentile_index(7, 100), 6);
}

#[test]
fn sort_keeps_duplicates() {
    let v = vec![ms(3), ms(1), ms(3), ms(2), ms(1)];
    assert_eq!(sort_latencies(&v), vec![ms(1), ms(1), ms(2), ms(3), ms(3)]);
    assert_eq!(sort_latencies(&vec![]), vec![]);
}

#[test]
fn connection_targets() {
    let t = connection_target("https://example.org").unwrap();
    assert_eq!(t.scheme, "https");
    assert_eq!(t.host, "example.org");
    assert_eq!(t.port, 443);
    assert_eq!(t.key, "https://example.org:443");
    let t = connection_target("http://127.0.0.1:8080/test").unwrap();
    assert_eq!(t.key, "http://127.0.0.1:8080");
    assert_eq!(connection_target("not a url").unwrap_err(), ClientError::InvalidUrl);
    assert_eq!(connection_target("unix:/run/foo.socket").unwrap_err(), ClientError::NoHost);
    assert_eq!(connection_target("foo://example.com").unwrap_err(), ClientError::NoPort);
}

#[test]
fn run_ids_are_random() {
    let a = RunId::new();
    let b = RunId::new();
    assert_ne!(a.0, b.0);
}

#[test]
fn printers_remember_worker_count() {
    let mut p = printers::simple::Printer::default();
    assert_eq!(p.workers_count, 0);
    p.initialize(3);
    assert_eq!(p.workers_count, 3);
    let mut p = printers::crossterm::Printer::default();
    p.initialize(2);
    assert_eq!(p.workers_count, 2);
}

#[test]
fn transfer_stats_record_first_byte_once() {
    let mut s = TransferStats::new();
    s.record_read(0, 5);
    assert_eq!(s.time_to_first_byte, 0);
    s.record_read(100, 7);
    s.record_read(50, 9);
    assert_eq!(s.bytes_received, 150);
    assert_eq!(s.time_to_first_byte, 7);
    s.record_write(30, 3);
    s.record_write(u64::MAX, 4);
    assert_eq!(s.bytes_sent, 29);
    assert_eq!(s.send_time, 4);
    s.reset();
    assert_eq!((s.bytes_sent, s.bytes_received, s.time_to_first_byte, s.send_time), (0, 0, 0, 4));
}

#[test]
fn run_plans() {
    let config = Config::constant_arrival_rate_from_millis(5_000, 10, 1_000, 2, 0);
    let available = vec!["a".to_string(), "b".to_string(), "c".to_string()];
    let (per_worker, names) = plan_run(&config, 2, &available).unwrap();
    let Config::ConstantArrivalRate(c) = per_worker;
    assert_eq!(c.rate, 5);
    assert_eq!(names, vec!["a".to_string(), "b".to_string()]);
    assert_eq!(plan_run(&config, 4, &available).unwrap_err(), CoordinatorError::NotEnoughWorkers(3));
}
