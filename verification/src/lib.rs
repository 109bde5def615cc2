//! The verified core of Crows, a distributed load and stress testing
//! runner: executor configuration and pacing, the instance pool, the
//! coordinator's decisions, the host-call protocol of scenario modules, and
//! the command line's progress display and summary.
pub mod bindings;
pub mod cli;
pub mod config;
pub mod coordinator;
pub mod executors;
pub mod host;
pub mod http_client;
pub mod output;
pub mod printers;
pub mod rpc;
pub mod runtime;
pub mod services;
pub mod summary;
pub mod text;
pub mod time;
pub mod timings;
