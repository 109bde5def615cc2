//! The messages and errors exchanged between the command line, the
//! coordinator and the workers.
use vstd::prelude::*;

use crate::time::Duration;

verus! {

/// An identifier of the `uuid` crate, carried through unchanged.
#[verifier::external_type_specification]
#[verifier::external_body]
pub struct ExUuid(uuid::Uuid);

/// A fresh random identifier.
/// Trusted: `uuid::Uuid::new_v4`, which draws a random version 4 identifier;
/// since it is random, nothing is stated of the value.
#[verifier::external_body]
fn new_random_uuid() -> (u: uuid::Uuid) {
    uuid::Uuid::new_v4()
}

/// Errors the coordinator reports to the command line.
#[derive(Debug, Clone, PartialEq, Eq)]
pub enum CoordinatorError {
    UploadModuleError,
    NoSuchModule(String),
    FailedToCreateRuntime(String),
    FailedToCompileModule,
    CouldNotFetchConfig(String),
    NotEnoughWorkers(usize),
}

/// Errors a worker reports to the coordinator.
#[derive(Debug, Clone, PartialEq, Eq)]
pub enum WorkerError {
    UploadModuleError,
    ScenarioNotFound,
    CouldNotCreateModule,
    CouldNotCreateRuntime(String),
}

/// The identifier of one run of a scenario.
#[derive(Debug)]
pub struct RunId(pub uuid::Uuid);

impl RunId {
    /// A new run identifier, drawn at random.
    pub fn new() -> RunId {
        RunId(new_random_uuid())
    }
}

/// Whether a worker can take a new run.
#[derive(Debug, Clone, Copy, PartialEq, Eq, Structural)]
pub enum WorkerStatus {
    Available,
    Busy,
}

/// What a worker tells about itself when it connects.
#[derive(Debug)]
pub struct WorkerData {
    pub id: uuid::Uuid,
    pub hostname: String,
}

/// The outcome of one HTTP request made by a scenario.
#[derive(Debug, Clone, Copy, PartialEq, Eq, Structural)]
pub struct RequestInfo {
    pub latency: Duration,
    pub successful: bool,
}

/// The outcome of one run of a scenario.
#[derive(Debug, Clone, Copy, PartialEq, Eq, Structural)]
pub struct IterationInfo {
    pub latency: Duration,
}

/// An update a worker sends about a running scenario.
#[derive(Debug)]
pub enum InfoMessage {
    Stderr(Vec<u8>),
    Stdout(Vec<u8>),
    RequestInfo(RequestInfo),
    IterationInfo(IterationInfo),
    InstanceCheckedOut,
    InstanceReserved,
    InstanceCheckedIn,
    /// Time elapsed and time left.
    TimingUpdate((Duration, Duration)),
    Done,
    PrepareError(String),
    RunError(String),
}

} // verus!
