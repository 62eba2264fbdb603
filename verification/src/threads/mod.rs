//! The threads of a run, one per node, as machines that are told what
//! happened and say what to do next.
//!
//! A machine never waits and never sends. It hands out a `Step`; whoever
//! drives it does what the step says and comes back with the `Event` that
//! belongs to it.

pub mod client;
pub mod orchestrator;
pub mod protocol;
pub mod server;

use vstd::prelude::*;
use vstd::string::*;
use crate::command::{Reply, Request, RequestView};
use crate::error::BenchError;

pub use orchestrator::run_in_threads;

verus! {

/// The seconds between two looks at a log.
pub const CHECKING_INTERVAL: u64 = 1;

/// How the thread of a node ended.
#[derive(Clone, Copy, Debug, PartialEq, Eq)]
pub enum ThreadResult {
    ServerSucceed,
    /// With the throughput that the client measured, if its job measures
    /// one.
    ClientSucceed(Option<u32>),
    Failed,
}

/// What the driver of a machine is to do next.
#[derive(Debug, PartialEq, Eq)]
pub enum Step {
    /// Run the request and come back with its reply.
    Run(Request),
    /// Wait until every node of the run waits, then come back.
    Rendezvous,
    /// Sleep for so many seconds, then come back.
    Sleep(u64),
    /// Read the flag that tells the servers to stop, and come back with it.
    ReadStop,
    /// Report the result of the thread. The machine is at its end.
    Report(ThreadResult),
}

/// A step as plain values.
pub enum StepView {
    Run(RequestView),
    Rendezvous,
    Sleep(int),
    ReadStop,
    Report(ThreadResult),
}

impl View for Step {
    type V = StepView;

    open spec fn view(&self) -> StepView {
        match *self {
            Step::Run(request) => StepView::Run(request@),
            Step::Rendezvous => StepView::Rendezvous,
            Step::Sleep(seconds) => StepView::Sleep(seconds as int),
            Step::ReadStop => StepView::ReadStop,
            Step::Report(result) => StepView::Report(result),
        }
    }
}

/// What happened since the machine's last step.
#[derive(Debug, PartialEq, Eq)]
pub enum Event {
    /// The thread has begun.
    Begin,
    /// The request has run; this is its reply.
    Reply(Reply),
    /// Every node of the run has come to the rendezvous.
    Released,
    /// The sleep is over.
    Woke,
    /// The flag was read, or the lock around it is poisoned.
    Stop(Result<bool, BenchError>),
}

} // verus!
