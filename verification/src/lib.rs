//! The core of a bencher that runs a benchmark on a fleet of machines: one
//! sequencer perhaps, servers and clients, each driven through a remote
//! shell.
//!
//! Nothing in this crate runs a process, waits or sleeps. It says which
//! commands a run is made of and reads what they answer:
//!
//! - `connections` places the nodes of a run on the machines, and knows the
//!   commands of a server and of a client and what their replies mean.
//! - `command` makes the requests for the processes to run and reads what an
//!   ended process left; `replay` lets a procedure run over the replies that
//!   are known so far.
//! - `threads` holds the thread of a node as a machine that is told what
//!   happened and says what to do next, the count of the reports of a run,
//!   and what the machines guarantee when they run side by side.
//! - `parameters`, `properties` and `preparation` make the properties files
//!   of a job; `subcommands` holds what the commands of the bencher do
//!   around a run.

pub mod command;
pub mod config;
pub mod connections;
pub mod error;
pub mod formats;
pub mod parameters;
pub mod preparation;
pub mod properties;
pub mod replay;
pub mod subcommands;
pub mod text;
pub mod threads;
