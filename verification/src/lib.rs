//! Background load-generator framework.
//!
//! Independent background workers generate sustained CPU, disk, and network
//! load, self-calibrate their workload size to a fixed measurement interval,
//! and report throughput to a consumer on demand.  This crate holds the
//! verified core: the worker control protocol, the adaptive calibration
//! algorithm, and the decision logic of the three worker disciplines.  The
//! embedder owns the threads, clocks, files and sockets, and drives these
//! state machines with the events it observes.

use vstd::prelude::*;

pub mod calibrate;
pub mod control;
pub mod cpu;
pub mod disk;
pub mod netload;
pub mod network;

verus! {

/// Request from a worker panel back to the consumer's event loop.
#[derive(Clone, Copy, Debug, PartialEq, Eq, Structural)]
pub enum MessageToGui {
    /// Ask the consumer to send `Stop` to every CPU load worker.
    StopAllCpu,
}

} // verus!
