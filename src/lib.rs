//! Control plane of a microVM-backed serverless platform: a fixed pool of workers fed by
//! one shared queue, admission of requests by function name, the lifecycle of each VM,
//! and the restore of guest memory from a base snapshot and its ordered diff layers.
use vstd::prelude::*;

pub mod configs;
pub mod snapshot;
pub mod message;
pub mod vm;
pub mod worker;
pub mod workerpool;
pub mod controller;
pub mod transport;

verus! {

} // verus!
