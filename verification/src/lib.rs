//! A job lifecycle and distribution engine for hardware-in-the-loop
//! test runs: a persistent submission/dispatch/termination store on the
//! coordinator side, and runner-side supervision of device-bound
//! scripts with cancellation, timeouts, bounded log capture and a
//! liveness-tracked link.

use vstd::prelude::*;

pub mod coordinator;
pub mod ctl;
pub mod device;
pub mod dispatcher;
pub mod heartbeat;
pub mod laws;
pub mod lines;
pub mod proto;
pub mod render;
pub mod store;
pub mod submit;
pub mod supervisor;
pub mod text;

verus! {

} // verus!
