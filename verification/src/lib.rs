//! A concurrent TCP port scanner, as a library of verified decisions.
//!
//! The crate holds everything a scan decides: which run parameters are
//! acceptable, which ports are probed and when, how the result of one
//! connection attempt is classified, which ports end up in the result and in
//! what order, and what is printed. Opening sockets and running threads is
//! left to the program around it, which performs the steps this library hands
//! out and feeds the outcomes back.
//!
//! - [`config`]: the run parameters and their validation.
//! - [`probe`]: the target of a probe and the classification of its outcome.
//! - [`collector`]: the sink that gathers open ports and orders them.
//! - [`scan`]: the state of a run, step by step, and the laws that hold of it.
//! - [`report`]: the text of notices and of the final list.

pub mod config;
pub mod probe;
pub mod collector;
pub mod scan;
pub mod report;
