//! Out-of-process job-control protocol for a download worker.
//!
//! A requester drives a long-running download job inside a separately
//! activated worker process.  The library holds the verified core of that
//! system: the bounded, typed protocol codec, the command dispatcher, an
//! in-memory job engine the dispatcher is proved against, the monitor
//! bridge that turns engine events into a stream of status messages, and
//! the random channel naming scheme for the rendezvous between the two
//! processes.  Process activation, named OS channels and the real engine
//! are outside collaborators.

pub mod bridge;
pub mod codec;
pub mod dispatch;
pub mod engine;
pub mod error;
pub mod naming;
pub mod protocol;
pub mod transport;
