//! A request counter and the replies that report it.
//!
//! The crate holds the core of a small web service: one counter, the decimal
//! text of its value, the four handlers that turn a request into a reply,
//! and the lock behind which several threads share the state. Speaking HTTP
//! is left to the caller.
//!
//! - `counter`: the counter, changed and read in one step.
//! - `decimal`: numbers as decimal text, written and read.
//! - `reply`: replies and the text of each body.
//! - `service`: the state and the handlers, one request at a time.
//! - `shared`: the state behind a lock.
//! - `config`: the address to listen on.
//! - `laws`: what holds of the service whatever is asked of it.

pub mod config;
pub mod counter;
pub mod decimal;
pub mod laws;
pub mod reply;
pub mod service;
pub mod shared;
