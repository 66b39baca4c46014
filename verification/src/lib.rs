//! The logic of a session daemon: locking the session before the system sleeps and
//! when nobody uses it, and the requests of applications to keep it awake.
//!
//! Nothing here does I/O. What waits for an answer of the system is a state
//! machine that names the next thing to do and takes the outcome of it.

pub mod awake_laws;
pub mod cli;
pub mod config;
pub mod document;
pub mod duration;
pub mod idle;
pub mod idle_laws;
pub mod inhibit;
pub mod inhibit_laws;
pub mod locker;
pub mod logind;
pub mod paths;
pub mod sleep;
pub mod sleep_laws;
pub mod text;
