//! A multi-threaded disk write stress generator: the decisions each worker
//! makes, the shared inventory of temporary files, and the sizing of the run.

pub mod buffer;
pub mod config;
pub mod inventory;
pub mod names;
pub mod worker;
