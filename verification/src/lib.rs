//! Operator console core for a fleet of game-server instances.
//!
//! The library holds the two verified leaves of the console: the binary
//! query protocol client (`protocol`) and the process-lifecycle decision
//! logic (`supervisor`), together with the pure helpers the sequential
//! driver needs (`config`, `driver`). All I/O — sockets, files, process
//! spawning — lives outside the library and hands in plain values.

pub mod config;
pub mod driver;
pub mod protocol;
pub mod supervisor;
