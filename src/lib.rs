//! A single-consumer background worker: any number of producers feed one
//! unbounded queue, and exactly one consumer thread drains it, handing every
//! message to a handler, one at a time, until no producer handle is left.
//!
//! This crate holds the worker's decisions and what is proved of them: the
//! drain loop as a state machine (`drain`), a model of the queue it reads
//! (`queue`), what the loop hands to the handler over a whole run (`laws`),
//! and the shutdown step that releases returned producer handles
//! (`shutdown`). Spawning, joining and the blocking receive are done by the
//! caller around these functions.
pub mod drain;
pub mod queue;
pub mod laws;
pub mod shutdown;
