//! A single-flight memoizing work dispatcher, as verified state machines.
//!
//! The dispatcher decides, event by event, when work is handed to a pool and
//! when the terminal message may be announced; the cache decides, request by
//! request, whether a key is served from memory, waited on, or computed.
//! Threads, channels and locks are left to the embedding program, which
//! drives these machines.
pub mod cache;
pub mod cache_trace;
pub mod dispatcher;
pub mod worker_state;
