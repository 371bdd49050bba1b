//! Verified core of an XSS probing tool: a fixed payload catalog, a response
//! classifier with a strict verdict priority, parameter discovery over
//! response bodies, probe enumeration in three tiers, and the early-stop
//! bookkeeping of one (target, method) scan. Network I/O, console output and
//! argument handling live outside this crate and hand it plain values.

pub mod classify;
pub mod discover;
pub mod payloads;
pub mod session;
pub mod target;
pub mod text;
pub mod tiers;
