//! The lifecycle outbox: one JSON line per event, appended to a shared file.
//!
//! `handle` is what events are emitted through and `queue` what stands behind
//! it; `webhook` holds the laws of its deliveries. `append` recovers the next
//! sequence number from the end of the file and frames new lines; `durability`
//! holds its laws, `sequence` those of several appends and `format` those of the
//! line format. `reconcile` ends interrupted turns; `counting`, `pairing` and
//! `closing` hold its laws. `bounded` cleans free-form text; `cleaning` says what
//! that keeps. `identity`, `lock` and `signal` decide who owns which events, how
//! long to wait, and what to do when the process dies.
pub mod append;
pub mod bounded;
pub mod cleaning;
pub mod closing;
pub mod counting;
pub mod durability;
pub mod envelope;
pub mod error;
pub mod format;
pub mod handle;
pub mod identity;
pub mod lock;
pub mod pairing;
pub mod queue;
pub mod reconcile;
pub mod sequence;
pub mod signal;
pub mod webhook;
