//! A lifecycle event outbox with the rules around it.
//!
//! The outbox appends one JSON line per session, turn or sub-agent event to a
//! shared local file. Sequence numbers are unique and increase in file order, a
//! line torn by a crash is repaired before the next append, and a turn that was
//! interrupted is ended on the next start. The file, the lock, the clock and the
//! network are the caller's: the library takes what they gave and says what to
//! do next.
//!
//! `config` merges configuration layers, and `cli` interprets command-line
//! input.
pub mod cli;
pub mod config;
pub mod json;
pub mod outbox;
pub mod sorting;
pub mod string_map;
pub mod text;

pub use outbox::append::OutboxFile;
pub use outbox::bounded::bounded_text;
pub use outbox::bounded::OUTBOX_DETAIL_MAX_CHARS;
pub use outbox::bounded::OUTBOX_HEADLINE_MAX_CHARS;
pub use outbox::bounded::OUTBOX_PATH_MAX_CHARS;
pub use outbox::bounded::OUTBOX_PREVIEW_MAX_CHARS;
pub use outbox::bounded::OUTBOX_TRUNCATION_MARKER;
pub use outbox::envelope::LifecycleEvent;
pub use outbox::envelope::RuntimeEventEnvelope;
pub use outbox::error::OutboxError;
pub use outbox::handle::LifecycleOutbox;
pub use outbox::handle::OutboxFlushReport;
