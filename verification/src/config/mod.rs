//! Configuration: layers of settings, how they are merged, and the limits that
//! an organization puts on them.
//!
//! `settings` holds the types and `merge` the merge; `layering` and `precedence`
//! hold its laws, and `consent` says whose grants survive it.
//! `profile`, `managed` and `requirements` are the steps that use it;
//! `misplaced` warns of settings that nobody reads.
pub mod consent;
pub mod layering;
pub mod managed;
pub mod merge;
pub mod misplaced;
pub mod precedence;
pub mod profile;
pub mod requirements;
pub mod settings;
