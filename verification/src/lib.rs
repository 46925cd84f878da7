//! A forum whose pages are documents compiled on request, and the
//! incremental compilation that makes this cheap.
//!
//! A document is a set of byte inputs found by identifier. Each input has a
//! slot that remembers what was derived from it and a fingerprint of the
//! content it was derived from, so that a rebuild only redoes the work whose
//! input changed. A build repeats the layout pass until the state that the
//! document reads back from itself stops changing, or a retry cap is reached.
//!
//! The compiler, the exporter, the database and the web server are not part
//! of this crate. It holds what is decided around them: `fingerprint`,
//! `slot`, `cache` and `files` keep the inputs and what was derived from
//! them, `driver` runs a build, `render` is the document itself, and
//! `routes`, `database`, `calendar` and `text` decide what the forum's
//! handlers write into a page and read out of the user store.

pub mod cache;
pub mod calendar;
pub mod database;
pub mod driver;
pub mod files;
pub mod fingerprint;
pub mod identifier;
mod names;
pub mod render;
pub mod routes;
pub mod slot;
pub mod text;
