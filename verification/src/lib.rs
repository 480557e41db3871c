//! Core of a mail-reading client: a lazy, single-slot manager for the
//! handle to the mail store, and a polling pipeline that streams query
//! results from a background worker into a UI-owned result collection.
//!
//! The mail store itself is an outside capability; the library models the
//! parts of it that the logic reads — the conditions that decide whether an
//! open succeeds, and the threads a search walks — as plain values, so that
//! every decision the client makes about handles, queries and result
//! delivery is stated and proved here. The process boundaries (worker
//! threads, OS channels, the UI timer) live outside the library and drive
//! these functions.

pub mod manager;
pub mod pipeline;
pub mod store;
