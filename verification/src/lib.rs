//! Record sequences of shell commands under a tag and replay them later.
//!
//! The crate holds the decisions of the tool: the recording session, the
//! tag-indexed store, the selection of what to replay and the listing. Reading
//! and writing files, running an editor or a selector and printing are left to
//! the caller, which hands plain values in and gets plain values back.

pub mod structure;
pub mod commands;
pub mod text;
pub mod invocation;
pub mod storage;
