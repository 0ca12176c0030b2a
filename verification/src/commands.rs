//! The operations of the tool, one module each.

pub mod list;
pub mod record;
pub mod replay;
