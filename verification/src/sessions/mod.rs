//! Conversations and their export.
pub mod export;
pub mod export_laws;
pub mod global_state;
pub mod record_laws;
pub mod records;
