//! Provider switching, official profiles, archives and exports for a Codex desktop manager.
pub mod base64url;
pub mod clock;
pub mod digest;
pub mod error;
pub mod json;
pub mod naming;
pub mod naming_laws;
pub mod providers;
pub mod sessions;
pub mod skills_mcp;
pub mod text;
pub mod text_laws;
pub mod toml;
pub mod transfers;
pub mod value_laws;
pub mod web;
