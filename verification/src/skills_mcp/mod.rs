//! Skills and MCP servers, and the archives they travel in.
pub mod archive;
pub mod archive_laws;
pub mod install;
pub mod skill_roots;
