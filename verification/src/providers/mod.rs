//! Third-party providers, official profiles and the live configuration they are written to.
pub mod action_laws;
pub mod catalog_laws;
pub mod configuration_laws;
pub mod display_laws;
pub mod endpoint_laws;
pub mod live;
pub mod live_action;
pub mod live_files;
pub mod live_laws;
pub mod live_toml;
pub mod menu_laws;
pub mod model_catalog;
pub mod official_auth;
pub mod official_display;
pub mod official_profiles;
pub mod pointer_laws;
pub mod profile_change;
pub mod profile_laws;
pub mod profile_switch;
pub mod provider_laws;
pub mod quota;
pub mod quota_laws;
pub mod row_laws;
pub mod store;
pub mod store_laws;
pub mod switch_laws;
pub mod table;
pub mod table_laws;
pub mod transport;
pub mod write_laws;
