//! Application-level status records: the basic configuration the embedder
//! reports and the statistics snapshot it serves. The stateful application
//! shell itself lives with the embedding application.

use vstd::prelude::*;

verus! {

/// Basic application configuration, aligned with the license system.
#[derive(Debug, Clone)]
pub struct AppConfig {
    pub app_name: String,
    pub version: String,
    pub license_tier: String,
    pub plugin_access_mode: String,
}

/// Application statistics snapshot.
#[derive(Debug, Clone)]
pub struct AppStats {
    pub initialized: bool,
    pub license_tier: String,
    pub plugin_access_mode: String,
    pub plugins_loaded: u32,
    pub active_sessions: u32,
    pub available_features: u32,
    pub license_status: String,
}

} // verus!
