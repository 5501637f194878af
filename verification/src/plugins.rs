//! Value types of the plugin system: relationship and type descriptors,
//! license requirements, the error taxonomy, and the status records the
//! embedding application reports. Loading and running plugins lives with
//! the embedding application.

use vstd::prelude::*;

use crate::license::access_mode_of;
use crate::license::LicenseTier;
use crate::license::PluginAccessMode;

verus! {

/// How two plugins relate to each other.
#[derive(Debug, Clone)]
pub enum PluginRelationshipType {
    DependsOn,
    Enhances,
    ConflictsWith,
    CompatibleWith,
    Custom(String),
}

/// What a plugin demands of the running license.
#[derive(Debug, Clone)]
pub struct LicenseRequirement {
    pub minimum_tier: LicenseTier,
    pub requires_signed: bool,
    pub enterprise_only_features: Vec<String>,
}

/// Implementation language of a plugin.
#[derive(Debug, Clone, PartialEq, Eq, Structural)]
pub enum PluginType {
    JavaScript,
    Rust,
}

/// The ways loading or running a plugin can fail.
#[derive(Debug)]
pub enum PluginError {
    PluginNotFound { plugin_id: String },
    LicenseInsufficient { plugin_id: String, required_tier: LicenseTier, current_tier: LicenseTier },
    InvalidSignature { plugin_id: String },
    DependencyNotMet { plugin_id: String, dependency: String },
    PluginConflict { plugin_id: String, conflicting_plugin: String },
}

/// Answer to a plugin registration request.
#[derive(Debug, Clone)]
pub struct PluginRegistrationResponse {
    pub success: bool,
    pub plugin_id: String,
    pub message: String,
}

/// Snapshot of the plugin system for status reporting.
#[derive(Debug, Clone)]
pub struct PluginSystemStatus {
    pub plugins_loaded: u32,
    pub js_plugins_count: u32,
    pub rust_plugins_count: u32,
    pub license_tier: String,
    pub plugin_access_mode: String,
    pub can_load_unsigned: bool,
    pub can_load_enterprise: bool,
}

/// The plugin gate: whether a plugin may be loaded under a tier's access
/// mode. Signed plugins load everywhere; unsigned ones only where the mode
/// allows them.
pub fn can_load_plugin(tier: &LicenseTier, signed: bool) -> (r: bool)
    ensures
        r == (signed || access_mode_of(*tier) == PluginAccessMode::UnsignedAllowed),
{
    if signed {
        true
    } else {
        match crate::license::LicenseFeatures::plugin_access_mode(tier) {
            PluginAccessMode::UnsignedAllowed => true,
            PluginAccessMode::SignedOnly => false,
        }
    }
}

} // verus!
