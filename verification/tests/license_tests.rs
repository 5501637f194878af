//! Tests of the license tiers, their feature sets, and the plugin gate.

use nodus_engine::license::LicenseFeatures;
use nodus_engine::license::LicenseLimits;
use nodus_engine::license::LicenseTier;
use nodus_engine::license::PluginAccessMode;

#[test]
fn test_apache_model_community_features() {
    let features = LicenseFeatures::community_features();

    // Community should have FULL app features
    assert!(features.contains("forensic_logging"));
    assert!(features.contains("observability"));
    assert!(features.contains("entity_management"));
    assert!(features.contains("workflows"));

    // Community should allow unsigned plugins
    assert!(features.contains("unsigned_plugins_allowed"));
    assert!(features.contains("plugin_system"));

    // Community should NOT have enterprise plugin control
    assert!(!features.contains("signed_plugins_only"));
    assert!(!features.contains("unsigned_plugins_blocked"));
}

#[test]
fn test_enterprise_plugin_gate() {
    let enterprise_features = LicenseFeatures::enterprise_features();

    // Enterprise should have the plugin gate activated
    assert!(enterprise_features.contains("signed_plugins_only"));
    assert!(enterprise_features.contains("unsigned_plugins_blocked"));

    // Enterprise should NOT allow unsigned plugins
    assert!(!enterprise_features.contains("unsigned_plugins_allowed"));

    // But should have same core features as community
    assert!(enterprise_features.contains("forensic_logging"));
    assert!(enterprise_features.contains("observability"));
    assert!(enterprise_features.contains("entity_management"));
}

#[test]
fn test_plugin_access_modes() {
    assert_eq!(
        LicenseFeatures::plugin_access_mode(&LicenseTier::Community),
        PluginAccessMode::UnsignedAllowed
    );
    assert_eq!(
        LicenseFeatures::plugin_access_mode(&LicenseTier::Enterprise),
        PluginAccessMode::SignedOnly
    );
}

#[test]
fn test_tier_feature_inheritance() {
    let community = LicenseFeatures::community_features();
    let pro = LicenseFeatures::pro_features();
    let enterprise = LicenseFeatures::enterprise_features();

    // Pro should include community features
    for i in 0..community.len() {
        let feature = community.get(i);
        if feature != "unsigned_plugins_allowed" && feature != "community_plugin_marketplace" {
            assert!(
                pro.contains(feature.as_str()),
                "Pro missing community feature: {}",
                feature
            );
        }
    }

    // Enterprise should include team features (which include pro features)
    let team = LicenseFeatures::team_features();
    for i in 0..team.len() {
        let feature = team.get(i);
        if feature != "unsigned_plugins_allowed" && feature != "community_plugin_marketplace" {
            assert!(
                enterprise.contains(feature.as_str()),
                "Enterprise missing team feature: {}",
                feature
            );
        }
    }
}

#[test]
fn test_license_limits_apache_model() {
    let limits = LicenseLimits::default();

    // Community has no limits
    assert_eq!(limits.max_users, None);
    assert_eq!(limits.max_storage_gb, None);
    assert_eq!(limits.max_operations_per_hour, None);
    assert_eq!(limits.max_api_calls_per_day, None);
    assert_eq!(limits.max_concurrent_sessions, None);
    assert_eq!(limits.max_tenants, None);
}

#[test]
fn test_tier_from_string_aliases() {
    assert_eq!(LicenseTier::from_string("community"), Some(LicenseTier::Community));
    assert_eq!(LicenseTier::from_string("FREE"), Some(LicenseTier::Community));
    assert_eq!(LicenseTier::from_string("Pro"), Some(LicenseTier::Pro));
    assert_eq!(LicenseTier::from_string("Individual"), Some(LicenseTier::Pro));
    assert_eq!(LicenseTier::from_string("small_business"), Some(LicenseTier::Team));
    assert_eq!(LicenseTier::from_string("ENTERPRISE"), Some(LicenseTier::Enterprise));
    assert_eq!(LicenseTier::from_string("corporate"), Some(LicenseTier::Enterprise));
    assert_eq!(LicenseTier::from_string("unknown"), None);
    assert_eq!(LicenseTier::from_string(""), None);
}

#[test]
fn test_tier_inclusion_order() {
    assert!(LicenseTier::Enterprise.includes_tier(&LicenseTier::Community));
    assert!(LicenseTier::Enterprise.includes_tier(&LicenseTier::Enterprise));
    assert!(LicenseTier::Team.includes_tier(&LicenseTier::Pro));
    assert!(!LicenseTier::Community.includes_tier(&LicenseTier::Pro));
    assert!(!LicenseTier::Pro.includes_tier(&LicenseTier::Team));
}

#[test]
fn test_display_names() {
    assert_eq!(LicenseTier::Community.display_name(), "Community");
    assert_eq!(LicenseTier::Pro.display_name(), "Professional");
    assert_eq!(LicenseTier::Team.display_name(), "Team");
    assert_eq!(LicenseTier::Enterprise.display_name(), "Enterprise");
}

#[test]
fn test_features_for_tier_matches_constructors() {
    let team_direct = LicenseFeatures::team_features();
    let team_via = LicenseFeatures::features_for_tier(&LicenseTier::Team);
    assert_eq!(team_direct.len(), team_via.len());
    for i in 0..team_direct.len() {
        assert_eq!(team_direct.get(i), team_via.get(i));
    }
}

#[test]
fn minimum_tier_for_known_and_unknown_features() {
    assert_eq!(
        LicenseFeatures::minimum_tier_for_feature("workflows"),
        LicenseTier::Community
    );
    assert_eq!(
        LicenseFeatures::minimum_tier_for_feature("ai_search"),
        LicenseTier::Pro
    );
    assert_eq!(
        LicenseFeatures::minimum_tier_for_feature("team_sync"),
        LicenseTier::Team
    );
    assert_eq!(
        LicenseFeatures::minimum_tier_for_feature("signed_plugins_only"),
        LicenseTier::Enterprise
    );
    assert_eq!(
        LicenseFeatures::minimum_tier_for_feature("something_unheard_of"),
        LicenseTier::Enterprise
    );
}
