//! The tiered license model: tiers, their feature sets, limits, and the
//! plugin access gate. The community tier is the full application with
//! unsigned plugins allowed; the enterprise tier swaps that for a
//! signed-plugins-only gate on top of every team feature.

use vstd::prelude::*;

use crate::text::lower_of;
use crate::text::lowercase;
use crate::text::str_eq;

verus! {

/// The license tiers, in ascending order of entitlement.
#[derive(Debug, Clone, Copy, PartialEq, Eq, Structural)]
pub enum LicenseTier {
    Community,
    Pro,
    Team,
    Enterprise,
}

/// Validity state of a license.
#[derive(Debug, Clone, PartialEq, Eq, Structural)]
pub enum LicenseStatus {
    Valid,
    Expired,
    Invalid,
    Revoked,
    Pending,
}

/// Plugin access control mode: only the enterprise tier demands
/// cryptographically signed plugins.
#[derive(Debug, Clone, PartialEq, Eq, Structural)]
pub enum PluginAccessMode {
    UnsignedAllowed,
    SignedOnly,
}

/// Usage limits attached to a license. Every limit is optional; the
/// default — the community tier — has none at all.
#[derive(Debug, Clone)]
pub struct LicenseLimits {
    pub max_users: Option<u32>,
    pub max_storage_gb: Option<u32>,
    pub max_operations_per_hour: Option<u32>,
    pub max_api_calls_per_day: Option<u32>,
    pub max_concurrent_sessions: Option<u32>,
    pub max_tenants: Option<u32>,
}

impl Default for LicenseLimits {
    /// The default limits: none, on anything.
    fn default() -> (r: LicenseLimits)
        ensures
            r.max_users is None,
            r.max_storage_gb is None,
            r.max_operations_per_hour is None,
            r.max_api_calls_per_day is None,
            r.max_concurrent_sessions is None,
            r.max_tenants is None,
    {
        LicenseLimits {
            max_users: None,
            max_storage_gb: None,
            max_operations_per_hour: None,
            max_api_calls_per_day: None,
            max_concurrent_sessions: None,
            max_tenants: None,
        }
    }
}

impl LicenseTier {
    /// Parses a tier name, lowercasing it first; each tier answers to a
    /// few aliases.
    pub fn from_string(s: &str) -> (r: Option<LicenseTier>)
        ensures
            r == tier_for_lower(lower_of(s@)),
    {
        let l = lowercase(s);
        if l.eq(&"community".to_owned()) || l.eq(&"free".to_owned()) || l.eq(&"open".to_owned())
            || l.eq(&"opensource".to_owned()) {
            Some(LicenseTier::Community)
        } else if l.eq(&"pro".to_owned()) || l.eq(&"professional".to_owned()) || l.eq(
            &"individual".to_owned(),
        ) {
            Some(LicenseTier::Pro)
        } else if l.eq(&"team".to_owned()) || l.eq(&"small_business".to_owned()) || l.eq(
            &"startup".to_owned(),
        ) {
            Some(LicenseTier::Team)
        } else if l.eq(&"enterprise".to_owned()) || l.eq(&"business".to_owned()) || l.eq(
            &"corporate".to_owned(),
        ) {
            Some(LicenseTier::Enterprise)
        } else {
            None
        }
    }

    /// The tier's place in the entitlement order.
    pub open spec fn rank(self) -> int {
        match self {
            LicenseTier::Community => 0,
            LicenseTier::Pro => 1,
            LicenseTier::Team => 2,
            LicenseTier::Enterprise => 3,
        }
    }

    /// Human-readable tier name.
    pub fn display_name(&self) -> (r: &'static str)
        ensures
            r@ == display_name_of(*self),
    {
        match self {
            LicenseTier::Community => "Community",
            LicenseTier::Pro => "Professional",
            LicenseTier::Team => "Team",
            LicenseTier::Enterprise => "Enterprise",
        }
    }

    /// Whether this tier includes the features of `other`: the entitlement
    /// order is total, and a tier includes every tier at or below its own
    /// rank.
    pub fn includes_tier(&self, other: &LicenseTier) -> (r: bool)
        ensures
            r == (self.rank() >= other.rank()),
    {
        self.rank_value() >= other.rank_value()
    }

    /// The rank as a machine integer.
    fn rank_value(&self) -> (r: u8)
        ensures
            r as int == self.rank(),
    {
        match self {
            LicenseTier::Community => 0,
            LicenseTier::Pro => 1,
            LicenseTier::Team => 2,
            LicenseTier::Enterprise => 3,
        }
    }
}

/// The tier named by an already lowercased string, if any: each tier has a
/// few accepted aliases.
pub open spec fn tier_for_lower(l: Seq<char>) -> Option<LicenseTier> {
    if l == "community"@ || l == "free"@ || l == "open"@ || l == "opensource"@ {
        Some(LicenseTier::Community)
    } else if l == "pro"@ || l == "professional"@ || l == "individual"@ {
        Some(LicenseTier::Pro)
    } else if l == "team"@ || l == "small_business"@ || l == "startup"@ {
        Some(LicenseTier::Team)
    } else if l == "enterprise"@ || l == "business"@ || l == "corporate"@ {
        Some(LicenseTier::Enterprise)
    } else {
        None
    }
}

/// The display name of each tier.
pub open spec fn display_name_of(t: LicenseTier) -> Seq<char> {
    match t {
        LicenseTier::Community => "Community"@,
        LicenseTier::Pro => "Professional"@,
        LicenseTier::Team => "Team"@,
        LicenseTier::Enterprise => "Enterprise"@,
    }
}

/// A set of named features, in a fixed order.
pub struct FeatureSet {
    items: Vec<String>,
}

impl View for FeatureSet {
    type V = Seq<Seq<char>>;

    closed spec fn view(&self) -> Seq<Seq<char>> {
        self.items.deep_view()
    }
}

impl FeatureSet {
    /// An empty feature set.
    fn new() -> (r: FeatureSet)
        ensures
            r@ == Seq::<Seq<char>>::empty(),
    {
        let r = FeatureSet { items: Vec::new() };
        proof {
            assert(r@ =~= Seq::<Seq<char>>::empty());
        }
        r
    }

    /// Appends one feature name.
    fn add(&mut self, name: &str)
        ensures
            final(self)@ == old(self)@.push(name@),
    {
        self.items.push(name.to_owned());
        proof {
            assert(self@ =~= old(self)@.push(name@));
        }
    }

    /// The number of features in the set.
    pub fn len(&self) -> (r: usize)
        ensures
            r == self@.len(),
    {
        self.items.len()
    }

    /// The feature name at `i`.
    pub fn get(&self, i: usize) -> (r: &String)
        requires
            i < self@.len(),
        ensures
            r@ == self@[i as int],
    {
        &self.items[i]
    }

    /// Whether the set holds the feature `name`.
    pub fn contains(&self, name: &str) -> (r: bool)
        ensures
            r == self@.contains(name@),
    {
        let needle: String = name.to_owned();
        let n = self.items.len();
        let mut i: usize = 0;
        while i < n
            invariant
                n == self.items@.len(),
                n == self@.len(),
                needle@ == name@,
                0 <= i <= n,
                forall|j: int| 0 <= j < i ==> #[trigger] self@[j] != name@,
            decreases n - i,
        {
            if self.items[i].eq(&needle) {
                proof {
                    assert(self@[i as int] == name@);
                }
                return true;
            }
            proof {
                assert(self@[i as int] == self.items@[i as int]@);
            }
            i += 1;
        }
        false
    }
}

/// Feature definitions for each tier.
pub struct LicenseFeatures {}

/// The community feature list: the complete application, with unsigned
/// plugins allowed.
pub open spec fn community_feature_list() -> Seq<Seq<char>> {
    seq![
        "forensic_logging"@,
        "observability"@,
        "security_framework"@,
        "entity_management"@,
        "workflows"@,
        "data_storage"@,
        "ui_framework"@,
        "grid_system"@,
        "relationship_system"@,
        "custom_fields"@,
        "search_system"@,
        "export_import"@,
        "configuration"@,
        "plugin_system"@,
        "unsigned_plugins_allowed"@,
        "community_plugin_marketplace"@,
        "audit_logging"@,
        "performance_metrics"@,
        "error_tracking"@,
        "user_authentication"@,
        "user_authorization"@,
        "data_encryption"@,
        "session_management"@,
    ]
}

/// What the pro tier adds: individual AI and productivity features.
pub open spec fn pro_additions() -> Seq<Seq<char>> {
    seq![
        "ai_embedding"@,
        "ai_search"@,
        "ai_suggestions"@,
        "local_llm"@,
        "smart_categorization"@,
        "advanced_storage"@,
        "browser_integration"@,
        "offline_sync"@,
        "advanced_export"@,
        "performance_optimization"@,
        "workflow_automation"@,
        "smart_templates"@,
        "advanced_filtering"@,
        "bulk_operations"@,
    ]
}

/// What the team tier adds: collaboration features.
pub open spec fn team_additions() -> Seq<Seq<char>> {
    seq![
        "team_workspaces"@,
        "shared_projects"@,
        "team_permissions"@,
        "collaboration_tools"@,
        "team_analytics"@,
        "shared_templates"@,
        "team_sync"@,
        "comment_system"@,
        "activity_feeds"@,
        "team_notifications"@,
        "team_audit_trail"@,
        "basic_compliance_reporting"@,
    ]
}

/// What the enterprise tier adds: the signed-plugin gate, compliance
/// reporting, advanced observability, and multi-tenancy.
pub open spec fn enterprise_additions() -> Seq<Seq<char>> {
    seq![
        "signed_plugins_only"@,
        "unsigned_plugins_blocked"@,
        "enterprise_plugin_marketplace"@,
        "plugin_signature_validation"@,
        "plugin_certification"@,
        "compliance_reporting"@,
        "sox_reporting"@,
        "hipaa_reporting"@,
        "gdpr_reporting"@,
        "pci_reporting"@,
        "soc2_reporting"@,
        "cryptographic_integrity"@,
        "tamper_detection"@,
        "performance_sla_monitoring"@,
        "automatic_instrumentation"@,
        "forensic_chain_validation"@,
        "multi_tenant_isolation"@,
        "tenant_administration"@,
        "enterprise_api_gateway"@,
        "enterprise_dashboard"@,
        "role_based_access_control"@,
        "enterprise_analytics"@,
        "enterprise_database_schema"@,
        "polyinstantiation_tables"@,
        "compliance_data_retention"@,
        "immutable_audit_storage"@,
    ]
}

/// The pro feature list: community plus the pro additions.
pub open spec fn pro_feature_list() -> Seq<Seq<char>> {
    community_feature_list() + pro_additions()
}

/// The team feature list: pro plus the team additions.
pub open spec fn team_feature_list() -> Seq<Seq<char>> {
    pro_feature_list() + team_additions()
}

/// A feature name that the enterprise tier withdraws: the community
/// plugin entitlements.
pub open spec fn withdrawn_at_enterprise(s: Seq<char>) -> bool {
    s == "unsigned_plugins_allowed"@ || s == "community_plugin_marketplace"@
}

/// The enterprise feature list: every team feature except the community
/// plugin entitlements, plus the enterprise additions.
pub open spec fn enterprise_feature_list() -> Seq<Seq<char>> {
    team_feature_list().filter(|s: Seq<char>| !withdrawn_at_enterprise(s))
        + enterprise_additions()
}

/// The feature list of each tier.
pub open spec fn feature_list_of(t: LicenseTier) -> Seq<Seq<char>> {
    match t {
        LicenseTier::Community => community_feature_list(),
        LicenseTier::Pro => pro_feature_list(),
        LicenseTier::Team => team_feature_list(),
        LicenseTier::Enterprise => enterprise_feature_list(),
    }
}

/// The lowest tier at which a feature becomes available; unknown feature
/// names default to the enterprise tier.
pub open spec fn min_tier_of(f: Seq<char>) -> LicenseTier {
    if f == "forensic_logging"@ || f == "observability"@ || f == "security_framework"@ || f == "entity_management"@ || f == "workflows"@ || f == "data_storage"@ || f == "ui_framework"@ || f == "plugin_system"@ || f == "unsigned_plugins_allowed"@ {
        LicenseTier::Community
    } else if f == "ai_embedding"@ || f == "ai_search"@ || f == "local_llm"@ || f == "advanced_storage"@ || f == "browser_integration"@ || f == "offline_sync"@ {
        LicenseTier::Pro
    } else if f == "team_workspaces"@ || f == "shared_projects"@ || f == "team_permissions"@ || f == "collaboration_tools"@ || f == "team_sync"@ {
        LicenseTier::Team
    } else {
        LicenseTier::Enterprise
    }
}

/// The plugin access mode of each tier: only the enterprise tier demands
/// signed plugins.
pub open spec fn access_mode_of(t: LicenseTier) -> PluginAccessMode {
    match t {
        LicenseTier::Enterprise => PluginAccessMode::SignedOnly,
        _ => PluginAccessMode::UnsignedAllowed,
    }
}

impl LicenseFeatures {
    /// Community tier features: the full functional application.
    pub fn community_features() -> (r: FeatureSet)
        ensures
            r@ == community_feature_list(),
    {
        let mut fs = FeatureSet::new();
    fs.add("forensic_logging");
    fs.add("observability");
    fs.add("security_framework");
    fs.add("entity_management");
    fs.add("workflows");
    fs.add("data_storage");
    fs.add("ui_framework");
    fs.add("grid_system");
    fs.add("relationship_system");
    fs.add("custom_fields");
    fs.add("search_system");
    fs.add("export_import");
    fs.add("configuration");
    fs.add("plugin_system");
    fs.add("unsigned_plugins_allowed");
    fs.add("community_plugin_marketplace");
    fs.add("audit_logging");
    fs.add("performance_metrics");
    fs.add("error_tracking");
    fs.add("user_authentication");
    fs.add("user_authorization");
    fs.add("data_encryption");
    fs.add("session_management");
        proof {
            assert(fs@ =~= community_feature_list());
        }
        fs
    }

    /// Pro tier features: community plus individual productivity AI.
    pub fn pro_features() -> (r: FeatureSet)
        ensures
            r@ == pro_feature_list(),
    {
        let mut fs = Self::community_features();
    fs.add("ai_embedding");
    fs.add("ai_search");
    fs.add("ai_suggestions");
    fs.add("local_llm");
    fs.add("smart_categorization");
    fs.add("advanced_storage");
    fs.add("browser_integration");
    fs.add("offline_sync");
    fs.add("advanced_export");
    fs.add("performance_optimization");
    fs.add("workflow_automation");
    fs.add("smart_templates");
    fs.add("advanced_filtering");
    fs.add("bulk_operations");
        proof {
            assert(fs@ =~= pro_feature_list());
        }
        fs
    }

    /// Team tier features: pro plus team collaboration.
    pub fn team_features() -> (r: FeatureSet)
        ensures
            r@ == team_feature_list(),
    {
        let mut fs = Self::pro_features();
    fs.add("team_workspaces");
    fs.add("shared_projects");
    fs.add("team_permissions");
    fs.add("collaboration_tools");
    fs.add("team_analytics");
    fs.add("shared_templates");
    fs.add("team_sync");
    fs.add("comment_system");
    fs.add("activity_feeds");
    fs.add("team_notifications");
    fs.add("team_audit_trail");
    fs.add("basic_compliance_reporting");
        proof {
            assert(fs@ =~= team_feature_list());
        }
        fs
    }

    /// Enterprise tier features: every team feature except the community
    /// plugin entitlements, plus the enterprise gate and compliance
    /// features.
    #[verifier::rlimit(60)]
    pub fn enterprise_features() -> (r: FeatureSet)
        ensures
            r@ == enterprise_feature_list(),
    {
        let team = Self::team_features();
        let gone_a: String = "unsigned_plugins_allowed".to_owned();
        let gone_b: String = "community_plugin_marketplace".to_owned();
        let mut fs = FeatureSet::new();
        let n = team.len();
        let mut i: usize = 0;
        while i < n
            invariant
                n == team@.len(),
                0 <= i <= n,
                gone_a@ == "unsigned_plugins_allowed"@,
                gone_b@ == "community_plugin_marketplace"@,
                fs@ == team@.take(i as int).filter(|s: Seq<char>| !withdrawn_at_enterprise(s)),
            decreases n - i,
        {
            let keep = !team.get(i).eq(&gone_a) && !team.get(i).eq(&gone_b);
            if keep {
                let item = team.get(i).clone();
                fs.items.push(item);
                proof {
                    assert(fs@ =~= team@.take(i as int).filter(
                        |s: Seq<char>| !withdrawn_at_enterprise(s),
                    ).push(team@[i as int]));
                }
            }
            proof {
                assert(team@.take(i + 1).drop_last() =~= team@.take(i as int));
                assert(team@.take(i + 1).last() == team@[i as int]);
                reveal_with_fuel(Seq::filter, 2);
            }
            i += 1;
        }
        proof {
            assert(team@.take(n as int) =~= team@);
        }
    fs.add("signed_plugins_only");
    fs.add("unsigned_plugins_blocked");
    fs.add("enterprise_plugin_marketplace");
    fs.add("plugin_signature_validation");
    fs.add("plugin_certification");
    fs.add("compliance_reporting");
    fs.add("sox_reporting");
    fs.add("hipaa_reporting");
    fs.add("gdpr_reporting");
    fs.add("pci_reporting");
    fs.add("soc2_reporting");
    fs.add("cryptographic_integrity");
    fs.add("tamper_detection");
    fs.add("performance_sla_monitoring");
    fs.add("automatic_instrumentation");
    fs.add("forensic_chain_validation");
    fs.add("multi_tenant_isolation");
    fs.add("tenant_administration");
    fs.add("enterprise_api_gateway");
    fs.add("enterprise_dashboard");
    fs.add("role_based_access_control");
    fs.add("enterprise_analytics");
    fs.add("enterprise_database_schema");
    fs.add("polyinstantiation_tables");
    fs.add("compliance_data_retention");
    fs.add("immutable_audit_storage");
        proof {
            assert(fs@ =~= enterprise_feature_list());
        }
        fs
    }

    /// The features of a license tier.
    pub fn features_for_tier(tier: &LicenseTier) -> (r: FeatureSet)
        ensures
            r@ == feature_list_of(*tier),
    {
        match tier {
            LicenseTier::Community => Self::community_features(),
            LicenseTier::Pro => Self::pro_features(),
            LicenseTier::Team => Self::team_features(),
            LicenseTier::Enterprise => Self::enterprise_features(),
        }
    }

    /// The lowest tier at which a feature becomes available; a feature
    /// not on any tier's list is counted as enterprise-only, the safe
    /// default.
    pub fn minimum_tier_for_feature(feature: &str) -> (r: LicenseTier)
        ensures
            r == min_tier_of(feature@),
    {
        if str_eq(feature, "forensic_logging") || str_eq(feature, "observability") || str_eq(feature, "security_framework") || str_eq(feature, "entity_management") || str_eq(feature, "workflows") || str_eq(feature, "data_storage") || str_eq(feature, "ui_framework") || str_eq(feature, "plugin_system") || str_eq(feature, "unsigned_plugins_allowed") {
            LicenseTier::Community
        } else if str_eq(feature, "ai_embedding") || str_eq(feature, "ai_search") || str_eq(feature, "local_llm") || str_eq(feature, "advanced_storage") || str_eq(feature, "browser_integration") || str_eq(feature, "offline_sync") {
            LicenseTier::Pro
        } else if str_eq(feature, "team_workspaces") || str_eq(feature, "shared_projects") || str_eq(feature, "team_permissions") || str_eq(feature, "collaboration_tools") || str_eq(feature, "team_sync") {
            LicenseTier::Team
        } else {
            LicenseTier::Enterprise
        }
    }

    /// The plugin access mode of a tier: the critical differentiator.
    pub fn plugin_access_mode(tier: &LicenseTier) -> (r: PluginAccessMode)
        ensures
            r == access_mode_of(*tier),
    {
        match tier {
            LicenseTier::Enterprise => PluginAccessMode::SignedOnly,
            _ => PluginAccessMode::UnsignedAllowed,
        }
    }
}

} // verus!
