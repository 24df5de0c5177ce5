//! The plugin: what the monitor is called, what it costs, and the monitor
//! itself.

use crate::config::PluginConfig;
use crate::monitor::{MonitorModel, PluginState};
use vstd::prelude::*;

verus! {

/// The version that the plugin reports.
pub const PLUGIN_VERSION: &'static str = "0.1.0";

/// How the plugin describes itself.
#[derive(Debug, Clone)]
pub struct PluginInfo {
    pub id: String,
    pub name: String,
    pub version: String,
    pub description: String,
    pub author: String,
    pub category: String,
}

/// One offer of the price list.
#[derive(Debug, Clone)]
pub struct PricingTier {
    pub name: String,
    /// The monthly price in cents.
    pub price: u32,
    pub features: Vec<String>,
}

/// A pricing tier as plain data.
pub struct TierModel {
    pub name: Seq<char>,
    pub price: u32,
    pub features: Seq<Seq<char>>,
}

impl View for PricingTier {
    type V = TierModel;

    open spec fn view(&self) -> TierModel {
        TierModel {
            name: self.name@,
            price: self.price,
            features: Seq::new(self.features@.len(), |i: int| self.features@[i]@),
        }
    }
}

/// The smallest offer: 1,500 dollars a month.
pub open spec fn starter_tier() -> TierModel {
    TierModel {
        name: "Starter"@,
        price: 150_000,
        features: seq![
            "Basic model monitoring"@,
            "Up to 10 models"@,
            "Performance dashboards"@,
            "Email alerts"@,
        ],
    }
}

/// The middle offer: 7,500 dollars a month.
pub open spec fn professional_tier() -> TierModel {
    TierModel {
        name: "Professional"@,
        price: 750_000,
        features: seq![
            "Advanced monitoring & analytics"@,
            "Up to 100 models"@,
            "Auto-remediation"@,
            "Custom metrics"@,
            "Priority support"@,
        ],
    }
}

/// The largest offer: 30,000 dollars a month.
pub open spec fn enterprise_tier() -> TierModel {
    TierModel {
        name: "Enterprise"@,
        price: 3_000_000,
        features: seq![
            "Unlimited models"@,
            "Advanced AI-driven optimization"@,
            "Custom remediation workflows"@,
            "Dedicated support team"@,
            "On-premises deployment"@,
        ],
    }
}

/// The monthly price of a tier in whole dollars and the cents beyond them.
pub fn price_in_dollars(price: u32) -> (r: (u32, u32))
    ensures
        r.0 * 100 + r.1 == price,
        r.1 < 100,
{
    (price / 100, price % 100)
}

/// The monitoring plugin: its description and its monitor.
pub struct ModelPerformanceMonitoringPlugin {
    /// How the plugin describes itself.
    pub info: PluginInfo,
    /// The monitor. All monitoring goes through it.
    pub state: PluginState,
}

impl ModelPerformanceMonitoringPlugin {
    /// A plugin with an empty monitor under the default configuration.
    pub fn new() -> (r: Self)
        ensures
            r.info.id@ == "adios.model-performance-monitoring"@,
            r.info.name@ == "AdiOS Model Performance Monitoring"@,
            r.info.version@ == PLUGIN_VERSION@,
            r.info.description@ == "Enterprise model performance monitoring service"@,
            r.info.author@ == "TridentBiz Team"@,
            r.info.category@ == "enterprise"@,
            r.state@ == MonitorModel::initial(PluginConfig::standard()),
            r.state.inv(),
    {
        let info = PluginInfo {
            id: "adios.model-performance-monitoring".to_owned(),
            name: "AdiOS Model Performance Monitoring".to_owned(),
            version: PLUGIN_VERSION.to_owned(),
            description: "Enterprise model performance monitoring service".to_owned(),
            author: "TridentBiz Team".to_owned(),
            category: "enterprise".to_owned(),
        };
        ModelPerformanceMonitoringPlugin { info, state: PluginState::default() }
    }

    /// The plugin's name.
    pub fn name(&self) -> (r: &str)
        ensures
            r@ == self.info.name@,
    {
        self.info.name.as_str()
    }

    /// The plugin's version.
    pub fn version(&self) -> (r: &str)
        ensures
            r@ == self.info.version@,
    {
        self.info.version.as_str()
    }

    /// What the plugin is for.
    pub fn description(&self) -> (r: &str)
        ensures
            r@ == self.info.description@,
    {
        self.info.description.as_str()
    }

    /// The price list: three tiers, from the smallest to the largest.
    pub fn pricing_tiers(&self) -> (r: Vec<PricingTier>)
        ensures
            r@.len() == 3,
            r@[0]@ == starter_tier(),
            r@[1]@ == professional_tier(),
            r@[2]@ == enterprise_tier(),
    {
        let mut starter: Vec<String> = Vec::new();
        starter.push("Basic model monitoring".to_owned());
        starter.push("Up to 10 models".to_owned());
        starter.push("Performance dashboards".to_owned());
        starter.push("Email alerts".to_owned());
        let mut professional: Vec<String> = Vec::new();
        professional.push("Advanced monitoring & analytics".to_owned());
        professional.push("Up to 100 models".to_owned());
        professional.push("Auto-remediation".to_owned());
        professional.push("Custom metrics".to_owned());
        professional.push("Priority support".to_owned());
        let mut enterprise: Vec<String> = Vec::new();
        enterprise.push("Unlimited models".to_owned());
        enterprise.push("Advanced AI-driven optimization".to_owned());
        enterprise.push("Custom remediation workflows".to_owned());
        enterprise.push("Dedicated support team".to_owned());
        enterprise.push("On-premises deployment".to_owned());
        let first = PricingTier { name: "Starter".to_owned(), price: 150_000, features: starter };
        let second = PricingTier {
            name: "Professional".to_owned(),
            price: 750_000,
            features: professional,
        };
        let third = PricingTier {
            name: "Enterprise".to_owned(),
            price: 3_000_000,
            features: enterprise,
        };
        assert(first@.features =~= starter_tier().features);
        assert(second@.features =~= professional_tier().features);
        assert(third@.features =~= enterprise_tier().features);
        let mut tiers: Vec<PricingTier> = Vec::new();
        tiers.push(first);
        tiers.push(second);
        tiers.push(third);
        tiers
    }
}

} // verus!
