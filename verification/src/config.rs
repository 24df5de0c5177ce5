//! Process-wide configuration and the error taxonomy.

use vstd::prelude::*;

verus! {

/// The fixed-point representation of 1.0: ratios are counted in millionths.
pub const SCALE: u32 = 1_000_000;

/// Identity of a monitored model (the 128 bits of its UUID).
pub type ModelId = u128;

/// What can go wrong in and around the monitor.
#[derive(Debug, Clone, Copy, PartialEq, Eq, Structural)]
pub enum MonitorError {
    /// An operation named a model that is not registered.
    UnknownModel,
    /// A remediation attempt failed.
    ExecutorFailure,
    /// A remediation attempt did not finish in time; counted as a failure.
    ExecutorTimeout,
    /// A notification channel did not acknowledge an alert.
    ChannelDeliveryFailure,
    /// The configuration breaks one of its rules.
    ConfigurationInvalid,
    /// A sample's value lies outside the unit interval.
    InvalidSample,
}

/// The options every component reads. Built once, then only passed around.
#[derive(Debug, Clone, Copy, PartialEq, Eq, Structural)]
pub struct PluginConfig {
    /// Minutes between two evaluation ticks.
    pub check_interval_minutes: u32,
    /// Scores at or above this are `Healthy`.
    pub performance_threshold: u32,
    /// Scores at or above this, and below `performance_threshold`, are
    /// `Degraded`; lower scores are `Critical`.
    pub degraded_threshold: u32,
    /// How many of the most recent samples enter a score.
    pub window_size: u32,
    /// Weight of the newest sample in the moving average, in millionths.
    pub decay: u32,
    /// A model with no sample younger than this many seconds is `Offline`.
    pub offline_after_secs: u64,
    /// Seconds of quiet after a remediation attempt has completed.
    pub cooldown_secs: u64,
    /// Consecutive failed attempts after which remediation gives up.
    pub max_attempts: u32,
    /// Seconds during which a repeated alert is merged into the first.
    pub suppression_window_secs: u64,
    /// Samples this many seconds older than the newest are dropped on write.
    pub eviction_horizon_secs: u64,
    /// Whether remediation actions are issued at all.
    pub auto_remediation: bool,
    /// Whether `Degraded` starts remediation as `Critical` does.
    pub remediate_degraded: bool,
    /// Whether alerts are produced at all.
    pub alert_enabled: bool,
}

impl PluginConfig {
    /// The rules a configuration has to keep: the status boundaries are
    /// strictly ordered inside the unit interval, every duration is positive,
    /// and the averaging parameters and the retry budget are usable.
    pub open spec fn valid(&self) -> bool {
        &&& 0 < self.degraded_threshold < self.performance_threshold <= SCALE
        &&& 0 < self.decay <= SCALE
        &&& self.window_size >= 1
        &&& self.max_attempts >= 1
        &&& self.check_interval_minutes > 0
        &&& self.offline_after_secs > 0
        &&& self.cooldown_secs > 0
        &&& self.suppression_window_secs > 0
        &&& self.eviction_horizon_secs > 0
    }

    /// The defaults: a tick every 5 minutes, Healthy from 0.85, Degraded from
    /// 0.60, the last 20 samples with decay 0.3, Offline after 15 minutes,
    /// 10 minutes of cooldown, 5 attempts, alerts merged for 5 minutes,
    /// samples kept for a day.
    pub open spec fn standard() -> PluginConfig {
        PluginConfig {
            check_interval_minutes: 5,
            performance_threshold: 850_000,
            degraded_threshold: 600_000,
            window_size: 20,
            decay: 300_000,
            offline_after_secs: 900,
            cooldown_secs: 600,
            max_attempts: 5,
            suppression_window_secs: 300,
            eviction_horizon_secs: 86_400,
            auto_remediation: true,
            remediate_degraded: false,
            alert_enabled: true,
        }
    }

    /// The tick interval in seconds.
    pub open spec fn interval_secs(&self) -> int {
        self.check_interval_minutes * 60
    }

    /// Checks the rules of `valid`; a configuration that breaks one is
    /// refused with `ConfigurationInvalid`.
    pub fn validate(&self) -> (r: Result<(), MonitorError>)
        ensures
            r is Ok <==> self.valid(),
            r is Err ==> r == Err::<(), MonitorError>(MonitorError::ConfigurationInvalid),
    {
        if 0 < self.degraded_threshold && self.degraded_threshold < self.performance_threshold
            && self.performance_threshold <= SCALE && 0 < self.decay && self.decay <= SCALE
            && self.window_size >= 1 && self.max_attempts >= 1 && self.check_interval_minutes > 0
            && self.offline_after_secs > 0 && self.cooldown_secs > 0
            && self.suppression_window_secs > 0 && self.eviction_horizon_secs > 0 {
            Ok(())
        } else {
            Err(MonitorError::ConfigurationInvalid)
        }
    }

    /// The tick interval in seconds.
    pub fn check_interval_secs(&self) -> (r: u64)
        ensures
            r == self.interval_secs(),
    {
        self.check_interval_minutes as u64 * 60
    }
}

impl Default for PluginConfig {
    fn default() -> (r: Self)
        ensures
            r == PluginConfig::standard(),
            r.valid(),
    {
        PluginConfig {
            check_interval_minutes: 5,
            performance_threshold: 850_000,
            degraded_threshold: 600_000,
            window_size: 20,
            decay: 300_000,
            offline_after_secs: 900,
            cooldown_secs: 600,
            max_attempts: 5,
            suppression_window_secs: 300,
            eviction_horizon_secs: 86_400,
            auto_remediation: true,
            remediate_degraded: false,
            alert_enabled: true,
        }
    }
}

} // verus!
