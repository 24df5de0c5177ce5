//! The alert dispatcher: which events become notifications, which are merged
//! into an earlier one, and in what order notifications leave.

use crate::config::{ModelId, MonitorError, PluginConfig};
use crate::health::ModelStatus;
use crate::remediation::{ActionOutcome, RemediationAction};
use std::collections::VecDeque;
use vstd::prelude::*;

verus! {

/// A change of a model's status, as logged.
#[derive(Debug, Clone, Copy, PartialEq, Eq, Structural)]
pub struct Transition {
    pub model_id: ModelId,
    pub from_status: ModelStatus,
    pub to_status: ModelStatus,
    pub timestamp: u64,
    /// The score of the evaluation that found the new status.
    pub triggering_score: u32,
}

impl Transition {
    /// A transition changes the status.
    pub open spec fn wf(self) -> bool {
        self.from_status != self.to_status
    }
}

/// A notification for the outside world.
#[derive(Debug, Clone, Copy, PartialEq, Eq, Structural)]
pub enum Alert {
    /// A model changed its status.
    StatusChanged(Transition),
    /// A remediation attempt was issued or has completed.
    Remediation(RemediationAction),
}

impl Alert {
    /// The alert reports that remediation has given up.
    pub open spec fn terminal(self) -> bool {
        self matches Alert::Remediation(a) && a.outcome is Exhausted
    }

    /// The model the alert is about.
    pub open spec fn subject(self) -> ModelId {
        match self {
            Alert::StatusChanged(t) => t.model_id,
            Alert::Remediation(a) => a.model_id,
        }
    }

    /// Whether the alert reports that remediation has given up.
    pub fn is_terminal(&self) -> (r: bool)
        ensures
            r == self.terminal(),
    {
        match self {
            Alert::Remediation(a) => match a.outcome {
                ActionOutcome::Exhausted => true,
                _ => false,
            },
            _ => false,
        }
    }

    /// The model the alert is about.
    pub fn model_id(&self) -> (r: ModelId)
        ensures
            r == self.subject(),
    {
        match self {
            Alert::StatusChanged(t) => t.model_id,
            Alert::Remediation(a) => a.model_id,
        }
    }
}

/// `n + 1`, or `n` where the counter is full.
pub open spec fn bump(n: u64) -> u64 {
    if n < u64::MAX {
        (n + 1) as u64
    } else {
        n
    }
}

/// A counter that stops at its largest value.
pub fn bumped(n: u64) -> (r: u64)
    ensures
        r == bump(n),
{
    if n < u64::MAX {
        n + 1
    } else {
        n
    }
}

/// The notification that was last sent for one status of one model.
#[derive(Debug, Clone, Copy, PartialEq, Eq, Structural)]
pub struct Suppression {
    /// Timestamp of the transition that was notified.
    pub anchor: u64,
    /// How many transitions the notification stands for.
    pub occurrences: u64,
}

impl Suppression {
    /// A transition at `timestamp` falls into the window of this
    /// notification and is merged into it.
    pub open spec fn covers(self, timestamp: u64, cfg: PluginConfig) -> bool {
        timestamp < self.anchor + cfg.suppression_window_secs
    }
}

/// The last notification for each status of one model.
#[derive(Debug, Clone, Copy, PartialEq, Eq, Structural)]
pub struct AlertLedger {
    pub healthy: Option<Suppression>,
    pub degraded: Option<Suppression>,
    pub critical: Option<Suppression>,
    pub offline: Option<Suppression>,
}

impl AlertLedger {
    /// No notification has been sent yet.
    pub open spec fn initial() -> AlertLedger {
        AlertLedger { healthy: None, degraded: None, critical: None, offline: None }
    }

    /// The last notification for `status`.
    pub open spec fn entry(self, status: ModelStatus) -> Option<Suppression> {
        match status {
            ModelStatus::Healthy => self.healthy,
            ModelStatus::Degraded => self.degraded,
            ModelStatus::Critical => self.critical,
            ModelStatus::Offline => self.offline,
        }
    }

    /// The ledger with `s` as the last notification for `status`.
    pub open spec fn with_entry(self, status: ModelStatus, s: Suppression) -> AlertLedger {
        match status {
            ModelStatus::Healthy => AlertLedger { healthy: Some(s), ..self },
            ModelStatus::Degraded => AlertLedger { degraded: Some(s), ..self },
            ModelStatus::Critical => AlertLedger { critical: Some(s), ..self },
            ModelStatus::Offline => AlertLedger { offline: Some(s), ..self },
        }
    }

    /// The transition `t` is merged into an earlier notification.
    pub open spec fn merges(self, t: Transition, cfg: PluginConfig) -> bool {
        self.entry(t.to_status) matches Some(s) && s.covers(t.timestamp, cfg)
    }

    /// The ledger after the transition `t`, and the alert to send, if any.
    ///
    /// With alerts switched off nothing happens. A transition into a status
    /// that was notified less than a suppression window ago only raises that
    /// notification's counter; any other is notified and starts a window.
    pub open spec fn after_transition(self, t: Transition, cfg: PluginConfig) -> (
        AlertLedger,
        Option<Alert>,
    ) {
        if !cfg.alert_enabled {
            (self, None)
        } else if self.merges(t, cfg) {
            let s = self.entry(t.to_status)->0;
            (
                self.with_entry(
                    t.to_status,
                    Suppression { anchor: s.anchor, occurrences: bump(s.occurrences) },
                ),
                None,
            )
        } else {
            (
                self.with_entry(t.to_status, Suppression { anchor: t.timestamp, occurrences: 1 }),
                Some(Alert::StatusChanged(t)),
            )
        }
    }

    /// The ledger after a sequence of transitions, first one first.
    pub open spec fn replay(self, ts: Seq<Transition>, cfg: PluginConfig) -> AlertLedger
        decreases ts.len(),
    {
        if ts.len() == 0 {
            self
        } else {
            self.replay(ts.drop_last(), cfg).after_transition(ts.last(), cfg).0
        }
    }

    /// How many alerts for transitions into `status` are sent while the
    /// transitions `ts` are fed to the ledger.
    pub open spec fn notified(self, ts: Seq<Transition>, status: ModelStatus, cfg: PluginConfig) -> nat
        decreases ts.len(),
    {
        if ts.len() == 0 {
            0
        } else {
            let earlier = self.notified(ts.drop_last(), status, cfg);
            let sent = self.replay(ts.drop_last(), cfg).after_transition(ts.last(), cfg).1;
            if ts.last().to_status == status && sent is Some {
                earlier + 1
            } else {
                earlier
            }
        }
    }

    /// A ledger without notifications.
    pub fn new() -> (r: Self)
        ensures
            r == AlertLedger::initial(),
    {
        AlertLedger { healthy: None, degraded: None, critical: None, offline: None }
    }

    /// The last notification for `status`, with its occurrence counter.
    pub fn last_notification(&self, status: ModelStatus) -> (r: Option<Suppression>)
        ensures
            r == self.entry(status),
    {
        match status {
            ModelStatus::Healthy => self.healthy,
            ModelStatus::Degraded => self.degraded,
            ModelStatus::Critical => self.critical,
            ModelStatus::Offline => self.offline,
        }
    }

    fn store(&mut self, status: ModelStatus, s: Suppression)
        ensures
            *final(self) == old(self).with_entry(status, s),
    {
        match status {
            ModelStatus::Healthy => {
                self.healthy = Some(s);
            },
            ModelStatus::Degraded => {
                self.degraded = Some(s);
            },
            ModelStatus::Critical => {
                self.critical = Some(s);
            },
            ModelStatus::Offline => {
                self.offline = Some(s);
            },
        }
    }

    /// Takes note of a transition and returns the alert to send, unless the
    /// transition is merged into an earlier notification.
    pub fn on_transition(&mut self, t: Transition, cfg: &PluginConfig) -> (alert: Option<Alert>)
        ensures
            *final(self) == old(self).after_transition(t, *cfg).0,
            alert == old(self).after_transition(t, *cfg).1,
    {
        if !cfg.alert_enabled {
            return None;
        }
        match self.last_notification(t.to_status) {
            Some(s) => {
                if t.timestamp < s.anchor || t.timestamp - s.anchor < cfg.suppression_window_secs {
                    self.store(
                        t.to_status,
                        Suppression { anchor: s.anchor, occurrences: bumped(s.occurrences) },
                    );
                    return None;
                }
            },
            None => {},
        }
        self.store(t.to_status, Suppression { anchor: t.timestamp, occurrences: 1 });
        Some(Alert::StatusChanged(t))
    }
}

/// The alert for a remediation attempt that was issued or has completed:
/// one for each, as long as alerts are switched on.
pub open spec fn alert_for_action(action: RemediationAction, cfg: PluginConfig) -> Option<Alert> {
    if cfg.alert_enabled {
        Some(Alert::Remediation(action))
    } else {
        None
    }
}

/// Returns the alert to send for a remediation attempt that was issued or
/// has completed.
pub fn on_action(action: RemediationAction, cfg: &PluginConfig) -> (alert: Option<Alert>)
    ensures
        alert == alert_for_action(action, *cfg),
{
    if cfg.alert_enabled {
        Some(Alert::Remediation(action))
    } else {
        None
    }
}

/// Transitions into one status that all fall into one suppression window
/// produce at most one alert, whatever else happens to the model in
/// between: a model that leaves `Healthy` for `Critical` and comes back,
/// again and again within the window, is reported as `Critical` once.
pub proof fn lemma_one_alert_per_window(
    ledger: AlertLedger,
    ts: Seq<Transition>,
    status: ModelStatus,
    start: u64,
    cfg: PluginConfig,
)
    requires
        forall|k: int|
            0 <= k < ts.len() && (#[trigger] ts[k]).to_status == status ==> start <= ts[k].timestamp
                < start + cfg.suppression_window_secs,
    ensures
        ledger.notified(ts, status, cfg) <= 1,
        ledger.notified(ts, status, cfg) == 1 ==> ledger.replay(ts, cfg).entry(status) is Some
            && ledger.replay(ts, cfg).entry(status)->0.anchor >= start,
    decreases ts.len(),
{
    if ts.len() > 0 {
        lemma_one_alert_per_window(ledger, ts.drop_last(), status, start, cfg);
        let t = ts[ts.len() - 1];
        assert(t == ts.last());
    }
}

/// Alerts that wait for a notification channel, oldest first.
///
/// An alert leaves the queue only when the channel has acknowledged it, so
/// every alert is delivered at least once, and alerts leave in the order in
/// which they were produced.
pub struct Outbox {
    queue: VecDeque<Alert>,
    failures: u64,
}

impl Outbox {
    /// The alerts that have not been acknowledged, oldest first.
    pub closed spec fn pending(&self) -> Seq<Alert> {
        self.queue@
    }

    /// How many deliveries have failed so far.
    pub closed spec fn failed(&self) -> u64 {
        self.failures
    }

    /// An empty queue.
    pub fn new() -> (r: Self)
        ensures
            r.pending() == Seq::<Alert>::empty(),
            r.failed() == 0,
    {
        Outbox { queue: VecDeque::new(), failures: 0 }
    }

    /// Appends an alert.
    pub fn enqueue(&mut self, alert: Alert)
        ensures
            final(self).pending() == old(self).pending().push(alert),
            final(self).failed() == old(self).failed(),
    {
        self.queue.push_back(alert);
    }

    /// Number of alerts that wait.
    pub fn len(&self) -> (r: usize)
        ensures
            r == self.pending().len(),
    {
        self.queue.len()
    }

    /// Number of failed deliveries so far.
    pub fn failure_count(&self) -> (r: u64)
        ensures
            r == self.failed(),
    {
        self.failures
    }

    /// The alert to deliver next: the oldest that waits.
    pub fn next(&self) -> (r: Option<Alert>)
        ensures
            r == (if self.pending().len() > 0 {
                Some(self.pending()[0])
            } else {
                None
            }),
    {
        if self.queue.len() > 0 {
            Some(self.queue[0])
        } else {
            None
        }
    }

    /// Takes note of how the delivery of the oldest alert went. After an
    /// acknowledgement the alert leaves the queue; after a failure it stays,
    /// to be delivered again, and the failure is counted.
    pub fn settle(&mut self, result: Result<(), MonitorError>)
        ensures
            result is Ok && old(self).pending().len() > 0 ==> final(self).pending() == old(self).pending().drop_first(),
            result is Err || old(self).pending().len() == 0 ==> final(self).pending() == old(self).pending(),
            final(self).failed() == (if result is Err {
                bump(old(self).failed())
            } else {
                old(self).failed()
            }),
    {
        match result {
            Ok(_) => {
                let _ = self.queue.pop_front();
                assert(old(self).queue@.len() > 0 ==> self.queue@ =~= old(self).queue@.drop_first());
            },
            Err(_) => {
                self.failures = bumped(self.failures);
            },
        }
    }
}

} // verus!
