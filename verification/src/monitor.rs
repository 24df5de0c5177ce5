//! The monitor: the registry of models with, for each model, its samples,
//! its remediation engine and its alert ledger, and the evaluation cycle that
//! ties them together.

use crate::alerts::{alert_for_action, on_action, Alert, AlertLedger, Outbox, Suppression, Transition};
use crate::config::{ModelId, MonitorError, PluginConfig, SCALE};
use crate::health::{
    assess, evaluate_window, in_unit_interval, lemma_score_in_unit_interval, ModelStatus, Sample,
};
use crate::remediation::{
    lemma_apply_keeps_wf, EngineEvent, EngineModel, RemediationAction, RemediationEngine,
    RemediationState,
};
use crate::scheduler::{Scheduler, TickDecision};
use crate::store::{ordered, owned_by, recent_of, recorded, MetricStore};
use vstd::prelude::*;

verus! {

/// A model under monitoring: who it is, and what the last evaluation found.
#[derive(Debug)]
pub struct MonitoredModel {
    pub id: ModelId,
    pub name: String,
    pub model_type: String,
    /// Status found by the last evaluation; `Offline` before the first.
    pub status: ModelStatus,
    /// When the model was registered.
    pub created_at: u64,
    /// When the model was last evaluated.
    pub last_check: u64,
    /// Score found by the last evaluation, in millionths.
    pub performance_score: u32,
}

/// The model as a registration at `now` creates it.
pub open spec fn registered(id: ModelId, name: String, model_type: String, now: u64) -> MonitoredModel {
    MonitoredModel {
        id,
        name,
        model_type,
        status: ModelStatus::Offline,
        created_at: now,
        last_check: now,
        performance_score: 0,
    }
}

/// What one evaluation cycle of one model found and did.
#[derive(Debug, Clone, Copy, PartialEq, Eq, Structural)]
pub struct CycleReport {
    pub model_id: ModelId,
    pub status: ModelStatus,
    pub score: u32,
    /// The change of status, if the status changed.
    pub transition: Option<Transition>,
    /// The remediation attempt that was issued, if one was.
    pub action: Option<RemediationAction>,
    /// The alert sent for the transition, unless it was merged or there was
    /// none.
    pub status_alert: Option<Alert>,
    /// The alert sent for the attempt, if there was one.
    pub action_alert: Option<Alert>,
}

/// The alert as a sequence of one, or the empty sequence.
pub open spec fn listed(alert: Option<Alert>) -> Seq<Alert> {
    match alert {
        Some(a) => seq![a],
        None => Seq::empty(),
    }
}

impl CycleReport {
    /// The alerts of the cycle in the order in which they are sent: the one
    /// for the transition before the one for the attempt.
    pub open spec fn alerts(self) -> Seq<Alert> {
        listed(self.status_alert) + listed(self.action_alert)
    }
}

/// The mathematical state of one registered model.
pub struct SlotModel {
    pub model: MonitoredModel,
    /// The stored samples, oldest first.
    pub samples: Seq<Sample>,
    pub engine: EngineModel,
    pub ledger: AlertLedger,
}

impl SlotModel {
    /// The state of a model that has just been registered.
    pub open spec fn fresh(model: MonitoredModel) -> SlotModel {
        SlotModel {
            model,
            samples: Seq::empty(),
            engine: EngineModel::initial(),
            ledger: AlertLedger::initial(),
        }
    }

    /// The invariant of one model's state under `cfg`.
    pub open spec fn wf(self, cfg: PluginConfig) -> bool {
        &&& ordered(self.samples)
        &&& in_unit_interval(self.samples)
        &&& owned_by(self.samples, self.model.id)
        &&& self.engine.wf(cfg)
        &&& self.model.performance_score <= SCALE
    }

    /// The same model with other samples.
    pub open spec fn with_samples(self, samples: Seq<Sample>) -> SlotModel {
        SlotModel { samples, ..self }
    }

    /// The same model with another engine state.
    pub open spec fn with_engine(self, engine: EngineModel) -> SlotModel {
        SlotModel { engine, ..self }
    }

    /// The change of status that an evaluation with `status` and `score` at
    /// `now` amounts to, if it is one.
    pub open spec fn transition_to(self, status: ModelStatus, score: u32, now: u64) -> Option<
        Transition,
    > {
        if status != self.model.status {
            Some(
                Transition {
                    model_id: self.model.id,
                    from_status: self.model.status,
                    to_status: status,
                    timestamp: now,
                    triggering_score: score,
                },
            )
        } else {
            None
        }
    }

    /// The model after the executor has reported on its attempt in flight,
    /// and that attempt as it is then logged, if there was one.
    pub open spec fn settle(self, failed: bool, now: u64, cfg: PluginConfig) -> (
        SlotModel,
        Option<RemediationAction>,
    ) {
        let stepped = self.engine.on_outcome(failed, now, cfg);
        (self.with_engine(stepped.0), stepped.1)
    }

    /// One evaluation cycle at `now`: the model is evaluated from its
    /// samples, the result goes to its remediation engine, and a change of
    /// status and an issued attempt go to the alert dispatcher. Gives the
    /// state after the cycle and the cycle's report.
    pub open spec fn cycle(self, now: u64, cfg: PluginConfig) -> (SlotModel, CycleReport) {
        let found = assess(self.samples, now, cfg);
        let status = found.0;
        let score = found.1 as u32;
        let transition = self.transition_to(status, score, now);
        let stepped = self.engine.on_evaluation(self.model.id, status, now, cfg);
        let noted = match transition {
            Some(t) => self.ledger.after_transition(t, cfg),
            None => (self.ledger, None),
        };
        let action_alert = match stepped.1 {
            Some(a) => alert_for_action(a, cfg),
            None => None,
        };
        (
            SlotModel {
                model: MonitoredModel {
                    status,
                    last_check: now,
                    performance_score: score,
                    ..self.model
                },
                samples: self.samples,
                engine: stepped.0,
                ledger: noted.0,
            },
            CycleReport {
                model_id: self.model.id,
                status,
                score,
                transition,
                action: stepped.1,
                status_alert: noted.1,
                action_alert,
            },
        )
    }
}

/// The mathematical state of the monitor.
pub struct MonitorModel {
    pub config: PluginConfig,
    /// The registered models in the order of their registration.
    pub slots: Seq<SlotModel>,
    pub scheduler: Scheduler,
    /// The alerts that wait for delivery, oldest first.
    pub outbox: Seq<Alert>,
    /// Deliveries that failed so far.
    pub delivery_failures: u64,
    /// The latest time the monitor has worked at. Inside the monitor time
    /// never runs backwards: work asked for at an earlier time is done at
    /// this one.
    pub clock: u64,
}

/// When the status change that `alert` reports was found; -1 for an alert
/// that reports none.
pub open spec fn transition_time(alert: Alert) -> int {
    match alert {
        Alert::StatusChanged(t) => t.timestamp as int,
        Alert::Remediation(_) => -1,
    }
}

/// The status changes among `outbox` are in the order of their timestamps,
/// and none is later than `clock`.
pub open spec fn delivery_ordered(outbox: Seq<Alert>, clock: u64) -> bool {
    &&& forall|i: int| 0 <= i < outbox.len() ==> transition_time(#[trigger] outbox[i]) <= clock
    &&& forall|i: int, j: int|
        0 <= i <= j < outbox.len() && (#[trigger] outbox[i]) is StatusChanged && (
        #[trigger] outbox[j]) is StatusChanged ==> transition_time(outbox[i]) <= transition_time(
            outbox[j],
        )
}

impl MonitorModel {
    /// A monitor without models.
    pub open spec fn initial(config: PluginConfig) -> MonitorModel {
        MonitorModel {
            config,
            slots: Seq::empty(),
            scheduler: Scheduler::initial(),
            outbox: Seq::empty(),
            delivery_failures: 0,
            clock: 0,
        }
    }

    /// The invariant of the monitor: its configuration is valid, every
    /// model's state is well-formed, no id is registered twice, and the
    /// status changes that wait for delivery wait in the order of their
    /// timestamps.
    pub open spec fn wf(self) -> bool {
        &&& self.config.valid()
        &&& delivery_ordered(self.outbox, self.clock)
        &&& forall|i: int| 0 <= i < self.slots.len() ==> (#[trigger] self.slots[i]).wf(self.config)
        &&& forall|i: int, j: int|
            0 <= i < self.slots.len() && 0 <= j < self.slots.len() && i != j ==> (
            #[trigger] self.slots[i]).model.id != (#[trigger] self.slots[j]).model.id
    }

    /// Model `id` is registered.
    pub open spec fn contains(self, id: ModelId) -> bool {
        exists|i: int| 0 <= i < self.slots.len() && (#[trigger] self.slots[i]).model.id == id
    }

    /// The place of model `id` among the registered models.
    pub open spec fn position(self, id: ModelId) -> int {
        choose|i: int| 0 <= i < self.slots.len() && (#[trigger] self.slots[i]).model.id == id
    }

    /// The state of model `id`.
    pub open spec fn slot(self, id: ModelId) -> SlotModel {
        self.slots[self.position(id)]
    }

    /// The same monitor with other model states.
    pub open spec fn with_slots(self, slots: Seq<SlotModel>) -> MonitorModel {
        MonitorModel { slots, ..self }
    }

    /// The same monitor with `slot` as the state of model `id`.
    pub open spec fn with_slot(self, id: ModelId, slot: SlotModel) -> MonitorModel {
        self.with_slots(self.slots.update(self.position(id), slot))
    }

    /// The same monitor with `alerts` added to those that wait for delivery.
    pub open spec fn with_alerts(self, alerts: Seq<Alert>) -> MonitorModel {
        MonitorModel { outbox: self.outbox + alerts, ..self }
    }

    /// The same monitor with another scheduler state.
    pub open spec fn with_scheduler(self, scheduler: Scheduler) -> MonitorModel {
        MonitorModel { scheduler, ..self }
    }

    /// The time at which work asked for at `now` is done: `now`, unless the
    /// monitor has worked at a later time already.
    pub open spec fn at(self, now: u64) -> u64 {
        if now >= self.clock {
            now
        } else {
            self.clock
        }
    }

    /// The same monitor at the time at which work asked for at `now` is done.
    pub open spec fn advanced(self, now: u64) -> MonitorModel {
        MonitorModel { clock: self.at(now), ..self }
    }
}

/// Status changes leave in the order of their timestamps: of two that wait
/// for delivery, the one nearer the head of the queue is not the later one.
/// So the changes of any one model are delivered in timestamp order.
pub proof fn lemma_delivery_in_timestamp_order(m: MonitorModel, i: int, j: int)
    requires
        m.wf(),
        0 <= i <= j < m.outbox.len(),
        m.outbox[i] is StatusChanged,
        m.outbox[j] is StatusChanged,
    ensures
        m.outbox[i]->StatusChanged_0.timestamp <= m.outbox[j]->StatusChanged_0.timestamp,
{
    assert(transition_time(m.outbox[i]) <= transition_time(m.outbox[j]));
}

/// A cycle reports a transition only where the status has changed.
pub proof fn lemma_transitions_change_status(s: SlotModel, now: u64, cfg: PluginConfig)
    ensures
        s.cycle(now, cfg).1.transition matches Some(t) ==> t.wf() && t.from_status
            == s.model.status && t.to_status == s.cycle(now, cfg).0.model.status && t.timestamp
            == now,
{
}

/// In a well-formed monitor the model at place `i` is found at place `i`.
pub proof fn lemma_position(m: MonitorModel, i: int)
    requires
        m.wf(),
        0 <= i < m.slots.len(),
    ensures
        m.contains(m.slots[i].model.id),
        m.position(m.slots[i].model.id) == i,
{
}

/// The state of a model that is brought back from what was persisted: the
/// model as it was last known, no samples, the engine that the logged events
/// rebuild, and an empty ledger.
pub open spec fn restored(model: MonitoredModel, events: Seq<EngineEvent>, cfg: PluginConfig) -> SlotModel {
    SlotModel {
        model,
        samples: Seq::empty(),
        engine: EngineModel::initial().run(model.id, events, cfg),
        ledger: AlertLedger::initial(),
    }
}

/// The alert for an attempt that has completed, if there was one.
pub open spec fn outcome_alert(done: Option<RemediationAction>, cfg: PluginConfig) -> Option<Alert> {
    match done {
        Some(a) => alert_for_action(a, cfg),
        None => None,
    }
}

/// Every model after its own evaluation cycle at `now`: what becomes of one
/// model depends on nothing but that model.
pub open spec fn cycled(slots: Seq<SlotModel>, now: u64, cfg: PluginConfig) -> Seq<SlotModel> {
    Seq::new(slots.len(), |i: int| slots[i].cycle(now, cfg).0)
}

/// The reports of those cycles, in the order of the models.
pub open spec fn reports_of(slots: Seq<SlotModel>, now: u64, cfg: PluginConfig) -> Seq<CycleReport> {
    Seq::new(slots.len(), |i: int| slots[i].cycle(now, cfg).1)
}

/// The alerts of a sequence of reports, in the order of the reports.
pub open spec fn alerts_of(reports: Seq<CycleReport>) -> Seq<Alert>
    decreases reports.len(),
{
    if reports.len() == 0 {
        Seq::empty()
    } else {
        alerts_of(reports.drop_last()) + reports.last().alerts()
    }
}

/// How many of the models have `status`.
pub open spec fn count_with(slots: Seq<SlotModel>, status: ModelStatus) -> nat
    decreases slots.len(),
{
    if slots.len() == 0 {
        0
    } else if slots.last().model.status == status {
        count_with(slots.drop_last(), status) + 1
    } else {
        count_with(slots.drop_last(), status)
    }
}

/// The sum of the models' scores.
pub open spec fn score_total(slots: Seq<SlotModel>) -> nat
    decreases slots.len(),
{
    if slots.len() == 0 {
        0
    } else {
        score_total(slots.drop_last()) + slots.last().model.performance_score as nat
    }
}

/// `n` as far as 32 bits can count.
pub open spec fn capped(n: nat) -> u32 {
    if n <= u32::MAX {
        n as u32
    } else {
        u32::MAX
    }
}

/// The average performance that is reported while no model is registered.
pub const BASELINE_PERFORMANCE: u32 = 930_000;

/// Counts over all registered models.
#[derive(Debug, Clone, Copy, PartialEq, Eq, Structural)]
pub struct SystemMetrics {
    pub total_models: u64,
    pub healthy_models: u32,
    pub degraded_models: u32,
    /// The mean of the models' scores, in millionths, rounded down.
    pub average_performance: u32,
}

/// The metrics of a set of models.
pub open spec fn metrics_of(slots: Seq<SlotModel>) -> SystemMetrics {
    SystemMetrics {
        total_models: slots.len() as u64,
        healthy_models: capped(count_with(slots, ModelStatus::Healthy)),
        degraded_models: capped(count_with(slots, ModelStatus::Degraded)),
        average_performance: if slots.len() == 0 {
            BASELINE_PERFORMANCE
        } else {
            (score_total(slots) / slots.len()) as u32
        },
    }
}

/// An evaluation cycle keeps a model's state well-formed and its identity.
pub proof fn lemma_cycle_keeps_wf(s: SlotModel, now: u64, cfg: PluginConfig)
    requires
        s.wf(cfg),
        cfg.valid(),
    ensures
        s.cycle(now, cfg).0.wf(cfg),
        s.cycle(now, cfg).0.model.id == s.model.id,
        s.cycle(now, cfg).0.samples == s.samples,
{
    lemma_score_in_unit_interval(s.samples, now, cfg);
    let status = assess(s.samples, now, cfg).0;
    lemma_apply_keeps_wf(s.engine, s.model.id, EngineEvent::Evaluated { status, now }, cfg);
}

/// Everything the monitor keeps for one model.
struct ModelSlot {
    model: MonitoredModel,
    store: MetricStore,
    engine: RemediationEngine,
    ledger: AlertLedger,
}

impl View for ModelSlot {
    type V = SlotModel;

    closed spec fn view(&self) -> SlotModel {
        SlotModel {
            model: self.model,
            samples: self.store@,
            engine: self.engine@,
            ledger: self.ledger,
        }
    }
}

impl ModelSlot {
    spec fn inv(&self, cfg: PluginConfig) -> bool {
        &&& self@.wf(cfg)
        &&& self.store.sound()
        &&& self.store.owner() == self.model.id
    }

    fn cycle(&mut self, now: u64, cfg: &PluginConfig) -> (report: CycleReport)
        requires
            old(self).inv(*cfg),
            cfg.valid(),
        ensures
            final(self).inv(*cfg),
            final(self)@ == old(self)@.cycle(now, *cfg).0,
            report == old(self)@.cycle(now, *cfg).1,
    {
        proof {
            lemma_cycle_keeps_wf(self@, now, *cfg);
        }
        let found = evaluate_window(self.store.samples(), now, cfg);
        let status: ModelStatus = found.0;
        let score: u32 = found.1;
        let transition: Option<Transition> = if status != self.model.status {
            Some(
                Transition {
                    model_id: self.model.id,
                    from_status: self.model.status,
                    to_status: status,
                    timestamp: now,
                    triggering_score: score,
                },
            )
        } else {
            None
        };
        let action = self.engine.on_evaluation(self.model.id, status, now, cfg);
        let status_alert: Option<Alert> = match transition {
            Some(t) => self.ledger.on_transition(t, cfg),
            None => None,
        };
        let action_alert: Option<Alert> = match action {
            Some(a) => on_action(a, cfg),
            None => None,
        };
        self.model.status = status;
        self.model.last_check = now;
        self.model.performance_score = score;
        CycleReport {
            model_id: self.model.id,
            status,
            score,
            transition,
            action,
            status_alert,
            action_alert,
        }
    }
}

spec fn slot_views(slots: Seq<ModelSlot>) -> Seq<SlotModel> {
    Seq::new(slots.len(), |i: int| slots[i]@)
}

/// The monitor.
pub struct PluginState {
    config: PluginConfig,
    slots: Vec<ModelSlot>,
    scheduler: Scheduler,
    outbox: Outbox,
    clock: u64,
}

impl View for PluginState {
    type V = MonitorModel;

    closed spec fn view(&self) -> MonitorModel {
        MonitorModel {
            config: self.config,
            slots: slot_views(self.slots@),
            scheduler: self.scheduler,
            outbox: self.outbox.pending(),
            delivery_failures: self.outbox.failed(),
            clock: self.clock,
        }
    }
}

impl PluginState {
    /// The invariant that every operation keeps. It implies that the
    /// monitor's mathematical state is well-formed (`lemma_inv`).
    pub closed spec fn inv(&self) -> bool {
        &&& self@.wf()
        &&& forall|i: int|
            0 <= i < self.slots@.len() ==> (#[trigger] self.slots@[i]).store.sound()
                && self.slots@[i].store.owner() == self.slots@[i].model.id
    }

    /// A monitor that keeps its invariant has a well-formed state.
    pub proof fn lemma_inv(&self)
        requires
            self.inv(),
        ensures
            self@.wf(),
    {
    }

    /// A monitor without models under `config`, which is checked first.
    pub fn new(config: PluginConfig) -> (r: Result<PluginState, MonitorError>)
        ensures
            r is Ok <==> config.valid(),
            r matches Ok(s) ==> s@ == MonitorModel::initial(config) && s.inv(),
            r matches Err(e) ==> e == MonitorError::ConfigurationInvalid,
    {
        match config.validate() {
            Ok(_) => {
                let s = PluginState {
                    config,
                    slots: Vec::new(),
                    scheduler: Scheduler::new(),
                    outbox: Outbox::new(),
                    clock: 0,
                };
                assert(s@.slots =~= Seq::<SlotModel>::empty());
                Ok(s)
            },
            Err(e) => Err(e),
        }
    }

    /// The configuration.
    pub fn config(&self) -> (r: PluginConfig)
        ensures
            r == self@.config,
    {
        self.config
    }

    /// Number of registered models.
    pub fn model_count(&self) -> (r: usize)
        ensures
            r == self@.slots.len(),
    {
        self.slots.len()
    }

    /// The place of model `id` in the registry.
    fn find(&self, id: ModelId) -> (r: Option<usize>)
        requires
            self.inv(),
        ensures
            r is Some <==> self@.contains(id),
            r matches Some(i) ==> i < self.slots@.len() && i == self@.position(id)
                && self.slots@[i as int]@ == self@.slot(id),
    {
        let mut i: usize = 0;
        while i < self.slots.len()
            invariant
                self.inv(),
                i <= self.slots@.len(),
                forall|j: int| 0 <= j < i ==> (#[trigger] self@.slots[j]).model.id != id,
            decreases self.slots@.len() - i,
        {
            if self.slots[i].model.id == id {
                proof {
                    assert(self@.slots[i as int].model.id == id);
                    lemma_position(self@, i as int);
                }
                return Some(i);
            }
            i += 1;
        }
        None
    }

    /// The ids of the registered models in the order of their registration.
    pub fn model_ids(&self) -> (r: Vec<ModelId>)
        ensures
            r@.len() == self@.slots.len(),
            forall|i: int| 0 <= i < r@.len() ==> r@[i] == (#[trigger] self@.slots[i]).model.id,
    {
        let mut out: Vec<ModelId> = Vec::new();
        let mut i: usize = 0;
        while i < self.slots.len()
            invariant
                i <= self.slots@.len(),
                out@.len() == i,
                forall|j: int| 0 <= j < i ==> out@[j] == (#[trigger] self@.slots[j]).model.id,
            decreases self.slots@.len() - i,
        {
            out.push(self.slots[i].model.id);
            i += 1;
        }
        out
    }

    /// Whether model `id` is registered.
    pub fn is_registered(&self, id: ModelId) -> (r: bool)
        requires
            self.inv(),
        ensures
            r == self@.contains(id),
    {
        self.find(id).is_some()
    }

    /// The registered model `id` as the last evaluation left it.
    pub fn model(&self, id: ModelId) -> (r: Option<&MonitoredModel>)
        requires
            self.inv(),
        ensures
            r is Some <==> self@.contains(id),
            r matches Some(m) ==> *m == self@.slot(id).model,
    {
        match self.find(id) {
            Some(i) => Some(&self.slots[i].model),
            None => None,
        }
    }

    /// Registers a model. Registration is idempotent by id: where `id` is
    /// registered already nothing changes and the answer is `false`. A new
    /// model starts `Offline` with score 0, without samples, with an idle
    /// engine and an empty ledger.
    pub fn register(&mut self, id: ModelId, name: String, model_type: String, now: u64) -> (added:
        bool)
        requires
            old(self).inv(),
        ensures
            final(self).inv(),
            added == !old(self)@.contains(id),
            added ==> final(self)@ == old(self)@.with_slots(
                old(self)@.slots.push(SlotModel::fresh(registered(id, name, model_type, now))),
            ),
            !added ==> final(self)@ == old(self)@,
    {
        if self.find(id).is_some() {
            return false;
        }
        let slot = ModelSlot {
            model: MonitoredModel {
                id,
                name,
                model_type,
                status: ModelStatus::Offline,
                created_at: now,
                last_check: now,
                performance_score: 0,
            },
            store: MetricStore::new(id),
            engine: RemediationEngine::new(),
            ledger: AlertLedger::new(),
        };
        assert(slot@ == SlotModel::fresh(registered(id, name, model_type, now)));
        assert(slot@.wf(self.config));
        self.slots.push(slot);
        assert(self@.slots =~= old(self)@.slots.push(slot@));
        true
    }

    /// Brings a model back after a restart: with its identity, its last
    /// known status and score as `model` holds them, and with the
    /// remediation engine that the log `events` rebuilds. Its samples are
    /// not brought back; they are written again like any others.
    ///
    /// Nothing happens, and the answer is `false`, where the id is
    /// registered already or the score is above 1.
    pub fn restore(&mut self, model: MonitoredModel, events: &[EngineEvent]) -> (added: bool)
        requires
            old(self).inv(),
        ensures
            final(self).inv(),
            added == (!old(self)@.contains(model.id) && model.performance_score <= SCALE),
            added ==> final(self)@ == old(self)@.with_slots(
                old(self)@.slots.push(restored(model, events@, old(self)@.config)),
            ),
            !added ==> final(self)@ == old(self)@,
    {
        if model.performance_score > SCALE || self.find(model.id).is_some() {
            return false;
        }
        let id: ModelId = model.id;
        let engine = RemediationEngine::replay(id, events, &self.config);
        let slot = ModelSlot { model, store: MetricStore::new(id), engine, ledger: AlertLedger::new() };
        assert(slot@ == restored(model, events@, self.config));
        assert(slot@.wf(self.config));
        self.slots.push(slot);
        assert(self@.slots =~= old(self)@.slots.push(slot@));
        true
    }

    /// Removes a model with everything kept for it; `UnknownModel` where
    /// `id` is not registered.
    pub fn remove(&mut self, id: ModelId) -> (r: Result<(), MonitorError>)
        requires
            old(self).inv(),
        ensures
            final(self).inv(),
            r is Ok <==> old(self)@.contains(id),
            r is Ok ==> final(self)@ == old(self)@.with_slots(
                old(self)@.slots.remove(old(self)@.position(id)),
            ) && !final(self)@.contains(id),
            r is Err ==> r == Err::<(), MonitorError>(MonitorError::UnknownModel) && final(self)@
                == old(self)@,
    {
        match self.find(id) {
            Some(i) => {
                self.slots.remove(i);
                assert(self@.slots =~= old(self)@.slots.remove(i as int));
                Ok(())
            },
            None => Err(MonitorError::UnknownModel),
        }
    }

    /// Writes a sample to the store of the model it names.
    ///
    /// Fails with `UnknownModel` where that model is not registered and with
    /// `InvalidSample` where the value is above 1; the monitor is then
    /// unchanged. Otherwise the sample takes its place in time order among
    /// the model's samples, and those that are then more than the eviction
    /// horizon older than the newest are dropped.
    pub fn record(&mut self, sample: Sample) -> (r: Result<(), MonitorError>)
        requires
            old(self).inv(),
        ensures
            final(self).inv(),
            r == (if !old(self)@.contains(sample.model_id) {
                Err::<(), MonitorError>(MonitorError::UnknownModel)
            } else if sample.value > SCALE {
                Err::<(), MonitorError>(MonitorError::InvalidSample)
            } else {
                Ok::<(), MonitorError>(())
            }),
            r is Ok ==> final(self)@ == old(self)@.with_slot(
                sample.model_id,
                old(self)@.slot(sample.model_id).with_samples(
                    recorded(
                        old(self)@.slot(sample.model_id).samples,
                        sample,
                        old(self)@.config.eviction_horizon_secs,
                    ),
                ),
            ),
            r is Err ==> final(self)@ == old(self)@,
    {
        match self.find(sample.model_id) {
            Some(i) => {
                let horizon: u64 = self.config.eviction_horizon_secs;
                let r = self.slots[i].store.record(sample, horizon);
                proof {
                    if r is Ok {
                        assert(self@.slots =~= old(self)@.slots.update(
                            i as int,
                            old(self)@.slots[i as int].with_samples(
                                recorded(old(self)@.slots[i as int].samples, sample, horizon),
                            ),
                        ));
                    } else {
                        assert(self@.slots =~= old(self)@.slots);
                    }
                }
                r
            },
            None => Err(MonitorError::UnknownModel),
        }
    }

    /// The samples of model `id` that are no older than `window` seconds at
    /// `now`, oldest first; `UnknownModel` where `id` is not registered. The
    /// slice borrows from the store: finite, and to be walked as often as
    /// needed.
    pub fn recent(&self, id: ModelId, now: u64, window: u64) -> (r: Result<&[Sample], MonitorError>)
        requires
            self.inv(),
        ensures
            r is Ok <==> self@.contains(id),
            r matches Ok(s) ==> s@ == recent_of(self@.slot(id).samples, now, window),
            r matches Err(e) ==> e == MonitorError::UnknownModel,
    {
        match self.find(id) {
            Some(i) => {
                assert(self@.slots[i as int].wf(self@.config));
                Ok(self.slots[i].store.recent(now, window))
            },
            None => Err(MonitorError::UnknownModel),
        }
    }

    /// Evaluates model `id` at `now` from its stored samples and changes
    /// nothing; `UnknownModel` where `id` is not registered.
    ///
    /// The score is the moving average of the newest `window_size` samples.
    /// The status is `Offline` where no sample is younger than
    /// `offline_after_secs` (so also without samples, with score 0), and
    /// otherwise `Healthy`, `Degraded` or `Critical` by the two thresholds.
    pub fn evaluate(&self, id: ModelId, now: u64) -> (r: Result<(ModelStatus, u32), MonitorError>)
        requires
            self.inv(),
        ensures
            r is Ok <==> self@.contains(id),
            r matches Ok(found) ==> found.0 == assess(self@.slot(id).samples, now, self@.config).0
                && found.1 == assess(self@.slot(id).samples, now, self@.config).1 && found.1
                <= SCALE,
            r matches Ok(found) ==> (self@.slot(id).samples.len() == 0 ==> found == (
                ModelStatus::Offline,
                0u32,
            )),
            r matches Err(e) ==> e == MonitorError::UnknownModel,
    {
        match self.find(id) {
            Some(i) => {
                assert(self@.slots[i as int].wf(self@.config));
                Ok(evaluate_window(self.slots[i].store.samples(), now, &self.config))
            },
            None => Err(MonitorError::UnknownModel),
        }
    }

    /// Moves the clock to the time at which work asked for at `now` is done.
    fn observe(&mut self, now: u64) -> (at: u64)
        requires
            old(self).inv(),
        ensures
            final(self).inv(),
            at == old(self)@.at(now),
            final(self)@ == old(self)@.advanced(now),
    {
        if now > self.clock {
            self.clock = now;
        }
        self.clock
    }

    /// The latest time the monitor has worked at.
    pub fn clock(&self) -> (r: u64)
        ensures
            r == self@.clock,
    {
        self.clock
    }

    fn post(&mut self, alert: Option<Alert>)
        requires
            old(self).inv(),
            alert matches Some(a) ==> transition_time(a) == -1 || transition_time(a) == old(self)@.clock,
        ensures
            final(self).inv(),
            final(self)@ == old(self)@.with_alerts(listed(alert)),
    {
        match alert {
            Some(a) => {
                self.outbox.enqueue(a);
                assert(old(self)@.outbox + listed(alert) =~= old(self)@.outbox.push(a));
            },
            None => {
                assert(self@.outbox + listed(alert) =~= self@.outbox);
            },
        }
    }

    /// Runs one evaluation cycle of model `id` at `now`; `UnknownModel`
    /// where `id` is not registered, and nothing changes then.
    ///
    /// The model is evaluated from its samples; status, score and the time
    /// are noted in the model; the status goes to the remediation engine,
    /// which may issue an attempt; a change of status and an issued attempt
    /// go to the alert dispatcher, and the alerts it sends join those that
    /// wait for delivery. No other model is touched.
    pub fn evaluate_model(&mut self, id: ModelId, now: u64) -> (r: Result<CycleReport, MonitorError>)
        requires
            old(self).inv(),
        ensures
            final(self).inv(),
            r is Ok <==> old(self)@.contains(id),
            r matches Ok(report) ==> report == old(self)@.slot(id).cycle(
                old(self)@.at(now),
                old(self)@.config,
            ).1 && final(self)@ == old(self)@.advanced(now).with_slot(
                id,
                old(self)@.slot(id).cycle(old(self)@.at(now), old(self)@.config).0,
            ).with_alerts(report.alerts()),
            r matches Err(e) ==> e == MonitorError::UnknownModel && final(self)@ == old(self)@,
    {
        match self.find(id) {
            Some(i) => {
                let cfg: PluginConfig = self.config;
                let at: u64 = self.observe(now);
                let ghost before = self@.slots[i as int];
                proof {
                    lemma_cycle_keeps_wf(before, at, cfg);
                    assert(self.slots@[i as int].inv(cfg));
                }
                let report = self.slots[i].cycle(at, &cfg);
                assert(self@.slots =~= old(self)@.slots.update(i as int, before.cycle(at, cfg).0));
                self.post(report.status_alert);
                self.post(report.action_alert);
                assert(self@.outbox =~= old(self)@.outbox + report.alerts());
                Ok(report)
            },
            None => Err(MonitorError::UnknownModel),
        }
    }

    /// Takes the executor's report on the attempt of model `id` that is in
    /// flight: `Ok` for a success, any error for a failure (a timeout counts
    /// as one). `UnknownModel` where `id` is not registered.
    ///
    /// Returns the attempt as it is now logged, or `None` where none was in
    /// flight; the engine moves on as its state machine says, and the alert
    /// for the completed attempt joins those that wait for delivery.
    pub fn report_outcome(
        &mut self,
        id: ModelId,
        result: Result<(), MonitorError>,
        now: u64,
    ) -> (r: Result<Option<RemediationAction>, MonitorError>)
        requires
            old(self).inv(),
        ensures
            final(self).inv(),
            r is Ok <==> old(self)@.contains(id),
            r matches Ok(done) ==> done == old(self)@.slot(id).settle(
                result is Err,
                old(self)@.at(now),
                old(self)@.config,
            ).1 && final(self)@ == old(self)@.advanced(now).with_slot(
                id,
                old(self)@.slot(id).settle(result is Err, old(self)@.at(now), old(self)@.config).0,
            ).with_alerts(listed(outcome_alert(done, old(self)@.config))),
            r matches Err(e) ==> e == MonitorError::UnknownModel && final(self)@ == old(self)@,
    {
        match self.find(id) {
            Some(i) => {
                let cfg: PluginConfig = self.config;
                let failed: bool = result.is_err();
                let at: u64 = self.observe(now);
                let ghost before = self@.slots[i as int];
                assert(self.slots@[i as int].inv(cfg));
                let done = self.slots[i].engine.on_outcome(failed, at, &cfg);
                assert(self@.slots =~= old(self)@.slots.update(
                    i as int,
                    before.settle(failed, at, cfg).0,
                ));
                let alert: Option<Alert> = match done {
                    Some(a) => on_action(a, &cfg),
                    None => None,
                };
                self.post(alert);
                Ok(done)
            },
            None => Err(MonitorError::UnknownModel),
        }
    }

    /// An operator's reset of the remediation of model `id`: its engine is
    /// `Idle` again with the failure count cleared. `UnknownModel` where
    /// `id` is not registered.
    pub fn reset_remediation(&mut self, id: ModelId) -> (r: Result<(), MonitorError>)
        requires
            old(self).inv(),
        ensures
            final(self).inv(),
            r is Ok <==> old(self)@.contains(id),
            r is Ok ==> final(self)@ == old(self)@.with_slot(
                id,
                old(self)@.slot(id).with_engine(old(self)@.slot(id).engine.reset()),
            ),
            r is Err ==> r == Err::<(), MonitorError>(MonitorError::UnknownModel) && final(self)@
                == old(self)@,
    {
        match self.find(id) {
            Some(i) => {
                let cfg: PluginConfig = self.config;
                let ghost before = self@.slots[i as int];
                self.slots[i].engine.reset(&cfg);
                assert(self@.slots =~= old(self)@.slots.update(
                    i as int,
                    before.with_engine(before.engine.reset()),
                ));
                Ok(())
            },
            None => Err(MonitorError::UnknownModel),
        }
    }

    /// The remediation state of model `id`.
    pub fn remediation_state(&self, id: ModelId) -> (r: Result<RemediationState, MonitorError>)
        requires
            self.inv(),
        ensures
            r is Ok <==> self@.contains(id),
            r matches Ok(state) ==> state == self@.slot(id).engine.state,
            r matches Err(e) ==> e == MonitorError::UnknownModel,
    {
        match self.find(id) {
            Some(i) => Ok(self.slots[i].engine.state()),
            None => Err(MonitorError::UnknownModel),
        }
    }

    /// Every remediation attempt of model `id`, oldest first.
    pub fn remediation_history(&self, id: ModelId) -> (r: Result<&Vec<RemediationAction>, MonitorError>)
        requires
            self.inv(),
        ensures
            r is Ok <==> self@.contains(id),
            r matches Ok(history) ==> history@ == self@.slot(id).engine.history,
            r matches Err(e) ==> e == MonitorError::UnknownModel,
    {
        match self.find(id) {
            Some(i) => Ok(self.slots[i].engine.history()),
            None => Err(MonitorError::UnknownModel),
        }
    }

    /// The last notification sent for transitions of model `id` into
    /// `status`, with the number of transitions it stands for.
    pub fn last_notification(&self, id: ModelId, status: ModelStatus) -> (r: Result<
        Option<Suppression>,
        MonitorError,
    >)
        requires
            self.inv(),
        ensures
            r is Ok <==> self@.contains(id),
            r matches Ok(entry) ==> entry == self@.slot(id).ledger.entry(status),
            r matches Err(e) ==> e == MonitorError::UnknownModel,
    {
        match self.find(id) {
            Some(i) => Ok(self.slots[i].ledger.last_notification(status)),
            None => Err(MonitorError::UnknownModel),
        }
    }

    /// The scheduler's bookkeeping: the next due time, the running tick, and
    /// the counters of skipped and completed ticks.
    pub fn scheduler(&self) -> (r: Scheduler)
        ensures
            r == self@.scheduler,
    {
        self.scheduler
    }

    /// Asks the scheduler for a tick at `now`. Only the scheduler changes:
    /// a tick that is skipped or not due touches no model.
    pub fn begin_tick(&mut self, now: u64) -> (decision: TickDecision)
        requires
            old(self).inv(),
        ensures
            final(self).inv(),
            decision == old(self)@.scheduler.after_poll(old(self)@.at(now), old(self)@.config).1,
            final(self)@ == old(self)@.advanced(now).with_scheduler(
                old(self)@.scheduler.after_poll(old(self)@.at(now), old(self)@.config).0,
            ),
    {
        let cfg: PluginConfig = self.config;
        let at: u64 = self.observe(now);
        self.scheduler.poll(at, &cfg)
    }

    /// Whether the running tick may start another evaluation at `now`.
    pub fn may_evaluate(&self, now: u64) -> (r: bool)
        ensures
            r == self@.scheduler.admits(now, self@.config),
    {
        self.scheduler.may_evaluate(now, &self.config)
    }

    /// Ends the running tick.
    pub fn end_tick(&mut self)
        requires
            old(self).inv(),
        ensures
            final(self).inv(),
            final(self)@ == old(self)@.with_scheduler(old(self)@.scheduler.after_finish()),
    {
        self.scheduler.finish();
    }

    /// One tick at `now`, from start to end: where the scheduler starts it,
    /// every registered model goes through its evaluation cycle, in the
    /// order of registration, and the reports come back in that order. Where
    /// the tick is not due, or skipped, no model is touched and no report
    /// comes back.
    pub fn tick(&mut self, now: u64) -> (r: (TickDecision, Vec<CycleReport>))
        requires
            old(self).inv(),
        ensures
            final(self).inv(),
            r.0 == old(self)@.scheduler.after_poll(old(self)@.at(now), old(self)@.config).1,
            r.0 is Started ==> r.1@ == reports_of(
                old(self)@.slots,
                old(self)@.at(now),
                old(self)@.config,
            ) && final(self)@ == old(self)@.advanced(now).with_slots(
                cycled(old(self)@.slots, old(self)@.at(now), old(self)@.config),
            ).with_alerts(alerts_of(r.1@)).with_scheduler(
                old(self)@.scheduler.after_poll(
                    old(self)@.at(now),
                    old(self)@.config,
                ).0.after_finish(),
            ),
            !(r.0 is Started) ==> r.1@.len() == 0 && final(self)@ == old(self)@.advanced(now).with_scheduler(
                old(self)@.scheduler.after_poll(old(self)@.at(now), old(self)@.config).0,
            ),
    {
        let cfg: PluginConfig = self.config;
        let at: u64 = self.observe(now);
        let now: u64 = at;
        let decision = self.scheduler.poll(now, &cfg);
        let mut out: Vec<CycleReport> = Vec::new();
        match decision {
            TickDecision::Started => {},
            _ => {
                return (decision, out);
            },
        }
        let ghost start = old(self)@.advanced(now);
        let ghost all = reports_of(start.slots, now, cfg);
        let n: usize = self.slots.len();
        let mut i: usize = 0;
        assert(start.outbox + alerts_of(all.take(0)) =~= start.outbox);
        while i < n
            invariant
                self.inv(),
                i <= n,
                n == start.slots.len(),
                self@.slots.len() == n,
                cfg == start.config,
                start.wf(),
                all == reports_of(start.slots, now, cfg),
                self@.config == cfg,
                self@.scheduler == start.scheduler.after_poll(now, cfg).0,
                self@.delivery_failures == start.delivery_failures,
                self@.clock == now,
                forall|j: int| 0 <= j < i ==> #[trigger] self@.slots[j] == start.slots[j].cycle(now, cfg).0,
                forall|j: int| i <= j < n ==> #[trigger] self@.slots[j] == start.slots[j],
                out@ == all.take(i as int),
                self@.outbox == start.outbox + alerts_of(all.take(i as int)),
            decreases n - i,
        {
            let ghost before = self@;
            proof {
                lemma_cycle_keeps_wf(start.slots[i as int], now, cfg);
                assert(self@.slots[i as int] == start.slots[i as int]);
                assert(self@.slots[i as int].wf(cfg));
                assert(self.slots@[i as int].inv(cfg));
            }
            let report = self.slots[i].cycle(now, &cfg);
            assert(self@.slots =~= before.slots.update(i as int, start.slots[i as int].cycle(now, cfg).0));
            self.post(report.status_alert);
            self.post(report.action_alert);
            out.push(report);
            proof {
                assert(all.take(i + 1).drop_last() =~= all.take(i as int));
                assert(all.take(i + 1).last() == report);
                assert(self@.outbox =~= start.outbox + alerts_of(all.take(i + 1)));
            }
            i += 1;
        }
        self.scheduler.finish();
        proof {
            assert(all.take(n as int) =~= all);
            assert(self@.slots =~= cycled(start.slots, now, cfg));
        }
        (decision, out)
    }

    /// The alert to deliver next: the oldest that waits.
    pub fn next_alert(&self) -> (r: Option<Alert>)
        ensures
            r == (if self@.outbox.len() > 0 {
                Some(self@.outbox[0])
            } else {
                None
            }),
    {
        self.outbox.next()
    }

    /// Number of alerts that wait for delivery.
    pub fn pending_alerts(&self) -> (r: usize)
        ensures
            r == self@.outbox.len(),
    {
        self.outbox.len()
    }

    /// Number of deliveries that failed so far.
    pub fn delivery_failures(&self) -> (r: u64)
        ensures
            r == self@.delivery_failures,
    {
        self.outbox.failure_count()
    }

    /// Takes note of how the delivery of the oldest waiting alert went. An
    /// acknowledged alert leaves the queue. After a failure it stays at the
    /// head, to be delivered again, and the failure is counted: alerts leave
    /// in the order in which they were produced, each at least once.
    pub fn confirm_delivery(&mut self, result: Result<(), MonitorError>)
        requires
            old(self).inv(),
        ensures
            final(self).inv(),
            final(self)@.config == old(self)@.config,
            final(self)@.slots == old(self)@.slots,
            final(self)@.scheduler == old(self)@.scheduler,
            final(self)@.clock == old(self)@.clock,
            final(self)@.outbox == (if result is Ok && old(self)@.outbox.len() > 0 {
                old(self)@.outbox.drop_first()
            } else {
                old(self)@.outbox
            }),
            final(self)@.delivery_failures == (if result is Err {
                crate::alerts::bump(old(self)@.delivery_failures)
            } else {
                old(self)@.delivery_failures
            }),
    {
        self.outbox.settle(result);
        proof {
            let before = old(self)@.outbox;
            let after = self@.outbox;
            if after != before {
                assert forall|i: int| 0 <= i < after.len() implies #[trigger] after[i] == before[i + 1] by {}
            }
        }
    }

    /// Counts over all registered models: how many there are, how many are
    /// `Healthy` and how many `Degraded` as of their last evaluation, and the
    /// mean of their scores. Without models the mean is reported as
    /// `BASELINE_PERFORMANCE`.
    pub fn system_metrics(&self) -> (r: SystemMetrics)
        requires
            self.inv(),
        ensures
            r == metrics_of(self@.slots),
            r.average_performance <= SCALE,
    {
        let n: usize = self.slots.len();
        let mut healthy: u64 = 0;
        let mut degraded: u64 = 0;
        let mut total: u128 = 0;
        let mut i: usize = 0;
        while i < n
            invariant
                self.inv(),
                i <= n,
                n == self@.slots.len(),
                healthy == count_with(self@.slots.take(i as int), ModelStatus::Healthy),
                degraded == count_with(self@.slots.take(i as int), ModelStatus::Degraded),
                total == score_total(self@.slots.take(i as int)),
                healthy <= i,
                degraded <= i,
                total <= i * SCALE,
            decreases n - i,
        {
            proof {
                assert(self@.slots.take(i + 1).drop_last() =~= self@.slots.take(i as int));
                assert(self@.slots.take(i + 1).last() == self@.slots[i as int]);
                assert(self@.slots[i as int].wf(self@.config));
                assert((i + 1) * SCALE == i * SCALE + SCALE) by (nonlinear_arith);
            }
            match self.slots[i].model.status {
                ModelStatus::Healthy => {
                    healthy += 1;
                },
                ModelStatus::Degraded => {
                    degraded += 1;
                },
                _ => {},
            }
            total += self.slots[i].model.performance_score as u128;
            i += 1;
        }
        assert(self@.slots.take(n as int) =~= self@.slots);
        let average: u32 = if n == 0 {
            BASELINE_PERFORMANCE
        } else {
            proof {
                assert(total / (n as u128) <= SCALE) by (nonlinear_arith)
                    requires
                        total <= n * SCALE,
                        n > 0,
                ;
            }
            (total / (n as u128)) as u32
        };
        SystemMetrics {
            total_models: n as u64,
            healthy_models: if healthy <= u32::MAX as u64 {
                healthy as u32
            } else {
                u32::MAX
            },
            degraded_models: if degraded <= u32::MAX as u64 {
                degraded as u32
            } else {
                u32::MAX
            },
            average_performance: average,
        }
    }
}

impl Default for PluginState {
    /// A monitor without models under the default configuration.
    fn default() -> (r: Self)
        ensures
            r@ == MonitorModel::initial(PluginConfig::standard()),
            r.inv(),
    {
        let s = PluginState {
            config: PluginConfig::default(),
            slots: Vec::new(),
            scheduler: Scheduler::new(),
            outbox: Outbox::new(),
            clock: 0,
        };
        assert(s@.slots =~= Seq::<SlotModel>::empty());
        s
    }
}

} // verus!
