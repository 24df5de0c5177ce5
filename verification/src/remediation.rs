//! The remediation engine: one state machine per model that answers bad
//! evaluations with remediation attempts, waits between them and gives up
//! after too many failures in a row.

use crate::config::{ModelId, PluginConfig};
use crate::health::ModelStatus;
use vstd::prelude::*;

verus! {

/// Where a model's remediation stands.
#[derive(Debug, Clone, Copy, PartialEq, Eq, Structural)]
pub enum RemediationState {
    /// Nothing to do, or waiting for the next bad evaluation.
    Idle,
    /// An attempt has been issued and its outcome is awaited.
    Remediating,
    /// An attempt completed at `since`; no new one is issued for a while.
    Cooldown { since: u64 },
    /// The retry budget is spent. Only a `Healthy` evaluation or an operator's
    /// reset leaves this state.
    Exhausted,
}

/// What a remediation attempt does.
#[derive(Debug, Clone, Copy, PartialEq, Eq, Structural)]
pub enum ActionKind {
    /// Answer to a `Critical` model.
    Restart,
    /// Answer to a `Degraded` model.
    Retune,
}

/// How a remediation attempt ended, or that it has not ended yet.
#[derive(Debug, Clone, Copy, PartialEq, Eq, Structural)]
pub enum ActionOutcome {
    Pending,
    Succeeded,
    Failed,
    /// Failed, and with it the retry budget was spent.
    Exhausted,
}

/// One remediation attempt, as the engine logs it.
#[derive(Debug, Clone, Copy, PartialEq, Eq, Structural)]
pub struct RemediationAction {
    pub model_id: ModelId,
    pub action_kind: ActionKind,
    /// Number of this attempt within the current run of failures, from 1.
    pub attempt_count: u32,
    /// When the attempt was issued.
    pub last_attempt_at: u64,
    pub outcome: ActionOutcome,
}

/// What reaches the engine of one model. A log of these events is all that
/// is needed to rebuild the engine.
#[derive(Debug, Clone, Copy, PartialEq, Eq, Structural)]
pub enum EngineEvent {
    /// The evaluator reported `status` at `now`.
    Evaluated { status: ModelStatus, now: u64 },
    /// The executor finished the attempt in flight at `now`.
    Completed { failed: bool, now: u64 },
    /// An operator reset the engine.
    Reset,
}

/// Whether an evaluation with `status` asks for remediation.
pub open spec fn triggers(status: ModelStatus, cfg: PluginConfig) -> bool {
    cfg.auto_remediation && (status is Critical || (status is Degraded && cfg.remediate_degraded))
}

/// The kind of attempt that answers `status`.
pub open spec fn kind_for(status: ModelStatus) -> ActionKind {
    if status is Critical {
        ActionKind::Restart
    } else {
        ActionKind::Retune
    }
}

/// A cooldown entered at `since` is over at `now`.
pub open spec fn cooled_down(since: u64, now: u64, cfg: PluginConfig) -> bool {
    now - since >= cfg.cooldown_secs
}

/// The mathematical state of one model's engine.
pub struct EngineModel {
    pub state: RemediationState,
    /// Failed attempts in a row since the last success, `Healthy` evaluation
    /// or reset.
    pub attempts: u32,
    /// Every attempt ever issued, oldest first.
    pub history: Seq<RemediationAction>,
}

impl EngineModel {
    /// A fresh engine: idle, no failures, no history.
    pub open spec fn initial() -> EngineModel {
        EngineModel { state: RemediationState::Idle, attempts: 0, history: Seq::empty() }
    }

    /// An attempt is awaiting its outcome.
    pub open spec fn in_flight(self) -> bool {
        self.history.len() > 0 && self.history.last().outcome is Pending
    }

    /// The invariant of the engine under `cfg`: only the newest attempt can be
    /// pending; `Remediating` means exactly that one is awaited by the state
    /// machine, and during a cooldown or after giving up none is; the failure
    /// count stays within the budget and reaches it exactly in `Exhausted`.
    pub open spec fn wf(self, cfg: PluginConfig) -> bool {
        &&& forall|i: int|
            0 <= i < self.history.len() - 1 ==> !((#[trigger] self.history[i]).outcome is Pending)
        &&& self.state is Remediating ==> self.in_flight()
        &&& self.in_flight() ==> self.state is Idle || self.state is Remediating
        &&& self.attempts <= cfg.max_attempts
        &&& self.state is Exhausted <==> self.attempts == cfg.max_attempts
    }

    /// The state once an elapsed cooldown has been left.
    pub open spec fn settled(self, now: u64, cfg: PluginConfig) -> RemediationState {
        match self.state {
            RemediationState::Cooldown { since } => if cooled_down(since, now, cfg) {
                RemediationState::Idle
            } else {
                self.state
            },
            _ => self.state,
        }
    }

    /// The engine after an evaluation, and the attempt it issues, if any.
    ///
    /// `Healthy` leads to `Idle` from every state and clears the failure
    /// count. Otherwise an elapsed cooldown is left first; then, from `Idle`,
    /// a status that asks for remediation starts an attempt unless one is
    /// still in flight.
    pub open spec fn on_evaluation(
        self,
        id: ModelId,
        status: ModelStatus,
        now: u64,
        cfg: PluginConfig,
    ) -> (EngineModel, Option<RemediationAction>) {
        if status is Healthy {
            (EngineModel { state: RemediationState::Idle, attempts: 0, history: self.history }, None)
        } else {
            let state = self.settled(now, cfg);
            if state is Idle && triggers(status, cfg) && !self.in_flight() {
                let action = RemediationAction {
                    model_id: id,
                    action_kind: kind_for(status),
                    attempt_count: (self.attempts + 1) as u32,
                    last_attempt_at: now,
                    outcome: ActionOutcome::Pending,
                };
                (
                    EngineModel {
                        state: RemediationState::Remediating,
                        attempts: self.attempts,
                        history: self.history.push(action),
                    },
                    Some(action),
                )
            } else {
                (EngineModel { state, attempts: self.attempts, history: self.history }, None)
            }
        }
    }

    /// How the attempt in flight is logged when it completes.
    pub open spec fn verdict(self, failed: bool, cfg: PluginConfig) -> ActionOutcome {
        if !failed {
            ActionOutcome::Succeeded
        } else if self.state is Remediating && self.attempts + 1 >= cfg.max_attempts {
            ActionOutcome::Exhausted
        } else {
            ActionOutcome::Failed
        }
    }

    /// The engine after the executor has reported on the attempt in flight,
    /// and that attempt as it is now logged; nothing changes where no attempt
    /// is in flight.
    ///
    /// From `Remediating` a success clears the failure count and a failure
    /// adds to it; the engine then cools down, unless the budget is spent:
    /// then it is `Exhausted`. An attempt that a `Healthy` evaluation or a
    /// reset has overtaken is only logged.
    pub open spec fn on_outcome(self, failed: bool, now: u64, cfg: PluginConfig) -> (
        EngineModel,
        Option<RemediationAction>,
    ) {
        if !self.in_flight() {
            (self, None)
        } else {
            let last = self.history.last();
            let done = RemediationAction { outcome: self.verdict(failed, cfg), ..last };
            let history = self.history.drop_last().push(done);
            if !(self.state is Remediating) {
                (EngineModel { state: self.state, attempts: self.attempts, history }, Some(done))
            } else if !failed {
                (
                    EngineModel { state: RemediationState::Cooldown { since: now }, attempts: 0, history },
                    Some(done),
                )
            } else if self.attempts + 1 >= cfg.max_attempts {
                (
                    EngineModel {
                        state: RemediationState::Exhausted,
                        attempts: (self.attempts + 1) as u32,
                        history,
                    },
                    Some(done),
                )
            } else {
                (
                    EngineModel {
                        state: RemediationState::Cooldown { since: now },
                        attempts: (self.attempts + 1) as u32,
                        history,
                    },
                    Some(done),
                )
            }
        }
    }

    /// The engine after an operator's reset: idle, with the failure count
    /// cleared. An attempt in flight stays in flight.
    pub open spec fn reset(self) -> EngineModel {
        EngineModel { state: RemediationState::Idle, attempts: 0, history: self.history }
    }

    /// The engine after one event.
    pub open spec fn apply(self, id: ModelId, event: EngineEvent, cfg: PluginConfig) -> EngineModel {
        match event {
            EngineEvent::Evaluated { status, now } => self.on_evaluation(id, status, now, cfg).0,
            EngineEvent::Completed { failed, now } => self.on_outcome(failed, now, cfg).0,
            EngineEvent::Reset => self.reset(),
        }
    }

    /// The engine after a sequence of events, first event first.
    pub open spec fn run(self, id: ModelId, events: Seq<EngineEvent>, cfg: PluginConfig) -> EngineModel
        decreases events.len(),
    {
        if events.len() == 0 {
            self
        } else {
            self.run(id, events.drop_last(), cfg).apply(id, events.last(), cfg)
        }
    }

    /// How many events of `events` are failures of an attempt that the state
    /// machine was waiting for.
    pub open spec fn failures_taken(self, id: ModelId, events: Seq<EngineEvent>, cfg: PluginConfig) -> nat
        decreases events.len(),
    {
        if events.len() == 0 {
            0
        } else {
            let before = self.run(id, events.drop_last(), cfg);
            let earlier = self.failures_taken(id, events.drop_last(), cfg);
            if before.state is Remediating && events.last() matches EngineEvent::Completed {
                failed: true,
                ..
            } {
                earlier + 1
            } else {
                earlier
            }
        }
    }
}

/// An event that ends a run of failures: a `Healthy` evaluation, a reset, or
/// a success.
pub open spec fn relieves(event: EngineEvent) -> bool {
    match event {
        EngineEvent::Evaluated { status, .. } => status is Healthy,
        EngineEvent::Completed { failed, .. } => !failed,
        EngineEvent::Reset => true,
    }
}

/// Every event keeps the engine's invariant.
pub proof fn lemma_apply_keeps_wf(e: EngineModel, id: ModelId, event: EngineEvent, cfg: PluginConfig)
    requires
        e.wf(cfg),
        cfg.valid(),
    ensures
        e.apply(id, event, cfg).wf(cfg),
{
    let next = e.apply(id, event, cfg);
    match event {
        EngineEvent::Evaluated { status, now } => {
            assert forall|i: int| 0 <= i < next.history.len() - 1 implies !((#[trigger] next.history[i]).outcome is Pending) by {
                if i < e.history.len() - 1 {
                    assert(next.history[i] == e.history[i]);
                }
            }
        },
        EngineEvent::Completed { failed, now } => {
            assert forall|i: int| 0 <= i < next.history.len() - 1 implies !((#[trigger] next.history[i]).outcome is Pending) by {
                assert(next.history[i] == e.history[i]);
            }
        },
        EngineEvent::Reset => {},
    }
}

/// Every sequence of events keeps the engine's invariant.
pub proof fn lemma_run_keeps_wf(e: EngineModel, id: ModelId, events: Seq<EngineEvent>, cfg: PluginConfig)
    requires
        e.wf(cfg),
        cfg.valid(),
    ensures
        e.run(id, events, cfg).wf(cfg),
    decreases events.len(),
{
    if events.len() > 0 {
        lemma_run_keeps_wf(e, id, events.drop_last(), cfg);
        lemma_apply_keeps_wf(e.run(id, events.drop_last(), cfg), id, events.last(), cfg);
    }
}

/// At no time are two attempts of one model pending: whatever events have
/// reached a fresh engine, any two pending entries of its history are one
/// and the same entry.
pub proof fn lemma_single_pending_action(
    id: ModelId,
    events: Seq<EngineEvent>,
    cfg: PluginConfig,
    i: int,
    j: int,
)
    requires
        cfg.valid(),
        0 <= i < EngineModel::initial().run(id, events, cfg).history.len(),
        0 <= j < EngineModel::initial().run(id, events, cfg).history.len(),
        EngineModel::initial().run(id, events, cfg).history[i].outcome is Pending,
        EngineModel::initial().run(id, events, cfg).history[j].outcome is Pending,
    ensures
        i == j,
{
    lemma_run_keeps_wf(EngineModel::initial(), id, events, cfg);
}

/// Once the budget is spent the engine stays `Exhausted` through every
/// evaluation that is not `Healthy` and every report of the executor.
pub proof fn lemma_exhausted_until_healthy(
    e: EngineModel,
    id: ModelId,
    events: Seq<EngineEvent>,
    cfg: PluginConfig,
)
    requires
        e.wf(cfg),
        cfg.valid(),
        e.state is Exhausted,
        forall|k: int|
            0 <= k < events.len() ==> !(#[trigger] events[k] is Reset) && !(events[k] matches EngineEvent::Evaluated {
                status: ModelStatus::Healthy,
                ..
            }),
    ensures
        e.run(id, events, cfg).state is Exhausted,
        e.run(id, events, cfg).attempts == cfg.max_attempts,
    decreases events.len(),
{
    if events.len() > 0 {
        lemma_exhausted_until_healthy(e, id, events.drop_last(), cfg);
        lemma_run_keeps_wf(e, id, events.drop_last(), cfg);
        assert(events.drop_last().len() == events.len() - 1);
        assert(!(events[events.len() - 1] is Reset));
    }
}

/// Failures in a row add up: as long as nothing relieves the model, the
/// failure count grows by one with every failed attempt that the state
/// machine was waiting for, and once `max_attempts` are reached the engine
/// is `Exhausted`.
pub proof fn lemma_failures_exhaust(
    e: EngineModel,
    id: ModelId,
    events: Seq<EngineEvent>,
    cfg: PluginConfig,
)
    requires
        e.wf(cfg),
        cfg.valid(),
        forall|k: int| 0 <= k < events.len() ==> !relieves(#[trigger] events[k]),
    ensures
        e.run(id, events, cfg).attempts == e.attempts + e.failures_taken(id, events, cfg),
        e.attempts + e.failures_taken(id, events, cfg) >= cfg.max_attempts ==> e.run(
            id,
            events,
            cfg,
        ).state is Exhausted,
    decreases events.len(),
{
    if events.len() > 0 {
        let earlier = events.drop_last();
        lemma_failures_exhaust(e, id, earlier, cfg);
        lemma_run_keeps_wf(e, id, earlier, cfg);
        lemma_run_keeps_wf(e, id, events, cfg);
        assert(!relieves(events[events.len() - 1]));
    }
}

/// The remediation engine of one model.
pub struct RemediationEngine {
    state: RemediationState,
    attempts: u32,
    history: Vec<RemediationAction>,
}

impl View for RemediationEngine {
    type V = EngineModel;

    closed spec fn view(&self) -> EngineModel {
        EngineModel { state: self.state, attempts: self.attempts, history: self.history@ }
    }
}

impl RemediationEngine {
    /// A fresh engine.
    pub fn new() -> (r: Self)
        ensures
            r@ == EngineModel::initial(),
            forall|cfg: PluginConfig| cfg.valid() ==> #[trigger] r@.wf(cfg),
    {
        RemediationEngine { state: RemediationState::Idle, attempts: 0, history: Vec::new() }
    }

    /// The current state.
    pub fn state(&self) -> (r: RemediationState)
        ensures
            r == self@.state,
    {
        self.state
    }

    /// Failed attempts in a row.
    pub fn attempts(&self) -> (r: u32)
        ensures
            r == self@.attempts,
    {
        self.attempts
    }

    /// Every attempt ever issued, oldest first.
    pub fn history(&self) -> (r: &Vec<RemediationAction>)
        ensures
            r@ == self@.history,
    {
        &self.history
    }

    /// Whether an attempt is awaiting its outcome.
    pub fn in_flight(&self) -> (r: bool)
        ensures
            r == self@.in_flight(),
    {
        let n: usize = self.history.len();
        if n == 0 {
            false
        } else {
            match self.history[n - 1].outcome {
                ActionOutcome::Pending => true,
                _ => false,
            }
        }
    }

    /// Feeds one evaluation of model `id` to the engine and returns the
    /// attempt to hand to the executor, if one is issued.
    pub fn on_evaluation(&mut self, id: ModelId, status: ModelStatus, now: u64, cfg: &PluginConfig) -> (action:
        Option<RemediationAction>)
        requires
            old(self)@.wf(*cfg),
            cfg.valid(),
        ensures
            final(self)@ == old(self)@.on_evaluation(id, status, now, *cfg).0,
            action == old(self)@.on_evaluation(id, status, now, *cfg).1,
            final(self)@.wf(*cfg),
    {
        proof {
            lemma_apply_keeps_wf(self@, id, EngineEvent::Evaluated { status, now }, *cfg);
        }
        if let ModelStatus::Healthy = status {
            self.state = RemediationState::Idle;
            self.attempts = 0;
            return None;
        }
        if let RemediationState::Cooldown { since } = self.state {
            if now >= since && now - since >= cfg.cooldown_secs {
                self.state = RemediationState::Idle;
            }
        }
        let wanted: bool = cfg.auto_remediation && match status {
            ModelStatus::Critical => true,
            ModelStatus::Degraded => cfg.remediate_degraded,
            _ => false,
        };
        let idle: bool = match self.state {
            RemediationState::Idle => true,
            _ => false,
        };
        if idle && wanted && !self.in_flight() {
            let action = RemediationAction {
                model_id: id,
                action_kind: match status {
                    ModelStatus::Critical => ActionKind::Restart,
                    _ => ActionKind::Retune,
                },
                attempt_count: self.attempts + 1,
                last_attempt_at: now,
                outcome: ActionOutcome::Pending,
            };
            self.state = RemediationState::Remediating;
            self.history.push(action);
            Some(action)
        } else {
            None
        }
    }

    /// Feeds the executor's report on the attempt in flight to the engine;
    /// `failed` covers failures and timeouts alike. Returns the attempt as it
    /// is now logged, or `None` where no attempt was in flight.
    pub fn on_outcome(&mut self, failed: bool, now: u64, cfg: &PluginConfig) -> (done: Option<
        RemediationAction,
    >)
        requires
            old(self)@.wf(*cfg),
            cfg.valid(),
        ensures
            final(self)@ == old(self)@.on_outcome(failed, now, *cfg).0,
            done == old(self)@.on_outcome(failed, now, *cfg).1,
            final(self)@.wf(*cfg),
    {
        proof {
            lemma_apply_keeps_wf(self@, 0, EngineEvent::Completed { failed, now }, *cfg);
        }
        if !self.in_flight() {
            return None;
        }
        let awaited: bool = match self.state {
            RemediationState::Remediating => true,
            _ => false,
        };
        let last: RemediationAction = self.history[self.history.len() - 1];
        let spent: bool = awaited && failed && self.attempts + 1 >= cfg.max_attempts;
        let outcome: ActionOutcome = if !failed {
            ActionOutcome::Succeeded
        } else if spent {
            ActionOutcome::Exhausted
        } else {
            ActionOutcome::Failed
        };
        let done = RemediationAction {
            model_id: last.model_id,
            action_kind: last.action_kind,
            attempt_count: last.attempt_count,
            last_attempt_at: last.last_attempt_at,
            outcome,
        };
        self.history.pop();
        self.history.push(done);
        if awaited {
            if !failed {
                self.state = RemediationState::Cooldown { since: now };
                self.attempts = 0;
            } else {
                self.attempts = self.attempts + 1;
                if spent {
                    self.state = RemediationState::Exhausted;
                } else {
                    self.state = RemediationState::Cooldown { since: now };
                }
            }
        }
        Some(done)
    }

    /// Feeds one event to the engine of model `id`.
    pub fn apply(&mut self, id: ModelId, event: EngineEvent, cfg: &PluginConfig)
        requires
            old(self)@.wf(*cfg),
            cfg.valid(),
        ensures
            final(self)@ == old(self)@.apply(id, event, *cfg),
            final(self)@.wf(*cfg),
    {
        match event {
            EngineEvent::Evaluated { status, now } => {
                let _ = self.on_evaluation(id, status, now, cfg);
            },
            EngineEvent::Completed { failed, now } => {
                let _ = self.on_outcome(failed, now, cfg);
            },
            EngineEvent::Reset => {
                self.reset(cfg);
            },
        }
    }

    /// Rebuilds the engine of model `id` from the log of the events that
    /// reached it, first event first: the engine is the one that a fresh
    /// engine becomes when it is fed these events.
    pub fn replay(id: ModelId, events: &[EngineEvent], cfg: &PluginConfig) -> (r: Self)
        requires
            cfg.valid(),
        ensures
            r@ == EngineModel::initial().run(id, events@, *cfg),
            r@.wf(*cfg),
    {
        let mut engine = RemediationEngine::new();
        let mut i: usize = 0;
        assert(events@.take(0).len() == 0);
        while i < events.len()
            invariant
                i <= events.len(),
                cfg.valid(),
                engine@.wf(*cfg),
                engine@ == EngineModel::initial().run(id, events@.take(i as int), *cfg),
            decreases events.len() - i,
        {
            proof {
                assert(events@.take(i + 1).drop_last() =~= events@.take(i as int));
                assert(events@.take(i + 1).last() == events@[i as int]);
            }
            engine.apply(id, events[i], cfg);
            i += 1;
        }
        assert(events@.take(events@.len() as int) =~= events@);
        engine
    }

    /// An operator's reset: back to `Idle` with the failure count cleared.
    pub fn reset(&mut self, cfg: &PluginConfig)
        requires
            old(self)@.wf(*cfg),
            cfg.valid(),
        ensures
            final(self)@ == old(self)@.reset(),
            final(self)@.wf(*cfg),
    {
        self.state = RemediationState::Idle;
        self.attempts = 0;
    }
}

} // verus!
