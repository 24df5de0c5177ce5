use model_performance_monitoring::config::PluginConfig;
use model_performance_monitoring::health::ModelStatus;
use model_performance_monitoring::remediation::{
    ActionKind, ActionOutcome, EngineEvent, RemediationAction, RemediationEngine, RemediationState,
};

fn pending(engine: &RemediationEngine) -> usize {
    engine.history().iter().filter(|a| a.outcome == ActionOutcome::Pending).count()
}

#[test]
fn engine_starts_idle() {
    let engine = RemediationEngine::new();
    assert_eq!(engine.state(), RemediationState::Idle);
    assert_eq!(engine.attempts(), 0);
    assert!(engine.history().is_empty());
    assert!(!engine.in_flight());
}

#[test]
fn critical_starts_one_attempt() {
    let cfg = PluginConfig::default();
    let mut engine = RemediationEngine::new();
    let action = engine.on_evaluation(7, ModelStatus::Critical, 100, &cfg);
    assert_eq!(
        action,
        Some(RemediationAction {
            model_id: 7,
            action_kind: ActionKind::Restart,
            attempt_count: 1,
            last_attempt_at: 100,
            outcome: ActionOutcome::Pending,
        })
    );
    assert_eq!(engine.state(), RemediationState::Remediating);
    assert!(engine.in_flight());
    assert_eq!(engine.history().len(), 1);
    assert_eq!(engine.history()[0], action.unwrap());
}

#[test]
fn degraded_starts_an_attempt_only_where_configured() {
    let cfg = PluginConfig::default();
    let mut engine = RemediationEngine::new();
    assert_eq!(engine.on_evaluation(7, ModelStatus::Degraded, 100, &cfg), None);
    assert_eq!(engine.state(), RemediationState::Idle);

    let eager = PluginConfig { remediate_degraded: true, ..cfg };
    let action = engine.on_evaluation(7, ModelStatus::Degraded, 100, &eager).unwrap();
    assert_eq!(action.action_kind, ActionKind::Retune);
    assert_eq!(action.attempt_count, 1);
    assert_eq!(engine.state(), RemediationState::Remediating);
}

#[test]
fn offline_and_healthy_start_nothing() {
    let cfg = PluginConfig { remediate_degraded: true, ..PluginConfig::default() };
    let mut engine = RemediationEngine::new();
    assert_eq!(engine.on_evaluation(7, ModelStatus::Offline, 100, &cfg), None);
    assert_eq!(engine.on_evaluation(7, ModelStatus::Healthy, 200, &cfg), None);
    assert_eq!(engine.state(), RemediationState::Idle);
    assert!(engine.history().is_empty());
}

#[test]
fn nothing_is_issued_with_auto_remediation_off() {
    let cfg = PluginConfig { auto_remediation: false, ..PluginConfig::default() };
    let mut engine = RemediationEngine::new();
    assert_eq!(engine.on_evaluation(7, ModelStatus::Critical, 100, &cfg), None);
    assert_eq!(engine.state(), RemediationState::Idle);
}

#[test]
fn no_second_attempt_while_one_is_in_flight() {
    let cfg = PluginConfig::default();
    let mut engine = RemediationEngine::new();
    assert!(engine.on_evaluation(7, ModelStatus::Critical, 100, &cfg).is_some());
    for t in 101..120 {
        assert_eq!(engine.on_evaluation(7, ModelStatus::Critical, t, &cfg), None);
        assert_eq!(engine.state(), RemediationState::Remediating);
        assert_eq!(pending(&engine), 1);
    }
    assert_eq!(engine.history().len(), 1);
}

#[test]
fn never_two_pending_actions() {
    let cfg = PluginConfig { cooldown_secs: 3, remediate_degraded: true, ..PluginConfig::default() };
    let mut engine = RemediationEngine::new();
    let statuses = [
        ModelStatus::Critical,
        ModelStatus::Degraded,
        ModelStatus::Healthy,
        ModelStatus::Critical,
        ModelStatus::Offline,
    ];
    let mut seed: u64 = 12345;
    for t in 0..5000u64 {
        seed = seed.wrapping_mul(6364136223846793005).wrapping_add(1442695040888963407);
        let pick = (seed >> 33) % 8;
        if pick < 5 {
            engine.on_evaluation(9, statuses[pick as usize], t, &cfg);
        } else if pick < 7 {
            engine.on_outcome(pick == 5, t, &cfg);
        } else {
            engine.reset(&cfg);
        }
        assert!(pending(&engine) <= 1);
        assert_eq!(engine.in_flight(), pending(&engine) == 1);
        if engine.state() == RemediationState::Remediating {
            assert!(engine.in_flight());
        }
        assert!(engine.attempts() <= cfg.max_attempts);
        assert_eq!(engine.state() == RemediationState::Exhausted, engine.attempts() == cfg.max_attempts);
    }
    assert!(engine.history().len() > 10);
}

#[test]
fn success_leads_to_cooldown_and_clears_the_count() {
    let cfg = PluginConfig::default();
    let mut engine = RemediationEngine::new();
    engine.on_evaluation(7, ModelStatus::Critical, 100, &cfg);
    engine.on_outcome(true, 110, &cfg);
    assert_eq!(engine.attempts(), 1);
    engine.on_evaluation(7, ModelStatus::Critical, 710, &cfg).unwrap();
    let done = engine.on_outcome(false, 720, &cfg).unwrap();
    assert_eq!(done.outcome, ActionOutcome::Succeeded);
    assert_eq!(done.attempt_count, 2);
    assert_eq!(done.last_attempt_at, 710);
    assert_eq!(engine.state(), RemediationState::Cooldown { since: 720 });
    assert_eq!(engine.attempts(), 0);
    assert!(!engine.in_flight());
    assert_eq!(engine.history()[1], done);
}

#[test]
fn failure_leads_to_cooldown_and_counts() {
    let cfg = PluginConfig::default();
    let mut engine = RemediationEngine::new();
    engine.on_evaluation(7, ModelStatus::Critical, 100, &cfg);
    let done = engine.on_outcome(true, 130, &cfg).unwrap();
    assert_eq!(done.outcome, ActionOutcome::Failed);
    assert_eq!(done.attempt_count, 1);
    assert_eq!(engine.state(), RemediationState::Cooldown { since: 130 });
    assert_eq!(engine.attempts(), 1);
    assert_eq!(engine.history().len(), 1);
    assert_eq!(engine.history()[0].outcome, ActionOutcome::Failed);
}

#[test]
fn cooldown_blocks_new_attempts_until_it_is_over() {
    let cfg = PluginConfig::default();
    let mut engine = RemediationEngine::new();
    engine.on_evaluation(7, ModelStatus::Critical, 100, &cfg);
    engine.on_outcome(true, 1_000, &cfg);
    assert_eq!(engine.on_evaluation(7, ModelStatus::Critical, 1_000, &cfg), None);
    assert_eq!(engine.on_evaluation(7, ModelStatus::Critical, 1_599, &cfg), None);
    assert_eq!(engine.state(), RemediationState::Cooldown { since: 1_000 });
    // a clock that runs behind does not end the cooldown
    assert_eq!(engine.on_evaluation(7, ModelStatus::Critical, 5, &cfg), None);
    assert_eq!(engine.state(), RemediationState::Cooldown { since: 1_000 });
    let next = engine.on_evaluation(7, ModelStatus::Critical, 1_600, &cfg).unwrap();
    assert_eq!(next.attempt_count, 2);
    assert_eq!(next.last_attempt_at, 1_600);
    assert_eq!(engine.state(), RemediationState::Remediating);
}

#[test]
fn cooldown_ends_in_idle_when_nothing_is_wrong_enough() {
    let cfg = PluginConfig::default();
    let mut engine = RemediationEngine::new();
    engine.on_evaluation(7, ModelStatus::Critical, 100, &cfg);
    engine.on_outcome(false, 200, &cfg);
    assert_eq!(engine.on_evaluation(7, ModelStatus::Degraded, 799, &cfg), None);
    assert_eq!(engine.state(), RemediationState::Cooldown { since: 200 });
    assert_eq!(engine.on_evaluation(7, ModelStatus::Degraded, 800, &cfg), None);
    assert_eq!(engine.state(), RemediationState::Idle);
}

#[test]
fn max_attempts_failures_exhaust_the_engine() {
    let cfg = PluginConfig::default();
    let mut engine = RemediationEngine::new();
    let mut t: u64 = 0;
    for attempt in 1..=5u32 {
        let action = engine.on_evaluation(7, ModelStatus::Critical, t, &cfg).unwrap();
        assert_eq!(action.attempt_count, attempt);
        let done = engine.on_outcome(true, t + 1, &cfg).unwrap();
        assert_eq!(engine.attempts(), attempt);
        if attempt < 5 {
            assert_eq!(done.outcome, ActionOutcome::Failed);
            assert_eq!(engine.state(), RemediationState::Cooldown { since: t + 1 });
        } else {
            assert_eq!(done.outcome, ActionOutcome::Exhausted);
            assert_eq!(engine.state(), RemediationState::Exhausted);
        }
        t += 601;
    }
    assert_eq!(engine.history().len(), 5);
}

#[test]
fn exhausted_stays_until_healthy() {
    let cfg = PluginConfig { max_attempts: 2, remediate_degraded: true, ..PluginConfig::default() };
    let mut engine = RemediationEngine::new();
    engine.on_evaluation(7, ModelStatus::Critical, 0, &cfg);
    engine.on_outcome(true, 1, &cfg);
    engine.on_evaluation(7, ModelStatus::Critical, 601, &cfg);
    engine.on_outcome(true, 602, &cfg);
    assert_eq!(engine.state(), RemediationState::Exhausted);

    let mut t: u64 = 603;
    for status in [ModelStatus::Critical, ModelStatus::Degraded, ModelStatus::Offline] {
        for _ in 0..5 {
            t += 10_000;
            assert_eq!(engine.on_evaluation(7, status, t, &cfg), None);
            assert_eq!(engine.on_outcome(true, t, &cfg), None);
            assert_eq!(engine.on_outcome(false, t, &cfg), None);
            assert_eq!(engine.state(), RemediationState::Exhausted);
            assert_eq!(engine.attempts(), 2);
        }
    }
    assert_eq!(engine.history().len(), 2);

    assert_eq!(engine.on_evaluation(7, ModelStatus::Healthy, t + 1, &cfg), None);
    assert_eq!(engine.state(), RemediationState::Idle);
    assert_eq!(engine.attempts(), 0);
    let again = engine.on_evaluation(7, ModelStatus::Critical, t + 2, &cfg).unwrap();
    assert_eq!(again.attempt_count, 1);
}

#[test]
fn one_allowed_attempt_is_exhausted_by_its_failure() {
    let cfg = PluginConfig { max_attempts: 1, ..PluginConfig::default() };
    let mut engine = RemediationEngine::new();
    engine.on_evaluation(7, ModelStatus::Critical, 0, &cfg);
    let done = engine.on_outcome(true, 1, &cfg).unwrap();
    assert_eq!(done.outcome, ActionOutcome::Exhausted);
    assert_eq!(engine.state(), RemediationState::Exhausted);
}

#[test]
fn a_success_breaks_the_run_of_failures() {
    let cfg = PluginConfig { max_attempts: 3, ..PluginConfig::default() };
    let mut engine = RemediationEngine::new();
    let mut t: u64 = 0;
    for failed in [true, true, false, true, true] {
        engine.on_evaluation(7, ModelStatus::Critical, t, &cfg).unwrap();
        engine.on_outcome(failed, t + 1, &cfg).unwrap();
        t += 700;
    }
    assert_eq!(engine.attempts(), 2);
    assert_eq!(engine.state(), RemediationState::Cooldown { since: 4 * 700 + 1 });
    engine.on_evaluation(7, ModelStatus::Critical, t, &cfg).unwrap();
    engine.on_outcome(true, t + 1, &cfg);
    assert_eq!(engine.state(), RemediationState::Exhausted);
    let counts: Vec<u32> = engine.history().iter().map(|a| a.attempt_count).collect();
    assert_eq!(counts, vec![1, 2, 3, 1, 2, 3]);
}

#[test]
fn healthy_resets_from_every_state() {
    let cfg = PluginConfig::default();
    let mut engine = RemediationEngine::new();
    engine.on_evaluation(7, ModelStatus::Critical, 0, &cfg);
    engine.on_outcome(true, 1, &cfg);
    assert_eq!(engine.state(), RemediationState::Cooldown { since: 1 });
    engine.on_evaluation(7, ModelStatus::Healthy, 2, &cfg);
    assert_eq!(engine.state(), RemediationState::Idle);
    assert_eq!(engine.attempts(), 0);
    // no cooldown is left over
    assert!(engine.on_evaluation(7, ModelStatus::Critical, 3, &cfg).is_some());
}

#[test]
fn an_attempt_overtaken_by_healthy_is_still_logged() {
    let cfg = PluginConfig::default();
    let mut engine = RemediationEngine::new();
    engine.on_evaluation(7, ModelStatus::Critical, 0, &cfg);
    engine.on_evaluation(7, ModelStatus::Healthy, 10, &cfg);
    assert_eq!(engine.state(), RemediationState::Idle);
    assert!(engine.in_flight());
    // still in flight: a bad evaluation starts no second attempt
    assert_eq!(engine.on_evaluation(7, ModelStatus::Critical, 20, &cfg), None);
    assert_eq!(engine.state(), RemediationState::Idle);
    let done = engine.on_outcome(true, 30, &cfg).unwrap();
    assert_eq!(done.outcome, ActionOutcome::Failed);
    assert_eq!(engine.state(), RemediationState::Idle);
    assert_eq!(engine.attempts(), 0);
    assert!(!engine.in_flight());
    let next = engine.on_evaluation(7, ModelStatus::Critical, 40, &cfg).unwrap();
    assert_eq!(next.attempt_count, 1);
    assert_eq!(engine.history().len(), 2);
}

#[test]
fn a_report_without_an_attempt_changes_nothing() {
    let cfg = PluginConfig::default();
    let mut engine = RemediationEngine::new();
    assert_eq!(engine.on_outcome(true, 10, &cfg), None);
    assert_eq!(engine.on_outcome(false, 10, &cfg), None);
    assert_eq!(engine.state(), RemediationState::Idle);
    assert_eq!(engine.attempts(), 0);
    assert!(engine.history().is_empty());
}

#[test]
fn operator_reset_leaves_exhausted() {
    let cfg = PluginConfig { max_attempts: 1, ..PluginConfig::default() };
    let mut engine = RemediationEngine::new();
    engine.on_evaluation(7, ModelStatus::Critical, 0, &cfg);
    engine.on_outcome(true, 1, &cfg);
    assert_eq!(engine.state(), RemediationState::Exhausted);
    engine.reset(&cfg);
    assert_eq!(engine.state(), RemediationState::Idle);
    assert_eq!(engine.attempts(), 0);
    assert_eq!(engine.history().len(), 1);
    assert!(engine.on_evaluation(7, ModelStatus::Critical, 2, &cfg).is_some());
}

#[test]
fn replay_rebuilds_the_engine() {
    let cfg = PluginConfig { max_attempts: 3, ..PluginConfig::default() };
    let events = vec![
        EngineEvent::Evaluated { status: ModelStatus::Critical, now: 0 },
        EngineEvent::Completed { failed: true, now: 5 },
        EngineEvent::Evaluated { status: ModelStatus::Critical, now: 300 },
        EngineEvent::Evaluated { status: ModelStatus::Critical, now: 700 },
        EngineEvent::Completed { failed: true, now: 705 },
        EngineEvent::Reset,
        EngineEvent::Evaluated { status: ModelStatus::Critical, now: 800 },
    ];
    let mut live = RemediationEngine::new();
    for e in &events {
        live.apply(11, *e, &cfg);
    }
    let rebuilt = RemediationEngine::replay(11, &events, &cfg);
    assert_eq!(rebuilt.state(), live.state());
    assert_eq!(rebuilt.attempts(), live.attempts());
    assert_eq!(rebuilt.history(), live.history());
    assert_eq!(rebuilt.state(), RemediationState::Remediating);
    assert_eq!(rebuilt.attempts(), 0);
    assert_eq!(rebuilt.history().len(), 3);
    assert_eq!(rebuilt.history()[2].attempt_count, 1);

    let empty = RemediationEngine::replay(11, &[], &cfg);
    assert_eq!(empty.state(), RemediationState::Idle);
    assert!(empty.history().is_empty());
}
