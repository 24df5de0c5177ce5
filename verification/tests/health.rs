use model_performance_monitoring::config::{PluginConfig, SCALE};
use model_performance_monitoring::health::{evaluate_window, ModelStatus, Sample};

fn sample(timestamp: u64, value: u32) -> Sample {
    Sample { model_id: 1, timestamp, value, metric_name: "accuracy".to_string() }
}

fn series(values: &[u32]) -> Vec<Sample> {
    let mut out = Vec::new();
    for (i, v) in values.iter().enumerate() {
        out.push(sample(i as u64 * 60, *v));
    }
    out
}

#[test]
fn no_samples_is_offline_with_score_zero() {
    let cfg = PluginConfig::default();
    assert_eq!(evaluate_window(&[], 0, &cfg), (ModelStatus::Offline, 0));
    assert_eq!(evaluate_window(&[], u64::MAX, &cfg), (ModelStatus::Offline, 0));
    let other = PluginConfig { offline_after_secs: u64::MAX, decay: SCALE, ..cfg };
    assert_eq!(evaluate_window(&[], 12_345, &other), (ModelStatus::Offline, 0));
}

#[test]
fn constant_series_scores_its_value() {
    let cfg = PluginConfig::default();
    let s = series(&[900_000, 900_000, 900_000]);
    assert_eq!(evaluate_window(&s, 120, &cfg), (ModelStatus::Healthy, 900_000));
}

#[test]
fn moving_average_weighs_recent_samples_more() {
    let cfg = PluginConfig::default();
    let s = series(&[900_000, 900_000, 900_000, 300_000]);
    assert_eq!(evaluate_window(&s, 180, &cfg), (ModelStatus::Degraded, 720_000));
    let s = series(&[900_000, 900_000, 900_000, 300_000, 200_000]);
    assert_eq!(evaluate_window(&s, 240, &cfg), (ModelStatus::Critical, 564_000));
}

#[test]
fn moving_average_rounds_down() {
    let cfg = PluginConfig::default();
    assert_eq!(evaluate_window(&series(&[1, 0]), 60, &cfg).1, 0);
    assert_eq!(evaluate_window(&series(&[0, 1]), 60, &cfg).1, 0);
    assert_eq!(evaluate_window(&series(&[333_333, 666_667]), 60, &cfg).1, 433_333);
}

#[test]
fn single_sample_scores_itself() {
    let cfg = PluginConfig::default();
    assert_eq!(evaluate_window(&series(&[123_456]), 0, &cfg), (ModelStatus::Critical, 123_456));
    assert_eq!(evaluate_window(&series(&[SCALE]), 0, &cfg), (ModelStatus::Healthy, SCALE));
}

#[test]
fn only_the_newest_window_counts() {
    let cfg = PluginConfig { window_size: 2, ..PluginConfig::default() };
    let s = series(&[0, SCALE, SCALE]);
    assert_eq!(evaluate_window(&s, 120, &cfg), (ModelStatus::Healthy, SCALE));
    let wide = PluginConfig { window_size: 3, ..PluginConfig::default() };
    // 0 -> 300_000 -> 510_000
    assert_eq!(evaluate_window(&s, 120, &wide), (ModelStatus::Critical, 510_000));
}

#[test]
fn default_window_is_twenty_samples() {
    let cfg = PluginConfig::default();
    let mut values = vec![0u32];
    for _ in 0..20 {
        values.push(SCALE);
    }
    // the leading 0 is the 21st newest sample and does not count
    assert_eq!(evaluate_window(&series(&values), 20 * 60, &cfg).1, SCALE);
    let mut values = vec![0u32];
    for _ in 0..19 {
        values.push(SCALE);
    }
    assert!(evaluate_window(&series(&values), 19 * 60, &cfg).1 < SCALE);
}

#[test]
fn decay_of_one_keeps_only_the_last_sample() {
    let cfg = PluginConfig { decay: SCALE, ..PluginConfig::default() };
    let s = series(&[900_000, 100_000, 870_000]);
    assert_eq!(evaluate_window(&s, 120, &cfg), (ModelStatus::Healthy, 870_000));
}

#[test]
fn status_follows_the_thresholds() {
    let cfg = PluginConfig::default();
    assert_eq!(evaluate_window(&series(&[850_000]), 0, &cfg).0, ModelStatus::Healthy);
    assert_eq!(evaluate_window(&series(&[849_999]), 0, &cfg).0, ModelStatus::Degraded);
    assert_eq!(evaluate_window(&series(&[600_000]), 0, &cfg).0, ModelStatus::Degraded);
    assert_eq!(evaluate_window(&series(&[599_999]), 0, &cfg).0, ModelStatus::Critical);
    assert_eq!(evaluate_window(&series(&[0]), 0, &cfg).0, ModelStatus::Critical);
}

#[test]
fn thresholds_are_configurable() {
    let cfg = PluginConfig {
        performance_threshold: 500_000,
        degraded_threshold: 100_000,
        ..PluginConfig::default()
    };
    assert_eq!(evaluate_window(&series(&[500_000]), 0, &cfg).0, ModelStatus::Healthy);
    assert_eq!(evaluate_window(&series(&[499_999]), 0, &cfg).0, ModelStatus::Degraded);
    assert_eq!(evaluate_window(&series(&[99_999]), 0, &cfg).0, ModelStatus::Critical);
}

#[test]
fn stale_samples_mean_offline_whatever_the_score() {
    let cfg = PluginConfig::default();
    let s = vec![sample(1_000, 950_000)];
    assert_eq!(evaluate_window(&s, 1_000 + 900, &cfg), (ModelStatus::Healthy, 950_000));
    assert_eq!(evaluate_window(&s, 1_000 + 901, &cfg), (ModelStatus::Offline, 950_000));
    // a sample from the future counts as fresh
    assert_eq!(evaluate_window(&s, 10, &cfg), (ModelStatus::Healthy, 950_000));
}

#[test]
fn one_fresh_sample_anywhere_keeps_the_model_online() {
    let cfg = PluginConfig::default();
    let s = vec![sample(5_000, 100_000), sample(10, 100_000)];
    assert_eq!(evaluate_window(&s, 5_500, &cfg).0, ModelStatus::Critical);
    assert_eq!(evaluate_window(&s, 5_901, &cfg).0, ModelStatus::Offline);
}

#[test]
fn score_stays_in_the_unit_interval() {
    let cfg = PluginConfig::default();
    let patterns: Vec<Vec<u32>> = vec![
        vec![0, SCALE, 0, SCALE, 0, SCALE],
        vec![SCALE; 40],
        vec![0; 40],
        vec![1, 999_999, 500_000, 250_001, 749_999],
        vec![SCALE, SCALE - 1, SCALE, SCALE - 1],
    ];
    for p in patterns {
        for decay in [1u32, 300_000, 999_999, SCALE] {
            let cfg = PluginConfig { decay, ..cfg };
            let score = evaluate_window(&series(&p), 0, &cfg).1;
            assert!(score <= SCALE);
            let lo = *p.iter().min().unwrap();
            let hi = *p.iter().max().unwrap();
            assert!(score <= hi);
            assert!(lo == 0 || score + 40 >= lo);
        }
    }
}

#[test]
fn evaluation_is_pure() {
    let cfg = PluginConfig::default();
    let s = series(&[900_000, 300_000, 650_000]);
    let first = evaluate_window(&s, 100, &cfg);
    let second = evaluate_window(&s, 100, &cfg);
    assert_eq!(first, second);
    assert_eq!(s.len(), 3);
    assert_eq!(s[1].value, 300_000);
}

#[test]
fn values_above_one_do_not_overflow() {
    let cfg = PluginConfig::default();
    let s = series(&[u32::MAX, u32::MAX, u32::MAX]);
    assert_eq!(evaluate_window(&s, 0, &cfg).1, u32::MAX);
}
