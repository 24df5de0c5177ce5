use model_performance_monitoring::config::{MonitorError, SCALE};
use model_performance_monitoring::health::Sample;
use model_performance_monitoring::store::MetricStore;

fn sample(timestamp: u64, value: u32, name: &str) -> Sample {
    Sample { model_id: 5, timestamp, value, metric_name: name.to_string() }
}

fn times(store: &MetricStore) -> Vec<u64> {
    store.samples().iter().map(|s| s.timestamp).collect()
}

fn names(samples: &[Sample]) -> Vec<String> {
    samples.iter().map(|s| s.metric_name.clone()).collect()
}

#[test]
fn new_store_is_empty() {
    let store = MetricStore::new(5);
    assert_eq!(store.model_id(), 5);
    assert_eq!(store.len(), 0);
    assert!(store.samples().is_empty());
    assert!(store.recent(100, 50).is_empty());
}

#[test]
fn samples_are_kept_in_time_order() {
    let mut store = MetricStore::new(5);
    for t in [30u64, 10, 20, 50, 40, 0] {
        assert_eq!(store.record(sample(t, 1, "m"), 1_000), Ok(()));
    }
    assert_eq!(times(&store), vec![0, 10, 20, 30, 40, 50]);
    assert_eq!(store.len(), 6);
}

#[test]
fn equal_timestamps_keep_the_order_of_arrival() {
    let mut store = MetricStore::new(5);
    store.record(sample(10, 1, "a"), 1_000).unwrap();
    store.record(sample(20, 1, "b"), 1_000).unwrap();
    store.record(sample(10, 1, "c"), 1_000).unwrap();
    store.record(sample(20, 1, "d"), 1_000).unwrap();
    store.record(sample(10, 1, "e"), 1_000).unwrap();
    assert_eq!(names(store.samples()), vec!["a", "c", "e", "b", "d"]);
}

#[test]
fn stored_sample_is_what_was_written() {
    let mut store = MetricStore::new(5);
    store.record(sample(77, 123_456, "latency"), 10).unwrap();
    let s = &store.samples()[0];
    assert_eq!(s.model_id, 5);
    assert_eq!(s.timestamp, 77);
    assert_eq!(s.value, 123_456);
    assert_eq!(s.metric_name, "latency");
}

#[test]
fn sample_of_another_model_is_refused() {
    let mut store = MetricStore::new(5);
    store.record(sample(1, 1, "m"), 100).unwrap();
    let foreign = Sample { model_id: 6, timestamp: 2, value: 1, metric_name: "m".to_string() };
    assert_eq!(store.record(foreign, 100), Err(MonitorError::UnknownModel));
    // the model is checked before the value
    let both = Sample { model_id: 6, timestamp: 2, value: SCALE + 1, metric_name: "m".to_string() };
    assert_eq!(store.record(both, 100), Err(MonitorError::UnknownModel));
    assert_eq!(times(&store), vec![1]);
}

#[test]
fn value_above_one_is_refused() {
    let mut store = MetricStore::new(5);
    assert_eq!(store.record(sample(1, SCALE + 1, "m"), 100), Err(MonitorError::InvalidSample));
    assert_eq!(store.record(sample(1, u32::MAX, "m"), 100), Err(MonitorError::InvalidSample));
    assert_eq!(store.len(), 0);
    assert_eq!(store.record(sample(1, SCALE, "m"), 100), Ok(()));
    assert_eq!(store.record(sample(2, 0, "m"), 100), Ok(()));
    assert_eq!(store.len(), 2);
}

#[test]
fn old_samples_are_evicted_on_write() {
    let mut store = MetricStore::new(5);
    for t in [0u64, 50, 100] {
        store.record(sample(t, 1, "m"), 100).unwrap();
    }
    assert_eq!(times(&store), vec![0, 50, 100]);
    store.record(sample(151, 1, "m"), 100).unwrap();
    assert_eq!(times(&store), vec![100, 151]);
}

#[test]
fn sample_exactly_one_horizon_old_is_kept() {
    let mut store = MetricStore::new(5);
    store.record(sample(51, 1, "m"), 100).unwrap();
    store.record(sample(50, 1, "m"), 100).unwrap();
    store.record(sample(151, 1, "m"), 100).unwrap();
    assert_eq!(times(&store), vec![51, 151]);
}

#[test]
fn late_sample_beyond_the_horizon_is_dropped_at_once() {
    let mut store = MetricStore::new(5);
    store.record(sample(1_000, 1, "new"), 100).unwrap();
    assert_eq!(store.record(sample(10, 1, "late"), 100), Ok(()));
    assert_eq!(names(store.samples()), vec!["new"]);
    assert_eq!(store.record(sample(900, 1, "edge"), 100), Ok(()));
    assert_eq!(names(store.samples()), vec!["edge", "new"]);
}

#[test]
fn eviction_uses_the_horizon_of_each_write() {
    let mut store = MetricStore::new(5);
    for t in 0..10u64 {
        store.record(sample(t * 10, 1, "m"), u64::MAX).unwrap();
    }
    assert_eq!(store.len(), 10);
    store.record(sample(90, 1, "m"), 25).unwrap();
    assert_eq!(times(&store), vec![70, 80, 90, 90]);
}

#[test]
fn reads_do_not_evict() {
    let mut store = MetricStore::new(5);
    store.record(sample(0, 1, "m"), 1_000).unwrap();
    store.record(sample(10, 1, "m"), 1_000).unwrap();
    assert!(store.recent(1_000_000, 5).is_empty());
    assert_eq!(store.len(), 2);
    assert_eq!(times(&store), vec![0, 10]);
}

#[test]
fn recent_returns_the_window_in_order() {
    let mut store = MetricStore::new(5);
    for t in [100u64, 200, 300, 400, 500] {
        store.record(sample(t, (t * 10) as u32, "m"), 10_000).unwrap();
    }
    let window: Vec<u64> = store.recent(500, 200).iter().map(|s| s.timestamp).collect();
    assert_eq!(window, vec![300, 400, 500]);
    let window: Vec<u64> = store.recent(500, 199).iter().map(|s| s.timestamp).collect();
    assert_eq!(window, vec![400, 500]);
    let window: Vec<u64> = store.recent(500, 0).iter().map(|s| s.timestamp).collect();
    assert_eq!(window, vec![500]);
    let window: Vec<u64> = store.recent(10_000, 100).iter().map(|s| s.timestamp).collect();
    assert!(window.is_empty());
    let window: Vec<u64> = store.recent(500, u64::MAX).iter().map(|s| s.timestamp).collect();
    assert_eq!(window, vec![100, 200, 300, 400, 500]);
}

#[test]
fn recent_counts_samples_from_the_future() {
    let mut store = MetricStore::new(5);
    for t in [100u64, 200, 300] {
        store.record(sample(t, 1, "m"), 10_000).unwrap();
    }
    let window: Vec<u64> = store.recent(150, 10).iter().map(|s| s.timestamp).collect();
    assert_eq!(window, vec![200, 300]);
    let window: Vec<u64> = store.recent(0, 0).iter().map(|s| s.timestamp).collect();
    assert_eq!(window, vec![100, 200, 300]);
}

#[test]
fn recent_can_be_walked_again() {
    let mut store = MetricStore::new(5);
    for t in [1u64, 2, 3] {
        store.record(sample(t, t as u32, "m"), 10_000).unwrap();
    }
    let window = store.recent(3, 1);
    let first: Vec<u32> = window.iter().map(|s| s.value).collect();
    let second: Vec<u32> = window.iter().map(|s| s.value).collect();
    assert_eq!(first, vec![2, 3]);
    assert_eq!(first, second);
}

#[test]
fn store_stays_bounded_under_a_long_stream() {
    let mut store = MetricStore::new(5);
    for t in 0..5_000u64 {
        store.record(sample(t, (t % 1000) as u32, "m"), 10).unwrap();
        assert!(store.len() <= 11);
        let expected: Vec<u64> = (t.saturating_sub(10)..=t).collect();
        assert_eq!(times(&store), expected);
    }
    let window: Vec<u64> = store.recent(4_999, 3).iter().map(|s| s.timestamp).collect();
    assert_eq!(window, vec![4_996, 4_997, 4_998, 4_999]);
}

#[test]
fn out_of_order_stream_is_sorted_and_evicted() {
    let mut store = MetricStore::new(5);
    let mut seed: u64 = 99;
    let mut newest: u64 = 0;
    for _ in 0..2_000 {
        seed = seed.wrapping_mul(6364136223846793005).wrapping_add(1442695040888963407);
        let t = (seed >> 40) % 10_000;
        store.record(sample(t, 1, "m"), 500).unwrap();
        if t > newest {
            newest = t;
        }
        let ts = times(&store);
        assert!(ts.windows(2).all(|w| w[0] <= w[1]));
        assert!(ts.iter().all(|x| *x + 500 >= newest));
        assert_eq!(*ts.last().unwrap(), newest);
    }
}
