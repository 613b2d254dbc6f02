use rust_o11y::histogram::{check_buckets, Histogram};
use rust_o11y::metrics::{MetricKind, MetricValue, MetricsError, MetricsRegistry};
use rust_o11y::textmap::TextMap;

fn labels(pairs: &[(&str, &str)]) -> TextMap {
    let mut map = TextMap::new();
    for (key, value) in pairs {
        map.insert(key, value);
    }
    map
}

#[test]
fn counter_starts_at_zero_and_adds() {
    let mut registry = MetricsRegistry::new();
    let get = labels(&[("method", "GET")]);
    assert_eq!(registry.counter("requests_total", &get), None);
    assert_eq!(registry.increment_counter("requests_total", &get, 0), Ok(()));
    assert_eq!(registry.counter("requests_total", &get), Some(0));
    assert_eq!(registry.increment_counter("requests_total", &get, 5), Ok(()));
    assert_eq!(registry.increment_counter("requests_total", &get, 7), Ok(()));
    assert_eq!(registry.counter("requests_total", &get), Some(12));
    assert_eq!(registry.len(), 1);
}

#[test]
fn counter_is_the_sum_of_its_increments() {
    let deltas: [i64; 8] = [3, 0, 11, 1, 1, 250, 9, 4];
    let mut registry = MetricsRegistry::new();
    let none = TextMap::new();
    for d in deltas {
        assert_eq!(registry.increment_counter("jobs", &none, d), Ok(()));
    }
    assert_eq!(registry.counter("jobs", &none), Some(279));
}

#[test]
fn counter_does_not_depend_on_the_order_of_increments() {
    let deltas: [i64; 5] = [5, 1, 40, 0, 7];
    let orders: [[usize; 5]; 4] = [[0, 1, 2, 3, 4], [4, 3, 2, 1, 0], [2, 0, 4, 1, 3], [1, 4, 0, 3, 2]];
    for order in orders {
        let mut registry = MetricsRegistry::new();
        let l = labels(&[("queue", "mail")]);
        for i in order {
            registry.increment_counter("jobs", &l, deltas[i]).unwrap();
        }
        assert_eq!(registry.counter("jobs", &l), Some(53));
    }
}

#[test]
fn negative_delta_is_refused_and_changes_nothing() {
    let mut registry = MetricsRegistry::new();
    let get = labels(&[("method", "GET")]);
    assert_eq!(
        registry.increment_counter("requests_total", &get, -1),
        Err(MetricsError::InvalidDelta)
    );
    assert_eq!(registry.len(), 0);
    assert_eq!(registry.counter("requests_total", &get), None);
    registry.increment_counter("requests_total", &get, 4).unwrap();
    for delta in [-1, -2, -1000, i64::MIN] {
        assert_eq!(
            registry.increment_counter("requests_total", &get, delta),
            Err(MetricsError::InvalidDelta)
        );
        assert_eq!(registry.counter("requests_total", &get), Some(4));
        assert_eq!(registry.len(), 1);
    }
}

#[test]
fn hundred_increments_from_ten_callers() {
    let mut registry = MetricsRegistry::new();
    let get = labels(&[("method", "GET")]);
    let mut left: [u32; 10] = [10; 10];
    let mut caller: usize = 0;
    let mut made: u32 = 0;
    while made < 100 {
        if left[caller] > 0 {
            registry.increment_counter("requests_total", &get, 1).unwrap();
            left[caller] -= 1;
            made += 1;
        }
        caller = (caller + 3) % 10;
    }
    assert_eq!(registry.counter("requests_total", &get), Some(100));
}

#[test]
fn hundred_increments_from_ten_concurrent_callers() {
    let registry = std::sync::Arc::new(std::sync::Mutex::new(MetricsRegistry::new()));
    let runtime = tokio::runtime::Builder::new_multi_thread().worker_threads(4).build().unwrap();
    let mut callers = Vec::new();
    for _ in 0..10 {
        let registry = registry.clone();
        callers.push(runtime.spawn(async move {
            for _ in 0..10 {
                {
                    let get = labels(&[("method", "GET")]);
                    let mut guard = registry.lock().unwrap();
                    guard.increment_counter("requests_total", &get, 1).unwrap();
                }
                tokio::task::yield_now().await;
            }
        }));
    }
    for caller in callers {
        runtime.block_on(caller).unwrap();
    }
    let get = labels(&[("method", "GET")]);
    assert_eq!(registry.lock().unwrap().counter("requests_total", &get), Some(100));
}

#[test]
fn counter_reaches_the_largest_value() {
    let mut registry = MetricsRegistry::new();
    let none = TextMap::new();
    registry.increment_counter("big", &none, i64::MAX).unwrap();
    registry.increment_counter("big", &none, i64::MAX).unwrap();
    registry.increment_counter("big", &none, 1).unwrap();
    assert_eq!(registry.counter("big", &none), Some(u64::MAX));
    assert_eq!(registry.increment_counter("big", &none, 0), Ok(()));
    assert_eq!(registry.counter("big", &none), Some(u64::MAX));
}

#[test]
fn samples_are_told_apart_by_name_and_labels() {
    let mut registry = MetricsRegistry::new();
    let get = labels(&[("method", "GET")]);
    let post = labels(&[("method", "POST")]);
    let none = TextMap::new();
    registry.increment_counter("requests_total", &get, 1).unwrap();
    registry.increment_counter("requests_total", &post, 2).unwrap();
    registry.increment_counter("requests_total", &none, 3).unwrap();
    registry.increment_counter("errors_total", &get, 4).unwrap();
    registry.increment_counter("requests_total", &get, 10).unwrap();
    assert_eq!(registry.len(), 4);
    assert_eq!(registry.counter("requests_total", &get), Some(11));
    assert_eq!(registry.counter("requests_total", &post), Some(2));
    assert_eq!(registry.counter("requests_total", &none), Some(3));
    assert_eq!(registry.counter("errors_total", &get), Some(4));
    assert_eq!(registry.counter("errors_total", &post), None);
}

#[test]
fn labels_given_in_another_order_are_the_same_labels() {
    let mut registry = MetricsRegistry::new();
    let ab = labels(&[("a", "1"), ("b", "2")]);
    let ba = labels(&[("b", "2"), ("a", "1")]);
    registry.increment_counter("c", &ab, 1).unwrap();
    registry.increment_counter("c", &ba, 1).unwrap();
    assert_eq!(registry.len(), 1);
    assert_eq!(registry.counter("c", &ab), Some(2));
}

#[test]
fn samples_stand_in_order_of_name_then_labels() {
    let mut registry = MetricsRegistry::new();
    registry.increment_counter("b", &labels(&[("x", "2")]), 1).unwrap();
    registry.increment_counter("a", &labels(&[("x", "9")]), 1).unwrap();
    registry.increment_counter("b", &labels(&[("x", "1")]), 1).unwrap();
    registry.increment_counter("b", &TextMap::new(), 1).unwrap();
    registry.increment_counter("ab", &TextMap::new(), 1).unwrap();
    registry.increment_counter("b", &labels(&[("w", "5"), ("x", "1")]), 1).unwrap();
    let seen: Vec<(String, Vec<(String, String)>)> = (0..registry.len())
        .map(|i| {
            let sample = registry.sample_at(i);
            let pairs = (0..sample.labels.len())
                .map(|j| (sample.labels.key_at(j).clone(), sample.labels.value_at(j).clone()))
                .collect();
            (sample.name.clone(), pairs)
        })
        .collect();
    let s = |t: &str| t.to_string();
    assert_eq!(
        seen,
        vec![
            (s("a"), vec![(s("x"), s("9"))]),
            (s("ab"), vec![]),
            (s("b"), vec![]),
            (s("b"), vec![(s("w"), s("5")), (s("x"), s("1"))]),
            (s("b"), vec![(s("x"), s("1"))]),
            (s("b"), vec![(s("x"), s("2"))]),
        ]
    );
    assert_eq!(registry.find("b", &TextMap::new()), (2, true));
    assert_eq!(registry.find("aa", &TextMap::new()), (1, false));
    assert_eq!(registry.find("c", &TextMap::new()), (6, false));
}

#[test]
fn gauge_is_overwritten() {
    let mut registry = MetricsRegistry::new();
    let none = TextMap::new();
    assert_eq!(registry.gauge("temperature", &none), None);
    assert_eq!(registry.set_gauge("temperature", &none, 21), Ok(()));
    assert_eq!(registry.gauge("temperature", &none), Some(21));
    assert_eq!(registry.set_gauge("temperature", &none, -5), Ok(()));
    assert_eq!(registry.gauge("temperature", &none), Some(-5));
    assert_eq!(registry.set_gauge("temperature", &none, i64::MIN), Ok(()));
    assert_eq!(registry.gauge("temperature", &none), Some(i64::MIN));
    assert_eq!(registry.set_gauge("temperature", &none, i64::MAX), Ok(()));
    assert_eq!(registry.gauge("temperature", &none), Some(i64::MAX));
    assert_eq!(registry.len(), 1);
    assert_eq!(registry.counter("temperature", &none), None);
}

#[test]
fn a_name_has_one_kind() {
    let mut registry = MetricsRegistry::new();
    let none = TextMap::new();
    let other = labels(&[("a", "b")]);
    let buckets = vec![1, 2, 3];
    registry.increment_counter("c", &none, 1).unwrap();
    registry.set_gauge("g", &none, 1).unwrap();
    registry.observe_histogram("h", &none, &buckets, 1).unwrap();
    assert_eq!(registry.set_gauge("c", &none, 9), Err(MetricsError::KindMismatch));
    assert_eq!(registry.set_gauge("c", &other, 9), Err(MetricsError::KindMismatch));
    assert_eq!(registry.observe_histogram("c", &other, &buckets, 9), Err(MetricsError::KindMismatch));
    assert_eq!(registry.increment_counter("g", &other, 9), Err(MetricsError::KindMismatch));
    assert_eq!(registry.observe_histogram("g", &none, &buckets, 9), Err(MetricsError::KindMismatch));
    assert_eq!(registry.increment_counter("h", &none, 9), Err(MetricsError::KindMismatch));
    assert_eq!(registry.set_gauge("h", &other, 9), Err(MetricsError::KindMismatch));
    assert_eq!(registry.len(), 3);
    assert_eq!(registry.counter("c", &none), Some(1));
    assert_eq!(registry.gauge("g", &none), Some(1));
    assert_eq!(registry.histogram("h", &none).unwrap().count(), 1);
    assert!(registry.other_kind_in_use("c", MetricKind::Gauge));
    assert!(!registry.other_kind_in_use("c", MetricKind::Counter));
    assert!(!registry.other_kind_in_use("unused", MetricKind::Counter));
    assert_eq!(registry.increment_counter("g", &none, -1), Err(MetricsError::InvalidDelta));
}

#[test]
fn histogram_observation_fills_the_buckets_at_or_above_it() {
    let mut registry = MetricsRegistry::new();
    let none = TextMap::new();
    let buckets = vec![100, 500, 1000];
    assert_eq!(registry.observe_histogram("latency", &none, &buckets, 300), Ok(()));
    let h = registry.histogram("latency", &none).unwrap();
    assert_eq!(h.bucket_len(), 3);
    assert_eq!(h.bound_at(0), 100);
    assert_eq!(h.bound_at(1), 500);
    assert_eq!(h.bound_at(2), 1000);
    assert_eq!(h.count_at(0), 0);
    assert_eq!(h.count_at(1), 1);
    assert_eq!(h.count_at(2), 1);
    assert_eq!(h.count(), 1);
    assert_eq!(h.sum(), 300);
}

#[test]
fn histogram_counts_are_cumulative() {
    let mut h = Histogram::new(vec![100, 500, 1000]).unwrap();
    assert_eq!((h.count(), h.sum()), (0, 0));
    for v in [300, 100, 101, 1000, 1001, -7, 500, 0] {
        h.observe(v);
    }
    assert_eq!(h.count_at(0), 3);
    assert_eq!(h.count_at(1), 6);
    assert_eq!(h.count_at(2), 7);
    assert_eq!(h.count(), 8);
    assert_eq!(h.sum(), 2995);
}

#[test]
fn histogram_takes_the_extremes() {
    let mut h = Histogram::new(vec![i64::MIN, 0, i64::MAX]).unwrap();
    h.observe(i64::MIN);
    h.observe(i64::MIN);
    h.observe(i64::MAX);
    assert_eq!(h.count_at(0), 2);
    assert_eq!(h.count_at(1), 2);
    assert_eq!(h.count_at(2), 3);
    assert_eq!(h.sum(), 2 * (i64::MIN as i128) + i64::MAX as i128);
    let mut empty = Histogram::new(vec![]).unwrap();
    empty.observe(5);
    assert_eq!(empty.bucket_len(), 0);
    assert_eq!(empty.count(), 1);
    assert_eq!(empty.sum(), 5);
}

#[test]
fn buckets_must_increase_strictly() {
    assert!(check_buckets(&vec![]));
    assert!(check_buckets(&vec![7]));
    assert!(check_buckets(&vec![-3, 0, 1, 100]));
    assert!(!check_buckets(&vec![1, 1]));
    assert!(!check_buckets(&vec![2, 1]));
    assert!(!check_buckets(&vec![1, 2, 3, 3]));
    assert!(!check_buckets(&vec![1, 5, 4, 6]));
    assert!(matches!(Histogram::new(vec![1, 1]), Err(MetricsError::InvalidBuckets)));
    assert!(matches!(Histogram::new(vec![3, 2, 1]), Err(MetricsError::InvalidBuckets)));
    let mut registry = MetricsRegistry::new();
    let none = TextMap::new();
    for bad in [vec![1, 1], vec![5, 1], vec![1, 2, 2], vec![0, 10, 5, 20]] {
        assert_eq!(
            registry.observe_histogram("latency", &none, &bad, 1),
            Err(MetricsError::InvalidBuckets)
        );
    }
    assert_eq!(registry.len(), 0);
    assert!(registry.histogram("latency", &none).is_none());
}

#[test]
fn histogram_keeps_the_buckets_it_was_registered_with() {
    let mut registry = MetricsRegistry::new();
    let none = TextMap::new();
    let other = labels(&[("route", "/")]);
    registry.observe_histogram("latency", &none, &vec![100, 500], 50).unwrap();
    assert_eq!(
        registry.observe_histogram("latency", &none, &vec![100, 600], 50),
        Err(MetricsError::InvalidBuckets)
    );
    assert_eq!(
        registry.observe_histogram("latency", &none, &vec![100], 50),
        Err(MetricsError::InvalidBuckets)
    );
    assert_eq!(
        registry.observe_histogram("latency", &none, &vec![100, 500, 1000], 50),
        Err(MetricsError::InvalidBuckets)
    );
    let h = registry.histogram("latency", &none).unwrap();
    assert_eq!((h.count(), h.sum()), (1, 50));
    assert!(h.has_buckets(&vec![100, 500]));
    assert!(!h.has_buckets(&vec![100, 501]));
    assert_eq!(registry.observe_histogram("latency", &none, &vec![100, 500], 700), Ok(()));
    assert_eq!(registry.observe_histogram("latency", &other, &vec![1, 2, 3], 2), Ok(()));
    let h = registry.histogram("latency", &none).unwrap();
    assert_eq!((h.count(), h.sum(), h.count_at(0), h.count_at(1)), (2, 750, 1, 1));
    let h = registry.histogram("latency", &other).unwrap();
    assert_eq!((h.count(), h.sum(), h.count_at(0), h.count_at(1), h.count_at(2)), (1, 2, 0, 1, 1));
}

#[test]
fn histogram_duplicate_is_separate() {
    let mut h = Histogram::new(vec![10, 20]).unwrap();
    h.observe(15);
    let mut copy = h.duplicate();
    copy.observe(5);
    assert_eq!((h.count(), h.sum(), h.count_at(0), h.count_at(1)), (1, 15, 0, 1));
    assert_eq!((copy.count(), copy.sum(), copy.count_at(0), copy.count_at(1)), (2, 20, 1, 2));
}

#[test]
fn sample_values_can_be_read() {
    let mut registry = MetricsRegistry::new();
    let none = TextMap::new();
    registry.increment_counter("a", &none, 2).unwrap();
    registry.set_gauge("b", &none, -2).unwrap();
    registry.observe_histogram("c", &none, &vec![1], 1).unwrap();
    assert!(matches!(registry.sample_at(0).value, MetricValue::Counter(2)));
    assert!(matches!(registry.sample_at(1).value, MetricValue::Gauge(-2)));
    assert!(matches!(registry.sample_at(2).value, MetricValue::Histogram(_)));
    assert_eq!(registry.sample_at(0).value.kind(), MetricKind::Counter);
    assert_eq!(registry.sample_at(1).value.kind(), MetricKind::Gauge);
    assert_eq!(registry.sample_at(2).value.kind(), MetricKind::Histogram);
}

#[test]
fn descriptions_are_kept_by_name() {
    let mut registry = MetricsRegistry::new();
    assert_eq!(registry.description("requests_total"), None);
    registry.describe("requests_total", "Requests served");
    registry.describe("errors_total", "Requests failed");
    registry.describe("requests_total", "All requests served");
    assert_eq!(registry.description("requests_total").map(|s| s.as_str()), Some("All requests served"));
    assert_eq!(registry.description("errors_total").map(|s| s.as_str()), Some("Requests failed"));
    assert_eq!(registry.description("requests"), None);
    assert_eq!(registry.len(), 0);
}

/// A measurement in thousandths, which is how the registry is handed what
/// others write with a decimal point.
fn thousandths(x: f64) -> i64 {
    (x * 1000.0).round() as i64
}

#[test]
fn histogram_of_tenths_observes_three_tenths() {
    let mut registry = MetricsRegistry::new();
    let none = TextMap::new();
    let buckets: Vec<i64> = [0.1, 0.5, 1.0].iter().map(|b| thousandths(*b)).collect();
    assert_eq!(buckets, vec![100, 500, 1000]);
    registry.observe_histogram("duration", &none, &buckets, 0).unwrap();
    let before: Vec<u64> = {
        let h = registry.histogram("duration", &none).unwrap();
        (0..3).map(|i| h.count_at(i)).collect()
    };
    registry.observe_histogram("duration", &none, &buckets, thousandths(0.3)).unwrap();
    let h = registry.histogram("duration", &none).unwrap();
    assert_eq!(h.count_at(0), before[0]);
    assert_eq!(h.count_at(1), before[1] + 1);
    assert_eq!(h.count_at(2), before[2] + 1);
    let mut fresh = Histogram::new(buckets).unwrap();
    fresh.observe(thousandths(0.3));
    assert_eq!((fresh.count_at(0), fresh.count_at(1), fresh.count_at(2)), (0, 1, 1));
    assert_eq!(fresh.count(), 1);
    assert_eq!(fresh.sum() as f64 / 1000.0, 0.3);
}

#[test]
fn checked_writes_stop_at_the_largest_value() {
    let mut registry = MetricsRegistry::new();
    let none = TextMap::new();
    assert_eq!(registry.checked_increment_counter("c", &none, i64::MAX), Some(Ok(())));
    assert_eq!(registry.checked_increment_counter("c", &none, i64::MAX), Some(Ok(())));
    assert_eq!(registry.checked_increment_counter("c", &none, 2), None);
    assert_eq!(registry.counter("c", &none), Some(u64::MAX - 1));
    assert_eq!(registry.checked_increment_counter("c", &none, 1), Some(Ok(())));
    assert_eq!(registry.checked_increment_counter("c", &none, 1), None);
    assert_eq!(registry.checked_increment_counter("c", &none, 0), Some(Ok(())));
    assert_eq!(registry.checked_increment_counter("c", &none, -1), Some(Err(MetricsError::InvalidDelta)));
    assert_eq!(registry.counter("c", &none), Some(u64::MAX));
    assert_eq!(registry.checked_observe_histogram("h", &none, &vec![1, 2], 1), Some(Ok(())));
    assert_eq!(
        registry.checked_observe_histogram("h", &none, &vec![2, 1], 1),
        Some(Err(MetricsError::InvalidBuckets))
    );
    assert_eq!(
        registry.checked_observe_histogram("c", &none, &vec![1, 2], 1),
        Some(Err(MetricsError::KindMismatch))
    );
    let mut h = Histogram::new(vec![5]).unwrap();
    assert!(h.checked_observe(3));
    assert_eq!((h.count(), h.sum(), h.count_at(0)), (1, 3, 1));
}

#[test]
fn histogram_can_be_registered_before_it_observes() {
    let mut registry = MetricsRegistry::new();
    let none = TextMap::new();
    assert_eq!(registry.register_histogram("latency", &none, &vec![3, 2]), Err(MetricsError::InvalidBuckets));
    assert_eq!(registry.len(), 0);
    assert_eq!(registry.register_histogram("latency", &none, &vec![10, 20]), Ok(()));
    {
        let h = registry.histogram("latency", &none).unwrap();
        assert_eq!((h.bucket_len(), h.count(), h.sum(), h.count_at(0), h.count_at(1)), (2, 0, 0, 0, 0));
    }
    registry.observe_histogram("latency", &none, &vec![10, 20], 15).unwrap();
    assert_eq!(registry.register_histogram("latency", &none, &vec![10, 20]), Ok(()));
    assert_eq!(registry.register_histogram("latency", &none, &vec![10, 30]), Err(MetricsError::InvalidBuckets));
    let h = registry.histogram("latency", &none).unwrap();
    assert_eq!((h.count(), h.sum(), h.count_at(0), h.count_at(1)), (1, 15, 0, 1));
    registry.set_gauge("up", &none, 1).unwrap();
    assert_eq!(registry.register_histogram("up", &none, &vec![1]), Err(MetricsError::KindMismatch));
    assert_eq!(
        registry.render(),
        vec![
            "# HELP latency ",
            "# TYPE latency histogram",
            "latency_bucket{le=\"10\"} 0",
            "latency_bucket{le=\"20\"} 1",
            "latency_bucket{le=\"+Inf\"} 1",
            "latency_sum 15",
            "latency_count 1",
            "",
            "# HELP up ",
            "# TYPE up gauge",
            "up 1",
        ]
    );
}
