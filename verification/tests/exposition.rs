use rust_o11y::metrics::MetricsRegistry;
use rust_o11y::textmap::TextMap;

fn labels(pairs: &[(&str, &str)]) -> TextMap {
    let mut map = TextMap::new();
    for (key, value) in pairs {
        map.insert(key, value);
    }
    map
}

fn example() -> MetricsRegistry {
    let mut registry = MetricsRegistry::new();
    registry.describe("requests_total", "Requests served");
    registry.describe("temperature", "Degrees");
    registry.increment_counter("requests_total", &labels(&[("method", "POST")]), 2).unwrap();
    registry
        .increment_counter("requests_total", &labels(&[("status", "200"), ("method", "GET")]), 40)
        .unwrap();
    registry.set_gauge("temperature", &TextMap::new(), -4).unwrap();
    registry.observe_histogram("latency", &labels(&[("route", "/")]), &vec![100, 500, 1000], 300).unwrap();
    registry.observe_histogram("latency", &TextMap::new(), &vec![-5, 5], -7).unwrap();
    registry
}

#[test]
fn empty_registry_renders_nothing() {
    assert_eq!(MetricsRegistry::new().render(), Vec::<String>::new());
}

#[test]
fn one_counter_renders_three_lines() {
    let mut registry = MetricsRegistry::new();
    registry.increment_counter("requests_total", &labels(&[("method", "GET")]), 1).unwrap();
    assert_eq!(
        registry.render(),
        vec![
            "# HELP requests_total ",
            "# TYPE requests_total counter",
            "requests_total{method=\"GET\"} 1",
        ]
    );
}

#[test]
fn render_groups_by_name_in_order() {
    assert_eq!(
        example().render(),
        vec![
            "# HELP latency ",
            "# TYPE latency histogram",
            "latency_bucket{le=\"-5\"} 1",
            "latency_bucket{le=\"5\"} 1",
            "latency_bucket{le=\"+Inf\"} 1",
            "latency_sum -7",
            "latency_count 1",
            "latency_bucket{route=\"/\",le=\"100\"} 0",
            "latency_bucket{route=\"/\",le=\"500\"} 1",
            "latency_bucket{route=\"/\",le=\"1000\"} 1",
            "latency_bucket{route=\"/\",le=\"+Inf\"} 1",
            "latency_sum{route=\"/\"} 300",
            "latency_count{route=\"/\"} 1",
            "",
            "# HELP requests_total Requests served",
            "# TYPE requests_total counter",
            "requests_total{method=\"GET\",status=\"200\"} 40",
            "requests_total{method=\"POST\"} 2",
            "",
            "# HELP temperature Degrees",
            "# TYPE temperature gauge",
            "temperature -4",
        ]
    );
}

#[test]
fn render_twice_is_the_same_text() {
    let registry = example();
    let first = registry.render();
    let second = registry.render();
    assert_eq!(first, second);
    assert_eq!(first.join("\n").into_bytes(), second.join("\n").into_bytes());
}

#[test]
fn render_does_not_depend_on_the_order_of_writes() {
    let mut a = MetricsRegistry::new();
    a.set_gauge("g", &labels(&[("k", "2")]), 2).unwrap();
    a.increment_counter("c", &TextMap::new(), 1).unwrap();
    a.set_gauge("g", &labels(&[("k", "1")]), 1).unwrap();
    a.describe("g", "a gauge");
    let mut b = MetricsRegistry::new();
    b.describe("g", "a gauge");
    b.set_gauge("g", &labels(&[("k", "1")]), 1).unwrap();
    b.set_gauge("g", &labels(&[("k", "2")]), 2).unwrap();
    b.increment_counter("c", &TextMap::new(), 1).unwrap();
    assert_eq!(a.render(), b.render());
    assert_eq!(
        a.render(),
        vec![
            "# HELP c ",
            "# TYPE c counter",
            "c 1",
            "",
            "# HELP g a gauge",
            "# TYPE g gauge",
            "g{k=\"1\"} 1",
            "g{k=\"2\"} 2",
        ]
    );
}

#[test]
fn render_is_the_samples_one_after_another() {
    let registry = example();
    let mut lines: Vec<String> = Vec::new();
    for i in 0..registry.len() {
        lines.extend(registry.render_sample(i));
    }
    assert_eq!(lines, registry.render());
    assert_eq!(
        registry.render_sample(3),
        vec!["requests_total{method=\"POST\"} 2"]
    );
    assert_eq!(
        registry.render_sample(4),
        vec!["", "# HELP temperature Degrees", "# TYPE temperature gauge", "temperature -4"]
    );
}

#[test]
fn render_shows_the_largest_numbers() {
    let mut registry = MetricsRegistry::new();
    let none = TextMap::new();
    registry.increment_counter("c", &none, i64::MAX).unwrap();
    registry.increment_counter("c", &none, i64::MAX).unwrap();
    registry.increment_counter("c", &none, 1).unwrap();
    registry.set_gauge("g", &none, i64::MIN).unwrap();
    assert_eq!(
        registry.render(),
        vec![
            "# HELP c ",
            "# TYPE c counter",
            "c 18446744073709551615",
            "",
            "# HELP g ",
            "# TYPE g gauge",
            "g -9223372036854775808",
        ]
    );
}

#[test]
fn render_leaves_the_registry_as_it_was() {
    let mut registry = example();
    let before = registry.render();
    let _ = registry.render();
    let _ = registry.render_sample(0);
    registry.increment_counter("requests_total", &labels(&[("method", "POST")]), 1).unwrap();
    let after = registry.render();
    assert_eq!(before.len(), after.len());
    let changed: Vec<usize> = (0..before.len()).filter(|i| before[*i] != after[*i]).collect();
    assert_eq!(changed, vec![17]);
    assert_eq!(after[17], "requests_total{method=\"POST\"} 3");
}
