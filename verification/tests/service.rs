use rust_o11y::health::{CheckError, CheckReport, HealthAggregator, HealthCheck, HealthStatus};
use rust_o11y::metrics::{MetricsError, MetricsRegistry};
use rust_o11y::report::{health_report, CheckSummary};
use rust_o11y::service::{
    checked_observe_request, duration_buckets, handle, handle_health, handle_metrics,
    observe_request, Payload, Request,
};
use rust_o11y::textmap::TextMap;

struct Always(HealthStatus);

impl HealthCheck for Always {
    fn run(&self, _timeout_ms: u64) -> Result<CheckReport, CheckError> {
        match self.0 {
            HealthStatus::Unhealthy => Ok(CheckReport {
                status: HealthStatus::Unhealthy,
                detail: Some("no route to host".to_string()),
            }),
            status => Ok(CheckReport { status, detail: None }),
        }
    }
}

fn summary(check: &CheckSummary) -> (&str, HealthStatus, Option<&str>) {
    (check.name.as_str(), check.status, check.detail.as_deref())
}

#[test]
fn status_words_and_codes() {
    assert_eq!(HealthStatus::Healthy.word(), "healthy");
    assert_eq!(HealthStatus::Degraded.word(), "degraded");
    assert_eq!(HealthStatus::Unhealthy.word(), "unhealthy");
    assert_eq!(HealthStatus::Healthy.status_code(), 200);
    assert_eq!(HealthStatus::Degraded.status_code(), 200);
    assert_eq!(HealthStatus::Unhealthy.status_code(), 503);
}

#[test]
fn health_of_a_process_without_checks() {
    let health: HealthAggregator<Always> = HealthAggregator::new();
    let metrics = MetricsRegistry::new();
    let response = handle(Request::ReportHealth, &health, &metrics);
    assert_eq!(response.status_code, 200);
    match response.payload {
        Payload::Health(report) => {
            assert_eq!(report.status, HealthStatus::Healthy);
            assert!(report.checks.is_empty());
        }
        Payload::Metrics(_) => panic!("asked for health"),
    }
}

#[test]
fn unhealthy_cache_gives_503_and_lists_both_checks() {
    let mut health = HealthAggregator::new();
    health.register_check("db", 100, Always(HealthStatus::Healthy)).unwrap();
    health.register_check("cache", 100, Always(HealthStatus::Unhealthy)).unwrap();
    health.run_checks(1);
    assert_eq!(health.overall_status(), HealthStatus::Unhealthy);
    let response = handle(Request::ReportHealth, &health, &MetricsRegistry::new());
    assert_eq!(response.status_code, 503);
    match response.payload {
        Payload::Health(report) => {
            assert_eq!(report.status, HealthStatus::Unhealthy);
            assert_eq!(report.status.word(), "unhealthy");
            assert_eq!(report.checks.len(), 2);
            assert_eq!(summary(&report.checks[0]), ("db", HealthStatus::Healthy, None));
            assert_eq!(
                summary(&report.checks[1]),
                ("cache", HealthStatus::Unhealthy, Some("no route to host"))
            );
        }
        Payload::Metrics(_) => panic!("asked for health"),
    }
}

#[test]
fn degraded_process_still_answers_200() {
    let mut health = HealthAggregator::new();
    health.register_check("db", 100, Always(HealthStatus::Degraded)).unwrap();
    health.register_check("cache", 100, Always(HealthStatus::Healthy)).unwrap();
    health.run_checks(1);
    let response = handle(Request::ReportHealth, &health, &MetricsRegistry::new());
    assert_eq!(response.status_code, 200);
    let report = health_report(&health);
    assert_eq!(report.status, HealthStatus::Degraded);
    assert_eq!(summary(&report.checks[0]), ("db", HealthStatus::Degraded, None));
    assert_eq!(summary(&report.checks[1]), ("cache", HealthStatus::Healthy, None));
}

#[test]
fn metrics_are_answered_with_the_rendering() {
    let health: HealthAggregator<Always> = HealthAggregator::new();
    let mut metrics = MetricsRegistry::new();
    metrics.increment_counter("jobs", &TextMap::new(), 3).unwrap();
    let response = handle(Request::ReportMetrics, &health, &metrics);
    assert_eq!(response.status_code, 200);
    match response.payload {
        Payload::Metrics(lines) => {
            assert_eq!(lines, vec!["# HELP jobs ", "# TYPE jobs counter", "jobs 3"]);
            assert_eq!(lines, metrics.render());
        }
        Payload::Health(_) => panic!("asked for metrics"),
    }
}

#[test]
fn metrics_are_answered_even_when_unhealthy() {
    let mut health = HealthAggregator::new();
    health.register_check("db", 100, Always(HealthStatus::Unhealthy)).unwrap();
    health.run_checks(1);
    let response = handle(Request::ReportMetrics, &health, &MetricsRegistry::new());
    assert_eq!(response.status_code, 200);
    assert!(matches!(response.payload, Payload::Metrics(lines) if lines.is_empty()));
}

#[test]
fn duration_buckets_run_from_five_milliseconds_to_ten_seconds() {
    assert_eq!(
        duration_buckets(),
        vec![5_000, 10_000, 25_000, 50_000, 100_000, 250_000, 500_000, 1_000_000, 2_500_000, 5_000_000, 10_000_000]
    );
}

#[test]
fn served_request_is_counted_and_timed() {
    let mut metrics = MetricsRegistry::new();
    assert_eq!(observe_request(&mut metrics, "api", "/health_check", "GET", 200, 30_000), Ok(()));
    assert_eq!(observe_request(&mut metrics, "api", "/health_check", "GET", 200, 4_000), Ok(()));
    assert_eq!(observe_request(&mut metrics, "api", "/health_check", "GET", 503, 20_000_000), Ok(()));
    let mut ok = TextMap::new();
    ok.insert("endpoint", "/health_check");
    ok.insert("method", "GET");
    ok.insert("status", "200");
    assert_eq!(metrics.counter("api_http_requests_total", &ok), Some(2));
    let h = metrics.histogram("api_http_requests_duration_microseconds", &ok).unwrap();
    assert_eq!((h.count(), h.sum()), (2, 34_000));
    assert_eq!(h.count_at(0), 1);
    assert_eq!(h.count_at(2), 1);
    assert_eq!(h.count_at(3), 2);
    assert_eq!(h.count_at(10), 2);
    assert_eq!(
        metrics.render(),
        vec![
            "# HELP api_http_requests_duration_microseconds ",
            "# TYPE api_http_requests_duration_microseconds histogram",
            "api_http_requests_duration_microseconds_bucket{endpoint=\"/health_check\",method=\"GET\",status=\"200\",le=\"5000\"} 1",
            "api_http_requests_duration_microseconds_bucket{endpoint=\"/health_check\",method=\"GET\",status=\"200\",le=\"10000\"} 1",
            "api_http_requests_duration_microseconds_bucket{endpoint=\"/health_check\",method=\"GET\",status=\"200\",le=\"25000\"} 1",
            "api_http_requests_duration_microseconds_bucket{endpoint=\"/health_check\",method=\"GET\",status=\"200\",le=\"50000\"} 2",
            "api_http_requests_duration_microseconds_bucket{endpoint=\"/health_check\",method=\"GET\",status=\"200\",le=\"100000\"} 2",
            "api_http_requests_duration_microseconds_bucket{endpoint=\"/health_check\",method=\"GET\",status=\"200\",le=\"250000\"} 2",
            "api_http_requests_duration_microseconds_bucket{endpoint=\"/health_check\",method=\"GET\",status=\"200\",le=\"500000\"} 2",
            "api_http_requests_duration_microseconds_bucket{endpoint=\"/health_check\",method=\"GET\",status=\"200\",le=\"1000000\"} 2",
            "api_http_requests_duration_microseconds_bucket{endpoint=\"/health_check\",method=\"GET\",status=\"200\",le=\"2500000\"} 2",
            "api_http_requests_duration_microseconds_bucket{endpoint=\"/health_check\",method=\"GET\",status=\"200\",le=\"5000000\"} 2",
            "api_http_requests_duration_microseconds_bucket{endpoint=\"/health_check\",method=\"GET\",status=\"200\",le=\"10000000\"} 2",
            "api_http_requests_duration_microseconds_bucket{endpoint=\"/health_check\",method=\"GET\",status=\"200\",le=\"+Inf\"} 2",
            "api_http_requests_duration_microseconds_sum{endpoint=\"/health_check\",method=\"GET\",status=\"200\"} 34000",
            "api_http_requests_duration_microseconds_count{endpoint=\"/health_check\",method=\"GET\",status=\"200\"} 2",
            "api_http_requests_duration_microseconds_bucket{endpoint=\"/health_check\",method=\"GET\",status=\"503\",le=\"5000\"} 0",
            "api_http_requests_duration_microseconds_bucket{endpoint=\"/health_check\",method=\"GET\",status=\"503\",le=\"10000\"} 0",
            "api_http_requests_duration_microseconds_bucket{endpoint=\"/health_check\",method=\"GET\",status=\"503\",le=\"25000\"} 0",
            "api_http_requests_duration_microseconds_bucket{endpoint=\"/health_check\",method=\"GET\",status=\"503\",le=\"50000\"} 0",
            "api_http_requests_duration_microseconds_bucket{endpoint=\"/health_check\",method=\"GET\",status=\"503\",le=\"100000\"} 0",
            "api_http_requests_duration_microseconds_bucket{endpoint=\"/health_check\",method=\"GET\",status=\"503\",le=\"250000\"} 0",
            "api_http_requests_duration_microseconds_bucket{endpoint=\"/health_check\",method=\"GET\",status=\"503\",le=\"500000\"} 0",
            "api_http_requests_duration_microseconds_bucket{endpoint=\"/health_check\",method=\"GET\",status=\"503\",le=\"1000000\"} 0",
            "api_http_requests_duration_microseconds_bucket{endpoint=\"/health_check\",method=\"GET\",status=\"503\",le=\"2500000\"} 0",
            "api_http_requests_duration_microseconds_bucket{endpoint=\"/health_check\",method=\"GET\",status=\"503\",le=\"5000000\"} 0",
            "api_http_requests_duration_microseconds_bucket{endpoint=\"/health_check\",method=\"GET\",status=\"503\",le=\"10000000\"} 0",
            "api_http_requests_duration_microseconds_bucket{endpoint=\"/health_check\",method=\"GET\",status=\"503\",le=\"+Inf\"} 1",
            "api_http_requests_duration_microseconds_sum{endpoint=\"/health_check\",method=\"GET\",status=\"503\"} 20000000",
            "api_http_requests_duration_microseconds_count{endpoint=\"/health_check\",method=\"GET\",status=\"503\"} 1",
            "",
            "# HELP api_http_requests_total ",
            "# TYPE api_http_requests_total counter",
            "api_http_requests_total{endpoint=\"/health_check\",method=\"GET\",status=\"200\"} 2",
            "api_http_requests_total{endpoint=\"/health_check\",method=\"GET\",status=\"503\"} 1",
        ]
    );
}

#[test]
fn served_request_is_refused_where_a_name_is_taken() {
    let mut metrics = MetricsRegistry::new();
    metrics.set_gauge("api_http_requests_total", &TextMap::new(), 1).unwrap();
    assert_eq!(
        observe_request(&mut metrics, "api", "/", "GET", 200, 1),
        Err(MetricsError::KindMismatch)
    );
    assert_eq!(metrics.len(), 1);
    let mut metrics = MetricsRegistry::new();
    metrics.set_gauge("api_http_requests_duration_microseconds", &TextMap::new(), 1).unwrap();
    assert_eq!(
        observe_request(&mut metrics, "api", "/", "GET", 200, 1),
        Err(MetricsError::KindMismatch)
    );
    assert_eq!(metrics.len(), 2);
}

#[test]
fn each_kind_of_request_has_its_own_answer() {
    let mut health = HealthAggregator::new();
    health.register_check("db", 100, Always(HealthStatus::Unhealthy)).unwrap();
    health.run_checks(1);
    let mut metrics = MetricsRegistry::new();
    metrics.set_gauge("up", &TextMap::new(), 1).unwrap();
    let answer = handle_health(&health);
    assert_eq!(answer.status_code, 503);
    match answer.payload {
        Payload::Health(report) => assert_eq!(
            report.to_text(),
            "{\"status\":\"unhealthy\",\"checks\":[{\"name\":\"db\",\"status\":\"unhealthy\",\"detail\":\"no route to host\"}]}"
        ),
        Payload::Metrics(_) => panic!("asked for health"),
    }
    let answer = handle_metrics(&metrics);
    assert_eq!(answer.status_code, 200);
    match answer.payload {
        Payload::Metrics(lines) => assert_eq!(lines, vec!["# HELP up ", "# TYPE up gauge", "up 1"]),
        Payload::Health(_) => panic!("asked for metrics"),
    }
}

#[test]
fn checked_request_is_noted_down_like_any_other() {
    let mut a = MetricsRegistry::new();
    let mut b = MetricsRegistry::new();
    assert_eq!(checked_observe_request(&mut a, "api", "/metrics", "GET", 200, 1_234), Some(Ok(())));
    assert_eq!(observe_request(&mut b, "api", "/metrics", "GET", 200, 1_234), Ok(()));
    assert_eq!(a.render(), b.render());
    a.set_gauge("web_http_requests_total", &TextMap::new(), 0).unwrap();
    assert_eq!(
        checked_observe_request(&mut a, "web", "/", "POST", 404, 1),
        Some(Err(MetricsError::KindMismatch))
    );
}
