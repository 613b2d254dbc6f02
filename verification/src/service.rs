//! What the process answers when it is asked for its health or its metrics,
//! and what it notes down about each request it has served.
//!
//! The runtime that speaks HTTP hands over the kind of request and gets back
//! a status code and a payload; it also hands over, for each request it has
//! served, what is to be counted.

use vstd::prelude::*;
use vstd::string::*;
use crate::error::MetricsError;
use crate::exposition::{lines_of, rendered};
use crate::health::{overall, CheckResultModel, HealthAggregator, HealthCheck};
use crate::histogram::bounds_of;
use crate::metrics::laws::lemma_with_sample_others;
use crate::metrics::model::{
    after_increment, after_observe, counter_value, histogram_on_record, increment_result,
    observe_result, RegistryModel, SampleModel, ValueModel,
};
use crate::metrics::registry::MetricsRegistry;
use crate::report::{health_report, report_of, status_code_of, HealthReport};
use crate::text::{decimal, push_decimal};
use crate::textmap::{with_entry, Entry, TextMap};

verus! {

/// What the runtime can ask for.
#[derive(Clone, Copy, Debug, PartialEq, Eq, Structural)]
pub enum Request {
    ReportHealth,
    ReportMetrics,
}

/// What goes back to whoever asked.
#[derive(Debug)]
pub enum Payload {
    Health(HealthReport),
    /// The metrics as text, line by line.
    Metrics(Vec<String>),
}

/// The answer to a request.
#[derive(Debug)]
pub struct Response {
    pub status_code: u16,
    pub payload: Payload,
}

/// What a request for the health of the process is answered with: the
/// report on it, under the status code of its overall status.
pub open spec fn answers_health(response: Response, results: Seq<CheckResultModel>) -> bool {
    &&& response.status_code == status_code_of(overall(results))
    &&& response.payload matches Payload::Health(report) && report@ == report_of(results)
}

/// What a request for the metrics is answered with: the registry as text,
/// under the status code 200.
pub open spec fn answers_metrics(response: Response, m: RegistryModel) -> bool {
    &&& response.status_code == 200
    &&& response.payload matches Payload::Metrics(lines) && lines_of(lines@) == rendered(m)
}

/// Answers a request for the health of the process.
pub fn handle_health<C: HealthCheck>(health: &HealthAggregator<C>) -> (response: Response)
    ensures
        answers_health(response, health@.results),
{
    let report = health_report(health);
    Response { status_code: report.status.status_code(), payload: Payload::Health(report) }
}

/// Answers a request for the metrics.
pub fn handle_metrics(metrics: &MetricsRegistry) -> (response: Response)
    ensures
        answers_metrics(response, metrics@),
{
    Response { status_code: 200, payload: Payload::Metrics(metrics.render()) }
}

/// Answers a request of either kind. Nothing is changed by it.
pub fn handle<C: HealthCheck>(
    request: Request,
    health: &HealthAggregator<C>,
    metrics: &MetricsRegistry,
) -> (response: Response)
    ensures
        request == Request::ReportHealth ==> answers_health(response, health@.results),
        request == Request::ReportMetrics ==> answers_metrics(response, metrics@),
{
    match request {
        Request::ReportHealth => handle_health(health),
        Request::ReportMetrics => handle_metrics(metrics),
    }
}

/// The name of the counter of served requests in the given namespace.
pub open spec fn requests_total_name(namespace: Seq<char>) -> Seq<char> {
    namespace + "_http_requests_total"@
}

/// The name of the histogram of request durations in the given namespace.
pub open spec fn requests_duration_name(namespace: Seq<char>) -> Seq<char> {
    namespace + "_http_requests_duration_microseconds"@
}

/// The labels under which a request is counted: its endpoint, its method
/// and the status code of its response.
pub open spec fn request_labels(endpoint: Seq<char>, method: Seq<char>, status_code: u16) -> Seq<
    Entry,
> {
    with_entry(
        with_entry(with_entry(Seq::empty(), "endpoint"@, endpoint), "method"@, method),
        "status"@,
        decimal(status_code as nat),
    )
}

/// The upper bounds, in microseconds, of the buckets that request durations
/// are counted into: from five milliseconds to ten seconds.
pub open spec fn duration_bounds() -> Seq<int> {
    seq![
        5_000int,
        10_000int,
        25_000int,
        50_000int,
        100_000int,
        250_000int,
        500_000int,
        1_000_000int,
        2_500_000int,
        5_000_000int,
        10_000_000int,
    ]
}

/// Whether the counter and the histogram of a request can count one more.
pub open spec fn request_has_room(
    m: RegistryModel,
    namespace: Seq<char>,
    endpoint: Seq<char>,
    method: Seq<char>,
    status_code: u16,
) -> bool {
    let labels = request_labels(endpoint, method, status_code);
    &&& counter_value(m.samples, requests_total_name(namespace), labels) < u64::MAX
    &&& histogram_on_record(
        m.samples,
        requests_duration_name(namespace),
        labels,
        duration_bounds(),
    ).count < u64::MAX
}

/// Whether a served request can be noted down, and why not: the first
/// refusal of the counter or the histogram.
pub open spec fn request_result(
    m: RegistryModel,
    namespace: Seq<char>,
    endpoint: Seq<char>,
    method: Seq<char>,
    status_code: u16,
) -> Result<(), MetricsError> {
    let labels = request_labels(endpoint, method, status_code);
    let counted = after_increment(m, requests_total_name(namespace), labels, 1);
    if increment_result(m, requests_total_name(namespace), 1) is Err {
        increment_result(m, requests_total_name(namespace), 1)
    } else {
        observe_result(counted, requests_duration_name(namespace), labels, duration_bounds())
    }
}

/// The registry after a served request was noted down: the request counted,
/// then its duration observed.
pub open spec fn after_request(
    m: RegistryModel,
    namespace: Seq<char>,
    endpoint: Seq<char>,
    method: Seq<char>,
    status_code: u16,
    micros: int,
) -> RegistryModel {
    let labels = request_labels(endpoint, method, status_code);
    let counted = after_increment(m, requests_total_name(namespace), labels, 1);
    if increment_result(m, requests_total_name(namespace), 1) is Err {
        m
    } else {
        after_observe(
            counted,
            requests_duration_name(namespace),
            labels,
            duration_bounds(),
            micros,
        )
    }
}

/// The two names of a namespace differ.
pub proof fn lemma_request_names_differ(namespace: Seq<char>)
    ensures
        requests_total_name(namespace) != requests_duration_name(namespace),
{
    reveal_strlit("_http_requests_total");
    reveal_strlit("_http_requests_duration_microseconds");
    assert(requests_duration_name(namespace).len() == namespace.len() + 36);
}

/// The buckets that request durations are counted into.
pub fn duration_buckets() -> (r: Vec<i64>)
    ensures
        bounds_of(r@) == duration_bounds(),
{
    let mut r: Vec<i64> = Vec::new();
    r.push(5_000);
    r.push(10_000);
    r.push(25_000);
    r.push(50_000);
    r.push(100_000);
    r.push(250_000);
    r.push(500_000);
    r.push(1_000_000);
    r.push(2_500_000);
    r.push(5_000_000);
    r.push(10_000_000);
    r
}

/// The names and labels under which a request is noted down: the name of
/// the counter, the name of the histogram, and the labels of both.
fn request_identity(namespace: &str, endpoint: &str, method: &str, status_code: u16) -> (r: (
    String,
    String,
    TextMap,
))
    ensures
        r.0@ == requests_total_name(namespace@),
        r.1@ == requests_duration_name(namespace@),
        r.2@ == request_labels(endpoint@, method@, status_code),
{
    let mut status = String::new();
    push_decimal(&mut status, status_code as u128);
    let mut labels = TextMap::new();
    labels.insert("endpoint", endpoint);
    labels.insert("method", method);
    labels.insert("status", status.as_str());
    let mut total: String = namespace.to_owned();
    total.append("_http_requests_total");
    let mut duration: String = namespace.to_owned();
    duration.append("_http_requests_duration_microseconds");
    (total, duration, labels)
}

/// Notes down a served request: counts it in `<namespace>_http_requests_total`
/// and observes its duration, in microseconds, in
/// `<namespace>_http_requests_duration_microseconds`, both under the labels
/// `endpoint`, `method` and `status`. Where one of the two names is in use
/// for another kind of metric, or the histogram has other buckets, the
/// refusal is handed on and what was refused is left undone.
pub fn observe_request(
    metrics: &mut MetricsRegistry,
    namespace: &str,
    endpoint: &str,
    method: &str,
    status_code: u16,
    micros: i64,
) -> (r: Result<(), MetricsError>)
    requires
        request_has_room(old(metrics)@, namespace@, endpoint@, method@, status_code),
    ensures
        r == request_result(old(metrics)@, namespace@, endpoint@, method@, status_code),
        final(metrics)@ == after_request(
            old(metrics)@,
            namespace@,
            endpoint@,
            method@,
            status_code,
            micros as int,
        ),
{
    let (total, duration, labels) = request_identity(namespace, endpoint, method, status_code);
    let buckets = duration_buckets();
    proof {
        use_type_invariant(&*metrics);
        metrics.lemma_wf();
        lemma_request_names_differ(namespace@);
    }
    match metrics.increment_counter(total.as_str(), &labels, 1) {
        Err(e) => {
            return Err(e);
        },
        Ok(()) => {},
    }
    proof {
        lemma_with_sample_others(
            old(metrics)@.samples,
            SampleModel {
                name: total@,
                labels: labels@,
                value: ValueModel::Counter(
                    (counter_value(old(metrics)@.samples, total@, labels@) + 1) as nat,
                ),
            },
            duration@,
            labels@,
        );
    }
    metrics.observe_histogram(duration.as_str(), &labels, &buckets, micros)
}

/// Notes down a served request as `observe_request` does, unless its counter
/// or its histogram has counted as far as the machine's integers go: then
/// nothing is noted down, and the answer is `None`.
pub fn checked_observe_request(
    metrics: &mut MetricsRegistry,
    namespace: &str,
    endpoint: &str,
    method: &str,
    status_code: u16,
    micros: i64,
) -> (r: Option<Result<(), MetricsError>>)
    ensures
        r is Some == request_has_room(old(metrics)@, namespace@, endpoint@, method@, status_code),
        r is None ==> final(metrics)@ == old(metrics)@,
        r matches Some(noted) ==> noted == request_result(
            old(metrics)@,
            namespace@,
            endpoint@,
            method@,
            status_code,
        ) && final(metrics)@ == after_request(
            old(metrics)@,
            namespace@,
            endpoint@,
            method@,
            status_code,
            micros as int,
        ),
{
    let (total, duration, labels) = request_identity(namespace, endpoint, method, status_code);
    let counted: u64 = match metrics.counter(total.as_str(), &labels) {
        Some(v) => v,
        None => 0,
    };
    let timed: u64 = match metrics.histogram(duration.as_str(), &labels) {
        Some(h) => h.count(),
        None => 0,
    };
    if counted == u64::MAX || timed == u64::MAX {
        return None;
    }
    Some(observe_request(metrics, namespace, endpoint, method, status_code, micros))
}

} // verus!
