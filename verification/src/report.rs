//! The report on the health of a process: the status that its checks add up
//! to and each check, as a value and as the text that goes over the wire.

use vstd::prelude::*;
use vstd::string::*;
use crate::escape::{escaped, push_escaped, Place};
use crate::health::{
    detail_text, overall, CheckResult, CheckResultModel, HealthAggregator, HealthCheck,
    HealthStatus,
};

verus! {

/// One check in a health report.
#[derive(Debug)]
pub struct CheckSummary {
    pub name: String,
    pub status: HealthStatus,
    pub detail: Option<String>,
}

/// The health of the process: the status that its checks add up to, and
/// each check.
#[derive(Debug)]
pub struct HealthReport {
    pub status: HealthStatus,
    pub checks: Vec<CheckSummary>,
}

/// One check in a health report as the contracts see it.
pub struct SummaryModel {
    pub name: Seq<char>,
    pub status: HealthStatus,
    pub detail: Option<Seq<char>>,
}

/// A health report as the contracts see it.
pub struct ReportModel {
    pub status: HealthStatus,
    pub checks: Seq<SummaryModel>,
}

impl View for CheckSummary {
    type V = SummaryModel;

    open spec fn view(&self) -> SummaryModel {
        SummaryModel { name: self.name@, status: self.status, detail: detail_text(self.detail) }
    }
}

impl View for HealthReport {
    type V = ReportModel;

    open spec fn view(&self) -> ReportModel {
        ReportModel {
            status: self.status,
            checks: Seq::new(self.checks@.len(), |i: int| self.checks@[i]@),
        }
    }
}

/// What a report says of one check: its name, its status and its detail.
pub open spec fn summarized(result: CheckResultModel) -> SummaryModel {
    SummaryModel { name: result.name, status: result.status, detail: result.detail }
}

/// The report on the given results: their overall status, and each check in
/// the order of registration.
pub open spec fn report_of(results: Seq<CheckResultModel>) -> ReportModel {
    ReportModel {
        status: overall(results),
        checks: Seq::new(results.len(), |i: int| summarized(results[i])),
    }
}

/// The status code that goes with a status: 503 for an unhealthy process,
/// 200 for any other.
pub open spec fn status_code_of(status: HealthStatus) -> u16 {
    if status == HealthStatus::Unhealthy {
        503
    } else {
        200
    }
}

/// The word for a status in a health report.
pub open spec fn status_word(status: HealthStatus) -> Seq<char> {
    match status {
        HealthStatus::Healthy => "healthy"@,
        HealthStatus::Degraded => "degraded"@,
        HealthStatus::Unhealthy => "unhealthy"@,
    }
}

/// A string of a health report: the text in double quotes.
pub open spec fn report_string(text: Seq<char>) -> Seq<char> {
    "\""@ + escaped(Place::ReportString, text) + "\""@
}

/// One check of a health report as text: its name and its status, and its
/// detail if it has one.
pub open spec fn summary_text(check: SummaryModel) -> Seq<char> {
    "{\"name\":"@ + report_string(check.name) + ",\"status\":"@ + report_string(
        status_word(check.status),
    ) + (match check.detail {
        Some(detail) => ",\"detail\":"@ + report_string(detail),
        None => Seq::empty(),
    }) + "}"@
}

/// The checks of a health report as text, with a comma between two of them.
pub open spec fn summaries_text(checks: Seq<SummaryModel>) -> Seq<char>
    decreases checks.len(),
{
    if checks.len() == 0 {
        Seq::empty()
    } else if checks.len() == 1 {
        summary_text(checks[0])
    } else {
        summaries_text(checks.drop_last()) + ","@ + summary_text(checks.last())
    }
}

/// A health report as text: the overall status, then the checks.
pub open spec fn report_text(report: ReportModel) -> Seq<char> {
    "{\"status\":"@ + report_string(status_word(report.status)) + ",\"checks\":["@
        + summaries_text(report.checks) + "]}"@
}

impl HealthStatus {
    /// The word for the status in a health report.
    pub fn word(self) -> (r: &'static str)
        ensures
            r@ == status_word(self),
    {
        match self {
            HealthStatus::Healthy => "healthy",
            HealthStatus::Degraded => "degraded",
            HealthStatus::Unhealthy => "unhealthy",
        }
    }

    /// The status code that goes with the status.
    pub fn status_code(self) -> (r: u16)
        ensures
            r == status_code_of(self),
    {
        match self {
            HealthStatus::Unhealthy => 503,
            _ => 200,
        }
    }
}

impl CheckSummary {
    /// What a report says of the check with the given result.
    pub fn of_result(result: &CheckResult) -> (r: CheckSummary)
        ensures
            r@ == summarized(result@),
    {
        let detail: Option<String> = match &result.detail {
            Some(text) => Some(text.clone()),
            None => None,
        };
        CheckSummary { name: result.name.clone(), status: result.status, detail }
    }
}

/// The report on the health of the process.
pub fn health_report<C: HealthCheck>(health: &HealthAggregator<C>) -> (report: HealthReport)
    ensures
        report@ == report_of(health@.results),
{
    let n: usize = health.len();
    let mut checks: Vec<CheckSummary> = Vec::new();
    let mut i: usize = 0;
    while i < n
        invariant
            n == health@.results.len(),
            i <= n,
            checks@.len() == i,
            forall|j: int| 0 <= j < i ==> checks@[j]@ == summarized(health@.results[j]),
        decreases n - i,
    {
        checks.push(CheckSummary::of_result(health.result_at(i)));
        i = i + 1;
    }
    let report = HealthReport { status: health.overall_status(), checks };
    assert(report@.checks =~= report_of(health@.results).checks);
    report
}

/// Writes a string of a health report at the end of `out`.
fn push_report_string(out: &mut String, text: &str)
    ensures
        final(out)@ == old(out)@ + report_string(text@),
{
    out.append("\"");
    push_escaped(out, text, Place::ReportString);
    out.append("\"");
}

/// Writes one check of a health report at the end of `out`.
fn push_summary(out: &mut String, check: &CheckSummary)
    ensures
        final(out)@ == old(out)@ + summary_text(check@),
{
    out.append("{\"name\":");
    push_report_string(out, check.name.as_str());
    out.append(",\"status\":");
    push_report_string(out, check.status.word());
    match &check.detail {
        Some(detail) => {
            out.append(",\"detail\":");
            push_report_string(out, detail.as_str());
        },
        None => {},
    }
    out.append("}");
}

impl HealthReport {
    /// The report as text, for the body of a response.
    pub fn to_text(&self) -> (text: String)
        ensures
            text@ == report_text(self@),
    {
        let mut out = String::new();
        out.append("{\"status\":");
        push_report_string(&mut out, self.status.word());
        out.append(",\"checks\":[");
        let ghost start = out@;
        let n: usize = self.checks.len();
        let mut i: usize = 0;
        while i < n
            invariant
                n == self.checks@.len(),
                n == self@.checks.len(),
                i <= n,
                out@ == start + summaries_text(self@.checks.take(i as int)),
            decreases n - i,
        {
            if i > 0 {
                out.append(",");
            }
            push_summary(&mut out, &self.checks[i]);
            assert(self@.checks.take(i + 1).drop_last() =~= self@.checks.take(i as int));
            i = i + 1;
        }
        assert(self@.checks.take(n as int) =~= self@.checks);
        out.append("]}");
        out
    }
}

} // verus!
