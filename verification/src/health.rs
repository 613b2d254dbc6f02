//! The health aggregator: named sub-checks, what each last reported, and the
//! status they add up to.
//!
//! A check is whatever the caller registers under a name: the aggregator
//! runs it, or is told how it went, and keeps the last result. A check that
//! fails or runs out of time is recorded as unhealthy and holds up none of the
//! others.

use vstd::prelude::*;
use vstd::string::*;
pub use crate::error::HealthError;
use crate::text::{place_text, Placement};

verus! {

/// How well the process, or one of its dependencies, is doing.
#[derive(Clone, Copy, Debug, PartialEq, Eq, Structural)]
pub enum HealthStatus {
    Healthy,
    Degraded,
    Unhealthy,
}

/// What a check reports when it runs to its end.
#[derive(Debug)]
pub struct CheckReport {
    pub status: HealthStatus,
    pub detail: Option<String>,
}

/// Why a check did not run to its end.
#[derive(Debug)]
pub enum CheckError {
    /// The check did not finish within its timeout and was given up.
    CheckTimeout,
    /// The check failed; `detail` says how.
    CheckExecutionError { detail: String },
}

/// The last result of one check.
#[derive(Debug)]
pub struct CheckResult {
    /// The name that the check was registered under.
    pub name: String,
    pub status: HealthStatus,
    /// When the check last ran, by the clock of whoever ran it; `None` until
    /// it has run.
    pub last_checked_at: Option<u64>,
    pub detail: Option<String>,
}

/// The result of a check as the contracts see it.
pub struct CheckResultModel {
    pub name: Seq<char>,
    pub status: HealthStatus,
    pub last_checked_at: Option<u64>,
    pub detail: Option<Seq<char>>,
}

/// The aggregator as the contracts see it.
pub struct AggregatorModel {
    /// The result of each check, in the order of registration.
    pub results: Seq<CheckResultModel>,
    /// The timeout of each check in milliseconds, in the same order.
    pub timeouts: Seq<u64>,
}

/// The text of a detail, if there is one.
pub open spec fn detail_text(detail: Option<String>) -> Option<Seq<char>> {
    match detail {
        Some(text) => Some(text@),
        None => None,
    }
}

impl View for CheckResult {
    type V = CheckResultModel;

    open spec fn view(&self) -> CheckResultModel {
        CheckResultModel {
            name: self.name@,
            status: self.status,
            last_checked_at: self.last_checked_at,
            detail: detail_text(self.detail),
        }
    }
}

/// The results of a sequence of checks as the contracts see them.
pub open spec fn results_of(results: Seq<CheckResult>) -> Seq<CheckResultModel> {
    Seq::new(results.len(), |i: int| results[i]@)
}

/// The result of a check that is registered and has not run: healthy until
/// a run says otherwise.
pub open spec fn initial_result(name: Seq<char>) -> CheckResultModel {
    CheckResultModel { name, status: HealthStatus::Healthy, last_checked_at: None, detail: None }
}

/// The result that a run of the check `name` at the time `now` leaves. A
/// check that ran to its end has the status and detail it reported. One that
/// failed is unhealthy with the failure as its detail, and one that ran out
/// of time is unhealthy with the detail "timeout".
pub open spec fn recorded(
    name: Seq<char>,
    outcome: Result<CheckReport, CheckError>,
    now: u64,
) -> CheckResultModel {
    match outcome {
        Ok(report) => CheckResultModel {
            name,
            status: report.status,
            last_checked_at: Some(now),
            detail: detail_text(report.detail),
        },
        Err(CheckError::CheckTimeout) => CheckResultModel {
            name,
            status: HealthStatus::Unhealthy,
            last_checked_at: Some(now),
            detail: Some("timeout"@),
        },
        Err(CheckError::CheckExecutionError { detail }) => CheckResultModel {
            name,
            status: HealthStatus::Unhealthy,
            last_checked_at: Some(now),
            detail: Some(detail@),
        },
    }
}

/// What a run counts as that took `elapsed_ms` milliseconds under a timeout
/// of `timeout_ms`: a run that took longer than its timeout has timed out,
/// whatever it came back with.
pub open spec fn within_timeout(
    timeout_ms: u64,
    elapsed_ms: u64,
    outcome: Result<CheckReport, CheckError>,
) -> Result<CheckReport, CheckError> {
    if elapsed_ms > timeout_ms {
        Err(CheckError::CheckTimeout)
    } else {
        outcome
    }
}

/// Whether a check of that name is among the results.
pub open spec fn has_check(results: Seq<CheckResultModel>, name: Seq<char>) -> bool {
    exists|i: int| 0 <= i < results.len() && (#[trigger] results[i]).name == name
}

/// No two checks have the same name.
pub open spec fn names_distinct(results: Seq<CheckResultModel>) -> bool {
    forall|i: int, j: int|
        #![trigger results[i], results[j]]
        0 <= i < j < results.len() ==> results[i].name != results[j].name
}

/// Whether some check has the status `status`.
pub open spec fn any_with(results: Seq<CheckResultModel>, status: HealthStatus) -> bool {
    exists|i: int| 0 <= i < results.len() && (#[trigger] results[i]).status == status
}

/// The status that the results add up to: unhealthy if any check is, else
/// degraded if any check is, else healthy.
pub open spec fn overall(results: Seq<CheckResultModel>) -> HealthStatus {
    if any_with(results, HealthStatus::Unhealthy) {
        HealthStatus::Unhealthy
    } else if any_with(results, HealthStatus::Degraded) {
        HealthStatus::Degraded
    } else {
        HealthStatus::Healthy
    }
}

/// A check: something that can be run and then says how its subject is
/// doing. Whoever implements it sees to it that `run` returns
/// `CheckError::CheckTimeout` rather than take longer than `timeout_ms`
/// milliseconds.
pub trait HealthCheck {
    fn run(&self, timeout_ms: u64) -> Result<CheckReport, CheckError>;
}

/// Whether `result` is what a run of `check` under the name `name`, with the
/// timeout `timeout_ms` and at the time `now`, can leave: the record of an
/// outcome that the run can have.
pub open spec fn is_recorded<C: HealthCheck>(
    check: C,
    timeout_ms: u64,
    name: Seq<char>,
    result: CheckResultModel,
    now: u64,
) -> bool {
    exists|outcome: Result<CheckReport, CheckError>|
        call_ensures(C::run, (&check, timeout_ms), outcome) && #[trigger] recorded(
            name,
            outcome,
            now,
        ) == result
}

/// Whether `after` is what a run of every check at the time `now` can leave
/// of `before`: as many results, each that of a run of its own check under
/// its own name and with its own timeout.
pub open spec fn all_recorded<C: HealthCheck>(
    checks: Seq<C>,
    timeouts: Seq<u64>,
    before: Seq<CheckResultModel>,
    after: Seq<CheckResultModel>,
    now: u64,
) -> bool {
    &&& after.len() == before.len()
    &&& forall|i: int|
        0 <= i < before.len() ==> #[trigger] is_recorded(
            checks[i],
            timeouts[i],
            before[i].name,
            after[i],
            now,
        )
}

impl CheckResult {
    /// A copy of the result.
    pub fn duplicate(&self) -> (r: CheckResult)
        ensures
            r@ == self@,
    {
        let detail: Option<String> = match &self.detail {
            Some(text) => Some(text.clone()),
            None => None,
        };
        CheckResult {
            name: self.name.clone(),
            status: self.status,
            last_checked_at: self.last_checked_at,
            detail,
        }
    }

    /// The result that a run of the check `name` at the time `now` leaves.
    pub fn of_outcome(name: String, outcome: Result<CheckReport, CheckError>, now: u64) -> (r:
        CheckResult)
        ensures
            r@ == recorded(name@, outcome, now),
    {
        match outcome {
            Ok(report) => CheckResult {
                name,
                status: report.status,
                last_checked_at: Some(now),
                detail: report.detail,
            },
            Err(CheckError::CheckTimeout) => CheckResult {
                name,
                status: HealthStatus::Unhealthy,
                last_checked_at: Some(now),
                detail: Some("timeout".to_owned()),
            },
            Err(CheckError::CheckExecutionError { detail }) => CheckResult {
                name,
                status: HealthStatus::Unhealthy,
                last_checked_at: Some(now),
                detail: Some(detail),
            },
        }
    }
}

/// A registered check, with its timeout and what it last reported.
struct Registered<C> {
    check: C,
    timeout_ms: u64,
    result: CheckResult,
}

/// The checks of a process and what each last reported.
pub struct HealthAggregator<C: HealthCheck> {
    entries: Vec<Registered<C>>,
}

impl<C: HealthCheck> View for HealthAggregator<C> {
    type V = AggregatorModel;

    closed spec fn view(&self) -> AggregatorModel {
        AggregatorModel {
            results: Seq::new(self.entries@.len(), |i: int| self.entries@[i].result@),
            timeouts: Seq::new(self.entries@.len(), |i: int| self.entries@[i].timeout_ms),
        }
    }
}

impl<C: HealthCheck> HealthAggregator<C> {
    /// The registered checks, in the order of registration.
    pub closed spec fn checks(&self) -> Seq<C> {
        Seq::new(self.entries@.len(), |i: int| self.entries@[i].check)
    }

    /// The invariant of the type: no two checks have the same name.
    #[verifier::type_invariant]
    pub closed spec fn wf(&self) -> bool {
        names_distinct(self@.results)
    }

    /// An aggregator without checks.
    pub fn new() -> (r: Self)
        ensures
            r@.results == Seq::<CheckResultModel>::empty(),
            r@.timeouts == Seq::<u64>::empty(),
            r.checks() == Seq::<C>::empty(),
    {
        HealthAggregator { entries: Vec::new() }
    }

    /// The number of registered checks.
    pub fn len(&self) -> (n: usize)
        ensures
            n == self@.results.len(),
    {
        self.entries.len()
    }

    /// The index of the check `name`, if it is registered.
    pub fn index_of(&self, name: &str) -> (r: Option<usize>)
        ensures
            r is Some == has_check(self@.results, name@),
            r matches Some(i) ==> i < self@.results.len() && self@.results[i as int].name == name@,
    {
        let mut i: usize = 0;
        while i < self.entries.len()
            invariant
                i <= self.entries@.len(),
                self@.results.len() == self.entries@.len(),
                forall|j: int| 0 <= j < i ==> (#[trigger] self@.results[j]).name != name@,
            decreases self.entries@.len() - i,
        {
            if place_text(self.entries[i].result.name.as_str(), name) == Placement::Same {
                return Some(i);
            }
            i = i + 1;
        }
        None
    }

    /// Registers `check` under `name`, to be run with the timeout
    /// `timeout_ms`. A name that is registered already is refused with
    /// `DuplicateCheckName`, and nothing changes.
    pub fn register_check(&mut self, name: &str, timeout_ms: u64, check: C) -> (r: Result<
        (),
        HealthError,
    >)
        ensures
            r is Err == has_check(old(self)@.results, name@),
            r matches Err(e) ==> e == HealthError::DuplicateCheckName && final(self)@ == old(self)@
                && final(self).checks() == old(self).checks(),
            r is Ok ==> final(self)@.results == old(self)@.results.push(initial_result(name@))
                && final(self)@.timeouts == old(self)@.timeouts.push(timeout_ms)
                && final(self).checks() == old(self).checks().push(check),
    {
        if self.index_of(name).is_some() {
            return Err(HealthError::DuplicateCheckName);
        }
        proof {
            use_type_invariant(&*self);
        }
        let ghost before = *self;
        let mut entries: Vec<Registered<C>> = Vec::new();
        std::mem::swap(&mut entries, &mut self.entries);
        entries.push(
            Registered {
                check,
                timeout_ms,
                result: CheckResult {
                    name: name.to_owned(),
                    status: HealthStatus::Healthy,
                    last_checked_at: None,
                    detail: None,
                },
            },
        );
        let ghost after = HealthAggregator { entries };
        proof {
            assert forall|i: int, j: int|
                #![trigger after@.results[i], after@.results[j]]
                0 <= i < j < after@.results.len() implies after@.results[i].name
                != after@.results[j].name by {
                assert(after@.results[i] == before@.results[i]);
                if j < before@.results.len() {
                    assert(after@.results[j] == before@.results[j]);
                }
            }
        }
        self.entries = entries;
        Ok(())
    }

    /// The name of the check at `index`, counting in the order of
    /// registration.
    pub fn name_at(&self, index: usize) -> (r: &String)
        requires
            index < self@.results.len(),
        ensures
            r@ == self@.results[index as int].name,
    {
        &self.entries[index].result.name
    }

    /// The timeout in milliseconds of the check at `index`.
    pub fn timeout_at(&self, index: usize) -> (r: u64)
        requires
            index < self@.results.len(),
        ensures
            r == self@.timeouts[index as int],
    {
        self.entries[index].timeout_ms
    }

    /// The last result of the check at `index`.
    pub fn result_at(&self, index: usize) -> (r: &CheckResult)
        requires
            index < self@.results.len(),
        ensures
            r@ == self@.results[index as int],
    {
        &self.entries[index].result
    }

    /// Takes down how a run of the check at `index` went: its result is
    /// replaced as a whole, and no other result changes.
    pub fn record(&mut self, index: usize, outcome: Result<CheckReport, CheckError>, now: u64)
        requires
            index < old(self)@.results.len(),
        ensures
            final(self).checks() == old(self).checks(),
            final(self)@.timeouts == old(self)@.timeouts,
            final(self)@.results == old(self)@.results.update(
                index as int,
                recorded(old(self)@.results[index as int].name, outcome, now),
            ),
    {
        proof {
            use_type_invariant(&*self);
        }
        let ghost before = *self;
        let name: String = self.entries[index].result.name.clone();
        let result = CheckResult::of_outcome(name, outcome, now);
        let mut entries: Vec<Registered<C>> = Vec::new();
        std::mem::swap(&mut entries, &mut self.entries);
        entries[index].result = result;
        let ghost after = HealthAggregator { entries };
        assert(after@.results =~= before@.results.update(
            index as int,
            recorded(before@.results[index as int].name, outcome, now),
        ));
        self.entries = entries;
    }

    /// Takes down how a run of the check at `index` went that took
    /// `elapsed_ms` milliseconds: as `record` does, but a run that took longer
    /// than the timeout of the check is taken down as timed out.
    pub fn record_timed(
        &mut self,
        index: usize,
        elapsed_ms: u64,
        outcome: Result<CheckReport, CheckError>,
        now: u64,
    )
        requires
            index < old(self)@.results.len(),
        ensures
            final(self).checks() == old(self).checks(),
            final(self)@.timeouts == old(self)@.timeouts,
            final(self)@.results == old(self)@.results.update(
                index as int,
                recorded(
                    old(self)@.results[index as int].name,
                    within_timeout(old(self)@.timeouts[index as int], elapsed_ms, outcome),
                    now,
                ),
            ),
    {
        if elapsed_ms > self.timeout_at(index) {
            self.record(index, Err(CheckError::CheckTimeout), now);
        } else {
            self.record(index, outcome, now);
        }
    }

    /// Runs every registered check, each with its own timeout, and takes down
    /// how it went. Every check is run whatever the others did, and none is
    /// added or removed.
    pub fn run_checks(&mut self, now: u64)
        ensures
            final(self).checks() == old(self).checks(),
            final(self)@.timeouts == old(self)@.timeouts,
            all_recorded(
                old(self).checks(),
                old(self)@.timeouts,
                old(self)@.results,
                final(self)@.results,
                now,
            ),
            forall|i: int|
                0 <= i < old(self)@.results.len() ==> (#[trigger] final(self)@.results[i]).name == old(
                    self,
                )@.results[i].name && final(self)@.results[i].last_checked_at == Some(now),
    {
        let n: usize = self.entries.len();
        let mut i: usize = 0;
        while i < n
            invariant
                i <= n,
                n == old(self)@.results.len(),
                self@.results.len() == n,
                self.entries@.len() == n,
                self.checks() == old(self).checks(),
                self@.timeouts == old(self)@.timeouts,
                forall|j: int| i <= j < n ==> self@.results[j] == old(self)@.results[j],
                forall|j: int|
                    0 <= j < i ==> #[trigger] is_recorded(
                        old(self).checks()[j],
                        old(self)@.timeouts[j],
                        old(self)@.results[j].name,
                        self@.results[j],
                        now,
                    ),
            decreases n - i,
        {
            let outcome = self.entries[i].check.run(self.entries[i].timeout_ms);
            self.record(i, outcome, now);
            assert(self@.results.len() == self.entries@.len());
            i = i + 1;
        }
        proof {
            assert forall|i: int| 0 <= i < n implies (#[trigger] self@.results[i]).name == old(
                self,
            )@.results[i].name && self@.results[i].last_checked_at == Some(now) by {
                assert(is_recorded(
                    old(self).checks()[i],
                    old(self)@.timeouts[i],
                    old(self)@.results[i].name,
                    self@.results[i],
                    now,
                ));
            }
        }
    }

    /// The status that the checks add up to: unhealthy if any check is, else
    /// degraded if any check is, else healthy.
    pub fn overall_status(&self) -> (r: HealthStatus)
        ensures
            r == overall(self@.results),
            r == HealthStatus::Unhealthy <==> any_with(self@.results, HealthStatus::Unhealthy),
            r == HealthStatus::Degraded <==> !any_with(self@.results, HealthStatus::Unhealthy)
                && any_with(self@.results, HealthStatus::Degraded),
            r == HealthStatus::Healthy <==> !any_with(self@.results, HealthStatus::Unhealthy)
                && !any_with(self@.results, HealthStatus::Degraded),
    {
        let ghost s = self@.results;
        let mut degraded: bool = false;
        let mut i: usize = 0;
        while i < self.entries.len()
            invariant
                s == self@.results,
                s.len() == self.entries@.len(),
                i <= s.len(),
                forall|j: int| 0 <= j < i ==> (#[trigger] s[j]).status != HealthStatus::Unhealthy,
                degraded <==> exists|j: int|
                    0 <= j < i && (#[trigger] s[j]).status == HealthStatus::Degraded,
            decreases s.len() - i,
        {
            assert(s[i as int] == self.entries@[i as int].result@);
            match self.entries[i].result.status {
                HealthStatus::Unhealthy => {
                    return HealthStatus::Unhealthy;
                },
                HealthStatus::Degraded => {
                    degraded = true;
                },
                HealthStatus::Healthy => {},
            }
            i = i + 1;
        }
        if degraded {
            HealthStatus::Degraded
        } else {
            HealthStatus::Healthy
        }
    }

    /// A copy of the result of every check, in the order of registration.
    /// The copy is the caller's own: nothing done to it reaches the
    /// aggregator.
    pub fn snapshot(&self) -> (r: Vec<CheckResult>)
        ensures
            results_of(r@) == self@.results,
            names_distinct(results_of(r@)),
    {
        proof {
            use_type_invariant(self);
        }
        let mut copy: Vec<CheckResult> = Vec::new();
        let mut i: usize = 0;
        while i < self.entries.len()
            invariant
                i <= self.entries@.len(),
                copy@.len() == i,
                forall|j: int| 0 <= j < i ==> copy@[j]@ == self.entries@[j].result@,
            decreases self.entries@.len() - i,
        {
            copy.push(self.entries[i].result.duplicate());
            i = i + 1;
        }
        copy
    }
}

} // verus!
