//! `ssh run` orchestration: preparing per-target coordinates, fail-fast preflight, merging
//! preflight failures with executed results, and the machine and human renderings of a report.
use crate::error::{plain_error, AppError, ErrorCode};
use crate::machine::{
    MachineSshCaptureEncoding, MachineSshCapturedStream, MachineSshExecutionState,
    MachineSshFailure, MachineSshFailureCode, MachineSshRunData, MachineSshTargetResult,
    MachineWarning,
};
use crate::model::{EnvironmentRef, ProviderId};
use crate::text::str_eq;
use crate::provider::SshTarget;
use crate::ssh::{
    is_unstarted, stream_capture_limit, BatchReport, CaptureEncoding, CapturedStream,
    ExecutionFailureCode, ExecutionState, InheritedOutcome, PoolWarning,
    TargetExecution,
};
use vstd::prelude::*;

verus! {

/// How a command ended when it did not fail with an error.
#[derive(Debug, Clone, Copy, PartialEq, Eq, Structural)]
pub enum CommandOutcome {
    Success,
    Exit(u8),
}

/// One environment paired with provider-validated SSH coordinates.
#[derive(Debug, PartialEq, Eq)]
pub struct ExecutionTarget {
    pub environment: EnvironmentRef,
    pub ssh: SshTarget,
}

impl Clone for ExecutionTarget {
    fn clone(&self) -> (r: Self)
        ensures
            r == *self,
    {
        ExecutionTarget { environment: self.environment.clone(), ssh: self.ssh.clone() }
    }
}

/// Number of empty slots.
pub open spec fn count_none<T>(s: Seq<Option<T>>) -> nat
    decreases s.len(),
{
    if s.len() == 0 {
        0
    } else {
        count_none(s.drop_last()) + if s.last() is None {
            1nat
        } else {
            0nat
        }
    }
}

proof fn lemma_count_none_take<T>(s: Seq<Option<T>>, i: int)
    requires
        0 <= i < s.len(),
    ensures
        count_none(s.take(i + 1)) == count_none(s.take(i)) + if s[i] is None {
            1nat
        } else {
            0nat
        },
        count_none(s.take(i)) <= i,
{
    assert(s.take(i + 1).drop_last() =~= s.take(i));
    lemma_count_none_bound(s.take(i));
}

proof fn lemma_count_none_bound<T>(s: Seq<Option<T>>)
    ensures
        count_none(s) <= s.len(),
    decreases s.len(),
{
    if s.len() > 0 {
        lemma_count_none_bound(s.drop_last());
    }
}

/// Per-target SSH coordinates resolved before execution: each slot is either a preflight failure
/// or empty, and the empty slots correspond in order to the ready targets.
#[derive(Debug)]
pub struct PreparedSshTargets {
    pub ready: Vec<ExecutionTarget>,
    pub failures: Vec<Option<TargetExecution>>,
}

/// The ready targets line up with the empty slots.
pub open spec fn prepared_well_formed(p: PreparedSshTargets) -> bool {
    p.ready@.len() == count_none(p.failures@)
}

/// The environment of slot `i`: its failure's environment, or its ready target's.
pub open spec fn slot_environment(p: PreparedSshTargets, i: int) -> EnvironmentRef {
    match p.failures@[i] {
        Some(t) => t.environment,
        None => p.ready@[count_none(p.failures@.take(i)) as int].environment,
    }
}

/// A slot reporting that the environment's SSH access is unavailable.
pub open spec fn unavailable_slot(slot: Option<TargetExecution>, environment: EnvironmentRef) -> bool {
    match slot {
        Some(t) => t.environment == environment && t.state == ExecutionState::Failed && match t.failure {
            Some(f) => f.code == ExecutionFailureCode::TargetUnavailable,
            None => false,
        },
        None => false,
    }
}

/// The first slot holding a preflight failure, if any.
pub open spec fn first_failure<T>(s: Seq<Option<T>>) -> Option<int> {
    if exists|i: int| 0 <= i < s.len() && #[trigger] s[i] is Some {
        Some(choose|i: int| 0 <= i < s.len() && #[trigger] s[i] is Some && forall|j: int|
            0 <= j < i ==> #[trigger] s[j] is None)
    } else {
        None
    }
}

proof fn lemma_first_failure<T>(s: Seq<Option<T>>, f: int)
    requires
        0 <= f < s.len(),
        s[f] is Some,
        forall|j: int| 0 <= j < f ==> #[trigger] s[j] is None,
    ensures
        first_failure(s) == Some(f),
{
    let g = choose|i: int| 0 <= i < s.len() && #[trigger] s[i] is Some && forall|j: int|
        0 <= j < i ==> #[trigger] s[j] is None;
    assert(0 <= g < s.len() && s[g] is Some && forall|j: int| 0 <= j < g ==> #[trigger] s[j] is None);
    if g < f {
        assert(s[g] is None);
    } else if g > f {
        assert(s[f] is None);
    }
}

impl PreparedSshTargets {
    /// Build the preflight state from per-environment lookups in selection order: a found
    /// target is ready, a missing one is reported as unavailable.
    pub fn from_lookups(lookups: Vec<(EnvironmentRef, Option<SshTarget>)>) -> (r: PreparedSshTargets)
        ensures
            prepared_well_formed(r),
            r.failures@.len() == lookups@.len(),
            forall|i: int|
                0 <= i < lookups@.len() ==> match (#[trigger] lookups@[i]).1 {
                    Some(ssh) => r.failures@[i] is None && r.ready@[count_none(
                        r.failures@.take(i),
                    ) as int] == (ExecutionTarget { environment: lookups@[i].0, ssh }),
                    None => unavailable_slot(r.failures@[i], lookups@[i].0),
                },
    {
        let ghost all = lookups@;
        let n = lookups.len();
        let mut rest = crate::order::reversed(lookups);
        let mut ready: Vec<ExecutionTarget> = Vec::new();
        let mut failures: Vec<Option<TargetExecution>> = Vec::new();
        let mut i: usize = 0;
        while i < n
            invariant
                n == all.len(),
                i <= n,
                rest@.len() == n - i,
                forall|k: int| 0 <= k < n - i ==> #[trigger] rest@[k] == all[n - 1 - k],
                failures@.len() == i,
                ready@.len() == count_none(failures@),
                forall|k: int|
                    0 <= k < i ==> match (#[trigger] all[k]).1 {
                        Some(ssh) => failures@[k] is None && ready@[count_none(
                            failures@.take(k),
                        ) as int] == (ExecutionTarget { environment: all[k].0, ssh }),
                        None => unavailable_slot(failures@[k], all[k].0),
                    },
            decreases n - i,
        {
            let (environment, target) = rest.pop().unwrap();
            let ghost before_failures = failures@;
            let ghost before_ready = ready@;
            match target {
                Some(ssh) => {
                    ready.push(ExecutionTarget { environment, ssh });
                    failures.push(None);
                },
                None => {
                    failures.push(Some(TargetExecution::target_unavailable(environment)));
                },
            }
            proof {
                assert(failures@.take(i as int) =~= before_failures);
                assert(failures@.drop_last() =~= before_failures);
                assert forall|k: int| 0 <= k < i + 1 implies match (#[trigger] all[k]).1 {
                    Some(ssh) => failures@[k] is None && ready@[count_none(
                        failures@.take(k),
                    ) as int] == (ExecutionTarget { environment: all[k].0, ssh }),
                    None => unavailable_slot(failures@[k], all[k].0),
                } by {
                    if k < i {
                        assert(failures@.take(k) =~= before_failures.take(k));
                        assert(failures@[k] == before_failures[k]);
                        if before_failures[k] is None {
                            lemma_count_none_take(before_failures, k);
                            lemma_count_none_prefix_le(before_failures, k + 1);
                        }
                    }
                }
            }
            i = i + 1;
        }
        PreparedSshTargets { ready, failures }
    }

    /// Whether the ready targets line up with the empty slots.
    pub fn is_well_formed(&self) -> (r: bool)
        ensures
            r == prepared_well_formed(*self),
    {
        let mut empty: usize = 0;
        let mut i: usize = 0;
        while i < self.failures.len()
            invariant
                i <= self.failures@.len(),
                empty == count_none(self.failures@.take(i as int)),
            decreases self.failures@.len() - i,
        {
            proof {
                lemma_count_none_take(self.failures@, i as int);
            }
            if self.failures[i].is_none() {
                empty = empty + 1;
            }
            i = i + 1;
        }
        assert(self.failures@.take(i as int) =~= self.failures@);
        empty == self.ready.len()
    }

    /// Under fail-fast, every slot after the first preflight failure is skipped; ready targets
    /// before it are kept.
    pub fn apply_fail_fast(&mut self, enabled: bool)
        requires
            prepared_well_formed(*old(self)),
        ensures
            prepared_well_formed(*final(self)),
            final(self).failures@.len() == old(self).failures@.len(),
            if enabled && first_failure(old(self).failures@) is Some {
                let f = first_failure(old(self).failures@)->0;
                &&& final(self).ready@ == old(self).ready@.take(f)
                &&& forall|i: int| 0 <= i <= f ==> #[trigger] final(self).failures@[i] == old(
                    self,
                ).failures@[i]
                &&& forall|i: int|
                    f < i < old(self).failures@.len() ==> (#[trigger] final(self).failures@[i] matches Some(
                        t,
                    ) && is_unstarted(t, slot_environment(*old(self), i), false))
            } else {
                *final(self) == *old(self)
            },
    {
        if !enabled {
            return;
        }
        let mut first: usize = 0;
        while first < self.failures.len() && self.failures[first].is_none()
            invariant
                first <= self.failures@.len(),
                forall|j: int| 0 <= j < first ==> #[trigger] self.failures@[j] is None,
            decreases self.failures@.len() - first,
        {
            first = first + 1;
        }
        if first == self.failures.len() {
            assert(!exists|i: int|
                0 <= i < self.failures@.len() && #[trigger] self.failures@[i] is Some);
            return;
        }
        proof {
            lemma_first_failure(self.failures@, first as int);
        }
        let ghost old_self = *self;
        let ghost old_failures = self.failures@;
        let ghost old_ready = self.ready@;
        let n = self.failures.len();
        // Every slot before the first failure is empty, so the first `first` ready targets are
        // exactly the ones that stay.
        proof {
            assert forall|j: int| 0 <= j <= first implies count_none(#[trigger] old_failures.take(j))
                == j by {
                lemma_count_none_prefix_empty(old_failures, j);
            }
        }
        let mut ready: Vec<ExecutionTarget> = Vec::new();
        std::mem::swap(&mut ready, &mut self.ready);
        let mut failures: Vec<Option<TargetExecution>> = Vec::new();
        std::mem::swap(&mut failures, &mut self.failures);
        let mut rest = crate::order::reversed(ready);
        let mut retained: Vec<ExecutionTarget> = Vec::new();
        let mut k: usize = 0;
        while k < first
            invariant
                k <= first < n,
                n == old_failures.len(),
                old_ready.len() == count_none(old_failures),
                count_none(old_failures.take(first as int)) == first,
                rest@.len() == old_ready.len() - k,
                forall|q: int| 0 <= q < rest@.len() ==> #[trigger] rest@[q] == old_ready[old_ready.len() - 1 - q],
                retained@ == old_ready.take(k as int),
            decreases first - k,
        {
            proof {
                lemma_count_none_prefix_le(old_failures, first as int);
            }
            let target = rest.pop().unwrap();
            retained.push(target);
            assert(retained@ =~= old_ready.take(k + 1));
            k = k + 1;
        }
        let mut out: Vec<Option<TargetExecution>> = Vec::new();
        let mut rest_failures = crate::order::reversed(failures);
        let mut i: usize = 0;
        while i < n
            invariant
                n == old_failures.len(),
                first < n,
                old_failures[first as int] is Some,
                forall|j: int| 0 <= j < first ==> #[trigger] old_failures[j] is None,
                old_ready.len() == count_none(old_failures),
                i <= n,
                rest_failures@.len() == n - i,
                forall|q: int| 0 <= q < n - i ==> #[trigger] rest_failures@[q] == old_failures[n - 1 - q],
                i <= first ==> rest@.len() == old_ready.len() - first,
                i > first ==> rest@.len() == old_ready.len() - count_none(old_failures.take(i as int)),
                forall|q: int| 0 <= q < rest@.len() ==> #[trigger] rest@[q] == old_ready[old_ready.len() - 1 - q],
                count_none(old_failures.take(first as int)) == first,
                old_self.failures@ == old_failures,
                old_self.ready@ == old_ready,
                out@.len() == i,
                forall|j: int| 0 <= j < i && j <= first ==> #[trigger] out@[j] == old_failures[j],
                forall|j: int|
                    first < j < i ==> (#[trigger] out@[j] matches Some(t) && is_unstarted(
                        t,
                        slot_environment(old_self, j),
                        false,
                    )),
            decreases n - i,
        {
            let slot = rest_failures.pop().unwrap();
            assert(slot == old_failures[i as int]);
            proof {
                lemma_count_none_take(old_failures, i as int);
                lemma_count_none_prefix_le(old_failures, i as int + 1);
            }
            if i <= first {
                out.push(slot);
            } else {
                let environment = match slot {
                    Some(failure) => failure.environment,
                    None => {
                        let target = rest.pop().unwrap();
                        target.environment
                    },
                };
                out.push(Some(TargetExecution::fail_fast_skipped(environment)));
            }
            i = i + 1;
        }
        self.ready = retained;
        self.failures = out;
        proof {
            assert forall|j: int| 0 <= j < first implies #[trigger] self.failures@.take(first as int)[j]
                is None by {
                assert(self.failures@[j] == old_failures[j]);
            }
            lemma_count_none_all_skipped(self.failures@, first as int);
        }
    }

    /// Merge preflight failures with executed results, in selection order. Executed results fill
    /// the empty slots in order; an empty slot left without a result is dropped, and executed
    /// results beyond the empty slots are ignored. The capture limit is the executed report's, or
    /// that of the merged results when nothing ran.
    pub fn merge(self, executed: Option<BatchReport>) -> (r: BatchReport)
        ensures
            r.results@ == merged(self.failures@, executed_results(executed)),
            r.stream_capture_limit_bytes == match executed {
                Some(report) => report.stream_capture_limit_bytes as int,
                None => stream_capture_limit(r.results@.len() as usize),
            },
    {
        let ghost failures = self.failures@;
        let n = self.failures.len();
        let (limit, executed_list) = match executed {
            Some(report) => (Some(report.stream_capture_limit_bytes), report.results),
            None => (None, Vec::new()),
        };
        let ghost executed_view = executed_list@;
        assert(executed_view == executed_results(executed));
        let mut rest_executed = crate::order::reversed(executed_list);
        let mut rest = crate::order::reversed(self.failures);
        let mut results: Vec<TargetExecution> = Vec::new();
        let ghost mut consumed: int = 0;
        let mut i: usize = 0;
        assert(failures.skip(0) =~= failures);
        assert(executed_view.skip(0) =~= executed_view);
        while i < n
            invariant
                n == failures.len(),
                i <= n,
                0 <= consumed <= executed_view.len(),
                rest@.len() == n - i,
                forall|q: int| 0 <= q < n - i ==> #[trigger] rest@[q] == failures[n - 1 - q],
                rest_executed@.len() == executed_view.len() - consumed,
                forall|q: int| 0 <= q < rest_executed@.len() ==> #[trigger] rest_executed@[q]
                    == executed_view[executed_view.len() - 1 - q],
                results@ + merged(failures.skip(i as int), executed_view.skip(consumed))
                    == merged(failures, executed_view),
            decreases n - i,
        {
            let ghost tail = failures.skip(i as int);
            let ghost pending = executed_view.skip(consumed);
            assert(tail[0] == failures[i as int]);
            assert(tail.drop_first() =~= failures.skip(i + 1));
            let slot = rest.pop().unwrap();
            match slot {
                Some(failure) => {
                    results.push(failure);
                    proof {
                        assert(merged(tail, pending) == seq![failure] + merged(failures.skip(i + 1), pending));
                        assert(results@ + merged(failures.skip(i + 1), pending) =~= results@.drop_last()
                            + merged(tail, pending));
                    }
                },
                None => {
                    if rest_executed.len() > 0 {
                        let result = rest_executed.pop().unwrap();
                        proof {
                            assert(pending[0] == result);
                            assert(pending.drop_first() =~= executed_view.skip(consumed + 1));
                            assert(merged(tail, pending) == seq![result] + merged(
                                failures.skip(i + 1),
                                executed_view.skip(consumed + 1),
                            ));
                        }
                        results.push(result);
                        proof {
                            assert(results@ + merged(failures.skip(i + 1), executed_view.skip(consumed + 1))
                                =~= results@.drop_last() + merged(tail, pending));
                            consumed = consumed + 1;
                        }
                    } else {
                        proof {
                            assert(pending.len() == 0);
                            assert(merged(tail, pending) == merged(failures.skip(i + 1), pending));
                        }
                    }
                },
            }
            i = i + 1;
        }
        proof {
            assert(failures.skip(n as int).len() == 0);
            assert(results@ + merged(failures.skip(n as int), executed_view.skip(consumed)) =~= results@);
        }
        match limit {
            Some(limit) => BatchReport { results, stream_capture_limit_bytes: limit },
            None => BatchReport::from_results(results),
        }
    }
}

/// The results of an executed batch, if one ran.
pub open spec fn executed_results(executed: Option<BatchReport>) -> Seq<TargetExecution> {
    match executed {
        Some(report) => report.results@,
        None => Seq::<TargetExecution>::empty(),
    }
}

/// Preflight failures in selection order, with each empty slot filled by the next executed
/// result; an empty slot with no executed result left is dropped.
pub open spec fn merged(slots: Seq<Option<TargetExecution>>, executed: Seq<TargetExecution>) -> Seq<
    TargetExecution,
>
    decreases slots.len(),
{
    if slots.len() == 0 {
        Seq::<TargetExecution>::empty()
    } else {
        match slots[0] {
            Some(t) => seq![t] + merged(slots.drop_first(), executed),
            None => if executed.len() > 0 {
                seq![executed[0]] + merged(slots.drop_first(), executed.drop_first())
            } else {
                merged(slots.drop_first(), executed)
            },
        }
    }
}

proof fn lemma_count_none_prefix_empty<T>(s: Seq<Option<T>>, j: int)
    requires
        0 <= j <= s.len(),
        forall|k: int| 0 <= k < j ==> #[trigger] s[k] is None,
    ensures
        count_none(s.take(j)) == j,
    decreases j,
{
    if j > 0 {
        lemma_count_none_prefix_empty(s, j - 1);
        lemma_count_none_take(s, j - 1);
    }
}

proof fn lemma_count_none_prefix_le<T>(s: Seq<Option<T>>, j: int)
    requires
        0 <= j <= s.len(),
    ensures
        count_none(s.take(j)) <= count_none(s),
    decreases s.len() - j,
{
    if j < s.len() {
        lemma_count_none_prefix_le(s, j + 1);
        lemma_count_none_take(s, j);
    } else {
        assert(s.take(j) =~= s);
    }
}

proof fn lemma_count_none_all_skipped<T>(s: Seq<Option<T>>, first: int)
    requires
        0 <= first < s.len(),
        forall|j: int| 0 <= j < first ==> #[trigger] s[j] is None,
        forall|j: int| first <= j < s.len() ==> #[trigger] s[j] is Some,
    ensures
        count_none(s) == first,
    decreases s.len(),
{
    if s.len() - 1 > first {
        let t = s.drop_last();
        assert forall|j: int| first <= j < t.len() implies #[trigger] t[j] is Some by {
            assert(t[j] == s[j]);
        }
        assert forall|j: int| 0 <= j < first implies #[trigger] t[j] is None by {
            assert(t[j] == s[j]);
        }
        lemma_count_none_all_skipped(t, first);
    } else {
        assert(s.drop_last() =~= s.take(first));
        lemma_count_none_prefix_empty(s, first);
    }
}

/// The process exit status for an exit code: the code itself when it fits in a byte, else 1.
pub open spec fn status_code(code: Option<i32>) -> u8 {
    match code {
        Some(c) => if 0 <= c && c <= 255 {
            c as u8
        } else {
            1
        },
        None => 1,
    }
}

pub fn process_status_code(code: Option<i32>) -> (r: u8)
    ensures
        r == status_code(code),
{
    match code {
        Some(c) => if 0 <= c && c <= 255 {
            c as u8
        } else {
            1
        },
        None => 1,
    }
}

/// A single command with inherited streams: its exit code passes through, and only timeouts and
/// cancellations become errors.
pub fn inherited_command_result(outcome: &InheritedOutcome) -> (r: Result<CommandOutcome, AppError>)
    ensures
        match outcome.state {
            ExecutionState::Succeeded | ExecutionState::Failed => r == Ok::<
                CommandOutcome,
                AppError,
            >(CommandOutcome::Exit(status_code(outcome.exit_code))),
            ExecutionState::TimedOut => r matches Err(e) && plain_error(
                e@,
                ErrorCode::RemoteExecutionFailed,
                "the SSH command exceeded its timeout"@,
            ),
            ExecutionState::Cancelled => r matches Err(e) && plain_error(
                e@,
                ErrorCode::RemoteExecutionFailed,
                "the SSH command was cancelled"@,
            ),
            ExecutionState::Skipped => r matches Err(e) && plain_error(
                e@,
                ErrorCode::Internal,
                "a single SSH command was unexpectedly skipped"@,
            ),
        },
{
    match outcome.state {
        ExecutionState::Succeeded | ExecutionState::Failed => Ok(
            CommandOutcome::Exit(process_status_code(outcome.exit_code)),
        ),
        ExecutionState::TimedOut => Err(
            AppError::new(ErrorCode::RemoteExecutionFailed, "the SSH command exceeded its timeout"),
        ),
        ExecutionState::Cancelled => Err(
            AppError::new(ErrorCode::RemoteExecutionFailed, "the SSH command was cancelled"),
        ),
        ExecutionState::Skipped => Err(
            AppError::new(ErrorCode::Internal, "a single SSH command was unexpectedly skipped"),
        ),
    }
}

/// A lone target with no preflight failure runs with inherited streams when a person is at the
/// terminal.
pub fn runs_inherited(prepared: &PreparedSshTargets, interactive: bool) -> (r: bool)
    ensures
        r == (prepared.ready@.len() == 1 && interactive && forall|i: int|
            0 <= i < prepared.failures@.len() ==> #[trigger] prepared.failures@[i] is None),
{
    if prepared.ready.len() != 1 || !interactive {
        return false;
    }
    let mut i: usize = 0;
    while i < prepared.failures.len()
        invariant
            i <= prepared.failures@.len(),
            forall|j: int| 0 <= j < i ==> #[trigger] prepared.failures@[j] is None,
        decreases prepared.failures@.len() - i,
    {
        if prepared.failures[i].is_some() {
            return false;
        }
        i = i + 1;
    }
    true
}

/// The exit of a batch: success, or the signal's conventional code when one interrupted it,
/// else 1.
pub fn batch_outcome(succeeded: bool, signal_exit_code: Option<u8>) -> (r: CommandOutcome)
    ensures
        r == if succeeded {
            CommandOutcome::Success
        } else {
            CommandOutcome::Exit(
                match signal_exit_code {
                    Some(code) => code,
                    None => 1,
                },
            )
        },
{
    if succeeded {
        CommandOutcome::Success
    } else {
        CommandOutcome::Exit(
            match signal_exit_code {
                Some(code) => code,
                None => 1,
            },
        )
    }
}

/// Whether any result was cancelled, in which case the signal's exit code is reported.
pub fn any_cancelled(report: &BatchReport) -> (r: bool)
    ensures
        r == exists|i: int|
            0 <= i < report.results@.len() && #[trigger] report.results@[i].state
                == ExecutionState::Cancelled,
{
    let mut i: usize = 0;
    while i < report.results.len()
        invariant
            i <= report.results@.len(),
            forall|j: int| 0 <= j < i ==> #[trigger] report.results@[j].state != ExecutionState::Cancelled,
        decreases report.results@.len() - i,
    {
        if report.results[i].state == ExecutionState::Cancelled {
            return true;
        }
        i = i + 1;
    }
    false
}

/// The warning about unavailable connection sharing, when sharing was requested.
pub fn pool_warnings(warning: Option<&PoolWarning>, pooling: bool) -> (r: Vec<MachineWarning>)
    ensures
        r@.len() == (if pooling && warning is Some {
            1int
        } else {
            0int
        }),
        pooling && warning is Some ==> r@[0].code@ == warning->0.code@ && r@[0].message@
            == warning->0.message@,
{
    let mut out: Vec<MachineWarning> = Vec::new();
    if pooling {
        if let Some(w) = warning {
            out.push(MachineWarning::new(w.code.as_str(), w.message.as_str()));
        }
    }
    out
}

/// The warning that a replaced OS credential could not be deleted.
pub fn cleanup_warning(failed: bool) -> (r: Vec<MachineWarning>)
    ensures
        r@.len() == (if failed {
            1int
        } else {
            0int
        }),
        failed ==> r@[0].code@ == "credential_cleanup_failed"@ && r@[0].message@
            == "The profile changed, but its previous OS credential could not be removed"@,
{
    let mut out: Vec<MachineWarning> = Vec::new();
    if failed {
        out.push(
            MachineWarning::new(
                "credential_cleanup_failed",
                "The profile changed, but its previous OS credential could not be removed",
            ),
        );
    }
    out
}

// ---------------------------------------------------------------------------------------------
// Machine rendering
// ---------------------------------------------------------------------------------------------
pub open spec fn machine_state(s: ExecutionState) -> MachineSshExecutionState {
    match s {
        ExecutionState::Succeeded => MachineSshExecutionState::Succeeded,
        ExecutionState::Failed => MachineSshExecutionState::Failed,
        ExecutionState::TimedOut => MachineSshExecutionState::TimedOut,
        ExecutionState::Cancelled => MachineSshExecutionState::Cancelled,
        ExecutionState::Skipped => MachineSshExecutionState::Skipped,
    }
}

pub open spec fn machine_failure_code(c: ExecutionFailureCode) -> MachineSshFailureCode {
    match c {
        ExecutionFailureCode::TargetUnavailable => MachineSshFailureCode::TargetUnavailable,
        ExecutionFailureCode::InvalidTarget => MachineSshFailureCode::InvalidTarget,
        ExecutionFailureCode::SpawnFailed => MachineSshFailureCode::SpawnFailed,
        ExecutionFailureCode::WaitFailed => MachineSshFailureCode::WaitFailed,
        ExecutionFailureCode::CaptureFailed => MachineSshFailureCode::CaptureFailed,
        ExecutionFailureCode::RemoteExit => MachineSshFailureCode::RemoteExit,
        ExecutionFailureCode::TimedOut => MachineSshFailureCode::TimedOut,
        ExecutionFailureCode::Cancelled => MachineSshFailureCode::Cancelled,
        ExecutionFailureCode::FailFast => MachineSshFailureCode::FailFast,
    }
}

/// The machine form of a captured stream keeps every field.
pub open spec fn stream_rendered(s: CapturedStream, m: MachineSshCapturedStream) -> bool {
    &&& m.encoding == (if s.encoding == CaptureEncoding::Text {
        MachineSshCaptureEncoding::Text
    } else {
        MachineSshCaptureEncoding::Base64
    })
    &&& m.data@ == s.data@
    &&& m.truncated == s.truncated
    &&& m.captured_bytes == s.captured_bytes
}

/// The machine form of one result keeps every field.
pub open spec fn result_rendered(t: TargetExecution, m: MachineSshTargetResult) -> bool {
    &&& m.environment == t.environment
    &&& m.state == machine_state(t.state)
    &&& m.exit_code == t.exit_code
    &&& m.duration_ms == t.duration_ms
    &&& stream_rendered(t.stdout, m.stdout)
    &&& stream_rendered(t.stderr, m.stderr)
    &&& match (t.failure, m.failure) {
        (Some(f), Some(g)) => g.code == machine_failure_code(f.code) && g.message@ == f.message@,
        (None, None) => true,
        _ => false,
    }
}

pub fn machine_captured_stream(stream: &CapturedStream) -> (r: MachineSshCapturedStream)
    ensures
        stream_rendered(*stream, r),
{
    MachineSshCapturedStream {
        encoding: match stream.encoding {
            CaptureEncoding::Text => MachineSshCaptureEncoding::Text,
            CaptureEncoding::Base64 => MachineSshCaptureEncoding::Base64,
        },
        data: stream.data.clone(),
        truncated: stream.truncated,
        captured_bytes: stream.captured_bytes,
    }
}

fn machine_state_of(s: ExecutionState) -> (r: MachineSshExecutionState)
    ensures
        r == machine_state(s),
{
    match s {
        ExecutionState::Succeeded => MachineSshExecutionState::Succeeded,
        ExecutionState::Failed => MachineSshExecutionState::Failed,
        ExecutionState::TimedOut => MachineSshExecutionState::TimedOut,
        ExecutionState::Cancelled => MachineSshExecutionState::Cancelled,
        ExecutionState::Skipped => MachineSshExecutionState::Skipped,
    }
}

fn machine_failure_code_of(c: ExecutionFailureCode) -> (r: MachineSshFailureCode)
    ensures
        r == machine_failure_code(c),
{
    match c {
        ExecutionFailureCode::TargetUnavailable => MachineSshFailureCode::TargetUnavailable,
        ExecutionFailureCode::InvalidTarget => MachineSshFailureCode::InvalidTarget,
        ExecutionFailureCode::SpawnFailed => MachineSshFailureCode::SpawnFailed,
        ExecutionFailureCode::WaitFailed => MachineSshFailureCode::WaitFailed,
        ExecutionFailureCode::CaptureFailed => MachineSshFailureCode::CaptureFailed,
        ExecutionFailureCode::RemoteExit => MachineSshFailureCode::RemoteExit,
        ExecutionFailureCode::TimedOut => MachineSshFailureCode::TimedOut,
        ExecutionFailureCode::Cancelled => MachineSshFailureCode::Cancelled,
        ExecutionFailureCode::FailFast => MachineSshFailureCode::FailFast,
    }
}

/// The public machine payload of an `ssh run` report, result for result.
pub fn machine_ssh_run_data(report: &BatchReport) -> (r: MachineSshRunData)
    ensures
        r.results@.len() == report.results@.len(),
        forall|i: int|
            0 <= i < report.results@.len() ==> result_rendered(
                #[trigger] report.results@[i],
                r.results@[i],
            ),
        r.stream_capture_limit_bytes == report.stream_capture_limit_bytes,
{
    let mut results: Vec<MachineSshTargetResult> = Vec::new();
    let mut i: usize = 0;
    while i < report.results.len()
        invariant
            i <= report.results@.len(),
            results@.len() == i,
            forall|j: int| 0 <= j < i ==> result_rendered(#[trigger] report.results@[j], results@[j]),
        decreases report.results@.len() - i,
    {
        let result = &report.results[i];
        let failure = match &result.failure {
            Some(f) => Some(
                MachineSshFailure { code: machine_failure_code_of(f.code), message: f.message.clone() },
            ),
            None => None,
        };
        results.push(
            MachineSshTargetResult {
                environment: result.environment.clone(),
                state: machine_state_of(result.state),
                exit_code: result.exit_code,
                duration_ms: result.duration_ms,
                stdout: machine_captured_stream(&result.stdout),
                stderr: machine_captured_stream(&result.stderr),
                failure,
            },
        );
        i = i + 1;
    }
    MachineSshRunData { results, stream_capture_limit_bytes: report.stream_capture_limit_bytes }
}

/// Human label of an execution state.
pub fn execution_state_label(state: ExecutionState) -> (r: &'static str)
    ensures
        r@ == match state {
            ExecutionState::Succeeded => "succeeded"@,
            ExecutionState::Failed => "failed"@,
            ExecutionState::TimedOut => "timed out"@,
            ExecutionState::Cancelled => "cancelled"@,
            ExecutionState::Skipped => "skipped"@,
        },
{
    match state {
        ExecutionState::Succeeded => "succeeded",
        ExecutionState::Failed => "failed",
        ExecutionState::TimedOut => "timed out",
        ExecutionState::Cancelled => "cancelled",
        ExecutionState::Skipped => "skipped",
    }
}

// ---------------------------------------------------------------------------------------------
// Preconditions of provider commands
// ---------------------------------------------------------------------------------------------
/// A profile can be used only when its provider is compiled into this build: Kinsta.
pub fn require_compiled_provider(provider: &ProviderId) -> (r: Result<(), AppError>)
    ensures
        r is Ok <==> provider@ == "kinsta"@,
        r matches Err(e) ==> plain_error(
            e@,
            ErrorCode::Unsupported,
            "the selected profile uses a provider that is not compiled into this build"@,
        ),
{
    if str_eq(provider.as_str(), "kinsta") {
        return Ok(());
    }
    Err(
        AppError::new(
            ErrorCode::Unsupported,
            "the selected profile uses a provider that is not compiled into this build",
        ),
    )
}

/// A credential can be rotated only for Kinsta profiles.
pub fn require_rotation_supported(provider: &ProviderId) -> (r: Result<(), AppError>)
    ensures
        r is Ok <==> provider@ == "kinsta"@,
        r matches Err(e) ==> plain_error(
            e@,
            ErrorCode::Unsupported,
            "credential rotation is not implemented for the selected provider"@,
        ),
{
    if str_eq(provider.as_str(), "kinsta") {
        return Ok(());
    }
    Err(
        AppError::new(
            ErrorCode::Unsupported,
            "credential rotation is not implemented for the selected provider",
        ),
    )
}

/// An interactive shell needs human output and an input terminal; both are checked before any
/// profile is resolved.
pub fn interactive_ssh_allowed(machine: bool, interactive: bool) -> (r: Result<(), AppError>)
    ensures
        r is Ok <==> !machine && interactive,
        machine ==> (r matches Err(e) && crate::error::hinted_error(
            e@,
            ErrorCode::Unsupported,
            "interactive SSH cannot be represented as JSON"@,
            "Run `hostbraid ssh open` with human output in a terminal."@,
        )),
        !machine && !interactive ==> (r matches Err(e) && crate::error::hinted_error(
            e@,
            ErrorCode::InvalidInput,
            "interactive SSH requires an input terminal"@,
            "Run `hostbraid ssh open` in a terminal without `--no-input`."@,
        )),
{
    if machine {
        return Err(
            AppError::new(ErrorCode::Unsupported, "interactive SSH cannot be represented as JSON")
                .with_hint("Run `hostbraid ssh open` with human output in a terminal."),
        );
    }
    if !interactive {
        return Err(
            AppError::new(ErrorCode::InvalidInput, "interactive SSH requires an input terminal")
                .with_hint("Run `hostbraid ssh open` in a terminal without `--no-input`."),
        );
    }
    Ok(())
}

/// The failure reported when some remote command of a batch did not succeed.
pub fn remote_commands_failed() -> (r: AppError)
    ensures
        plain_error(r@, ErrorCode::RemoteExecutionFailed, "one or more remote commands failed"@),
{
    AppError::new(ErrorCode::RemoteExecutionFailed, "one or more remote commands failed")
}

} // verus!
