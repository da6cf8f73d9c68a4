//! Why a per-node Job failed, in one line.
//!
//! A Job's status says that it failed and nothing else. The reason is in its pod, which
//! `ttlSecondsAfterFinished` deletes minutes later, so it is read and carried on the node's
//! result instead.
use vstd::prelude::*;
use vstd::string::*;
use vstd::utf8::*;

use crate::job::{decided_by, first_decision, outcome_of, JobOutcome};
use crate::numerals::{decimal, decimal_of};
use crate::objects::{
    ContainerStateTerminatedView,
    ContainerStateWaitingView,
    ContainerStatus,
    ContainerStatusView,
    Job,
    JobConditionView,
    JobView,
    Pod,
    PodCondition,
    PodConditionView,
    PodStatusView,
    PodView,
};
use crate::pods::{PodLookup, PodLookupView};
use crate::text::{
    borrowed,
    byte_count,
    byte_len,
    fitting,
    fitting_prefix,
    lemma_byte_len_bounds,
    lemma_byte_len_concat,
    lemma_fitting_is_longest,
    owned,
    same_text,
};
use crate::words::{fold_whitespace, folded};

verus! {

/// A diagnosis goes into a node annotation and an Event message, neither of which is the place
/// for a container's last screenful.
pub const MAX_DIAGNOSIS: usize = 1024;

/// What is left of a diagnosis that is too long, in bytes, in front of the mark that says so.
pub const KEPT_DIAGNOSIS: usize = 1009;

pub const ELLIPSIS: &'static str = "... (truncated)";

pub const CRASH_LOOP: &'static str = "CrashLoopBackOff";

// ---------------------------------------------------------------------------------------------
// Text

/// A message on one line, if it has any words.
pub open spec fn message_line(message: Option<Seq<char>>) -> Option<Seq<char>> {
    match message {
        Some(text) => if folded(text).len() == 0 {
            None
        } else {
            Some(folded(text))
        },
        None => None,
    }
}

/// One line, since the summary and the node's result are line-oriented.
pub fn trimmed(message: Option<&str>) -> (r: Option<String>)
    ensures
        r.deep_view() == message_line(message.deep_view()),
{
    match message {
        Some(text) => {
            let line = fold_whitespace(text);
            if line.as_str().is_empty() {
                None
            } else {
                Some(line)
            }
        },
        None => None,
    }
}

/// A text with a message behind it, if there is one.
pub open spec fn with_message(text: Seq<char>, message: Option<Seq<char>>) -> Seq<char> {
    match message_line(message) {
        Some(line) => text + ": "@ + line,
        None => text,
    }
}

fn append_message(text: String, message: Option<&str>) -> (r: String)
    ensures
        r@ == with_message(text@, message.deep_view()),
{
    let mut r = text;
    match trimmed(message) {
        Some(line) => {
            r.append(": ");
            r.append(line.as_str());
        },
        None => {},
    }
    r
}

/// A diagnosis that fits stays as it is. Of a longer one the longest start is kept that leaves
/// room for the mark.
pub open spec fn shortened(diagnosis: Seq<char>) -> Seq<char> {
    if byte_len(diagnosis) <= MAX_DIAGNOSIS {
        diagnosis
    } else {
        diagnosis.take(fitting(diagnosis, KEPT_DIAGNOSIS as int)) + ELLIPSIS@
    }
}

/// Cuts a diagnosis that is too long, at the end of a character, and marks it as cut.
pub fn shorten(diagnosis: String) -> (r: String)
    ensures
        r@ == shortened(diagnosis@),
{
    if byte_count(diagnosis.as_str()) <= MAX_DIAGNOSIS {
        return diagnosis;
    }
    let mut r = fitting_prefix(diagnosis.as_str(), KEPT_DIAGNOSIS);
    r.append(ELLIPSIS);
    r
}

/// The Job's reason - a deadline, the retries - frames what the pod said.
pub open spec fn framed(from_pod: Option<Seq<char>>, from_job: Option<Seq<char>>) -> Seq<char> {
    match (from_pod, from_job) {
        (Some(pod), Some(job)) => pod + " ["@ + job + "]"@,
        (Some(pod), None) => pod,
        (None, Some(job)) => job,
        (None, None) => "the Job reports no reason and left no pod behind to ask"@,
    }
}

/// The Job's reason - a deadline, the retries - frames what the pod said.
pub fn frame(from_pod: Option<String>, from_job: Option<String>) -> (r: String)
    ensures
        r@ == framed(from_pod.deep_view(), from_job.deep_view()),
{
    match (from_pod, from_job) {
        (Some(pod), Some(job)) => {
            let mut r = pod;
            r.append(" [");
            r.append(job.as_str());
            r.append("]");
            r
        },
        (Some(pod), None) => pod,
        (None, Some(job)) => job,
        (None, None) => "the Job reports no reason and left no pod behind to ask".to_owned(),
    }
}

// ---------------------------------------------------------------------------------------------
// Containers

/// How a container ended, in words. `Error` only repeats the non-zero code; `OOMKilled` is the
/// whole story.
pub open spec fn exit_text(
    name: Seq<char>,
    code: int,
    reason: Option<Seq<char>>,
    message: Option<Seq<char>>,
) -> Seq<char> {
    let ended = name + " exited "@ + decimal(code);
    let detail = match reason {
        Some(reason) => if reason == "Error"@ {
            ended
        } else {
            ended + " ("@ + reason + ")"@
        },
        None => ended,
    };
    match message_line(message) {
        Some(line) => detail + ": "@ + line,
        None => detail + " without saying why"@,
    }
}

/// How a container ended, in words.
pub fn describe_exit(
    name: &str,
    code: i32,
    reason: Option<&str>,
    message: Option<&str>,
) -> (r: String)
    ensures
        r@ == exit_text(name@, code as int, reason.deep_view(), message.deep_view()),
{
    let mut detail = name.to_owned();
    detail.append(" exited ");
    detail.append(decimal_of(code).as_str());
    match reason {
        Some(reason) => {
            // "Error" only repeats the non-zero code; OOMKilled is the whole story.
            if !same_text(reason, "Error") {
                detail.append(" (");
                detail.append(reason);
                detail.append(")");
            }
        },
        None => {},
    }
    match trimmed(message) {
        Some(line) => {
            detail.append(": ");
            detail.append(line.as_str());
        },
        None => {
            detail.append(" without saying why");
        },
    }
    detail
}

/// How a container that ended ended, in words.
pub open spec fn terminated_text(
    name: Seq<char>,
    terminated: ContainerStateTerminatedView,
) -> Seq<char> {
    exit_text(name, terminated.exit_code as int, terminated.reason, terminated.message)
}

/// Waiting states that mean "starting normally" rather than "stuck".
pub open spec fn starting(reason: Seq<char>) -> bool {
    reason == "PodInitializing"@ || reason == "ContainerCreating"@
}

/// How the run before this one ended, if there was one.
pub open spec fn last_end(status: ContainerStatusView) -> Option<ContainerStateTerminatedView> {
    match status.last_state {
        Some(last) => last.terminated,
        None => None,
    }
}

/// What a container that waits is stuck on. The backoff says nothing; the run before it says
/// everything.
pub open spec fn waiting_text(
    status: ContainerStatusView,
    waiting: ContainerStateWaitingView,
) -> Option<Seq<char>> {
    match waiting.reason {
        None => None,
        Some(reason) => if starting(reason) {
            None
        } else if reason == CRASH_LOOP@ && last_end(status) is Some {
            Some(terminated_text(status.name, last_end(status)->0) + " and is now in "@ + CRASH_LOOP@)
        } else {
            Some(with_message(status.name + " never started: "@ + reason, waiting.message))
        },
    }
}

/// What went wrong with a container, if anything did.
pub open spec fn container_text(status: ContainerStatusView) -> Option<Seq<char>> {
    match status.state {
        None => None,
        Some(state) => match state.terminated {
            Some(terminated) => if terminated.exit_code == 0 {
                None
            } else {
                Some(terminated_text(status.name, terminated))
            },
            None => match state.waiting {
                Some(waiting) => waiting_text(status, waiting),
                None => None,
            },
        },
    }
}

/// Preferring the termination message: that is where the stage itself says why, and unlike its
/// log it survives in the pod's status.
pub fn describe_container(status: &ContainerStatus) -> (r: Option<String>)
    ensures
        r.deep_view() == container_text(status.deep_view()),
{
    let state = match &status.state {
        Some(state) => state,
        None => {
            return None;
        },
    };
    let name = status.name.as_str();

    match &state.terminated {
        Some(terminated) => {
            if terminated.exit_code == 0 {
                return None;
            }
            return Some(
                describe_exit(
                    name,
                    terminated.exit_code,
                    borrowed(&terminated.reason),
                    borrowed(&terminated.message),
                ),
            );
        },
        None => {},
    }

    let waiting = match &state.waiting {
        Some(waiting) => waiting,
        None => {
            return None;
        },
    };
    let reason = match &waiting.reason {
        Some(reason) => reason.as_str(),
        None => {
            return None;
        },
    };
    if same_text(reason, "PodInitializing") || same_text(reason, "ContainerCreating") {
        return None;
    }

    // The backoff says nothing; the run before it says everything.
    if same_text(reason, CRASH_LOOP) {
        match &status.last_state {
            Some(last) => match &last.terminated {
                Some(previous) => {
                    let mut r = describe_exit(
                        name,
                        previous.exit_code,
                        borrowed(&previous.reason),
                        borrowed(&previous.message),
                    );
                    r.append(" and is now in ");
                    r.append(CRASH_LOOP);
                    return Some(r);
                },
                None => {},
            },
            None => {},
        }
    }

    let mut r = name.to_owned();
    r.append(" never started: ");
    r.append(reason);
    Some(append_message(r, borrowed(&waiting.message)))
}

/// The statuses, or none.
pub open spec fn statuses_or_empty(statuses: Option<Seq<ContainerStatusView>>) -> Seq<
    ContainerStatusView,
> {
    match statuses {
        Some(statuses) => statuses,
        None => Seq::empty(),
    }
}

/// The containers of a pod in the order they run in. Init containers run first, so the first of
/// them to fail is the failure.
pub open spec fn statuses_of(pod: PodView) -> Seq<ContainerStatusView> {
    match pod.status {
        Some(status) => statuses_or_empty(status.init_container_statuses) + statuses_or_empty(
            status.container_statuses,
        ),
        None => Seq::empty(),
    }
}

fn append_statuses<'a>(all: &mut Vec<&'a ContainerStatus>, more: &'a Option<Vec<ContainerStatus>>)
    ensures
        final(all).deep_view() == old(all).deep_view() + statuses_or_empty(more.deep_view()),
{
    let ghost before = all.deep_view();
    match more {
        Some(more) => {
            let ghost added = more.deep_view();
            let mut i: usize = 0;
            assert(before + added.take(0) =~= before);
            while i < more.len()
                invariant
                    i <= more@.len(),
                    added == more.deep_view(),
                    all.deep_view() == before + added.take(i as int),
                decreases more@.len() - i,
            {
                let ghost now = all.deep_view();
                all.push(&more[i]);
                assert(all.deep_view() =~= now.push(added[i as int]));
                assert(before + added.take(i + 1) =~= (before + added.take(i as int)).push(
                    added[i as int],
                ));
                i = i + 1;
            }
            assert(added.take(added.len() as int) =~= added);
        },
        None => {
            assert(before + Seq::<ContainerStatusView>::empty() =~= before);
        },
    }
}

/// The containers of a pod in the order they run in. Init containers run first, so the first of
/// them to fail is the failure.
pub fn container_statuses(pod: &Pod) -> (r: Vec<&ContainerStatus>)
    ensures
        r.deep_view() == statuses_of(pod.deep_view()),
{
    let mut r: Vec<&ContainerStatus> = Vec::new();
    match &pod.status {
        Some(status) => {
            append_statuses(&mut r, &status.init_container_statuses);
            append_statuses(&mut r, &status.container_statuses);
        },
        None => {},
    }
    assert(r.deep_view() =~= statuses_of(pod.deep_view()));
    r
}

/// What the first container that something went wrong with says.
pub open spec fn first_text(statuses: Seq<ContainerStatusView>) -> Option<Seq<char>>
    decreases statuses.len(),
{
    if statuses.len() == 0 {
        None
    } else if container_text(statuses[0]) is Some {
        container_text(statuses[0])
    } else {
        first_text(statuses.drop_first())
    }
}

fn describe_first(statuses: &Vec<&ContainerStatus>) -> (r: Option<String>)
    ensures
        r.deep_view() == first_text(statuses.deep_view()),
{
    let ghost all = statuses.deep_view();
    let mut i: usize = 0;
    assert(all.skip(0) =~= all);
    while i < statuses.len()
        invariant
            i <= statuses@.len(),
            all == statuses.deep_view(),
            first_text(all) == first_text(all.skip(i as int)),
        decreases statuses@.len() - i,
    {
        assert(all.skip(i as int)[0] == statuses@[i as int].deep_view());
        assert(all.skip(i as int).drop_first() =~= all.skip(i + 1));
        let detail = describe_container(statuses[i]);
        if detail.is_some() {
            return detail;
        }
        i = i + 1;
    }
    None
}

// ---------------------------------------------------------------------------------------------
// Pods and Jobs

/// What a pod says of its failure, if it says anything. An eviction fails the pod without any
/// container having had a say.
pub open spec fn pod_text(pod: PodView) -> Option<Seq<char>> {
    match first_text(statuses_of(pod)) {
        Some(detail) => Some(detail),
        None => match pod.status {
            Some(status) => match status.reason {
                Some(reason) => Some(
                    with_message("its pod failed: "@ + reason, status.message),
                ),
                None => None,
            },
            None => None,
        },
    }
}

/// What a pod says of its failure, if it says anything.
pub fn describe_failed_pod(pod: &Pod) -> (r: Option<String>)
    ensures
        r.deep_view() == pod_text(pod.deep_view()),
{
    let detail = describe_first(&container_statuses(pod));
    if detail.is_some() {
        return detail;
    }
    // An eviction fails the pod without any container having had a say.

    match &pod.status {
        Some(status) => match &status.reason {
            Some(reason) => {
                let mut r = "its pod failed: ".to_owned();
                r.append(reason.as_str());
                Some(append_message(r, borrowed(&status.message)))
            },
            None => None,
        },
        None => None,
    }
}

/// The first condition that says the Job failed.
pub open spec fn failed_condition(conditions: Seq<JobConditionView>) -> Option<JobConditionView>
    decreases conditions.len(),
{
    if conditions.len() == 0 {
        None
    } else if conditions[0].type_ == "Failed"@ && conditions[0].status == "True"@ {
        Some(conditions[0])
    } else {
        failed_condition(conditions.drop_first())
    }
}

/// What a condition says of the Job's failure.
pub open spec fn condition_text(condition: JobConditionView) -> Seq<char> {
    let reason = match condition.reason {
        Some(reason) => reason,
        None => "Failed"@,
    };
    with_message(reason, condition.message)
}

/// The Job's own reason for its failure, if it gives one.
pub open spec fn job_failure_text(job: JobView) -> Option<Seq<char>> {
    match job.status {
        Some(status) => match status.conditions {
            Some(conditions) => match failed_condition(conditions) {
                Some(condition) => Some(condition_text(condition)),
                None => None,
            },
            None => None,
        },
        None => None,
    }
}

/// The Job's own reason for its failure, if it gives one.
pub fn job_failure_condition(job: &Job) -> (r: Option<String>)
    ensures
        r.deep_view() == job_failure_text(job.deep_view()),
{
    let conditions = match &job.status {
        Some(status) => match &status.conditions {
            Some(conditions) => conditions,
            None => {
                return None;
            },
        },
        None => {
            return None;
        },
    };
    let ghost all = conditions.deep_view();
    let mut i: usize = 0;
    assert(all.skip(0) =~= all);
    while i < conditions.len()
        invariant
            i <= conditions@.len(),
            all == conditions.deep_view(),
            job.deep_view().status is Some,
            job.deep_view().status->0.conditions == Some(all),
            failed_condition(all) == failed_condition(all.skip(i as int)),
        decreases conditions@.len() - i,
    {
        let condition = &conditions[i];
        assert(all.skip(i as int)[0] == condition.deep_view());
        assert(all.skip(i as int).drop_first() =~= all.skip(i + 1));
        if same_text(condition.type_.as_str(), "Failed") && same_text(
            condition.status.as_str(),
            "True",
        ) {
            let reason = match &condition.reason {
                Some(reason) => reason.clone(),
                None => "Failed".to_owned(),
            };
            return Some(append_message(reason, borrowed(&condition.message)));
        }
        i = i + 1;
    }
    None
}

/// Why the Job that ran on this node failed, as far as the cluster can say: what its pod says,
/// or else what the run last saw of it, framed by what the Job itself says.
pub open spec fn failure_text(
    found: PodLookupView,
    job: JobView,
    last_seen: Option<Seq<char>>,
) -> Seq<char> {
    let from_pod = match found {
        PodLookupView::Found(pod) => pod_text(pod),
        _ => None,
    };
    let seen = match from_pod {
        Some(text) => Some(text),
        None => last_seen,
    };
    shortened(framed(seen, job_failure_text(job)))
}

/// Why the Job that ran on this node failed, as far as the cluster can say. `found` is what
/// looking for its newest pod came to.
///
/// Never fails: this already runs on a failure path, and a diagnosis that cannot be read is not
/// a second failure.
pub fn why_the_job_failed(found: &PodLookup, job: &Job, last_seen: Option<&str>) -> (r: String)
    ensures
        r@ == failure_text(found.deep_view(), job.deep_view(), last_seen.deep_view()),
{
    let from_pod = match found {
        PodLookup::Found(pod) => describe_failed_pod(pod),
        PodLookup::Missing => None,
        PodLookup::Unreadable => None,
    };
    // A Job that hit its deadline has had its pods deleted by the Job controller, so what the run
    // saw while it waited is all that is left.
    let seen = if from_pod.is_some() {
        from_pod
    } else {
        owned(last_seen)
    };
    shorten(frame(seen, job_failure_condition(job)))
}

/// The first condition that says the pod cannot be scheduled.
pub open spec fn unscheduled_condition(conditions: Seq<PodConditionView>) -> Option<
    PodConditionView,
>
    decreases conditions.len(),
{
    if conditions.len() == 0 {
        None
    } else if conditions[0].type_ == "PodScheduled"@ && conditions[0].status == "False"@ {
        Some(conditions[0])
    } else {
        unscheduled_condition(conditions.drop_first())
    }
}

/// Why a pod cannot be scheduled.
pub open spec fn unscheduled_text(condition: PodConditionView) -> Seq<char> {
    "its pod is unschedulable: "@ + match message_line(condition.message) {
        Some(line) => line,
        None => match condition.reason {
            Some(reason) => reason,
            None => "no reason given"@,
        },
    }
}

/// What a pod that does not run is stuck on, if it is stuck.
pub open spec fn stuck_text(pod: PodView, status: PodStatusView) -> Option<Seq<char>> {
    match first_text(statuses_of(pod)) {
        Some(detail) => Some(shortened(detail)),
        None => match status.conditions {
            Some(conditions) => match unscheduled_condition(conditions) {
                Some(condition) => Some(shortened(unscheduled_text(condition))),
                None => None,
            },
            None => None,
        },
    }
}

/// What a Job that has not finished is stuck on, if it is stuck.
pub open spec fn wait_text(found: PodLookupView) -> Option<Seq<char>> {
    match found {
        // Quota, a webhook, or a suspended Job: the Job exists and nothing runs.
        PodLookupView::Missing => Some("no pod has been created for it"@),
        PodLookupView::Unreadable => None,
        PodLookupView::Found(pod) => match pod.status {
            None => None,
            Some(status) => if status.phase == Some("Running"@) {
                None
            } else {
                stuck_text(pod, status)
            },
        },
    }
}

fn describe_unscheduled(conditions: &Vec<PodCondition>) -> (r: Option<String>)
    ensures
        r.deep_view() == match unscheduled_condition(conditions.deep_view()) {
            Some(condition) => Some(unscheduled_text(condition)),
            None => None,
        },
{
    let ghost all = conditions.deep_view();
    let mut i: usize = 0;
    assert(all.skip(0) =~= all);
    while i < conditions.len()
        invariant
            i <= conditions@.len(),
            all == conditions.deep_view(),
            unscheduled_condition(all) == unscheduled_condition(all.skip(i as int)),
        decreases conditions@.len() - i,
    {
        let condition = &conditions[i];
        assert(all.skip(i as int)[0] == condition.deep_view());
        assert(all.skip(i as int).drop_first() =~= all.skip(i + 1));
        if same_text(condition.type_.as_str(), "PodScheduled") && same_text(
            condition.status.as_str(),
            "False",
        ) {
            let mut r = "its pod is unschedulable: ".to_owned();
            match trimmed(borrowed(&condition.message)) {
                Some(line) => r.append(line.as_str()),
                None => match &condition.reason {
                    Some(reason) => r.append(reason.as_str()),
                    None => r.append("no reason given"),
                },
            }
            return Some(r);
        }
        i = i + 1;
    }
    None
}

/// What a Job that has not finished is stuck on. `found` is what looking for its newest pod came
/// to. `None` means that nothing is known to hold it up: its pod runs, or has nothing stuck to
/// tell of, or has no status yet, or could not be read.
///
/// A pod that never starts produces no Job failure until the deadline runs out, which is an hour
/// of silence on the default settings.
pub fn what_the_job_waits_for(found: &PodLookup) -> (r: Option<String>)
    ensures
        r.deep_view() == wait_text(found.deep_view()),
{
    let pod = match found {
        PodLookup::Found(pod) => pod,
        // Quota, a webhook, or a suspended Job: the Job exists and nothing runs.
        PodLookup::Missing => {
            return Some("no pod has been created for it".to_owned());
        },
        PodLookup::Unreadable => {
            return None;
        },
    };
    let status = match &pod.status {
        Some(status) => status,
        None => {
            return None;
        },
    };
    match &status.phase {
        Some(phase) => {
            if same_text(phase.as_str(), "Running") {
                return None;
            }
        },
        None => {},
    }
    match describe_first(&container_statuses(pod)) {
        Some(detail) => {
            return Some(shorten(detail));
        },
        None => {},
    }
    match &status.conditions {
        Some(conditions) => match describe_unscheduled(conditions) {
            Some(detail) => Some(shorten(detail)),
            None => None,
        },
        None => None,
    }
}

// ---------------------------------------------------------------------------------------------
// Laws

/// The mark takes up what a cut diagnosis leaves of the limit.
proof fn lemma_ellipsis()
    ensures
        byte_len(ELLIPSIS@) == 15,
{
    reveal_strlit("... (truncated)");
    assert(is_ascii_chars(ELLIPSIS@));
    is_ascii_chars_encode_utf8(ELLIPSIS@);
}

/// A diagnosis is never longer than the limit. One that fits is told in full; of a longer one the
/// start is told, with a mark at its end, and one character more would be too much. Shortening
/// again changes nothing.
pub proof fn law_a_diagnosis_fits(diagnosis: Seq<char>)
    ensures
        byte_len(shortened(diagnosis)) <= MAX_DIAGNOSIS,
        byte_len(diagnosis) <= MAX_DIAGNOSIS ==> shortened(diagnosis) == diagnosis,
        byte_len(diagnosis) > MAX_DIAGNOSIS ==> exists|n: int|
            0 <= n < diagnosis.len() && shortened(diagnosis) == #[trigger] diagnosis.take(n)
                + ELLIPSIS@ && byte_len(diagnosis.take(n + 1) + ELLIPSIS@) > MAX_DIAGNOSIS,
        shortened(shortened(diagnosis)) == shortened(diagnosis),
{
    if byte_len(diagnosis) > MAX_DIAGNOSIS {
        let n = fitting(diagnosis, KEPT_DIAGNOSIS as int);
        lemma_fitting_is_longest(diagnosis, KEPT_DIAGNOSIS as int);
        lemma_ellipsis();
        lemma_byte_len_concat(diagnosis.take(n), ELLIPSIS@);
        if n == diagnosis.len() {
            assert(diagnosis.take(n) =~= diagnosis);
        }
        lemma_byte_len_concat(diagnosis.take(n + 1), ELLIPSIS@);
        assert(shortened(diagnosis) == diagnosis.take(n) + ELLIPSIS@);
    }
}

/// What a failed Job is told with, and what a stuck one is told with, is never longer than the
/// limit.
pub proof fn law_every_diagnosis_fits(
    found: PodLookupView,
    job: JobView,
    last_seen: Option<Seq<char>>,
)
    ensures
        byte_len(failure_text(found, job, last_seen)) <= MAX_DIAGNOSIS,
        wait_text(found) is Some ==> byte_len(wait_text(found)->0) <= MAX_DIAGNOSIS,
{
    let from_pod = match found {
        PodLookupView::Found(pod) => pod_text(pod),
        _ => None,
    };
    let seen = match from_pod {
        Some(text) => Some(text),
        None => last_seen,
    };
    law_a_diagnosis_fits(framed(seen, job_failure_text(job)));
    match found {
        PodLookupView::Found(pod) => {
            match first_text(statuses_of(pod)) {
                Some(detail) => law_a_diagnosis_fits(detail),
                None => {},
            }
            if pod.status is Some && pod.status->0.conditions is Some {
                match unscheduled_condition(pod.status->0.conditions->0) {
                    Some(condition) => law_a_diagnosis_fits(unscheduled_text(condition)),
                    None => {},
                }
            }
        },
        _ => {
            reveal_strlit("no pod has been created for it");
            lemma_byte_len_bounds("no pod has been created for it"@);
        },
    }
}

/// What is told of a pod's containers is what the first of them that something went wrong with
/// says. Nothing is told only if nothing went wrong with any.
pub proof fn law_the_earliest_failing_stage_is_reported(statuses: Seq<ContainerStatusView>)
    ensures
        match first_text(statuses) {
            Some(detail) => exists|i: int|
                0 <= i < statuses.len() && container_text(#[trigger] statuses[i]) == Some(detail)
                    && forall|j: int| 0 <= j < i ==> container_text(#[trigger] statuses[j]) is None,
            None => forall|i: int|
                0 <= i < statuses.len() ==> container_text(#[trigger] statuses[i]) is None,
        },
    decreases statuses.len(),
{
    if statuses.len() > 0 && container_text(statuses[0]) is None {
        let rest = statuses.drop_first();
        law_the_earliest_failing_stage_is_reported(rest);
        match first_text(rest) {
            Some(detail) => {
                let i = choose|i: int|
                    0 <= i < rest.len() && container_text(#[trigger] rest[i]) == Some(detail)
                        && forall|j: int| 0 <= j < i ==> container_text(#[trigger] rest[j]) is None;
                assert(container_text(statuses[i + 1]) == Some(detail));
                assert forall|j: int| 0 <= j < i + 1 implies container_text(
                    #[trigger] statuses[j],
                ) is None by {
                    if j > 0 {
                        assert(rest[j - 1] == statuses[j]);
                    }
                }
            },
            None => {
                assert forall|i: int| 0 <= i < statuses.len() implies container_text(
                    #[trigger] statuses[i],
                ) is None by {
                    if i > 0 {
                        assert(rest[i - 1] == statuses[i]);
                    }
                }
            },
        }
    } else if statuses.len() > 0 {
        assert(container_text(statuses[0]) == first_text(statuses));
    }
}

/// A container that ended well, that runs, or that is starting normally is no trouble.
pub proof fn law_a_healthy_container_says_nothing(status: ContainerStatusView)
    requires
        status.state is Some ==> {
            let state = status.state->0;
            ||| state.terminated is Some && state.terminated->0.exit_code == 0
            ||| state.terminated is None && state.waiting is None
            ||| state.terminated is None && state.waiting is Some && (state.waiting->0.reason
                is Some ==> starting(state.waiting->0.reason->0))
        },
    ensures
        container_text(status) is None,
{
}

/// A Job whose pod runs waits for nothing.
pub proof fn law_a_running_pod_waits_for_nothing(pod: PodView)
    requires
        pod.status is Some,
        pod.status->0.phase == Some("Running"@),
    ensures
        wait_text(PodLookupView::Found(pod)) is None,
{
}

/// What the run last saw is told only where the pod itself says nothing.
pub proof fn law_a_pod_outranks_what_was_last_seen(
    pod: PodView,
    job: JobView,
    last_seen: Option<Seq<char>>,
    other: Option<Seq<char>>,
)
    ensures
        pod_text(pod) is Some ==> failure_text(PodLookupView::Found(pod), job, last_seen)
            == failure_text(PodLookupView::Found(pod), job, other),
        pod_text(pod) is None ==> failure_text(PodLookupView::Found(pod), job, last_seen)
            == failure_text(PodLookupView::Missing, job, last_seen),
        failure_text(PodLookupView::Unreadable, job, last_seen) == failure_text(
            PodLookupView::Missing,
            job,
            last_seen,
        ),
{
}

/// Of a Job whose pods are gone, or cannot be read, what the run last saw is told, in front of the
/// Job's own reason.
pub proof fn law_a_deleted_pod_leaves_what_the_run_last_saw(
    found: PodLookupView,
    job: JobView,
    last_seen: Seq<char>,
)
    requires
        !(found is Found),
    ensures
        failure_text(found, job, Some(last_seen)) == shortened(
            framed(Some(last_seen), job_failure_text(job)),
        ),
        framed(Some(last_seen), job_failure_text(job)).take(last_seen.len() as int) == last_seen,
{
    assert(framed(Some(last_seen), job_failure_text(job)).take(last_seen.len() as int)
        =~= last_seen);
}

/// A Job that has come to failure gives a reason of its own.
pub proof fn law_a_failed_job_gives_a_reason(job: JobView)
    requires
        outcome_of(job) == JobOutcome::Failed,
    ensures
        job_failure_text(job) is Some,
{
    lemma_failed_is_found(job.status->0.conditions->0);
}

proof fn lemma_failed_is_found(conditions: Seq<JobConditionView>)
    requires
        first_decision(conditions) == Some(JobOutcome::Failed),
    ensures
        failed_condition(conditions) is Some,
    decreases conditions.len(),
{
    if conditions.len() > 0 && decided_by(conditions[0]) is None {
        lemma_failed_is_found(conditions.drop_first());
    }
}

} // verus!
