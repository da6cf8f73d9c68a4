//! A diagnosis is one line.
//!
//! Messages are folded into one line whatever they hold. The names and reasons around them are
//! told as they are, so these have to be one line themselves.
use vstd::prelude::*;
use vstd::string::*;

use crate::diagnosis::{
    condition_text,
    container_text,
    exit_text,
    failed_condition,
    failure_text,
    first_text,
    framed,
    job_failure_text,
    last_end,
    message_line,
    pod_text,
    shortened,
    statuses_of,
    stuck_text,
    unscheduled_condition,
    unscheduled_text,
    wait_text,
    with_message,
    CRASH_LOOP,
    ELLIPSIS,
    KEPT_DIAGNOSIS,
};
use crate::numerals::{decimal, lemma_decimal_one_line};
use crate::objects::{
    ContainerStatusView,
    JobConditionView,
    JobView,
    PodConditionView,
    PodView,
};
use crate::pods::PodLookupView;
use crate::text::{fitting, lemma_fitting_is_longest};
use crate::words::{
    folded,
    law_folded_text_is_one_line,
    lemma_one_line_concat,
    line_break,
    one_line,
};

verus! {

/// The text has no line break, if there is any.
pub open spec fn no_break(text: Option<Seq<char>>) -> bool {
    text is Some ==> one_line(text->0)
}

/// The container's name and the reasons it gives are one line each.
pub open spec fn plain_status(status: ContainerStatusView) -> bool {
    &&& one_line(status.name)
    &&& status.state is Some ==> {
        &&& status.state->0.terminated is Some ==> no_break(status.state->0.terminated->0.reason)
        &&& status.state->0.waiting is Some ==> no_break(status.state->0.waiting->0.reason)
    }
    &&& last_end(status) is Some ==> no_break(last_end(status)->0.reason)
}

/// The names of the pod's containers, and the reasons that it and they give, are one line each.
pub open spec fn plain_pod(pod: PodView) -> bool {
    &&& forall|i: int| 0 <= i < statuses_of(pod).len() ==> plain_status(
        #[trigger] statuses_of(pod)[i],
    )
    &&& pod.status is Some ==> {
        &&& no_break(pod.status->0.reason)
        &&& pod.status->0.conditions is Some ==> forall|i: int|
            0 <= i < pod.status->0.conditions->0.len() ==> no_break(
                (#[trigger] pod.status->0.conditions->0[i]).reason,
            )
    }
}

/// The reasons that the Job gives are one line each.
pub open spec fn plain_job(job: JobView) -> bool {
    job.status is Some && job.status->0.conditions is Some ==> forall|i: int|
        0 <= i < job.status->0.conditions->0.len() ==> no_break(
            (#[trigger] job.status->0.conditions->0[i]).reason,
        )
}

/// What was found of the pod is plain, if there is one.
pub open spec fn plain_lookup(found: PodLookupView) -> bool {
    match found {
        PodLookupView::Found(pod) => plain_pod(pod),
        _ => true,
    }
}

proof fn lemma_message(text: Seq<char>, message: Option<Seq<char>>)
    requires
        one_line(text),
    ensures
        no_break(message_line(message)),
        one_line(with_message(text, message)),
{
    reveal_strlit(": ");
    if message is Some {
        law_folded_text_is_one_line(message->0);
        lemma_one_line_concat(text, ": "@);
        lemma_one_line_concat(text + ": "@, folded(message->0));
    }
}

proof fn lemma_exit(
    name: Seq<char>,
    code: int,
    reason: Option<Seq<char>>,
    message: Option<Seq<char>>,
)
    requires
        one_line(name),
        no_break(reason),
    ensures
        one_line(exit_text(name, code, reason, message)),
{
    reveal_strlit(" exited ");
    reveal_strlit(" (");
    reveal_strlit(")");
    reveal_strlit(" without saying why");
    let ended = name + " exited "@ + decimal(code);
    lemma_decimal_one_line(code);
    lemma_one_line_concat(name, " exited "@);
    lemma_one_line_concat(name + " exited "@, decimal(code));
    let detail = if reason is Some && reason->0 != "Error"@ {
        ended + " ("@ + reason->0 + ")"@
    } else {
        ended
    };
    if reason is Some {
        lemma_one_line_concat(ended, " ("@);
        lemma_one_line_concat(ended + " ("@, reason->0);
        lemma_one_line_concat(ended + " ("@ + reason->0, ")"@);
    }
    lemma_message(detail, message);
    lemma_one_line_concat(detail, " without saying why"@);
}

proof fn lemma_container(status: ContainerStatusView)
    requires
        plain_status(status),
    ensures
        no_break(container_text(status)),
{
    reveal_strlit(" and is now in ");
    reveal_strlit("CrashLoopBackOff");
    reveal_strlit(" never started: ");
    if status.state is Some {
        let state = status.state->0;
        if state.terminated is Some {
            let end = state.terminated->0;
            lemma_exit(status.name, end.exit_code as int, end.reason, end.message);
        } else if state.waiting is Some && state.waiting->0.reason is Some {
            let waiting = state.waiting->0;
            let reason = waiting.reason->0;
            if last_end(status) is Some {
                let end = last_end(status)->0;
                let text = exit_text(status.name, end.exit_code as int, end.reason, end.message);
                lemma_exit(status.name, end.exit_code as int, end.reason, end.message);
                lemma_one_line_concat(text, " and is now in "@);
                lemma_one_line_concat(text + " and is now in "@, CRASH_LOOP@);
            }
            lemma_one_line_concat(status.name, " never started: "@);
            lemma_one_line_concat(status.name + " never started: "@, reason);
            lemma_message(status.name + " never started: "@ + reason, waiting.message);
        }
    }
}

proof fn lemma_first(statuses: Seq<ContainerStatusView>)
    requires
        forall|i: int| 0 <= i < statuses.len() ==> plain_status(#[trigger] statuses[i]),
    ensures
        no_break(first_text(statuses)),
    decreases statuses.len(),
{
    if statuses.len() > 0 {
        lemma_container(statuses[0]);
        let rest = statuses.drop_first();
        assert forall|i: int| 0 <= i < rest.len() implies plain_status(#[trigger] rest[i]) by {
            assert(rest[i] == statuses[i + 1]);
        }
        lemma_first(rest);
    }
}

proof fn lemma_pod(pod: PodView)
    requires
        plain_pod(pod),
    ensures
        no_break(pod_text(pod)),
{
    reveal_strlit("its pod failed: ");
    lemma_first(statuses_of(pod));
    if pod.status is Some && pod.status->0.reason is Some {
        let status = pod.status->0;
        lemma_one_line_concat("its pod failed: "@, status.reason->0);
        lemma_message("its pod failed: "@ + status.reason->0, status.message);
    }
}

proof fn lemma_failed(conditions: Seq<JobConditionView>)
    requires
        forall|i: int| 0 <= i < conditions.len() ==> no_break((#[trigger] conditions[i]).reason),
    ensures
        failed_condition(conditions) is Some ==> no_break(failed_condition(conditions)->0.reason),
    decreases conditions.len(),
{
    if conditions.len() > 0 {
        let rest = conditions.drop_first();
        assert(no_break(conditions[0].reason));
        assert forall|i: int| 0 <= i < rest.len() implies no_break(
            (#[trigger] rest[i]).reason,
        ) by {
            assert(rest[i] == conditions[i + 1]);
        }
        lemma_failed(rest);
    }
}

proof fn lemma_job(job: JobView)
    requires
        plain_job(job),
    ensures
        no_break(job_failure_text(job)),
{
    reveal_strlit("Failed");
    if job.status is Some && job.status->0.conditions is Some {
        let conditions = job.status->0.conditions->0;
        lemma_failed(conditions);
        if failed_condition(conditions) is Some {
            let condition = failed_condition(conditions)->0;
            let reason = match condition.reason {
                Some(reason) => reason,
                None => "Failed"@,
            };
            lemma_message(reason, condition.message);
            assert(condition_text(condition) == with_message(reason, condition.message));
        }
    }
}

proof fn lemma_unscheduled(conditions: Seq<PodConditionView>)
    requires
        forall|i: int| 0 <= i < conditions.len() ==> no_break((#[trigger] conditions[i]).reason),
    ensures
        unscheduled_condition(conditions) is Some ==> one_line(
            unscheduled_text(unscheduled_condition(conditions)->0),
        ),
    decreases conditions.len(),
{
    reveal_strlit("its pod is unschedulable: ");
    reveal_strlit("no reason given");
    if conditions.len() > 0 {
        let condition = conditions[0];
        let start = "its pod is unschedulable: "@;
        assert(no_break(condition.reason));
        lemma_message(start, condition.message);
        if message_line(condition.message) is Some {
            lemma_one_line_concat(start, message_line(condition.message)->0);
        }
        if condition.reason is Some {
            lemma_one_line_concat(start, condition.reason->0);
        }
        lemma_one_line_concat(start, "no reason given"@);
        let rest = conditions.drop_first();
        assert forall|i: int| 0 <= i < rest.len() implies no_break(
            (#[trigger] rest[i]).reason,
        ) by {
            assert(rest[i] == conditions[i + 1]);
        }
        lemma_unscheduled(rest);
    }
}

proof fn lemma_shortened(text: Seq<char>)
    requires
        one_line(text),
    ensures
        one_line(shortened(text)),
{
    reveal_strlit("... (truncated)");
    let n = fitting(text, KEPT_DIAGNOSIS as int);
    lemma_fitting_is_longest(text, KEPT_DIAGNOSIS as int);
    let start = text.take(n);
    assert(one_line(start)) by {
        assert forall|i: int| 0 <= i < start.len() implies !line_break(#[trigger] start[i]) by {
            assert(start[i] == text[i]);
        }
    }
    lemma_one_line_concat(start, ELLIPSIS@);
}

/// Why a Job failed is told in one line, whatever its messages hold, as long as the names and
/// reasons around them, and what the run last saw, are one line each.
pub proof fn law_a_failure_is_told_in_one_line(
    found: PodLookupView,
    job: JobView,
    last_seen: Option<Seq<char>>,
)
    requires
        plain_lookup(found),
        plain_job(job),
        no_break(last_seen),
    ensures
        one_line(failure_text(found, job, last_seen)),
{
    reveal_strlit(" [");
    reveal_strlit("]");
    reveal_strlit("the Job reports no reason and left no pod behind to ask");
    let from_pod = match found {
        PodLookupView::Found(pod) => pod_text(pod),
        _ => None,
    };
    if found is Found {
        lemma_pod(found->Found_0);
    }
    let seen = match from_pod {
        Some(text) => Some(text),
        None => last_seen,
    };
    let reason = job_failure_text(job);
    lemma_job(job);
    if seen is Some && reason is Some {
        lemma_one_line_concat(seen->0, " ["@);
        lemma_one_line_concat(seen->0 + " ["@, reason->0);
        lemma_one_line_concat(seen->0 + " ["@ + reason->0, "]"@);
    }
    assert(one_line(framed(seen, reason)));
    lemma_shortened(framed(seen, reason));
}

/// What a Job is stuck on is told in one line, whatever its messages hold, as long as the names
/// and reasons around them are one line each.
pub proof fn law_a_wait_is_told_in_one_line(found: PodLookupView)
    requires
        plain_lookup(found),
    ensures
        no_break(wait_text(found)),
{
    reveal_strlit("no pod has been created for it");
    if found is Found {
        let pod = found->Found_0;
        lemma_first(statuses_of(pod));
        if first_text(statuses_of(pod)) is Some {
            lemma_shortened(first_text(statuses_of(pod))->0);
        }
        if pod.status is Some && pod.status->0.conditions is Some {
            let conditions = pod.status->0.conditions->0;
            lemma_unscheduled(conditions);
            if unscheduled_condition(conditions) is Some {
                lemma_shortened(unscheduled_text(unscheduled_condition(conditions)->0));
            }
        }
        assert(pod.status is Some ==> no_break(stuck_text(pod, pod.status->0)));
    }
}

} // verus!
