//! What a diagnosis tells, and of what.
use vstd::prelude::*;
use vstd::string::*;
use vstd::utf8::*;

use crate::diagnosis::{
    container_text,
    exit_text,
    failed_condition,
    failure_text,
    first_text,
    framed,
    job_failure_text,
    message_line,
    pod_text,
    shortened,
    statuses_of,
    unscheduled_condition,
    wait_text,
    ELLIPSIS,
    KEPT_DIAGNOSIS,
};
use crate::numerals::decimal;
use crate::objects::{
    ContainerStatusView,
    JobConditionView,
    JobView,
    PodConditionView,
    PodView,
};
use crate::pods::PodLookupView;
use crate::text::{fitting, lemma_fitting_is_longest};
use crate::trim::white;
use crate::words::{folded, law_folded_text_is_one_line};

verus! {

// ---------------------------------------------------------------------------------------------
// Text

/// A message is told as its words with a space between two, unless it is missing or has nothing
/// but whitespace.
pub proof fn law_a_message_is_told_by_its_words(message: Option<Seq<char>>)
    ensures
        message is None ==> message_line(message) is None,
        message is Some && (forall|i: int|
            0 <= i < message->0.len() ==> white(#[trigger] message->0[i])) ==> message_line(message)
            is None,
        message is Some && !(forall|i: int|
            0 <= i < message->0.len() ==> white(#[trigger] message->0[i])) ==> message_line(message)
            == Some(folded(message->0)),
{
    if message is Some {
        law_folded_text_is_one_line(message->0);
    }
}

/// A diagnosis of up to 1024 bytes is told in full. Of a longer one as many whole characters are
/// told as 1009 bytes hold, and a mark behind them.
pub proof fn law_a_long_diagnosis_is_cut_and_marked(diagnosis: Seq<char>)
    ensures
        encode_utf8(diagnosis).len() <= 1024 ==> shortened(diagnosis) == diagnosis,
        encode_utf8(diagnosis).len() > 1024 ==> exists|n: int|
            {
                &&& 0 <= n < diagnosis.len()
                &&& shortened(diagnosis) == #[trigger] diagnosis.take(n) + "... (truncated)"@
                &&& encode_utf8(diagnosis.take(n)).len() <= 1009
                &&& encode_utf8(diagnosis.take(n + 1)).len() > 1009
            },
{
    if encode_utf8(diagnosis).len() > 1024 {
        let n = fitting(diagnosis, KEPT_DIAGNOSIS as int);
        lemma_fitting_is_longest(diagnosis, KEPT_DIAGNOSIS as int);
        if n == diagnosis.len() {
            assert(diagnosis.take(n) =~= diagnosis);
        }
        assert(shortened(diagnosis) == diagnosis.take(n) + ELLIPSIS@);
    }
}

/// What the pod said comes first and what the Job said behind it in brackets. Where one of them
/// said nothing, the other is told alone, and where both did, that is told.
pub proof fn law_pod_and_job_are_both_told(pod: Seq<char>, job: Seq<char>)
    ensures
        framed(Some(pod), Some(job)) == pod + " ["@ + job + "]"@,
        framed(Some(pod), None) == pod,
        framed(None, Some(job)) == job,
        framed(None, None) == "the Job reports no reason and left no pod behind to ask"@,
{
}

// ---------------------------------------------------------------------------------------------
// Containers

/// An exit is told with the container's name and the code, with the reason in brackets unless it
/// is `Error`, and with the words of the message, or that there are none.
pub proof fn law_an_exit_is_told_in_full(
    name: Seq<char>,
    code: int,
    reason: Option<Seq<char>>,
    message: Option<Seq<char>>,
)
    ensures
        ({
            let why = if reason is Some && reason->0 != "Error"@ {
                " ("@ + reason->0 + ")"@
            } else {
                seq![]
            };
            let words = if message is Some && folded(message->0).len() > 0 {
                ": "@ + folded(message->0)
            } else {
                " without saying why"@
            };
            exit_text(name, code, reason, message) == name + " exited "@ + decimal(code) + why
                + words
        }),
{
    let why = if reason is Some && reason->0 != "Error"@ {
        " ("@ + reason->0 + ")"@
    } else {
        seq![]
    };
    let words = if message is Some && folded(message->0).len() > 0 {
        ": "@ + folded(message->0)
    } else {
        " without saying why"@
    };
    assert(exit_text(name, code, reason, message) =~= name + " exited "@ + decimal(code) + why
        + words);
}

/// A container that ended with another code than 0 is always told of, with its name and that code
/// in front, whatever its reason and message are and whatever else is known of it.
pub proof fn law_every_failed_exit_is_told(status: ContainerStatusView)
    requires
        status.state is Some,
        status.state->0.terminated is Some,
        status.state->0.terminated->0.exit_code != 0,
    ensures
        ({
            let end = status.state->0.terminated->0;
            let head = status.name + " exited "@ + decimal(end.exit_code as int);
            &&& container_text(status) == Some(
                exit_text(status.name, end.exit_code as int, end.reason, end.message),
            )
            &&& container_text(status)->0.len() >= head.len()
            &&& container_text(status)->0.take(head.len() as int) == head
        }),
{
    let end = status.state->0.terminated->0;
    let head = status.name + " exited "@ + decimal(end.exit_code as int);
    law_an_exit_is_told_in_full(status.name, end.exit_code as int, end.reason, end.message);
    assert(container_text(status)->0.take(head.len() as int) =~= head);
}

/// Nothing is told of a container exactly if it has no state, ended with code 0, runs, or waits
/// for no reason or in order to start.
pub proof fn law_only_a_healthy_container_says_nothing(status: ContainerStatusView)
    ensures
        container_text(status) is None <==> {
            ||| status.state is None
            ||| status.state->0.terminated is Some && status.state->0.terminated->0.exit_code == 0
            ||| status.state->0.terminated is None && status.state->0.waiting is None
            ||| status.state->0.terminated is None && status.state->0.waiting is Some && ({
                let reason = status.state->0.waiting->0.reason;
                reason is None || reason->0 == "PodInitializing"@ || reason->0
                    == "ContainerCreating"@
            })
        },
{
}

/// A container that waits for another reason than to start is always told of. One in a crash loop
/// is told of by the exit of the run before, if there was one, whatever that exit was. Any other
/// never started, for its reason and the words of its message.
pub proof fn law_every_stuck_container_is_told(status: ContainerStatusView)
    requires
        status.state is Some,
        status.state->0.terminated is None,
        status.state->0.waiting is Some,
        status.state->0.waiting->0.reason is Some,
        status.state->0.waiting->0.reason->0 != "PodInitializing"@,
        status.state->0.waiting->0.reason->0 != "ContainerCreating"@,
    ensures
        ({
            let reason = status.state->0.waiting->0.reason->0;
            let message = status.state->0.waiting->0.message;
            let ran = status.last_state is Some && status.last_state->0.terminated is Some;
            let last = status.last_state->0.terminated->0;
            let words = if message is Some && folded(message->0).len() > 0 {
                ": "@ + folded(message->0)
            } else {
                seq![]
            };
            &&& reason == "CrashLoopBackOff"@ && ran ==> container_text(status) == Some(
                exit_text(status.name, last.exit_code as int, last.reason, last.message)
                    + " and is now in "@ + "CrashLoopBackOff"@,
            )
            &&& reason != "CrashLoopBackOff"@ || !ran ==> container_text(status) == Some(
                status.name + " never started: "@ + reason + words,
            )
        }),
{
    let reason = status.state->0.waiting->0.reason->0;
    let message = status.state->0.waiting->0.message;
    let head = status.name + " never started: "@ + reason;
    if message is Some && folded(message->0).len() > 0 {
        assert(head + ": "@ + folded(message->0) =~= head + (": "@ + folded(message->0)));
    } else {
        assert(head + Seq::<char>::empty() =~= head);
    }
}

/// The containers of a pod are those that run first and then the others, each list in its order,
/// all of them and nothing else.
pub proof fn law_init_containers_come_first(pod: PodView)
    ensures
        ({
            let first = if pod.status is Some && pod.status->0.init_container_statuses is Some {
                pod.status->0.init_container_statuses->0
            } else {
                seq![]
            };
            let others = if pod.status is Some && pod.status->0.container_statuses is Some {
                pod.status->0.container_statuses->0
            } else {
                seq![]
            };
            statuses_of(pod) == first + others
        }),
{
    let first = if pod.status is Some && pod.status->0.init_container_statuses is Some {
        pod.status->0.init_container_statuses->0
    } else {
        seq![]
    };
    let others = if pod.status is Some && pod.status->0.container_statuses is Some {
        pod.status->0.container_statuses->0
    } else {
        seq![]
    };
    assert(statuses_of(pod) =~= first + others);
}

// ---------------------------------------------------------------------------------------------
// Pods and Jobs

proof fn lemma_first_text_at(statuses: Seq<ContainerStatusView>, i: int)
    requires
        0 <= i < statuses.len(),
        container_text(statuses[i]) is Some,
        forall|j: int| 0 <= j < i ==> container_text(#[trigger] statuses[j]) is None,
    ensures
        first_text(statuses) == container_text(statuses[i]),
    decreases statuses.len(),
{
    if i > 0 {
        let rest = statuses.drop_first();
        assert(container_text(statuses[0]) is None);
        assert forall|j: int| 0 <= j < i - 1 implies container_text(#[trigger] rest[j]) is None by {
            assert(rest[j] == statuses[j + 1]);
        }
        lemma_first_text_at(rest, i - 1);
    }
}

/// A pod is told of by the first of its containers that something is told of, whatever else the
/// pod says, and so is what a Job waits for whose pod has a status and does not run.
pub proof fn law_the_first_failing_container_speaks_for_its_pod(pod: PodView, i: int)
    requires
        0 <= i < statuses_of(pod).len(),
        container_text(statuses_of(pod)[i]) is Some,
        forall|j: int| 0 <= j < i ==> container_text(#[trigger] statuses_of(pod)[j]) is None,
    ensures
        pod_text(pod) == container_text(statuses_of(pod)[i]),
        pod.status is Some && pod.status->0.phase != Some("Running"@) ==> wait_text(
            PodLookupView::Found(pod),
        ) == Some(shortened(container_text(statuses_of(pod)[i])->0)),
{
    lemma_first_text_at(statuses_of(pod), i);
}

/// A pod none of whose containers is told of is told of by its own reason and the words of its
/// message, and without a reason not at all.
pub proof fn law_a_pod_without_a_failing_container_speaks_for_itself(pod: PodView)
    requires
        forall|j: int|
            0 <= j < statuses_of(pod).len() ==> container_text(#[trigger] statuses_of(pod)[j])
                is None,
    ensures
        pod.status is None || pod.status->0.reason is None ==> pod_text(pod) is None,
        pod.status is Some && pod.status->0.reason is Some ==> {
            let message = pod.status->0.message;
            let words = if message is Some && folded(message->0).len() > 0 {
                ": "@ + folded(message->0)
            } else {
                seq![]
            };
            pod_text(pod) == Some("its pod failed: "@ + pod.status->0.reason->0 + words)
        },
{
    lemma_nothing_told(statuses_of(pod));
    if pod.status is Some && pod.status->0.reason is Some {
        let message = pod.status->0.message;
        let head = "its pod failed: "@ + pod.status->0.reason->0;
        if message is Some && folded(message->0).len() > 0 {
            assert(head + ": "@ + folded(message->0) =~= head + (": "@ + folded(message->0)));
        } else {
            assert(head + Seq::<char>::empty() =~= head);
        }
    }
}

/// The condition tells that the Job failed.
pub open spec fn tells_of_failure(condition: JobConditionView) -> bool {
    condition.type_ == "Failed"@ && condition.status == "True"@
}

proof fn lemma_failed_at(conditions: Seq<JobConditionView>, i: int)
    requires
        0 <= i < conditions.len(),
        tells_of_failure(conditions[i]),
        forall|j: int| 0 <= j < i ==> !tells_of_failure(#[trigger] conditions[j]),
    ensures
        failed_condition(conditions) == Some(conditions[i]),
    decreases conditions.len(),
{
    if i > 0 {
        let rest = conditions.drop_first();
        assert(!tells_of_failure(conditions[0]));
        assert forall|j: int| 0 <= j < i - 1 implies !tells_of_failure(#[trigger] rest[j]) by {
            assert(rest[j] == conditions[j + 1]);
        }
        lemma_failed_at(rest, i - 1);
    }
}

proof fn lemma_not_failed(conditions: Seq<JobConditionView>)
    requires
        forall|j: int| 0 <= j < conditions.len() ==> !tells_of_failure(#[trigger] conditions[j]),
    ensures
        failed_condition(conditions) is None,
    decreases conditions.len(),
{
    if conditions.len() > 0 {
        let rest = conditions.drop_first();
        assert(!tells_of_failure(conditions[0]));
        assert forall|j: int| 0 <= j < rest.len() implies !tells_of_failure(
            #[trigger] rest[j],
        ) by {
            assert(rest[j] == conditions[j + 1]);
        }
        lemma_not_failed(rest);
    }
}

/// The first condition that tells of a Job's failure gives its reason, or `Failed` if it has none,
/// and the words of its message.
pub proof fn law_the_failed_condition_speaks_for_its_job(job: JobView, i: int)
    requires
        job.status is Some,
        job.status->0.conditions is Some,
        0 <= i < job.status->0.conditions->0.len(),
        tells_of_failure(job.status->0.conditions->0[i]),
        forall|j: int|
            0 <= j < i ==> !tells_of_failure(#[trigger] job.status->0.conditions->0[j]),
    ensures
        ({
            let condition = job.status->0.conditions->0[i];
            let reason = if condition.reason is Some {
                condition.reason->0
            } else {
                "Failed"@
            };
            let message = condition.message;
            let words = if message is Some && folded(message->0).len() > 0 {
                ": "@ + folded(message->0)
            } else {
                seq![]
            };
            job_failure_text(job) == Some(reason + words)
        }),
{
    lemma_failed_at(job.status->0.conditions->0, i);
    let condition = job.status->0.conditions->0[i];
    let reason = if condition.reason is Some {
        condition.reason->0
    } else {
        "Failed"@
    };
    let message = condition.message;
    if message is Some && folded(message->0).len() > 0 {
        assert(reason + ": "@ + folded(message->0) =~= reason + (": "@ + folded(message->0)));
    } else {
        assert(reason + Seq::<char>::empty() =~= reason);
    }
}

/// A Job that no condition tells the failure of gives no reason of its own.
pub proof fn law_without_a_failed_condition_a_job_gives_no_reason(job: JobView)
    requires
        job.status is Some && job.status->0.conditions is Some ==> forall|j: int|
            0 <= j < job.status->0.conditions->0.len() ==> !tells_of_failure(
                #[trigger] job.status->0.conditions->0[j],
            ),
    ensures
        job_failure_text(job) is None,
{
    if job.status is Some && job.status->0.conditions is Some {
        lemma_not_failed(job.status->0.conditions->0);
    }
}

/// A failure is told by what the pod that was found says, or else by what the run last saw, framed
/// by what the Job says, and cut if it is long.
pub proof fn law_a_failure_is_told_by_pod_run_and_job(
    found: PodLookupView,
    job: JobView,
    last_seen: Option<Seq<char>>,
)
    ensures
        found is Found && pod_text(found->Found_0) is Some ==> failure_text(found, job, last_seen)
            == shortened(framed(pod_text(found->Found_0), job_failure_text(job))),
        !(found is Found && pod_text(found->Found_0) is Some) ==> failure_text(
            found,
            job,
            last_seen,
        ) == shortened(framed(last_seen, job_failure_text(job))),
{
}

/// The condition tells that the pod cannot be scheduled.
pub open spec fn tells_of_no_place(condition: PodConditionView) -> bool {
    condition.type_ == "PodScheduled"@ && condition.status == "False"@
}

proof fn lemma_unscheduled_at(conditions: Seq<PodConditionView>, i: int)
    requires
        0 <= i < conditions.len(),
        tells_of_no_place(conditions[i]),
        forall|j: int| 0 <= j < i ==> !tells_of_no_place(#[trigger] conditions[j]),
    ensures
        unscheduled_condition(conditions) == Some(conditions[i]),
    decreases conditions.len(),
{
    if i > 0 {
        let rest = conditions.drop_first();
        assert(!tells_of_no_place(conditions[0]));
        assert forall|j: int| 0 <= j < i - 1 implies !tells_of_no_place(#[trigger] rest[j]) by {
            assert(rest[j] == conditions[j + 1]);
        }
        lemma_unscheduled_at(rest, i - 1);
    }
}

proof fn lemma_not_unscheduled(conditions: Seq<PodConditionView>)
    requires
        forall|j: int| 0 <= j < conditions.len() ==> !tells_of_no_place(#[trigger] conditions[j]),
    ensures
        unscheduled_condition(conditions) is None,
    decreases conditions.len(),
{
    if conditions.len() > 0 {
        let rest = conditions.drop_first();
        assert(!tells_of_no_place(conditions[0]));
        assert forall|j: int| 0 <= j < rest.len() implies !tells_of_no_place(
            #[trigger] rest[j],
        ) by {
            assert(rest[j] == conditions[j + 1]);
        }
        lemma_not_unscheduled(rest);
    }
}

/// A Job without a pod waits for one. Of a Job whose pods cannot be read, or whose pod has no
/// status or runs, nothing is told, whatever its containers say.
pub proof fn law_a_wait_is_told_of_pods_that_do_not_run(found: PodLookupView)
    ensures
        found is Missing ==> wait_text(found) == Some("no pod has been created for it"@),
        found is Unreadable ==> wait_text(found) is None,
        found is Found && found->Found_0.status is None ==> wait_text(found) is None,
        found is Found && found->Found_0.status is Some && found->Found_0.status->0.phase == Some(
            "Running"@,
        ) ==> wait_text(found) is None,
{
}

/// A pod that does not run, and none of whose containers is told of, waits for a place if a
/// condition says so: by the words of the first such condition's message, or else its reason.
pub proof fn law_a_pod_without_a_place_waits_for_one(pod: PodView, i: int)
    requires
        pod.status is Some,
        pod.status->0.phase != Some("Running"@),
        forall|j: int|
            0 <= j < statuses_of(pod).len() ==> container_text(#[trigger] statuses_of(pod)[j])
                is None,
        pod.status->0.conditions is Some,
        0 <= i < pod.status->0.conditions->0.len(),
        tells_of_no_place(pod.status->0.conditions->0[i]),
        forall|j: int|
            0 <= j < i ==> !tells_of_no_place(#[trigger] pod.status->0.conditions->0[j]),
    ensures
        ({
            let condition = pod.status->0.conditions->0[i];
            let message = condition.message;
            let why = if message is Some && folded(message->0).len() > 0 {
                folded(message->0)
            } else if condition.reason is Some {
                condition.reason->0
            } else {
                "no reason given"@
            };
            wait_text(PodLookupView::Found(pod)) == Some(
                shortened("its pod is unschedulable: "@ + why),
            )
        }),
{
    lemma_unscheduled_at(pod.status->0.conditions->0, i);
    lemma_nothing_told(statuses_of(pod));
}

/// A pod that does not run, none of whose containers is told of, and that no condition keeps from
/// a place waits for nothing that is known.
pub proof fn law_a_pod_with_a_place_waits_for_nothing(pod: PodView)
    requires
        forall|j: int|
            0 <= j < statuses_of(pod).len() ==> container_text(#[trigger] statuses_of(pod)[j])
                is None,
        pod.status is Some && pod.status->0.conditions is Some ==> forall|j: int|
            0 <= j < pod.status->0.conditions->0.len() ==> !tells_of_no_place(
                #[trigger] pod.status->0.conditions->0[j],
            ),
    ensures
        wait_text(PodLookupView::Found(pod)) is None,
{
    lemma_nothing_told(statuses_of(pod));
    if pod.status is Some && pod.status->0.conditions is Some {
        lemma_not_unscheduled(pod.status->0.conditions->0);
    }
}

proof fn lemma_nothing_told(statuses: Seq<ContainerStatusView>)
    requires
        forall|j: int| 0 <= j < statuses.len() ==> container_text(#[trigger] statuses[j]) is None,
    ensures
        first_text(statuses) is None,
    decreases statuses.len(),
{
    if statuses.len() > 0 {
        let rest = statuses.drop_first();
        assert(container_text(statuses[0]) is None);
        assert forall|j: int| 0 <= j < rest.len() implies container_text(#[trigger] rest[j])
            is None by {
            assert(rest[j] == statuses[j + 1]);
        }
        lemma_nothing_told(rest);
    }
}

} // verus!
