use k8s_job_dispatcher::diagnosis::{
    container_statuses, describe_container, describe_exit, describe_failed_pod, frame,
    job_failure_condition, shorten, trimmed, what_the_job_waits_for, why_the_job_failed,
    MAX_DIAGNOSIS,
};
use k8s_job_dispatcher::job::{interpret_status, JobOutcome};
use k8s_job_dispatcher::objects::{
    ContainerState, ContainerStateTerminated, ContainerStateWaiting, ContainerStatus, Job,
    JobCondition, JobStatus, ObjectMeta, Pod, PodCondition, PodStatus,
};
use k8s_job_dispatcher::pods::{
    first_listing, newest, newest_pod, pod_selector, Listing, PodLookup, PodSearch,
};

fn text(s: &str) -> Option<String> {
    Some(s.to_string())
}

fn pod(status: PodStatus) -> Pod {
    Pod {
        metadata: ObjectMeta {
            name: text("p"),
            ..Default::default()
        },
        status: Some(status),
    }
}

fn ended(exit_code: i32, reason: Option<&str>, message: Option<&str>) -> ContainerState {
    ContainerState {
        terminated: Some(ContainerStateTerminated {
            exit_code,
            reason: reason.map(str::to_string),
            message: message.map(str::to_string),
        }),
        waiting: None,
    }
}

fn waits(reason: Option<&str>, message: Option<&str>) -> ContainerState {
    ContainerState {
        terminated: None,
        waiting: Some(ContainerStateWaiting {
            reason: reason.map(str::to_string),
            message: message.map(str::to_string),
        }),
    }
}

fn status(name: &str, state: ContainerState) -> ContainerStatus {
    ContainerStatus {
        name: name.to_string(),
        state: Some(state),
        last_state: None,
    }
}

fn job(conditions: Option<Vec<JobCondition>>) -> Job {
    Job {
        status: Some(JobStatus {
            conditions,
            succeeded: None,
        }),
        ..Default::default()
    }
}

fn condition(type_: &str, status: &str, reason: Option<&str>, message: Option<&str>) -> JobCondition {
    JobCondition {
        type_: type_.to_string(),
        status: status.to_string(),
        reason: reason.map(str::to_string),
        message: message.map(str::to_string),
    }
}

#[test]
fn a_stage_that_says_why_is_quoted_verbatim() {
    let pod = pod(PodStatus {
        init_container_statuses: Some(vec![status(
            "install-stage-host-check",
            ended(
                1,
                Some("Error"),
                Some("this node has no usable virtualization backend"),
            ),
        )]),
        ..Default::default()
    });

    assert_eq!(
        describe_failed_pod(&pod).as_deref(),
        Some("install-stage-host-check exited 1: this node has no usable virtualization backend")
    );
}

#[test]
fn the_earliest_failing_stage_is_the_one_reported() {
    let pod = pod(PodStatus {
        init_container_statuses: Some(vec![
            status("load-kernel-modules", ended(0, None, None)),
            status("host-check", ended(1, None, Some("no dm_verity"))),
        ]),
        container_statuses: Some(vec![status("cri", waits(Some("PodInitializing"), None))]),
        ..Default::default()
    });

    assert_eq!(
        describe_failed_pod(&pod).as_deref(),
        Some("host-check exited 1: no dm_verity")
    );
}

#[test]
fn a_killed_stage_is_named_by_its_reason() {
    let pod = pod(PodStatus {
        container_statuses: Some(vec![status("artifacts", ended(137, Some("OOMKilled"), None))]),
        ..Default::default()
    });

    assert_eq!(
        describe_failed_pod(&pod).as_deref(),
        Some("artifacts exited 137 (OOMKilled) without saying why")
    );
}

#[test]
fn a_container_that_never_started_reports_what_stopped_it() {
    let pod = pod(PodStatus {
        container_statuses: Some(vec![status(
            "cri",
            waits(
                Some("ImagePullBackOff"),
                Some("Back-off pulling image \"kata-deploy:latest\""),
            ),
        )]),
        ..Default::default()
    });

    assert_eq!(
        describe_failed_pod(&pod).as_deref(),
        Some("cri never started: ImagePullBackOff: Back-off pulling image \"kata-deploy:latest\"")
    );
}

#[test]
fn a_crash_loop_is_explained_by_the_previous_run() {
    let mut looping = status("cri", waits(Some("CrashLoopBackOff"), None));
    looping.last_state = Some(ended(2, None, Some("containerd did not come back")));
    let pod = pod(PodStatus {
        container_statuses: Some(vec![looping]),
        ..Default::default()
    });

    assert_eq!(
        describe_failed_pod(&pod).as_deref(),
        Some("cri exited 2: containerd did not come back and is now in CrashLoopBackOff")
    );
}

#[test]
fn a_crash_loop_without_a_previous_run_speaks_for_itself() {
    let looping = status("cri", waits(Some("CrashLoopBackOff"), Some("back-off 10s")));
    assert_eq!(
        describe_container(&looping).as_deref(),
        Some("cri never started: CrashLoopBackOff: back-off 10s")
    );
    let creating = status("cri", waits(Some("ContainerCreating"), Some("soon")));
    assert_eq!(describe_container(&creating), None);
    assert_eq!(describe_container(&status("cri", waits(None, Some("m")))), None);
    assert_eq!(
        describe_container(&status("cri", waits(Some("ErrImagePull"), Some(" ")))).as_deref(),
        Some("cri never started: ErrImagePull")
    );
    assert_eq!(describe_container(&ContainerStatus::default()), None);
}

#[test]
fn a_pod_killed_before_its_containers_still_reports() {
    let pod = pod(PodStatus {
        phase: text("Failed"),
        reason: text("Evicted"),
        message: text("The node was low on resource: ephemeral-storage"),
        ..Default::default()
    });

    assert_eq!(
        describe_failed_pod(&pod).as_deref(),
        Some("its pod failed: Evicted: The node was low on resource: ephemeral-storage")
    );
}

#[test]
fn a_pod_with_nothing_to_say_says_nothing() {
    assert_eq!(describe_failed_pod(&Pod::default()), None);
    assert_eq!(
        describe_failed_pod(&pod(PodStatus {
            phase: text("Failed"),
            ..Default::default()
        })),
        None
    );
}

/// Otherwise a Job killed by its deadline reports the deadline and nothing about the pull or the
/// taint that ran the clock down.
#[test]
fn a_deleted_pod_leaves_what_the_run_last_saw() {
    let stalled = "cri never started: ImagePullBackOff: Back-off pulling image";

    assert_eq!(
        frame(
            Some(stalled.to_string()),
            Some("DeadlineExceeded: Job was active longer than specified deadline".to_string())
        ),
        "cri never started: ImagePullBackOff: Back-off pulling image [DeadlineExceeded: Job \
         was active longer than specified deadline]"
    );
    assert_eq!(
        frame(None, Some("BackoffLimitExceeded".to_string())),
        "BackoffLimitExceeded"
    );
    assert_eq!(
        frame(None, None),
        "the Job reports no reason and left no pod behind to ask"
    );
}

#[test]
fn the_jobs_own_reason_is_read_from_its_failed_condition() {
    for (conditions, expected) in [
        (
            Some(vec![condition(
                "Failed",
                "True",
                Some("DeadlineExceeded"),
                Some("Job was active longer than specified deadline"),
            )]),
            Some("DeadlineExceeded: Job was active longer than specified deadline"),
        ),
        (
            Some(vec![condition(
                "Failed",
                "True",
                Some("BackoffLimitExceeded"),
                None,
            )]),
            Some("BackoffLimitExceeded"),
        ),
        // Not this Job's failure, so not its reason.
        (
            Some(vec![condition(
                "Failed",
                "False",
                Some("DeadlineExceeded"),
                None,
            )]),
            None,
        ),
    ] {
        assert_eq!(
            job_failure_condition(&job(conditions)).as_deref(),
            expected
        );
    }
    let mut succeeded = job(None);
    succeeded.status.as_mut().unwrap().succeeded = Some(1);
    assert_eq!(job_failure_condition(&succeeded), None);
    assert_eq!(job_failure_condition(&Job::default()), None);
    assert_eq!(
        job_failure_condition(&job(Some(vec![condition("Failed", "True", None, Some("m"))])))
            .as_deref(),
        Some("Failed: m")
    );
}

#[test]
fn a_running_pod_is_not_waiting_for_anything() {
    let pod = pod(PodStatus {
        phase: text("Running"),
        container_statuses: Some(vec![status("cri", ContainerState::default())]),
        ..Default::default()
    });
    assert!(pod.status.as_ref().unwrap().phase.as_deref() == Some("Running"));
    assert_eq!(
        container_statuses(&pod)
            .into_iter()
            .find_map(describe_container),
        None
    );
    assert_eq!(what_the_job_waits_for(&PodLookup::Found(pod)), None);
}

#[test]
fn a_message_spread_over_lines_is_folded_into_one() {
    assert_eq!(
        trimmed(Some("0/3 nodes are available:\n  1 node(s) had  taint\n")).as_deref(),
        Some("0/3 nodes are available: 1 node(s) had taint")
    );
    assert_eq!(trimmed(Some("   \n ")), None);
    assert_eq!(trimmed(None), None);
}

#[test]
fn an_over_long_diagnosis_is_marked_as_truncated() {
    let long = shorten("größe ".repeat(1000));

    assert!(long.len() <= MAX_DIAGNOSIS);
    assert!(long.ends_with("... (truncated)"));
    assert!(long.starts_with("größe"));
}

#[test]
fn a_diagnosis_is_cut_at_the_end_of_a_character() {
    assert_eq!(shorten("a".repeat(1024)), "a".repeat(1024));
    assert_eq!(
        shorten("a".repeat(1025)),
        format!("{}... (truncated)", "a".repeat(1009))
    );
    assert_eq!(
        shorten("é".repeat(600)),
        format!("{}... (truncated)", "é".repeat(504))
    );
    assert_eq!(
        shorten(format!("a{}", "😀".repeat(300))),
        format!("a{}... (truncated)", "😀".repeat(252))
    );
    let once = shorten("größe ".repeat(1000));
    assert_eq!(shorten(once.clone()), once);
}

#[test]
fn an_exit_is_told_with_its_code() {
    assert_eq!(
        describe_exit("c", i32::MIN, Some("Error"), None),
        "c exited -2147483648 without saying why"
    );
    assert_eq!(
        describe_exit("c", 0, Some(""), Some(" m\tn ")),
        "c exited 0 (): m n"
    );
    assert_eq!(
        describe_exit("c", i32::MAX, None, Some("m")),
        "c exited 2147483647: m"
    );
}

#[test]
fn the_newest_pod_is_the_one_the_last_retry_left() {
    let attempt = |name: &str, stamp: i128| -> Pod {
        Pod {
            metadata: ObjectMeta {
                name: text(name),
                creation_timestamp: Some(stamp),
                ..Default::default()
            },
            status: None,
        }
    };

    let latest = newest(vec![
        // 2026-01-01T00:00:00Z
        attempt("first", 1767225600000000000),
        // 2026-01-01T00:02:00Z
        attempt("third", 1767225720000000000),
        // 2026-01-01T00:01:00Z
        attempt("second", 1767225660000000000),
    ]);

    assert_eq!(latest.unwrap().metadata.name.as_deref(), Some("third"));
    assert!(newest(vec![]).is_none());
}

fn stamped(name: Option<&str>, stamp: Option<i128>, phase: &str) -> Pod {
    Pod {
        metadata: ObjectMeta {
            name: name.map(str::to_string),
            creation_timestamp: stamp,
            ..Default::default()
        },
        status: Some(PodStatus {
            phase: text(phase),
            ..Default::default()
        }),
    }
}

#[test]
fn pods_of_one_time_are_told_apart_by_name() {
    let phase = |pod: Option<Pod>| pod.unwrap().status.unwrap().phase.unwrap();
    assert_eq!(
        phase(newest(vec![
            stamped(Some("b"), Some(1), "b"),
            stamped(Some("a"), Some(1), "a"),
            stamped(None, Some(1), "unnamed"),
            stamped(Some("z"), None, "unstamped"),
        ])),
        "b"
    );
    // Of two that nothing tells apart, the last one.
    assert_eq!(
        phase(newest(vec![
            stamped(Some("a"), None, "one"),
            stamped(Some("a"), None, "two"),
        ])),
        "two"
    );
}

#[test]
fn the_search_falls_back_to_the_deprecated_label() {
    assert_eq!(first_listing(), Listing::Current);
    assert_eq!(
        pod_selector(Listing::Current, "j"),
        "batch.kubernetes.io/job-name=j"
    );
    assert_eq!(pod_selector(Listing::Legacy, "j"), "job-name=j");

    assert!(matches!(
        newest_pod(Listing::Current, Some(vec![])),
        PodSearch::List(Listing::Legacy)
    ));
    assert!(matches!(
        newest_pod(Listing::Legacy, Some(vec![])),
        PodSearch::Done(PodLookup::Missing)
    ));
    for listing in [Listing::Current, Listing::Legacy] {
        assert!(matches!(
            newest_pod(listing, None),
            PodSearch::Done(PodLookup::Unreadable)
        ));
        assert!(matches!(
            newest_pod(listing, Some(vec![Pod::default()])),
            PodSearch::Done(PodLookup::Found(_))
        ));
    }
}

#[test]
fn a_failure_is_told_by_pod_and_job() {
    let killed = pod(PodStatus {
        container_statuses: Some(vec![status("c", ended(1, None, Some("no\nspace")))]),
        ..Default::default()
    });
    let late = job(Some(vec![
        condition("Suspended", "True", Some("x"), None),
        condition("Failed", "True", Some("DeadlineExceeded"), None),
    ]));
    assert_eq!(
        why_the_job_failed(&PodLookup::Found(killed), &late, Some("seen")),
        "c exited 1: no space [DeadlineExceeded]"
    );
    assert_eq!(
        why_the_job_failed(&PodLookup::Missing, &late, Some("seen")),
        "seen [DeadlineExceeded]"
    );
    assert_eq!(
        why_the_job_failed(&PodLookup::Unreadable, &Job::default(), None),
        "the Job reports no reason and left no pod behind to ask"
    );
    assert_eq!(
        why_the_job_failed(&PodLookup::Found(Pod::default()), &late, None),
        "DeadlineExceeded"
    );
    let seen = "x".repeat(2000);
    let told = why_the_job_failed(&PodLookup::Missing, &late, Some(&seen));
    assert_eq!(told.len(), MAX_DIAGNOSIS);
    assert!(told.ends_with("... (truncated)"));
}

#[test]
fn a_job_that_is_stuck_says_what_on() {
    assert_eq!(
        what_the_job_waits_for(&PodLookup::Missing).as_deref(),
        Some("no pod has been created for it")
    );
    assert_eq!(what_the_job_waits_for(&PodLookup::Unreadable), None);
    assert_eq!(what_the_job_waits_for(&PodLookup::Found(Pod::default())), None);

    let unscheduled = |message: Option<&str>, reason: Option<&str>| {
        what_the_job_waits_for(&PodLookup::Found(pod(PodStatus {
            phase: text("Pending"),
            conditions: Some(vec![
                PodCondition {
                    type_: "PodScheduled".to_string(),
                    status: "True".to_string(),
                    ..Default::default()
                },
                PodCondition {
                    type_: "PodScheduled".to_string(),
                    status: "False".to_string(),
                    reason: reason.map(str::to_string),
                    message: message.map(str::to_string),
                },
            ]),
            ..Default::default()
        })))
    };
    assert_eq!(
        unscheduled(Some("0/3 nodes\n available"), Some("Unschedulable")).as_deref(),
        Some("its pod is unschedulable: 0/3 nodes available")
    );
    assert_eq!(
        unscheduled(None, Some("Unschedulable")).as_deref(),
        Some("its pod is unschedulable: Unschedulable")
    );
    assert_eq!(
        unscheduled(Some(" "), None).as_deref(),
        Some("its pod is unschedulable: no reason given")
    );

    let pulling = pod(PodStatus {
        phase: text("Pending"),
        container_statuses: Some(vec![status("c", waits(Some("ErrImagePull"), None))]),
        ..Default::default()
    });
    assert_eq!(
        what_the_job_waits_for(&PodLookup::Found(pulling)).as_deref(),
        Some("c never started: ErrImagePull")
    );
}

#[test]
fn a_diagnosis_is_one_line_whatever_its_messages_hold() {
    let broken = "a\r\nb\t\u{2028}c\u{85}";
    let failed = pod(PodStatus {
        phase: text("Pending"),
        init_container_statuses: Some(vec![ContainerStatus {
            last_state: Some(ended(3, Some("Error"), Some(broken))),
            ..status("i", waits(Some("CrashLoopBackOff"), Some(broken)))
        }]),
        ..Default::default()
    });
    let late = job(Some(vec![condition(
        "Failed",
        "True",
        Some("DeadlineExceeded"),
        Some(broken),
    )]));
    let found = PodLookup::Found(failed);

    let stuck = what_the_job_waits_for(&found).unwrap();
    assert_eq!(stuck, "i exited 3: a b c and is now in CrashLoopBackOff");
    assert_eq!(
        why_the_job_failed(&found, &late, None),
        "i exited 3: a b c and is now in CrashLoopBackOff [DeadlineExceeded: a b c]"
    );
    // A tab in a name is no line break.
    let tabbed = pod(PodStatus {
        reason: text("E\tvicted"),
        ..Default::default()
    });
    assert_eq!(
        why_the_job_failed(&PodLookup::Found(tabbed), &Job::default(), None),
        "its pod failed: E\tvicted"
    );
    // What a run saw while it waited is what is left of a pod that is gone.
    assert_eq!(
        why_the_job_failed(&PodLookup::Missing, &late, Some(&stuck)),
        why_the_job_failed(&found, &late, None)
    );
}

#[test]
fn a_failed_job_gives_a_reason() {
    let failed = job(Some(vec![
        condition("Complete", "False", None, None),
        condition("Failed", "True", None, None),
    ]));
    assert_eq!(interpret_status(&failed), JobOutcome::Failed);
    assert_eq!(job_failure_condition(&failed).as_deref(), Some("Failed"));
}
