use k8s_job_dispatcher::job::{
    build_labelled_job, build_node_job, interpret_status, job_owned_by, JobOutcome,
    CONTAINER_RUNTIME_VERSION_ENV, NODE_MACHINE_ID_ENV,
};
use k8s_job_dispatcher::nodes::NodeFacts;
use k8s_job_dispatcher::objects::{
    ConfigMapKeySelector, Container, EnvVar, EnvVarSource, Job, JobCondition, JobSpec, JobStatus,
    ObjectMeta, OwnerReference, PodSpec, PodTemplateSpec,
};
use k8s_job_dispatcher::string_map::StringMap;
use k8s_job_dispatcher::tracking::TrackingLabels;

fn container(name: &str) -> Container {
    Container {
        name: name.to_string(),
        env: None,
    }
}

fn template(name: &str, init_containers: Option<Vec<Container>>, containers: Vec<Container>) -> Job {
    Job {
        metadata: ObjectMeta {
            name: Some(name.to_string()),
            ..Default::default()
        },
        spec: Some(JobSpec {
            template: PodTemplateSpec {
                metadata: None,
                spec: Some(PodSpec {
                    node_name: None,
                    init_containers,
                    containers,
                }),
            },
        }),
        status: None,
    }
}

fn value_of(env: &[EnvVar], name: &str) -> Option<String> {
    env.iter()
        .find(|var| var.name == name)
        .and_then(|var| var.value.clone())
}

#[test]
fn tracking_labels_share_their_prefix() {
    for prefix in [
        "k8s-job-dispatcher",
        "example.com/dispatcher",
        "trailing-slash/",
    ] {
        let tracking = TrackingLabels::with_prefix(prefix);
        let expected = prefix.trim_end_matches('/');

        assert_eq!(tracking.owner, format!("{expected}/owner"));
        assert_eq!(tracking.node, format!("{expected}/node"));
        assert_eq!(tracking.node_annotation, format!("{expected}/node-name"));
    }
}

#[test]
fn a_tracking_prefix_is_trimmed() {
    let tracking = TrackingLabels::with_prefix(" \u{2003}a b// \n");
    assert_eq!(tracking.owner, "a b/owner");
    assert_eq!(TrackingLabels::with_prefix(" / ").node, "/node");
    assert_eq!(TrackingLabels::default().owner, "k8s-job-dispatcher/owner");
    assert_eq!(
        TrackingLabels::default().clone().node_annotation,
        "k8s-job-dispatcher/node-name"
    );
}

#[test]
fn test_job_owned_by() {
    let tracking = TrackingLabels::default();
    let mut job = Job::default();
    assert!(!job_owned_by(&job, &tracking, "rollout-install"));
    job.metadata
        .labels
        .get_or_insert_with(StringMap::new)
        .insert(tracking.owner.clone(), "rollout-install".to_string());
    assert!(job_owned_by(&job, &tracking, "rollout-install"));
    assert!(!job_owned_by(&job, &tracking, "other-owner"));
}

#[test]
fn a_job_tracked_under_another_prefix_is_not_ours() {
    let mut job = Job::default();
    job.metadata
        .labels
        .get_or_insert_with(StringMap::new)
        .insert(
            TrackingLabels::with_prefix("someone-else").owner,
            "rollout-install".to_string(),
        );

    assert!(!job_owned_by(
        &job,
        &TrackingLabels::default(),
        "rollout-install"
    ));
}

#[test]
fn test_build_node_job_pins_node_and_labels() {
    let template = template("ignored", None, vec![container("c")]);

    let owner = OwnerReference {
        api_version: "batch/v1".to_string(),
        kind: "Job".to_string(),
        name: "dispatcher".to_string(),
        uid: "abc-123".to_string(),
        controller: Some(false),
        block_owner_deletion: Some(false),
    };

    let facts = NodeFacts {
        name: "node1".to_string(),
        container_runtime_version: Some("containerd://2.1.5".to_string()),
        machine_id: Some("machine-1".to_string()),
    };

    let tracking = TrackingLabels::default();
    let job = build_node_job(
        &template,
        "rollout-install-node1",
        "node1",
        "rollout-install",
        Some(&owner),
        Some(&facts),
        &tracking,
    );

    assert_eq!(job.metadata.name.as_deref(), Some("rollout-install-node1"));
    let labels = job.metadata.labels.unwrap();
    assert_eq!(labels.get(&tracking.owner), Some("rollout-install"));
    assert_eq!(labels.get(&tracking.node), Some("node1"));
    let annotations = job.metadata.annotations.unwrap();
    assert_eq!(annotations.get(&tracking.node_annotation), Some("node1"));
    assert_eq!(job.metadata.owner_references.unwrap().len(), 1);
    let pod_spec = job.spec.unwrap().template.spec.unwrap();
    assert_eq!(pod_spec.node_name.as_deref(), Some("node1"));

    let env = pod_spec.containers[0].env.as_ref().unwrap();
    assert_eq!(
        value_of(env, CONTAINER_RUNTIME_VERSION_ENV).as_deref(),
        Some("containerd://2.1.5")
    );
}

/// A consumer that can look the version up itself must see no value rather than an empty one.
#[test]
fn unknown_facts_inject_nothing() {
    let template = template("t", Some(vec![container("i")]), vec![container("c")]);

    let no_version = NodeFacts {
        name: "node1".to_string(),
        container_runtime_version: None,
        machine_id: None,
    };

    for facts in [Some(&no_version), None] {
        let job = build_node_job(
            &template,
            "j",
            "node1",
            "owner",
            None,
            facts,
            &TrackingLabels::default(),
        );

        let pod_spec = job.spec.unwrap().template.spec.unwrap();
        assert!(pod_spec.containers[0].env.is_none());
        assert!(pod_spec.init_containers.unwrap()[0].env.is_none());
    }
}

#[test]
fn facts_reach_init_containers() {
    let template = template(
        "t",
        Some(vec![container("host-check")]),
        vec![container("cri")],
    );

    let facts = NodeFacts {
        name: "node1".to_string(),
        container_runtime_version: Some("cri-o://1.31.0".to_string()),
        machine_id: Some("machine-1".to_string()),
    };
    let job = build_node_job(
        &template,
        "j",
        "node1",
        "owner",
        None,
        Some(&facts),
        &TrackingLabels::default(),
    );
    let pod_spec = job.spec.unwrap().template.spec.unwrap();

    for env in [
        pod_spec.init_containers.as_ref().unwrap()[0].env.as_ref(),
        pod_spec.containers[0].env.as_ref(),
    ] {
        let env = env.unwrap();
        assert_eq!(
            value_of(env, CONTAINER_RUNTIME_VERSION_ENV).as_deref(),
            Some("cri-o://1.31.0")
        );
        assert_eq!(
            value_of(env, NODE_MACHINE_ID_ENV).as_deref(),
            Some("machine-1")
        );
    }
}

/// One fact missing must not keep the other from reaching the Job.
#[test]
fn facts_are_injected_independently() {
    let template = template("t", None, vec![container("c")]);

    let facts = NodeFacts {
        name: "node1".to_string(),
        container_runtime_version: None,
        machine_id: Some("machine-1".to_string()),
    };
    let job = build_node_job(
        &template,
        "j",
        "node1",
        "owner",
        None,
        Some(&facts),
        &TrackingLabels::default(),
    );

    let env = job.spec.unwrap().template.spec.unwrap().containers[0]
        .env
        .clone()
        .unwrap();
    assert_eq!(env.len(), 1);
    assert_eq!(env[0].name, NODE_MACHINE_ID_ENV);
}

#[test]
fn a_value_in_the_template_wins() {
    let mut with_env = container("c");
    with_env.env = Some(vec![
        EnvVar {
            name: "OTHER".to_string(),
            value: None,
            value_from: Some(EnvVarSource {
                config_map_key_ref: Some(ConfigMapKeySelector {
                    name: "settings".to_string(),
                    key: "other".to_string(),
                    optional: Some(true),
                }),
                ..Default::default()
            }),
        },
        EnvVar {
            name: NODE_MACHINE_ID_ENV.to_string(),
            value: Some("mine".to_string()),
            value_from: None,
        },
    ]);
    let template = template("t", None, vec![with_env]);
    let facts = NodeFacts {
        name: "node1".to_string(),
        container_runtime_version: Some("containerd://2".to_string()),
        machine_id: Some("machine-1".to_string()),
    };
    let job = build_node_job(
        &template,
        "j",
        "node1",
        "owner",
        None,
        Some(&facts),
        &TrackingLabels::default(),
    );
    let pod_spec = job.spec.unwrap().template.spec.unwrap();
    let env = pod_spec.containers[0].env.as_ref().unwrap();
    let names: Vec<&str> = env.iter().map(|var| var.name.as_str()).collect();
    assert_eq!(
        names,
        ["OTHER", NODE_MACHINE_ID_ENV, CONTAINER_RUNTIME_VERSION_ENV]
    );
    assert_eq!(value_of(env, NODE_MACHINE_ID_ENV).as_deref(), Some("mine"));
    // Where a template's variable has its value from stays; what is added has it in place.
    let from = env[0].value_from.as_ref().unwrap();
    let key = from.config_map_key_ref.as_ref().unwrap();
    assert_eq!((key.name.as_str(), key.key.as_str()), ("settings", "other"));
    assert_eq!(key.optional, Some(true));
    assert!(from.secret_key_ref.is_none());
    assert_eq!(env[2].value.as_deref(), Some("containerd://2"));
    assert!(env[2].value_from.is_none());
}

#[test]
fn a_template_without_anything_still_makes_a_job() {
    let tracking = TrackingLabels::with_prefix("p");
    let job = build_node_job(
        &Job::default(),
        "j",
        "Node.1",
        "owner",
        None,
        None,
        &tracking,
    );
    let template = job.spec.as_ref().unwrap().template.clone();
    assert_eq!(
        template.metadata.unwrap().labels.unwrap().get("p/owner"),
        Some("owner")
    );
    let pod_spec = template.spec.unwrap();
    assert_eq!(pod_spec.node_name.as_deref(), Some("Node.1"));
    assert!(pod_spec.containers.is_empty());
    assert!(job.metadata.owner_references.is_none());
    let label = job.metadata.labels.as_ref().unwrap().get("p/node").unwrap();
    assert!(label.starts_with("node-1-"));
    assert_eq!(label.len(), "node-1-".len() + 24);
    assert_eq!(
        job.metadata.annotations.unwrap().get("p/node-name"),
        Some("Node.1")
    );
}

#[test]
fn what_a_template_says_of_itself_stays() {
    let mut labels = StringMap::new();
    labels.insert("app".to_string(), "x".to_string());
    labels.insert("p/owner".to_string(), "someone".to_string());
    let mut job = template("t", None, vec![container("c")]);
    job.metadata.generate_name = Some("t-".to_string());
    job.metadata.labels = Some(labels);
    job.metadata.owner_references = Some(vec![OwnerReference::default(), OwnerReference::default()]);
    job.status = Some(JobStatus {
        conditions: None,
        succeeded: Some(3),
    });

    let tracking = TrackingLabels::with_prefix("p");
    let built = build_labelled_job(&job, "j", "n", "label", "owner", None, None, &tracking);

    assert!(built.metadata.generate_name.is_none());
    let keys: Vec<(&str, &str)> = built
        .metadata
        .labels
        .as_ref()
        .unwrap()
        .entries()
        .iter()
        .map(|entry| (entry.key.as_str(), entry.value.as_str()))
        .collect();
    assert_eq!(keys, [("app", "x"), ("p/node", "label"), ("p/owner", "owner")]);
    assert_eq!(built.metadata.owner_references.as_ref().unwrap().len(), 2);
    assert_eq!(built.status.as_ref().unwrap().succeeded, Some(3));
    assert!(job_owned_by(&built, &tracking, "owner"));
    assert!(!job_owned_by(&built, &TrackingLabels::with_prefix("q"), "owner"));
}

fn job_with_status(conditions: &[(&str, &str)], succeeded: Option<i32>) -> Job {
    let conditions = conditions
        .iter()
        .map(|(type_, status)| JobCondition {
            type_: type_.to_string(),
            status: status.to_string(),
            ..Default::default()
        })
        .collect::<Vec<_>>();
    Job {
        status: Some(JobStatus {
            conditions: if conditions.is_empty() {
                None
            } else {
                Some(conditions)
            },
            succeeded,
        }),
        ..Default::default()
    }
}

#[test]
fn test_interpret_status() {
    for (conditions, succeeded, expected) in [
        (vec![("Complete", "True")], None, JobOutcome::Succeeded),
        (vec![("Failed", "True")], None, JobOutcome::Failed),
        (vec![("Complete", "False")], None, JobOutcome::Running),
        (vec![], Some(1), JobOutcome::Succeeded),
    ] {
        assert_eq!(
            interpret_status(&job_with_status(&conditions, succeeded)),
            expected
        );
    }
}

#[test]
fn test_interpret_status_running_when_unset() {
    assert_eq!(interpret_status(&Job::default()), JobOutcome::Running);
}

#[test]
fn the_first_true_verdict_outranks_the_count() {
    assert_eq!(
        interpret_status(&job_with_status(&[("Failed", "True")], Some(1))),
        JobOutcome::Failed
    );
    assert_eq!(
        interpret_status(&job_with_status(
            &[("Suspended", "True"), ("Complete", "True"), ("Failed", "True")],
            None
        )),
        JobOutcome::Succeeded
    );
    assert_eq!(
        interpret_status(&job_with_status(&[("Failed", "False")], Some(0))),
        JobOutcome::Running
    );
}

#[test]
fn a_string_map_keeps_its_keys_in_order() {
    let mut map = StringMap::new();
    for key in ["b", "a", "é", "", "ab", "a"] {
        map.insert(key.to_string(), format!("{key}!"));
    }
    map.insert("b".to_string(), "again".to_string());
    let keys: Vec<&str> = map.entries().iter().map(|entry| entry.key.as_str()).collect();
    assert_eq!(keys, ["", "a", "ab", "b", "é"]);
    assert_eq!(map.get("b"), Some("again"));
    assert_eq!(map.get("é"), Some("é!"));
    assert_eq!(map.get("c"), None);
    assert_eq!(map.clone().get("ab"), Some("ab!"));
    assert!(StringMap::default().get("").is_none());
}
