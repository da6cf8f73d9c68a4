use k8s_job_dispatcher::node_filter::{
    daemonset_controller_tolerations, describe_taint, partition_by_tolerations,
    suggested_toleration, tolerates, untolerated_taint, PodAdmission,
};
use k8s_job_dispatcher::objects::{Node, NodeSpec, ObjectMeta, Taint, Toleration};

fn taint(key: &str, value: Option<&str>, effect: &str) -> Taint {
    Taint {
        key: key.to_string(),
        value: value.map(str::to_string),
        effect: effect.to_string(),
        ..Default::default()
    }
}

fn toleration(key: Option<&str>, operator: &str, effect: Option<&str>) -> Toleration {
    Toleration {
        key: key.map(str::to_string),
        operator: Some(operator.to_string()),
        effect: effect.map(str::to_string),
        ..Default::default()
    }
}

fn node(name: &str, taints: Vec<Taint>) -> Node {
    Node {
        metadata: ObjectMeta {
            name: Some(name.to_string()),
            ..Default::default()
        },
        spec: Some(NodeSpec {
            taints: Some(taints),
        }),
    }
}

fn admission(tolerations: &[Toleration]) -> PodAdmission {
    PodAdmission {
        tolerations: tolerations.to_vec(),
        host_network: false,
    }
}

fn control_plane_taint() -> Taint {
    taint("node-role.kubernetes.io/control-plane", None, "NoSchedule")
}

#[test]
fn a_node_matched_by_several_selectors_is_reported_once() {
    let admitted_twice = node("worker-1", vec![]);
    let skipped_twice = node("cp-1", vec![control_plane_taint()]);
    let nodes = vec![
        admitted_twice.clone(),
        skipped_twice.clone(),
        admitted_twice,
        skipped_twice,
    ];

    let (admitted, skipped) = partition_by_tolerations(&nodes, &admission(&[]));

    assert_eq!(admitted, vec!["worker-1".to_string()]);
    assert_eq!(skipped.len(), 1);
    assert_eq!(skipped[0].name, "cp-1");
}

#[test]
fn exists_toleration_matches_regardless_of_value() {
    let tol = toleration(
        Some("node-role.kubernetes.io/control-plane"),
        "Exists",
        Some("NoSchedule"),
    );
    assert!(tolerates(&tol, &control_plane_taint()));
}

#[test]
fn empty_key_with_exists_tolerates_everything() {
    let tol = toleration(None, "Exists", None);
    assert!(tolerates(&tol, &control_plane_taint()));
    assert!(tolerates(&tol, &taint("custom", Some("v"), "NoExecute")));
}

#[test]
fn effect_must_match_when_specified() {
    let tol = toleration(
        Some("node-role.kubernetes.io/control-plane"),
        "Exists",
        Some("NoExecute"),
    );
    assert!(!tolerates(&tol, &control_plane_taint()));
}

#[test]
fn equal_operator_compares_values() {
    let mut tol = toleration(Some("dedicated"), "Equal", None);
    tol.value = Some("batch".to_string());

    assert!(tolerates(
        &tol,
        &taint("dedicated", Some("batch"), "NoSchedule")
    ));
    assert!(!tolerates(
        &tol,
        &taint("dedicated", Some("other"), "NoSchedule")
    ));
}

#[test]
fn an_unset_operator_compares_values_too() {
    let tol = Toleration {
        key: Some(String::new()),
        effect: Some(String::new()),
        ..Default::default()
    };
    assert!(tolerates(&tol, &taint("any", None, "NoSchedule")));
    assert!(tolerates(&tol, &taint("any", Some(""), "NoExecute")));
    assert!(!tolerates(&tol, &taint("any", Some("v"), "NoSchedule")));
    let other_key = toleration(Some("k"), "Exists", None);
    assert!(!tolerates(&other_key, &taint("any", None, "NoSchedule")));
}

#[test]
fn prefer_no_schedule_never_blocks() {
    let taints = vec![taint("spot", None, "PreferNoSchedule")];
    assert!(untolerated_taint(&taints, &[]).is_none());
}

#[test]
fn the_first_untolerated_taint_is_the_one_named() {
    let taints = vec![
        taint("spot", None, "PreferNoSchedule"),
        taint("a", None, "NoSchedule"),
        taint("b", None, "NoExecute"),
    ];
    assert_eq!(untolerated_taint(&taints, &[]).unwrap().key, "a");
    let tolerations = vec![toleration(Some("a"), "Exists", None)];
    assert_eq!(untolerated_taint(&taints, &tolerations).unwrap().key, "b");
}

#[test]
fn control_plane_node_is_skipped_without_a_toleration() {
    let nodes = vec![
        node("worker-1", vec![]),
        node("cp-1", vec![control_plane_taint()]),
    ];

    let (admitted, skipped) = partition_by_tolerations(&nodes, &admission(&[]));

    assert_eq!(admitted, vec!["worker-1"]);
    assert_eq!(skipped.len(), 1);
    assert_eq!(skipped[0].name, "cp-1");
    assert_eq!(
        describe_taint(&skipped[0].taint),
        "node-role.kubernetes.io/control-plane:NoSchedule"
    );
}

#[test]
fn control_plane_node_is_admitted_once_tolerated() {
    let nodes = vec![node("cp-1", vec![control_plane_taint()])];
    let tolerations = vec![toleration(
        Some("node-role.kubernetes.io/control-plane"),
        "Exists",
        Some("NoSchedule"),
    )];

    let (admitted, skipped) = partition_by_tolerations(&nodes, &admission(&tolerations));

    assert_eq!(admitted, vec!["cp-1"]);
    assert!(skipped.is_empty());
}

#[test]
fn cordoned_and_pressured_nodes_stay_admitted_like_a_daemonset() {
    let nodes = vec![
        node(
            "cordoned",
            vec![taint(
                "node.kubernetes.io/unschedulable",
                None,
                "NoSchedule",
            )],
        ),
        node(
            "pressured",
            vec![taint(
                "node.kubernetes.io/memory-pressure",
                None,
                "NoSchedule",
            )],
        ),
    ];

    let (admitted, skipped) = partition_by_tolerations(&nodes, &admission(&[]));

    assert_eq!(admitted, vec!["cordoned", "pressured"]);
    assert!(skipped.is_empty());
}

#[test]
fn network_unavailable_is_tolerated_only_for_host_network_pods() {
    let nodes = vec![node(
        "no-network",
        vec![taint(
            "node.kubernetes.io/network-unavailable",
            None,
            "NoSchedule",
        )],
    )];

    let (admitted, skipped) = partition_by_tolerations(&nodes, &admission(&[]));
    assert!(admitted.is_empty());
    assert_eq!(skipped.len(), 1);

    let host_networked = PodAdmission {
        tolerations: Vec::new(),
        host_network: true,
    };
    let (admitted, skipped) = partition_by_tolerations(&nodes, &host_networked);
    assert_eq!(admitted, vec!["no-network"]);
    assert!(skipped.is_empty());
}

#[test]
fn nodes_without_a_spec_or_taints_are_admitted() {
    let bare = Node {
        metadata: ObjectMeta {
            name: Some("bare".to_string()),
            ..Default::default()
        },
        ..Default::default()
    };

    let (admitted, skipped) = partition_by_tolerations(&[bare], &admission(&[]));

    assert_eq!(admitted, vec!["bare"]);
    assert!(skipped.is_empty());
}

#[test]
fn suggested_toleration_names_the_blocking_taint() {
    let suggestion = suggested_toleration(&control_plane_taint());

    assert!(suggestion.contains("key: node-role.kubernetes.io/control-plane"));
    assert!(suggestion.contains("effect: NoSchedule"));
}

#[test]
fn a_suggested_toleration_is_yaml_to_paste() {
    assert_eq!(
        suggested_toleration(&taint("dedicated", Some("batch"), "NoExecute")),
        "tolerations:\n  - key: dedicated\n    operator: Exists\n    effect: NoExecute"
    );
}

#[test]
fn describe_taint_includes_the_value_when_present() {
    assert_eq!(
        describe_taint(&taint("dedicated", Some("batch"), "NoSchedule")),
        "dedicated=batch:NoSchedule"
    );
}

#[test]
fn an_empty_value_is_not_spelled_out() {
    assert_eq!(
        describe_taint(&taint("dedicated", Some(""), "NoSchedule")),
        "dedicated:NoSchedule"
    );
}

/// Two nodes of one name are one entry on each side, and the first to be refused says why.
#[test]
fn the_first_refusal_of_a_name_is_kept() {
    let nodes = vec![
        node("n", vec![taint("first", None, "NoSchedule")]),
        node("a", vec![]),
        node("n", vec![taint("second", None, "NoSchedule")]),
        node("n", vec![]),
        Node::default(),
        node("B", vec![taint("x", None, "NoExecute")]),
        node("é", vec![]),
        node("b", vec![]),
    ];
    let (admitted, skipped) = partition_by_tolerations(&nodes, &PodAdmission::default());
    assert_eq!(admitted, vec!["a", "b", "n", "é"]);
    let named: Vec<(&str, &str)> = skipped
        .iter()
        .map(|s| (s.name.as_str(), s.taint.key.as_str()))
        .collect();
    assert_eq!(named, [("B", "x"), ("n", "first")]);
}

#[test]
fn many_nodes_come_out_in_order() {
    let mut nodes = Vec::new();
    for i in 0..300u32 {
        nodes.push(node(&format!("n{}", (i * 7919) % 101), vec![]));
    }
    let (admitted, skipped) = partition_by_tolerations(&nodes, &PodAdmission::default().clone());
    let mut expected: Vec<String> = (0..101).map(|i| format!("n{i}")).collect();
    expected.sort();
    assert_eq!(admitted, expected);
    assert!(skipped.is_empty());
}

#[test]
fn a_daemonset_tolerates_what_comes_and_goes() {
    let keys = |host_network: bool| -> Vec<(String, String)> {
        daemonset_controller_tolerations(host_network)
            .into_iter()
            .map(|t| {
                assert_eq!(t.operator.as_deref(), Some("Exists"));
                assert!(t.value.is_none() && t.toleration_seconds.is_none());
                (t.key.unwrap(), t.effect.unwrap())
            })
            .collect()
    };
    let mut expected: Vec<(String, String)> = [
        ("node.kubernetes.io/not-ready", "NoExecute"),
        ("node.kubernetes.io/unreachable", "NoExecute"),
        ("node.kubernetes.io/disk-pressure", "NoSchedule"),
        ("node.kubernetes.io/memory-pressure", "NoSchedule"),
        ("node.kubernetes.io/pid-pressure", "NoSchedule"),
        ("node.kubernetes.io/unschedulable", "NoSchedule"),
    ]
    .iter()
    .map(|(k, e)| (k.to_string(), e.to_string()))
    .collect();
    assert_eq!(keys(false), expected);
    expected.push((
        "node.kubernetes.io/network-unavailable".to_string(),
        "NoSchedule".to_string(),
    ));
    assert_eq!(keys(true), expected);
}

#[test]
fn more_tolerations_admit_more() {
    let nodes = vec![
        node("plain", vec![]),
        node("spot", vec![taint("spot", None, "NoSchedule")]),
        node(
            "gpu",
            vec![
                taint("gpu", Some("yes"), "NoExecute"),
                taint("spot", None, "NoSchedule"),
            ],
        ),
    ];
    let mut tolerations = Vec::new();
    let mut counts = Vec::new();
    for key in ["none-of-them", "spot", "gpu"] {
        tolerations.push(toleration(Some(key), "Exists", None));
        let (admitted, skipped) = partition_by_tolerations(&nodes, &admission(&tolerations));
        assert_eq!(admitted.len() + skipped.len(), nodes.len());
        counts.push(admitted.len());
    }
    assert_eq!(counts, [1, 2, 3]);
}

#[test]
fn a_suggested_toleration_lets_the_pod_in() {
    let blocked = taint("dedicated", Some("batch"), "NoExecute");
    let suggested = toleration(Some("dedicated"), "Exists", Some("NoExecute"));
    assert!(tolerates(&suggested, &blocked));

    let nodes = vec![node("n", vec![blocked])];
    let (admitted, _) = partition_by_tolerations(&nodes, &admission(&[suggested]));
    assert_eq!(admitted, ["n"]);
}

#[test]
fn a_node_without_a_name_is_left_out() {
    let mut nameless = node("x", vec![control_plane_taint()]);
    nameless.metadata.name = None;
    let nodes = vec![nameless, Node::default(), node("named", vec![])];

    let (admitted, skipped) = partition_by_tolerations(&nodes, &PodAdmission::default());

    assert_eq!(admitted, ["named"]);
    assert!(skipped.is_empty());
}

#[test]
fn an_operator_of_its_own_tolerates_nothing() {
    let matched = taint("dedicated", Some("5"), "NoSchedule");
    let with = |operator: Option<&str>| Toleration {
        operator: operator.map(str::to_string),
        value: Some("5".to_string()),
        ..toleration(Some("dedicated"), "", None)
    };
    for operator in [Some("Gt"), Some("Lt"), Some("equal"), Some("In")] {
        assert!(!tolerates(&with(operator), &matched), "{operator:?}");
    }
    for operator in [None, Some(""), Some("Equal"), Some("Exists")] {
        assert!(tolerates(&with(operator), &matched), "{operator:?}");
    }

    let nodes = vec![node("n", vec![matched])];
    let (admitted, skipped) = partition_by_tolerations(&nodes, &admission(&[with(Some("Gt"))]));
    assert!(admitted.is_empty());
    assert_eq!(skipped[0].name, "n");
}
