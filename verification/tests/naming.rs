use k8s_job_dispatcher::naming::{
    digest_prefix, hashed_job_name, hashed_label_value, job_name, sanitize_label_value,
    sanitize_node, short_hash, MAX_LABEL_LEN,
};

fn is_dns_label(s: &str) -> bool {
    !s.is_empty()
        && s.len() <= 63
        && s.chars()
            .all(|c| c.is_ascii_lowercase() || c.is_ascii_digit() || c == '-')
        && !s.starts_with('-')
        && !s.ends_with('-')
}

#[test]
fn test_sanitize_node() {
    for (input, expected) in [
        ("worker-0", "worker-0"),
        ("Worker.Example.COM", "worker-example-com"),
        ("--node--", "node"),
        ("a_b/c", "a-b-c"),
    ] {
        assert_eq!(sanitize_node(input), expected);
    }
}

#[test]
fn test_sanitize_label_value_short() {
    assert_eq!(sanitize_label_value("rollout-install"), "rollout-install");
}

#[test]
fn normalization_cannot_merge_release_identities() {
    let dotted = sanitize_label_value("rollout.install");
    let dashed = sanitize_label_value("rollout-install");

    assert_ne!(dotted, dashed);
    assert!(dotted.starts_with("rollout-install-"));
    assert_eq!(dashed, "rollout-install");
}

#[test]
fn test_sanitize_label_value_truncates() {
    let out = sanitize_label_value(&"a".repeat(100));
    assert!(out.len() <= MAX_LABEL_LEN);
    assert!(
        !out.ends_with('-'),
        "truncation must not leave a trailing dash"
    );
}

/// A value sanitizing to nothing still has to be a valid label value.
#[test]
fn an_unusable_value_falls_back_to_a_name() {
    let out = sanitize_label_value("___");
    assert!(out.starts_with("dispatcher-"));
    assert!(out.len() <= MAX_LABEL_LEN);
}

#[test]
fn test_job_name_short() {
    assert_eq!(
        job_name("rollout-install", "worker-0"),
        "rollout-install-worker-0"
    );
}

#[test]
fn normalized_node_names_cannot_merge_job_names() {
    assert_ne!(
        job_name("rollout-install", "worker.a"),
        job_name("rollout-install", "worker-a")
    );
}

#[test]
fn long_release_prefixes_cannot_merge_job_names() {
    let shared = "rollout-install-with-a-very-long-shared-prefix-";
    let name_a = job_name(&format!("{shared}alpha"), "worker-0");
    let name_b = job_name(&format!("{shared}bravo"), "worker-0");

    assert_ne!(name_a, name_b);
    assert!(name_a.len() <= MAX_LABEL_LEN);
    assert!(name_b.len() <= MAX_LABEL_LEN);
}

#[test]
fn test_job_name_truncated_and_unique() {
    let prefix = "rollout-install";
    let long_a = "node-with-a-really-really-really-really-really-long-name-aaaaaaa";
    let long_b = "node-with-a-really-really-really-really-really-long-name-bbbbbbb";

    let name_a = job_name(prefix, long_a);
    let name_b = job_name(prefix, long_b);

    assert!(
        name_a.len() <= 63,
        "name too long: {} ({})",
        name_a,
        name_a.len()
    );
    assert!(
        name_b.len() <= 63,
        "name too long: {} ({})",
        name_b,
        name_b.len()
    );
    assert_ne!(
        name_a, name_b,
        "different node names must yield different job names"
    );
}

#[test]
fn the_hash_is_the_start_of_the_digest_in_hexadecimal() {
    assert_eq!(short_hash("rollout.install"), "27a7345164579ed2ce75d0a4");
    assert_eq!(
        digest_prefix(&[0, 1, 15, 16, 159, 160, 171, 205, 239, 255, 254, 10, 99, 98]),
        "00010f109fa0abcdeffffe0a"
    );
}

#[test]
fn a_changed_value_gets_a_hash_of_what_it_was() {
    assert_eq!(
        sanitize_label_value("rollout.install"),
        "rollout-install-27a7345164579ed2ce75d0a4"
    );
    assert_eq!(
        sanitize_label_value(&"a".repeat(100)),
        format!("{}-2816597888e4a0d3a36b82b8", "a".repeat(38))
    );
    assert_eq!(sanitize_label_value("___"), "dispatcher-bda251550bf0478f4172a8ae");
    assert_eq!(sanitize_label_value("größe"), "gr--e-d353a2671b67afff0941ae45");
}

#[test]
fn a_changed_node_name_gets_a_hash_of_prefix_and_node() {
    assert_eq!(
        job_name("rollout-install", "worker.a"),
        "rollout-install-worker-a-3ecd7a2c3a63c3a39bf92662"
    );
    assert_eq!(
        job_name(
            "rollout-install",
            "node-with-a-really-really-really-really-really-long-name-aaaaaaa"
        ),
        "rollout-install-node-with-a-really-rea-05e41a85a4018eb5695c43d2"
    );
}

#[test]
fn what_is_kept_in_front_of_a_hash_ends_in_no_dash() {
    let hash = "0123456789abcdef01234567";
    let value = format!("{}.{}", "a".repeat(37), "b".repeat(40));
    assert_eq!(
        hashed_label_value(&value, hash),
        format!("{}-{hash}", "a".repeat(37))
    );
    assert_eq!(
        hashed_job_name(&"p".repeat(37), "n", hash),
        format!("{}-{hash}", "p".repeat(37))
    );
}

/// A prefix is counted in bytes to see whether a name fits, and cut in characters.
#[test]
fn a_name_fits_by_its_bytes() {
    let prefix = "é".repeat(31);
    let name = job_name(&prefix, "n");
    assert!(name.starts_with(&format!("{prefix}-n-")));
    assert_eq!(name.chars().count(), 31 + 2 + 25);
    assert_eq!(job_name(&"p".repeat(61), "n").len(), 63);
    assert_eq!(job_name(&"p".repeat(61), "n"), format!("{}-n", "p".repeat(61)));
    assert_ne!(job_name(&"p".repeat(62), "n"), format!("{}-n", "p".repeat(62)));
}

#[test]
fn names_are_dns_labels() {
    for node in ["worker-0", "Worker.Example.COM", "___", "-", "größe", "a.b.", ""] {
        assert!(is_dns_label(&job_name("rollout", node)), "{node}");
        assert!(is_dns_label(&sanitize_label_value(node)), "{node}");
    }
    assert!(is_dns_label(&job_name(&"p".repeat(100), "n")));
    assert!(is_dns_label(&job_name("rollout", &"n".repeat(100))));
}

/// Nothing at all still gets a name that can be used.
#[test]
fn an_empty_value_gets_a_hash() {
    assert_eq!(sanitize_label_value(""), "dispatcher-e3b0c44298fc1c149afbf4c8");
    assert_eq!(job_name("p", ""), "p-882a20e6379eb83aecb916f4");
    assert_eq!(
        job_name("rollout-install", ""),
        "rollout-install-1c0ab30186a59bb3ad2baa5e"
    );
    assert!(is_dns_label(&job_name(&sanitize_label_value(""), "n")));
}

#[test]
fn label_values_are_stable() {
    for value in ["rollout.install", "___", "Größe", "a-b", ""] {
        let once = sanitize_label_value(value);
        assert_eq!(sanitize_label_value(&once), once);
    }
    assert_eq!(sanitize_node(&sanitize_node("--A.b--")), sanitize_node("--A.b--"));
}

/// A name that spells out what another got with its hash is the one way to meet it.
#[test]
fn a_name_may_spell_out_a_hashed_one() {
    let hashed = job_name("p", "A");
    assert_eq!(hashed, "p-a-9d1168c40efe43fc58bb4812");
    assert_eq!(job_name("p", "a-9d1168c40efe43fc58bb4812"), hashed);
}

/// Under different prefixes two names that fit may spell the same.
#[test]
fn the_dash_between_prefix_and_node_is_a_dash_like_any_other() {
    assert_eq!(job_name("a-b", "c"), job_name("a", "b-c"));
}
