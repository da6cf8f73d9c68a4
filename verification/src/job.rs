//! The Job that runs on one node.
use vstd::prelude::*;
use vstd::string::*;

use crate::digest::MAX_DIGEST_INPUT;
use crate::naming::{label_value_of, sanitize_label_value};
use crate::nodes::{NodeFacts, NodeFactsView};
use crate::objects::{
    Container,
    ContainerView,
    EnvVar,
    EnvVarView,
    Job,
    JobCondition,
    JobConditionView,
    JobSpec,
    JobSpecView,
    JobView,
    ObjectMeta,
    ObjectMetaView,
    OwnerReference,
    OwnerReferenceView,
    PodSpec,
    PodSpecView,
    PodTemplateSpec,
    PodTemplateSpecView,
};
use crate::string_map::StringMap;
use crate::text::{borrowed, byte_len, same_text};
use crate::tracking::{
    law_tracking_keys_are_distinct,
    tracking_keys,
    tracking_prefix,
    TrackingLabels,
    TrackingLabelsView,
};

verus! {

pub const CONTAINER_RUNTIME_VERSION_ENV: &'static str = "CONTAINER_RUNTIME_VERSION";

/// Lets a Job ask the host it landed on whether it is the machine that was chosen: a Job is
/// bound by node name, and a name can outlive the machine that answered to it.
pub const NODE_MACHINE_ID_ENV: &'static str = "NODE_MACHINE_ID";

/// What a Job has come to.
#[derive(Debug, Clone, Copy, PartialEq, Eq, Structural)]
pub enum JobOutcome {
    Running,
    Succeeded,
    Failed,
}

// ---------------------------------------------------------------------------------------------
// Ownership

/// The Job carries the owner label with this value.
pub open spec fn owned_by(
    job: JobView,
    tracking: TrackingLabelsView,
    owner_value: Seq<char>,
) -> bool {
    match job.metadata.labels {
        Some(labels) => labels.contains_key(tracking.owner) && labels[tracking.owner]
            == owner_value,
        None => false,
    }
}

/// Whether a pre-existing (409) Job is safe to adopt. The dispatcher only ever GETs in-flight
/// Jobs by name, so adopting one it cannot recognise later would leave it stuck in-flight
/// forever.
pub fn job_owned_by(job: &Job, tracking: &TrackingLabels, owner_value: &str) -> (r: bool)
    ensures
        r == owned_by(job.deep_view(), tracking.deep_view(), owner_value@),
{
    match &job.metadata.labels {
        Some(labels) => match labels.get(tracking.owner.as_str()) {
            Some(value) => same_text(value, owner_value),
            None => false,
        },
        None => false,
    }
}

// ---------------------------------------------------------------------------------------------
// Node facts

/// The variables, or none.
pub open spec fn env_or_empty(env: Option<Seq<EnvVarView>>) -> Seq<EnvVarView> {
    match env {
        Some(vars) => vars,
        None => Seq::empty(),
    }
}

/// A variable with this name is set.
pub open spec fn defines(env: Seq<EnvVarView>, name: Seq<char>) -> bool {
    exists|i: int| 0 <= i < env.len() && #[trigger] env[i].name == name
}

/// The environment with a variable more, if its value is known and the environment does not set
/// it already. Its value is given in place.
pub open spec fn with_var(
    env: Seq<EnvVarView>,
    name: Seq<char>,
    value: Option<Seq<char>>,
) -> Seq<EnvVarView> {
    if value is Some && !defines(env, name) {
        env.push(EnvVarView { name, value, value_from: None })
    } else {
        env
    }
}

/// The environment with what is known of the node.
pub open spec fn env_with_facts(env: Seq<EnvVarView>, facts: NodeFactsView) -> Seq<EnvVarView> {
    with_var(
        with_var(env, CONTAINER_RUNTIME_VERSION_ENV@, facts.container_runtime_version),
        NODE_MACHINE_ID_ENV@,
        facts.machine_id,
    )
}

/// The container with what is known of the node in its environment.
pub open spec fn container_with_facts(
    container: ContainerView,
    facts: NodeFactsView,
) -> ContainerView {
    ContainerView { env: Some(env_with_facts(env_or_empty(container.env), facts)), ..container }
}

/// Every container with what is known of the node in its environment.
pub open spec fn containers_with_facts(
    containers: Seq<ContainerView>,
    facts: NodeFactsView,
) -> Seq<ContainerView> {
    Seq::new(containers.len(), |i: int| container_with_facts(containers[i], facts))
}

/// The pod with what is known of the node in the environment of every container. Where nothing
/// is known, nothing changes.
pub open spec fn pod_with_facts(pod_spec: PodSpecView, facts: NodeFactsView) -> PodSpecView {
    if facts.container_runtime_version is None && facts.machine_id is None {
        pod_spec
    } else {
        PodSpecView {
            init_containers: match pod_spec.init_containers {
                Some(containers) => Some(containers_with_facts(containers, facts)),
                None => None,
            },
            containers: containers_with_facts(pod_spec.containers, facts),
            ..pod_spec
        }
    }
}

fn set_var(env: &mut Vec<EnvVar>, name: &str, value: Option<&str>)
    ensures
        final(env).deep_view() == with_var(old(env).deep_view(), name@, value.deep_view()),
{
    let ghost before = env.deep_view();
    match value {
        Some(value) => {
            let mut i: usize = 0;
            while i < env.len()
                invariant
                    i <= env@.len(),
                    env.deep_view() == before,
                    forall|k: int| 0 <= k < i ==> #[trigger] before[k].name != name@,
                decreases env@.len() - i,
            {
                if same_text(env[i].name.as_str(), name) {
                    assert(before[i as int].name == name@);
                    return;
                }
                i = i + 1;
            }
            assert(!defines(before, name@));
            env.push(
                EnvVar {
                    name: name.to_owned(),
                    value: Some(value.to_owned()),
                    value_from: None,
                },
            );
            assert(env.deep_view() =~= before.push(
                EnvVarView { name: name@, value: Some(value@), value_from: None },
            ));
        },
        None => {},
    }
}

fn set_facts(containers: &mut Vec<Container>, facts: &NodeFacts)
    ensures
        final(containers).deep_view() == containers_with_facts(
            old(containers).deep_view(),
            facts.deep_view(),
        ),
{
    let ghost before = containers.deep_view();
    let ghost after = containers_with_facts(before, facts.deep_view());
    let mut i: usize = 0;
    while i < containers.len()
        invariant
            i <= containers@.len(),
            containers@.len() == before.len(),
            after == containers_with_facts(before, facts.deep_view()),
            forall|k: int|
                0 <= k < before.len() ==> #[trigger] containers@[k].deep_view() == (if k < i {
                    after[k]
                } else {
                    before[k]
                }),
        decreases containers@.len() - i,
    {
        assert(containers@[i as int].deep_view() == before[i as int]);
        let mut env: Vec<EnvVar> = match &containers[i].env {
            Some(env) => env.clone(),
            None => Vec::new(),
        };
        assert(env.deep_view() =~= env_or_empty(before[i as int].env));
        set_var(
            &mut env,
            CONTAINER_RUNTIME_VERSION_ENV,
            borrowed(&facts.container_runtime_version),
        );
        set_var(&mut env, NODE_MACHINE_ID_ENV, borrowed(&facts.machine_id));
        let name = containers[i].name.clone();
        let container = Container { name, env: Some(env) };
        assert(container.deep_view() == after[i as int]);
        containers.set(i, container);
        i = i + 1;
    }
    assert(containers.deep_view() =~= after);
}

/// Handing the node's own facts down is what lets a per-node Job act on them without a
/// ServiceAccount token of its own. Every container gets them, since they are independent
/// processes; an existing value wins, so a template can override.
pub fn inject_node_facts(pod_spec: &mut PodSpec, facts: &NodeFacts)
    ensures
        final(pod_spec).deep_view() == pod_with_facts(old(pod_spec).deep_view(), facts.deep_view()),
{
    if facts.container_runtime_version.is_none() && facts.machine_id.is_none() {
        return;
    }
    match &mut pod_spec.init_containers {
        Some(containers) => set_facts(containers, facts),
        None => {},
    }
    set_facts(&mut pod_spec.containers, facts);
}

// ---------------------------------------------------------------------------------------------
// Building

/// The labels or annotations, or none.
pub open spec fn map_or_empty(map: Option<Map<Seq<char>, Seq<char>>>) -> Map<
    Seq<char>,
    Seq<char>,
> {
    match map {
        Some(map) => map,
        None => Map::empty(),
    }
}

/// Metadata that says nothing.
pub open spec fn no_metadata() -> ObjectMetaView {
    ObjectMetaView {
        name: None,
        generate_name: None,
        labels: None,
        annotations: None,
        owner_references: None,
        creation_timestamp: None,
    }
}

/// A pod with nothing in it.
pub open spec fn no_pod() -> PodSpecView {
    PodSpecView { node_name: None, init_containers: None, containers: Seq::empty() }
}

/// A pod template with nothing in it.
pub open spec fn no_template() -> PodTemplateSpecView {
    PodTemplateSpecView { metadata: None, spec: None }
}

/// The metadata of the Job for a node: its own name, and the keys it is found by.
pub open spec fn node_job_metadata(
    metadata: ObjectMetaView,
    name: Seq<char>,
    node: Seq<char>,
    node_label: Seq<char>,
    owner_value: Seq<char>,
    owner: Option<OwnerReferenceView>,
    tracking: TrackingLabelsView,
) -> ObjectMetaView {
    ObjectMetaView {
        name: Some(name),
        generate_name: None,
        labels: Some(
            map_or_empty(metadata.labels).insert(tracking.owner, owner_value).insert(
                tracking.node,
                node_label,
            ),
        ),
        annotations: Some(
            map_or_empty(metadata.annotations).insert(tracking.node_annotation, node),
        ),
        owner_references: match owner {
            Some(owner) => Some(seq![owner]),
            None => metadata.owner_references,
        },
        ..metadata
    }
}

/// The pod template of the Job for a node: found by its owner too, bound to the node, and told
/// what is known of it.
pub open spec fn node_pod_template(
    template: PodTemplateSpecView,
    node: Seq<char>,
    owner_value: Seq<char>,
    facts: Option<NodeFactsView>,
    tracking: TrackingLabelsView,
) -> PodTemplateSpecView {
    let metadata = match template.metadata {
        Some(metadata) => metadata,
        None => no_metadata(),
    };
    let pod = match template.spec {
        Some(pod) => pod,
        None => no_pod(),
    };
    let bound = PodSpecView { node_name: Some(node), ..pod };
    PodTemplateSpecView {
        metadata: Some(
            ObjectMetaView {
                labels: Some(map_or_empty(metadata.labels).insert(tracking.owner, owner_value)),
                ..metadata
            },
        ),
        spec: Some(
            match facts {
                Some(facts) => pod_with_facts(bound, facts),
                None => bound,
            },
        ),
    }
}

/// The Job for a node, made from a template. What is not spelled out here is as in the template.
pub open spec fn node_job(
    template: JobView,
    name: Seq<char>,
    node: Seq<char>,
    node_label: Seq<char>,
    owner_value: Seq<char>,
    owner: Option<OwnerReferenceView>,
    facts: Option<NodeFactsView>,
    tracking: TrackingLabelsView,
) -> JobView {
    let pods = match template.spec {
        Some(spec) => spec.template,
        None => no_template(),
    };
    JobView {
        metadata: node_job_metadata(
            template.metadata,
            name,
            node,
            node_label,
            owner_value,
            owner,
            tracking,
        ),
        spec: Some(
            JobSpecView { template: node_pod_template(pods, node, owner_value, facts, tracking) },
        ),
        ..template
    }
}

fn map_of_option(map: &Option<StringMap>) -> (r: StringMap)
    ensures
        r.deep_view() == map_or_empty(map.deep_view()),
{
    match map {
        Some(map) => map.clone(),
        None => StringMap::new(),
    }
}

fn build_metadata(
    metadata: &ObjectMeta,
    name: &str,
    node: &str,
    node_label: &str,
    owner_value: &str,
    owner: Option<&OwnerReference>,
    tracking: &TrackingLabels,
) -> (r: ObjectMeta)
    ensures
        r.deep_view() == node_job_metadata(
            metadata.deep_view(),
            name@,
            node@,
            node_label@,
            owner_value@,
            owner.deep_view(),
            tracking.deep_view(),
        ),
{
    let mut labels = map_of_option(&metadata.labels);
    labels.insert(tracking.owner.clone(), owner_value.to_owned());
    labels.insert(tracking.node.clone(), node_label.to_owned());
    let mut annotations = map_of_option(&metadata.annotations);
    annotations.insert(tracking.node_annotation.clone(), node.to_owned());
    let owner_references = match owner {
        Some(owner) => {
            let mut references: Vec<OwnerReference> = Vec::new();
            references.push(owner.clone());
            assert(references.deep_view() =~= seq![owner.deep_view()]);
            Some(references)
        },
        None => {
            let references = metadata.owner_references.clone();
            assert(references.deep_view() =~~= metadata.owner_references.deep_view());
            references
        },
    };
    ObjectMeta {
        name: Some(name.to_owned()),
        // The apiserver rejects name and generateName both being set.
        generate_name: None,
        labels: Some(labels),
        annotations: Some(annotations),
        owner_references,
        creation_timestamp: metadata.creation_timestamp,
    }
}

fn build_pod_template(
    template: &PodTemplateSpec,
    node: &str,
    owner_value: &str,
    facts: Option<&NodeFacts>,
    tracking: &TrackingLabels,
) -> (r: PodTemplateSpec)
    ensures
        r.deep_view() == node_pod_template(
            template.deep_view(),
            node@,
            owner_value@,
            facts.deep_view(),
            tracking.deep_view(),
        ),
{
    let mut metadata = match &template.metadata {
        Some(metadata) => metadata.clone(),
        None => ObjectMeta {
            name: None,
            generate_name: None,
            labels: None,
            annotations: None,
            owner_references: None,
            creation_timestamp: None,
        },
    };
    // The pods are selectable too.
    let mut labels = map_of_option(&metadata.labels);
    labels.insert(tracking.owner.clone(), owner_value.to_owned());
    metadata.labels = Some(labels);

    let mut pod = match &template.spec {
        Some(pod) => pod.clone(),
        None => {
            let pod = PodSpec { node_name: None, init_containers: None, containers: Vec::new() };
            assert(pod.deep_view() =~~= no_pod());
            pod
        },
    };
    pod.node_name = Some(node.to_owned());
    match facts {
        Some(facts) => inject_node_facts(&mut pod, facts),
        None => {},
    }
    PodTemplateSpec { metadata: Some(metadata), spec: Some(pod) }
}

/// The Job for a node, made from a template, with the label value that stands for the node.
pub fn build_labelled_job(
    template: &Job,
    name: &str,
    node: &str,
    node_label: &str,
    owner_value: &str,
    owner: Option<&OwnerReference>,
    facts: Option<&NodeFacts>,
    tracking: &TrackingLabels,
) -> (job: Job)
    ensures
        job.deep_view() == node_job(
            template.deep_view(),
            name@,
            node@,
            node_label@,
            owner_value@,
            owner.deep_view(),
            facts.deep_view(),
            tracking.deep_view(),
        ),
{
    let metadata = build_metadata(
        &template.metadata,
        name,
        node,
        node_label,
        owner_value,
        owner,
        tracking,
    );
    let pods = match &template.spec {
        Some(spec) => build_pod_template(&spec.template, node, owner_value, facts, tracking),
        None => {
            let empty = PodTemplateSpec { metadata: None, spec: None };
            build_pod_template(&empty, node, owner_value, facts, tracking)
        },
    };
    let status = template.status.clone();
    assert(status.deep_view() =~~= template.status.deep_view());
    Job { metadata, spec: Some(JobSpec { template: pods }), status }
}

/// The Job for a node, made from a template: named, bound to the node, labelled so that it is
/// found again, and told what is known of the node.
pub fn build_node_job(
    template: &Job,
    name: &str,
    node: &str,
    owner_value: &str,
    owner: Option<&OwnerReference>,
    facts: Option<&NodeFacts>,
    tracking: &TrackingLabels,
) -> (job: Job)
    requires
        byte_len(node@) <= MAX_DIGEST_INPUT,
    ensures
        job.deep_view() == node_job(
            template.deep_view(),
            name@,
            node@,
            label_value_of(node@),
            owner_value@,
            owner.deep_view(),
            facts.deep_view(),
            tracking.deep_view(),
        ),
{
    let node_label = sanitize_label_value(node);
    build_labelled_job(
        template,
        name,
        node,
        node_label.as_str(),
        owner_value,
        owner,
        facts,
        tracking,
    )
}

// ---------------------------------------------------------------------------------------------
// Status

/// The outcome that a condition decides, if it decides any.
pub open spec fn decided_by(condition: JobConditionView) -> Option<JobOutcome> {
    if condition.status != "True"@ {
        None
    } else if condition.type_ == "Failed"@ {
        Some(JobOutcome::Failed)
    } else if condition.type_ == "Complete"@ {
        Some(JobOutcome::Succeeded)
    } else {
        None
    }
}

/// The outcome that the first condition to decide one decides.
pub open spec fn first_decision(conditions: Seq<JobConditionView>) -> Option<JobOutcome>
    decreases conditions.len(),
{
    if conditions.len() == 0 {
        None
    } else if decided_by(conditions[0]) is Some {
        decided_by(conditions[0])
    } else {
        first_decision(conditions.drop_first())
    }
}

/// What a Job has come to: what its conditions say, or else what its count of pods that
/// succeeded says.
pub open spec fn outcome_of(job: JobView) -> JobOutcome {
    match job.status {
        None => JobOutcome::Running,
        Some(status) => {
            let decision = match status.conditions {
                Some(conditions) => first_decision(conditions),
                None => None,
            };
            match decision {
                Some(outcome) => outcome,
                None => if status.succeeded is Some && status.succeeded->0 >= 1 {
                    JobOutcome::Succeeded
                } else {
                    JobOutcome::Running
                },
            }
        },
    }
}

fn first_decision_of(conditions: &Vec<JobCondition>) -> (r: Option<JobOutcome>)
    ensures
        r == first_decision(conditions.deep_view()),
{
    let ghost all = conditions.deep_view();
    let mut i: usize = 0;
    assert(all.skip(0) =~= all);
    while i < conditions.len()
        invariant
            i <= conditions@.len(),
            all == conditions.deep_view(),
            first_decision(all) == first_decision(all.skip(i as int)),
        decreases conditions@.len() - i,
    {
        let condition = &conditions[i];
        assert(all.skip(i as int)[0] == condition.deep_view());
        assert(all.skip(i as int).drop_first() =~= all.skip(i + 1));
        if same_text(condition.status.as_str(), "True") {
            if same_text(condition.type_.as_str(), "Failed") {
                return Some(JobOutcome::Failed);
            }
            if same_text(condition.type_.as_str(), "Complete") {
                return Some(JobOutcome::Succeeded);
            }
        }
        i = i + 1;
    }
    None
}

/// What a Job has come to, by its status.
pub fn interpret_status(job: &Job) -> (r: JobOutcome)
    ensures
        r == outcome_of(job.deep_view()),
{
    let status = match &job.status {
        Some(status) => status,
        None => {
            return JobOutcome::Running;
        },
    };
    match &status.conditions {
        Some(conditions) => match first_decision_of(conditions) {
            Some(outcome) => {
                return outcome;
            },
            None => {},
        },
        None => {},
    }
    match status.succeeded {
        Some(succeeded) => if succeeded >= 1 {
            JobOutcome::Succeeded
        } else {
            JobOutcome::Running
        },
        None => JobOutcome::Running,
    }
}

// ---------------------------------------------------------------------------------------------
// Laws

/// A Job that was built for an owner is recognised as that owner's, and as nobody else's, under
/// the keys it was built with. The two keys that label a Job are different, as they are under
/// every prefix.
pub proof fn law_a_built_job_is_recognised(
    template: JobView,
    name: Seq<char>,
    node: Seq<char>,
    node_label: Seq<char>,
    owner_value: Seq<char>,
    owner: Option<OwnerReferenceView>,
    facts: Option<NodeFactsView>,
    tracking: TrackingLabelsView,
    asked: Seq<char>,
)
    requires
        tracking.owner != tracking.node,
    ensures
        owned_by(
            node_job(template, name, node, node_label, owner_value, owner, facts, tracking),
            tracking,
            asked,
        ) == (asked == owner_value),
{
}

/// The keys under a prefix let a Job be recognised.
pub proof fn law_prefixed_keys_recognise_their_jobs(
    template: JobView,
    name: Seq<char>,
    node: Seq<char>,
    node_label: Seq<char>,
    owner_value: Seq<char>,
    owner: Option<OwnerReferenceView>,
    facts: Option<NodeFactsView>,
    prefix: Seq<char>,
)
    ensures
        owned_by(
            node_job(
                template,
                name,
                node,
                node_label,
                owner_value,
                owner,
                facts,
                tracking_keys(prefix),
            ),
            tracking_keys(prefix),
            owner_value,
        ),
{
    law_tracking_keys_are_distinct(prefix, prefix);
}

/// Building a Job under one prefix makes it nobody's under another: under that one it is whose
/// its template was.
pub proof fn law_a_job_tracked_under_another_prefix_is_not_ours(
    template: JobView,
    name: Seq<char>,
    node: Seq<char>,
    node_label: Seq<char>,
    owner_value: Seq<char>,
    owner: Option<OwnerReferenceView>,
    facts: Option<NodeFactsView>,
    theirs: Seq<char>,
    ours: Seq<char>,
    asked: Seq<char>,
)
    requires
        tracking_prefix(theirs) != tracking_prefix(ours),
    ensures
        owned_by(
            node_job(
                template,
                name,
                node,
                node_label,
                owner_value,
                owner,
                facts,
                tracking_keys(theirs),
            ),
            tracking_keys(ours),
            asked,
        ) == owned_by(template, tracking_keys(ours), asked),
{
    law_tracking_keys_are_distinct(ours, theirs);
}

/// A built Job has the name it was given and asks for no other, is bound to its node, says in full
/// which node that is, and belongs to the owner it was given alone.
pub proof fn law_a_built_job_is_pinned(
    template: JobView,
    name: Seq<char>,
    node: Seq<char>,
    node_label: Seq<char>,
    owner_value: Seq<char>,
    owner: Option<OwnerReferenceView>,
    facts: Option<NodeFactsView>,
    tracking: TrackingLabelsView,
)
    ensures
        ({
            let job = node_job(
                template,
                name,
                node,
                node_label,
                owner_value,
                owner,
                facts,
                tracking,
            );
            &&& job.metadata.name == Some(name)
            &&& job.metadata.generate_name is None
            &&& job.metadata.labels is Some
            &&& job.metadata.labels->0.contains_key(tracking.node)
            &&& job.metadata.labels->0[tracking.node] == node_label
            &&& job.metadata.annotations is Some
            &&& job.metadata.annotations->0.contains_key(tracking.node_annotation)
            &&& job.metadata.annotations->0[tracking.node_annotation] == node
            &&& job.spec is Some
            &&& job.spec->0.template.spec is Some
            &&& job.spec->0.template.spec->0.node_name == Some(node)
            &&& job.spec->0.template.metadata is Some
            &&& job.spec->0.template.metadata->0.labels is Some
            &&& job.spec->0.template.metadata->0.labels->0.contains_key(tracking.owner)
            &&& job.spec->0.template.metadata->0.labels->0[tracking.owner] == owner_value
            &&& owner is Some ==> job.metadata.owner_references == Some(seq![owner->0])
            &&& owner is None ==> job.metadata.owner_references
                == template.metadata.owner_references
        }),
{
}

/// Labels and annotations of the template that are not among the keys a Job is found by stay as
/// they are.
pub proof fn law_other_labels_stay(
    template: JobView,
    name: Seq<char>,
    node: Seq<char>,
    node_label: Seq<char>,
    owner_value: Seq<char>,
    owner: Option<OwnerReferenceView>,
    facts: Option<NodeFactsView>,
    tracking: TrackingLabelsView,
    key: Seq<char>,
)
    ensures
        ({
            let metadata = node_job(
                template,
                name,
                node,
                node_label,
                owner_value,
                owner,
                facts,
                tracking,
            ).metadata;
            let labels = map_or_empty(template.metadata.labels);
            let annotations = map_or_empty(template.metadata.annotations);
            &&& key != tracking.owner && key != tracking.node ==> {
                &&& metadata.labels->0.contains_key(key) == labels.contains_key(key)
                &&& labels.contains_key(key) ==> metadata.labels->0[key] == labels[key]
            }
            &&& key != tracking.node_annotation ==> {
                &&& metadata.annotations->0.contains_key(key) == annotations.contains_key(key)
                &&& annotations.contains_key(key) ==> metadata.annotations->0[key]
                    == annotations[key]
            }
        }),
{
}

/// A variable more leaves those before it as they are, and no name is set twice by it.
proof fn lemma_with_var(env: Seq<EnvVarView>, name: Seq<char>, value: Option<Seq<char>>)
    ensures
        with_var(env, name, value).len() >= env.len(),
        with_var(env, name, value).take(env.len() as int) == env,
        forall|other: Seq<char>| #[trigger]
            defines(with_var(env, name, value), other) <==> defines(env, other) || (other == name
                && value is Some),
        value is Some && !defines(env, name) ==> with_var(env, name, value).last() == (EnvVarView {
            name,
            value,
            value_from: None,
        }),
{
    let after = with_var(env, name, value);
    assert(after.take(env.len() as int) =~= env);
    assert forall|other: Seq<char>| #[trigger]
        defines(after, other) <==> defines(env, other) || (other == name && value is Some) by {
        if defines(env, other) {
            let i = choose|i: int| 0 <= i < env.len() && #[trigger] env[i].name == other;
            assert(after[i].name == other);
        }
        if defines(after, other) {
            let i = choose|i: int| 0 <= i < after.len() && #[trigger] after[i].name == other;
            if i < env.len() {
                assert(env[i].name == other);
            }
        }
        if other == name && value is Some && !defines(env, name) {
            assert(after[env.len() as int].name == other);
        }
    }
}

/// What a template sets stays as it is and comes first, so its value wins. What is known of the
/// node is set, each fact by itself, and what is unknown is not set at all.
pub proof fn law_facts_are_injected_independently(env: Seq<EnvVarView>, facts: NodeFactsView)
    ensures
        env_with_facts(env, facts).take(env.len() as int) == env,
        forall|name: Seq<char>| #[trigger]
            defines(env_with_facts(env, facts), name) <==> {
                ||| defines(env, name)
                ||| name == CONTAINER_RUNTIME_VERSION_ENV@ && facts.container_runtime_version
                    is Some
                ||| name == NODE_MACHINE_ID_ENV@ && facts.machine_id is Some
            },
        facts.container_runtime_version is Some && !defines(
            env,
            CONTAINER_RUNTIME_VERSION_ENV@,
        ) ==> env_with_facts(env, facts).contains(
            EnvVarView {
                name: CONTAINER_RUNTIME_VERSION_ENV@,
                value: facts.container_runtime_version,
                value_from: None,
            },
        ),
        facts.machine_id is Some && !defines(env, NODE_MACHINE_ID_ENV@) ==> env_with_facts(
            env,
            facts,
        ).contains(
            EnvVarView {
                name: NODE_MACHINE_ID_ENV@,
                value: facts.machine_id,
                value_from: None,
            },
        ),
{
    let runtime = CONTAINER_RUNTIME_VERSION_ENV@;
    let machine = NODE_MACHINE_ID_ENV@;
    let version = facts.container_runtime_version;
    let middle = with_var(env, runtime, version);
    let after = env_with_facts(env, facts);
    reveal_strlit("CONTAINER_RUNTIME_VERSION");
    reveal_strlit("NODE_MACHINE_ID");
    assert(runtime.len() != machine.len());
    lemma_with_var(env, runtime, version);
    lemma_with_var(middle, machine, facts.machine_id);
    assert(after.take(middle.len() as int).take(env.len() as int) =~= after.take(
        env.len() as int,
    ));
    if version is Some && !defines(env, runtime) {
        assert(after.take(middle.len() as int)[env.len() as int] == after[env.len() as int]);
        assert(after[env.len() as int] == (EnvVarView {
            name: runtime,
            value: version,
            value_from: None,
        }));
    }
    if facts.machine_id is Some && !defines(env, machine) {
        assert(!defines(middle, machine));
        assert(after[after.len() - 1] == (EnvVarView {
            name: machine,
            value: facts.machine_id,
            value_from: None,
        }));
    }
}

/// Every container of a built Job, those that run first among them, has what is known of the
/// node in its environment, behind what its template sets.
pub proof fn law_facts_reach_every_container(pod: PodSpecView, facts: NodeFactsView)
    requires
        facts.container_runtime_version is Some || facts.machine_id is Some,
    ensures
        ({
            let after = pod_with_facts(pod, facts);
            &&& after.node_name == pod.node_name
            &&& after.containers.len() == pod.containers.len()
            &&& forall|i: int|
                0 <= i < pod.containers.len() ==> (#[trigger] after.containers[i]).env == Some(
                    env_with_facts(env_or_empty(pod.containers[i].env), facts),
                ) && after.containers[i].name == pod.containers[i].name
            &&& after.init_containers is Some == pod.init_containers is Some
            &&& pod.init_containers is Some ==> {
                &&& after.init_containers->0.len() == pod.init_containers->0.len()
                &&& forall|i: int|
                    0 <= i < pod.init_containers->0.len() ==> (
                    #[trigger] after.init_containers->0[i]).env == Some(
                        env_with_facts(env_or_empty(pod.init_containers->0[i].env), facts),
                    ) && after.init_containers->0[i].name == pod.init_containers->0[i].name
            }
        }),
{
}

/// Of a node nothing is known of, a Job is told nothing: no container's environment changes.
pub proof fn law_unknown_facts_inject_nothing(
    template: JobView,
    name: Seq<char>,
    node: Seq<char>,
    node_label: Seq<char>,
    owner_value: Seq<char>,
    owner: Option<OwnerReferenceView>,
    facts: NodeFactsView,
    tracking: TrackingLabelsView,
)
    requires
        facts.container_runtime_version is None,
        facts.machine_id is None,
    ensures
        node_job(template, name, node, node_label, owner_value, owner, Some(facts), tracking)
            == node_job(template, name, node, node_label, owner_value, owner, None, tracking),
        template.spec is Some && template.spec->0.template.spec is Some ==> {
            let before = template.spec->0.template.spec->0;
            let after = node_job(
                template,
                name,
                node,
                node_label,
                owner_value,
                owner,
                Some(facts),
                tracking,
            ).spec->0.template.spec->0;
            after.containers == before.containers && after.init_containers
                == before.init_containers
        },
{
}

/// What the conditions decide is what the Job has come to, whatever the count of pods that
/// succeeded says. Where they decide nothing the count does, and it never tells of failure.
pub proof fn law_a_verdict_outranks_the_count(job: JobView)
    requires
        job.status is Some,
    ensures
        ({
            let status = job.status->0;
            let decision = match status.conditions {
                Some(conditions) => first_decision(conditions),
                None => None,
            };
            &&& decision is Some ==> outcome_of(job) == decision->0
            &&& decision is None ==> outcome_of(job) != JobOutcome::Failed && (outcome_of(job)
                == JobOutcome::Succeeded <==> status.succeeded is Some && status.succeeded->0 >= 1)
        }),
{
}

/// A condition that is not `True` decides nothing, and neither does one that speaks of something
/// else than failure or completion.
pub proof fn law_only_a_true_verdict_decides(condition: JobConditionView)
    ensures
        decided_by(condition) is Some <==> condition.status == "True"@ && (condition.type_
            == "Failed"@ || condition.type_ == "Complete"@),
{
}

/// The conditions decide whatever the first of them that decides anything decides. They decide
/// nothing only if none of them does.
pub proof fn law_the_first_verdict_counts(conditions: Seq<JobConditionView>)
    ensures
        match first_decision(conditions) {
            Some(outcome) => exists|i: int|
                0 <= i < conditions.len() && decided_by(#[trigger] conditions[i]) == Some(outcome)
                    && forall|j: int| 0 <= j < i ==> decided_by(#[trigger] conditions[j]) is None,
            None => forall|i: int|
                0 <= i < conditions.len() ==> decided_by(#[trigger] conditions[i]) is None,
        },
    decreases conditions.len(),
{
    if conditions.len() > 0 && decided_by(conditions[0]) is None {
        let rest = conditions.drop_first();
        law_the_first_verdict_counts(rest);
        match first_decision(rest) {
            Some(outcome) => {
                let i = choose|i: int|
                    0 <= i < rest.len() && decided_by(#[trigger] rest[i]) == Some(outcome)
                        && forall|j: int| 0 <= j < i ==> decided_by(#[trigger] rest[j]) is None;
                assert(decided_by(conditions[i + 1]) == Some(outcome));
                assert forall|j: int| 0 <= j < i + 1 implies decided_by(
                    #[trigger] conditions[j],
                ) is None by {
                    if j > 0 {
                        assert(rest[j - 1] == conditions[j]);
                    }
                }
            },
            None => {
                assert forall|i: int| 0 <= i < conditions.len() implies decided_by(
                    #[trigger] conditions[i],
                ) is None by {
                    if i > 0 {
                        assert(rest[i - 1] == conditions[i]);
                    }
                }
            },
        }
    } else if conditions.len() > 0 {
        assert(decided_by(conditions[0]) == first_decision(conditions));
    }
}

/// The owner label alone says whose a Job is: with it the Job belongs to the one it names and to
/// nobody else, and without it to nobody, whatever else the Job says.
pub proof fn law_the_owner_label_says_whose_a_job_is(
    job: JobView,
    labels: Map<Seq<char>, Seq<char>>,
    tracking: TrackingLabelsView,
    value: Seq<char>,
    asked: Seq<char>,
)
    ensures
        owned_by(
            JobView {
                metadata: ObjectMetaView {
                    labels: Some(labels.insert(tracking.owner, value)),
                    ..job.metadata
                },
                ..job
            },
            tracking,
            asked,
        ) <==> asked == value,
        !owned_by(
            JobView {
                metadata: ObjectMetaView {
                    labels: Some(labels.remove(tracking.owner)),
                    ..job.metadata
                },
                ..job
            },
            tracking,
            asked,
        ),
        !owned_by(
            JobView { metadata: ObjectMetaView { labels: None, ..job.metadata }, ..job },
            tracking,
            asked,
        ),
{
}

/// The condition is true and tells of failure or completion.
pub open spec fn is_verdict(condition: JobConditionView) -> bool {
    condition.status == "True"@ && (condition.type_ == "Failed"@ || condition.type_
        == "Complete"@)
}

/// A Job whose first verdict is `Failed` has failed, and one whose first verdict is `Complete` has
/// succeeded, whatever reason and message come with it and whatever its count of pods is.
pub proof fn law_the_first_verdict_is_the_outcome(job: JobView, i: int)
    requires
        job.status is Some,
        job.status->0.conditions is Some,
        0 <= i < job.status->0.conditions->0.len(),
        is_verdict(job.status->0.conditions->0[i]),
        forall|j: int| 0 <= j < i ==> !is_verdict(#[trigger] job.status->0.conditions->0[j]),
    ensures
        job.status->0.conditions->0[i].type_ == "Failed"@ ==> outcome_of(job)
            == JobOutcome::Failed,
        job.status->0.conditions->0[i].type_ == "Complete"@ ==> outcome_of(job)
            == JobOutcome::Succeeded,
{
    reveal_strlit("Failed");
    reveal_strlit("Complete");
    assert("Failed"@.len() != "Complete"@.len());
    lemma_first_decision_at(job.status->0.conditions->0, i);
}

proof fn lemma_first_decision_at(conditions: Seq<JobConditionView>, i: int)
    requires
        0 <= i < conditions.len(),
        is_verdict(conditions[i]),
        forall|j: int| 0 <= j < i ==> !is_verdict(#[trigger] conditions[j]),
    ensures
        first_decision(conditions) == decided_by(conditions[i]),
    decreases conditions.len(),
{
    if i > 0 {
        let rest = conditions.drop_first();
        assert(!is_verdict(conditions[0]));
        assert forall|j: int| 0 <= j < i - 1 implies !is_verdict(#[trigger] rest[j]) by {
            assert(rest[j] == conditions[j + 1]);
        }
        lemma_first_decision_at(rest, i - 1);
    }
}

/// A Job without a verdict has succeeded if one of its pods has, and else it runs. It never has
/// failed.
pub proof fn law_without_a_verdict_the_count_decides(job: JobView)
    requires
        job.status is Some && job.status->0.conditions is Some ==> forall|i: int|
            0 <= i < job.status->0.conditions->0.len() ==> !is_verdict(
                #[trigger] job.status->0.conditions->0[i],
            ),
    ensures
        outcome_of(job) == JobOutcome::Succeeded <==> job.status is Some
            && job.status->0.succeeded is Some && job.status->0.succeeded->0 >= 1,
        outcome_of(job) != JobOutcome::Failed,
{
    if job.status is Some && job.status->0.conditions is Some {
        let conditions = job.status->0.conditions->0;
        law_the_first_verdict_counts(conditions);
        if first_decision(conditions) is Some {
            let outcome = first_decision(conditions)->0;
            let i = choose|i: int|
                0 <= i < conditions.len() && decided_by(#[trigger] conditions[i]) == Some(outcome)
                    && forall|j: int| 0 <= j < i ==> decided_by(#[trigger] conditions[j]) is None;
            assert(!is_verdict(conditions[i]));
        }
    }
}

/// No variable of this name is set.
pub open spec fn unset(env: Seq<EnvVarView>, name: Seq<char>) -> bool {
    forall|i: int| 0 <= i < env.len() ==> (#[trigger] env[i]).name != name
}

/// `after` is the environment `before`, with the runtime's version and the machine's id behind it,
/// in this order, each where it is known and `before` does not set its variable.
pub open spec fn told_of_the_node(
    before: Option<Seq<EnvVarView>>,
    after: Option<Seq<EnvVarView>>,
    facts: NodeFactsView,
) -> bool {
    let own = if before is Some {
        before->0
    } else {
        seq![]
    };
    let version = EnvVarView {
        name: "CONTAINER_RUNTIME_VERSION"@,
        value: facts.container_runtime_version,
        value_from: None,
    };
    let machine = EnvVarView {
        name: "NODE_MACHINE_ID"@,
        value: facts.machine_id,
        value_from: None,
    };
    let first = if version.value is Some && unset(own, version.name) {
        seq![version]
    } else {
        seq![]
    };
    let second = if machine.value is Some && unset(own, machine.name) {
        seq![machine]
    } else {
        seq![]
    };
    after == Some(own + first + second)
}

proof fn lemma_told_of_the_node(before: Option<Seq<EnvVarView>>, facts: NodeFactsView)
    ensures
        told_of_the_node(before, Some(env_with_facts(env_or_empty(before), facts)), facts),
{
    let own = env_or_empty(before);
    let runtime = CONTAINER_RUNTIME_VERSION_ENV@;
    let machine = NODE_MACHINE_ID_ENV@;
    reveal_strlit("CONTAINER_RUNTIME_VERSION");
    reveal_strlit("NODE_MACHINE_ID");
    assert(runtime.len() != machine.len());
    lemma_with_var(own, runtime, facts.container_runtime_version);
    let middle = with_var(own, runtime, facts.container_runtime_version);
    assert(unset(own, runtime) <==> !defines(own, runtime));
    assert(unset(own, machine) <==> !defines(own, machine));
    assert(defines(middle, machine) <==> defines(own, machine));
    let first: Seq<EnvVarView> = if facts.container_runtime_version is Some && unset(own, runtime) {
        seq![
            EnvVarView {
                name: runtime,
                value: facts.container_runtime_version,
                value_from: None,
            },
        ]
    } else {
        seq![]
    };
    let second: Seq<EnvVarView> = if facts.machine_id is Some && unset(own, machine) {
        seq![EnvVarView { name: machine, value: facts.machine_id, value_from: None }]
    } else {
        seq![]
    };
    assert(middle =~= own + first);
    assert(env_with_facts(own, facts) =~= own + first + second);
}

/// Every container of a built Job, and every one that runs first, is told of the node, behind what
/// its template sets, whatever else the template says. Where nothing is known of the node, or no
/// facts are given, the containers are those of the template. No container is added or dropped.
pub proof fn law_a_built_job_tells_every_container_of_its_node(
    template: JobView,
    name: Seq<char>,
    node: Seq<char>,
    node_label: Seq<char>,
    owner_value: Seq<char>,
    owner: Option<OwnerReferenceView>,
    facts: Option<NodeFactsView>,
    tracking: TrackingLabelsView,
)
    ensures
        ({
            let before = if template.spec is Some {
                template.spec->0.template.spec
            } else {
                None
            };
            let after = node_job(
                template,
                name,
                node,
                node_label,
                owner_value,
                owner,
                facts,
                tracking,
            ).spec->0.template.spec->0;
            let known = facts is Some && (facts->0.container_runtime_version is Some
                || facts->0.machine_id is Some);
            &&& before is None ==> after.containers.len() == 0 && after.init_containers is None
            &&& before is Some && !known ==> after.containers == before->0.containers
                && after.init_containers == before->0.init_containers
            &&& before is Some && known ==> {
                &&& after.containers.len() == before->0.containers.len()
                &&& forall|i: int|
                    0 <= i < after.containers.len() ==> (#[trigger] after.containers[i]).name
                        == before->0.containers[i].name && told_of_the_node(
                        before->0.containers[i].env,
                        after.containers[i].env,
                        facts->0,
                    )
                &&& after.init_containers is Some <==> before->0.init_containers is Some
                &&& before->0.init_containers is Some ==> {
                    let first = after.init_containers->0;
                    let own = before->0.init_containers->0;
                    &&& first.len() == own.len()
                    &&& forall|i: int|
                        0 <= i < first.len() ==> (#[trigger] first[i]).name == own[i].name
                            && told_of_the_node(own[i].env, first[i].env, facts->0)
                }
            }
        }),
{
    if template.spec is Some && template.spec->0.template.spec is Some && facts is Some {
        let before = template.spec->0.template.spec->0;
        assert forall|i: int| 0 <= i < before.containers.len() implies told_of_the_node(
            #[trigger] before.containers[i].env,
            container_with_facts(before.containers[i], facts->0).env,
            facts->0,
        ) by {
            lemma_told_of_the_node(before.containers[i].env, facts->0);
        }
        if before.init_containers is Some {
            let own = before.init_containers->0;
            assert forall|i: int| 0 <= i < own.len() implies told_of_the_node(
                #[trigger] own[i].env,
                container_with_facts(own[i], facts->0).env,
                facts->0,
            ) by {
                lemma_told_of_the_node(own[i].env, facts->0);
            }
        }
    } else {
        assert(no_pod().containers.len() == 0);
    }
}

/// Where something is known of the node, every container of a pod is told of it, those that run
/// first too, and nothing else of the pod changes, whatever node it is bound to. Where nothing is
/// known, nothing changes.
pub proof fn law_a_pod_is_told_of_its_node(pod: PodSpecView, facts: NodeFactsView)
    ensures
        facts.container_runtime_version is None && facts.machine_id is None ==> pod_with_facts(
            pod,
            facts,
        ) == pod,
        facts.container_runtime_version is Some || facts.machine_id is Some ==> {
            let after = pod_with_facts(pod, facts);
            &&& after.node_name == pod.node_name
            &&& after.containers.len() == pod.containers.len()
            &&& forall|i: int|
                0 <= i < pod.containers.len() ==> (#[trigger] after.containers[i]).name
                    == pod.containers[i].name && told_of_the_node(
                    pod.containers[i].env,
                    after.containers[i].env,
                    facts,
                )
            &&& after.init_containers is Some <==> pod.init_containers is Some
            &&& pod.init_containers is Some ==> {
                let first = after.init_containers->0;
                let own = pod.init_containers->0;
                &&& first.len() == own.len()
                &&& forall|i: int|
                    0 <= i < own.len() ==> (#[trigger] first[i]).name == own[i].name
                        && told_of_the_node(own[i].env, first[i].env, facts)
            }
        },
{
    assert forall|i: int| 0 <= i < pod.containers.len() implies told_of_the_node(
        #[trigger] pod.containers[i].env,
        container_with_facts(pod.containers[i], facts).env,
        facts,
    ) by {
        lemma_told_of_the_node(pod.containers[i].env, facts);
    }
    if pod.init_containers is Some {
        let own = pod.init_containers->0;
        assert forall|i: int| 0 <= i < own.len() implies told_of_the_node(
            #[trigger] own[i].env,
            container_with_facts(own[i], facts).env,
            facts,
        ) by {
            lemma_told_of_the_node(own[i].env, facts);
        }
    }
}

/// `after` holds what `before` holds, if there is a `before`, under every key but those that are
/// excepted.
pub open spec fn same_but_for(
    before: Option<Map<Seq<char>, Seq<char>>>,
    after: Option<Map<Seq<char>, Seq<char>>>,
    excepted: Set<Seq<char>>,
) -> bool {
    &&& after is Some
    &&& forall|key: Seq<char>| #[trigger]
        after->0.contains_key(key) && !excepted.contains(key) ==> before is Some
            && before->0.contains_key(key) && after->0[key] == before->0[key]
    &&& before is Some ==> forall|key: Seq<char>| #[trigger]
        before->0.contains_key(key) && !excepted.contains(key) ==> after->0.contains_key(key)
}

/// Building a Job changes nothing of its template but what the Job is built for: labels and
/// annotations under other keys stay on the Job and on its pods, and so do the time it was created
/// at, its status, and what else its pods' metadata says.
pub proof fn law_a_built_job_keeps_the_rest_of_its_template(
    template: JobView,
    name: Seq<char>,
    node: Seq<char>,
    node_label: Seq<char>,
    owner_value: Seq<char>,
    owner: Option<OwnerReferenceView>,
    facts: Option<NodeFactsView>,
    tracking: TrackingLabelsView,
)
    ensures
        ({
            let job = node_job(
                template,
                name,
                node,
                node_label,
                owner_value,
                owner,
                facts,
                tracking,
            );
            let pods = job.spec->0.template.metadata->0;
            let before = if template.spec is Some {
                template.spec->0.template.metadata
            } else {
                None
            };
            &&& job.status == template.status
            &&& job.metadata.creation_timestamp == template.metadata.creation_timestamp
            &&& same_but_for(
                template.metadata.labels,
                job.metadata.labels,
                set![tracking.owner, tracking.node],
            )
            &&& same_but_for(
                template.metadata.annotations,
                job.metadata.annotations,
                set![tracking.node_annotation],
            )
            &&& before is Some ==> {
                &&& same_but_for(before->0.labels, pods.labels, set![tracking.owner])
                &&& pods.name == before->0.name
                &&& pods.generate_name == before->0.generate_name
                &&& pods.annotations == before->0.annotations
                &&& pods.owner_references == before->0.owner_references
                &&& pods.creation_timestamp == before->0.creation_timestamp
            }
            &&& before is None ==> {
                &&& same_but_for(None, pods.labels, set![tracking.owner])
                &&& pods.name is None
                &&& pods.generate_name is None
                &&& pods.annotations is None
                &&& pods.owner_references is None
                &&& pods.creation_timestamp is None
            }
        }),
{
}

} // verus!
