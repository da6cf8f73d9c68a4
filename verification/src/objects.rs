//! The objects of the cluster, as far as this library reads or writes them.
//!
//! Each object has a view, which holds its strings, vectors and maps as mathematical values.
use vstd::prelude::*;

use crate::string_map::StringMap;

verus! {

/// The object that owns another, as its metadata names it.
#[derive(Debug, Default)]
pub struct OwnerReference {
    pub api_version: String,
    pub kind: String,
    pub name: String,
    pub uid: String,
    pub controller: Option<bool>,
    pub block_owner_deletion: Option<bool>,
}

/// The view of `OwnerReference`.
#[verifier::ext_equal]
pub struct OwnerReferenceView {
    pub api_version: Seq<char>,
    pub kind: Seq<char>,
    pub name: Seq<char>,
    pub uid: Seq<char>,
    pub controller: Option<bool>,
    pub block_owner_deletion: Option<bool>,
}

impl DeepView for OwnerReference {
    type V = OwnerReferenceView;

    open spec fn deep_view(&self) -> OwnerReferenceView {
        OwnerReferenceView {
            api_version: self.api_version.deep_view(),
            kind: self.kind.deep_view(),
            name: self.name.deep_view(),
            uid: self.uid.deep_view(),
            controller: self.controller,
            block_owner_deletion: self.block_owner_deletion,
        }
    }
}

impl Clone for OwnerReference {
    fn clone(&self) -> (r: Self)
        ensures
            r.deep_view() == self.deep_view(),
    {
        let r = OwnerReference {
            api_version: self.api_version.clone(),
            kind: self.kind.clone(),
            name: self.name.clone(),
            uid: self.uid.clone(),
            controller: self.controller,
            block_owner_deletion: self.block_owner_deletion,
        };
        assert(r.deep_view() =~~= self.deep_view());
        r
    }
}

/// What every object says of itself.
#[derive(Debug, Default)]
pub struct ObjectMeta {
    pub name: Option<String>,
    pub generate_name: Option<String>,
    pub labels: Option<StringMap>,
    pub annotations: Option<StringMap>,
    pub owner_references: Option<Vec<OwnerReference>>,
    /// Nanoseconds since the Unix epoch.
    pub creation_timestamp: Option<i128>,
}

/// The view of `ObjectMeta`.
#[verifier::ext_equal]
pub struct ObjectMetaView {
    pub name: Option<Seq<char>>,
    pub generate_name: Option<Seq<char>>,
    pub labels: Option<Map<Seq<char>, Seq<char>>>,
    pub annotations: Option<Map<Seq<char>, Seq<char>>>,
    pub owner_references: Option<Seq<OwnerReferenceView>>,
    pub creation_timestamp: Option<i128>,
}

impl DeepView for ObjectMeta {
    type V = ObjectMetaView;

    open spec fn deep_view(&self) -> ObjectMetaView {
        ObjectMetaView {
            name: self.name.deep_view(),
            generate_name: self.generate_name.deep_view(),
            labels: self.labels.deep_view(),
            annotations: self.annotations.deep_view(),
            owner_references: self.owner_references.deep_view(),
            creation_timestamp: self.creation_timestamp,
        }
    }
}

impl Clone for ObjectMeta {
    fn clone(&self) -> (r: Self)
        ensures
            r.deep_view() == self.deep_view(),
    {
        let r = ObjectMeta {
            name: self.name.clone(),
            generate_name: self.generate_name.clone(),
            labels: self.labels.clone(),
            annotations: self.annotations.clone(),
            owner_references: self.owner_references.clone(),
            creation_timestamp: self.creation_timestamp,
        };
        assert(r.deep_view() =~~= self.deep_view());
        r
    }
}

/// What keeps pods off a node.
#[derive(Debug, Default)]
pub struct Taint {
    pub key: String,
    pub value: Option<String>,
    pub effect: String,
    /// Nanoseconds since the Unix epoch.
    pub time_added: Option<i128>,
}

/// The view of `Taint`.
#[verifier::ext_equal]
pub struct TaintView {
    pub key: Seq<char>,
    pub value: Option<Seq<char>>,
    pub effect: Seq<char>,
    pub time_added: Option<i128>,
}

impl DeepView for Taint {
    type V = TaintView;

    open spec fn deep_view(&self) -> TaintView {
        TaintView {
            key: self.key.deep_view(),
            value: self.value.deep_view(),
            effect: self.effect.deep_view(),
            time_added: self.time_added,
        }
    }
}

impl Clone for Taint {
    fn clone(&self) -> (r: Self)
        ensures
            r.deep_view() == self.deep_view(),
    {
        let r = Taint {
            key: self.key.clone(),
            value: self.value.clone(),
            effect: self.effect.clone(),
            time_added: self.time_added,
        };
        assert(r.deep_view() =~~= self.deep_view());
        r
    }
}

/// What lets a pod onto a tainted node.
#[derive(Debug, Default)]
pub struct Toleration {
    pub key: Option<String>,
    pub operator: Option<String>,
    pub value: Option<String>,
    pub effect: Option<String>,
    pub toleration_seconds: Option<i64>,
}

/// The view of `Toleration`.
#[verifier::ext_equal]
pub struct TolerationView {
    pub key: Option<Seq<char>>,
    pub operator: Option<Seq<char>>,
    pub value: Option<Seq<char>>,
    pub effect: Option<Seq<char>>,
    pub toleration_seconds: Option<i64>,
}

impl DeepView for Toleration {
    type V = TolerationView;

    open spec fn deep_view(&self) -> TolerationView {
        TolerationView {
            key: self.key.deep_view(),
            operator: self.operator.deep_view(),
            value: self.value.deep_view(),
            effect: self.effect.deep_view(),
            toleration_seconds: self.toleration_seconds,
        }
    }
}

impl Clone for Toleration {
    fn clone(&self) -> (r: Self)
        ensures
            r.deep_view() == self.deep_view(),
    {
        let r = Toleration {
            key: self.key.clone(),
            operator: self.operator.clone(),
            value: self.value.clone(),
            effect: self.effect.clone(),
            toleration_seconds: self.toleration_seconds,
        };
        assert(r.deep_view() =~~= self.deep_view());
        r
    }
}

/// What is asked of a node.
#[derive(Debug, Default)]
pub struct NodeSpec {
    pub taints: Option<Vec<Taint>>,
}

/// The view of `NodeSpec`.
#[verifier::ext_equal]
pub struct NodeSpecView {
    pub taints: Option<Seq<TaintView>>,
}

impl DeepView for NodeSpec {
    type V = NodeSpecView;

    open spec fn deep_view(&self) -> NodeSpecView {
        NodeSpecView {
            taints: self.taints.deep_view(),
        }
    }
}

impl Clone for NodeSpec {
    fn clone(&self) -> (r: Self)
        ensures
            r.deep_view() == self.deep_view(),
    {
        let r = NodeSpec {
            taints: self.taints.clone(),
        };
        assert(r.deep_view() =~~= self.deep_view());
        r
    }
}

/// A machine of the cluster.
#[derive(Debug, Default)]
pub struct Node {
    pub metadata: ObjectMeta,
    pub spec: Option<NodeSpec>,
}

/// The view of `Node`.
#[verifier::ext_equal]
pub struct NodeView {
    pub metadata: ObjectMetaView,
    pub spec: Option<NodeSpecView>,
}

impl DeepView for Node {
    type V = NodeView;

    open spec fn deep_view(&self) -> NodeView {
        NodeView {
            metadata: self.metadata.deep_view(),
            spec: self.spec.deep_view(),
        }
    }
}

impl Clone for Node {
    fn clone(&self) -> (r: Self)
        ensures
            r.deep_view() == self.deep_view(),
    {
        let r = Node {
            metadata: self.metadata.clone(),
            spec: self.spec.clone(),
        };
        assert(r.deep_view() =~~= self.deep_view());
        r
    }
}

/// A key of a ConfigMap.
#[derive(Debug, Default)]
pub struct ConfigMapKeySelector {
    pub name: String,
    pub key: String,
    pub optional: Option<bool>,
}

/// The view of `ConfigMapKeySelector`.
#[verifier::ext_equal]
pub struct ConfigMapKeySelectorView {
    pub name: Seq<char>,
    pub key: Seq<char>,
    pub optional: Option<bool>,
}

impl DeepView for ConfigMapKeySelector {
    type V = ConfigMapKeySelectorView;

    open spec fn deep_view(&self) -> ConfigMapKeySelectorView {
        ConfigMapKeySelectorView {
            name: self.name.deep_view(),
            key: self.key.deep_view(),
            optional: self.optional,
        }
    }
}

impl Clone for ConfigMapKeySelector {
    fn clone(&self) -> (r: Self)
        ensures
            r.deep_view() == self.deep_view(),
    {
        let r = ConfigMapKeySelector {
            name: self.name.clone(),
            key: self.key.clone(),
            optional: self.optional,
        };
        assert(r.deep_view() =~~= self.deep_view());
        r
    }
}

/// A field of the pod itself.
#[derive(Debug, Default)]
pub struct ObjectFieldSelector {
    pub api_version: Option<String>,
    pub field_path: String,
}

/// The view of `ObjectFieldSelector`.
#[verifier::ext_equal]
pub struct ObjectFieldSelectorView {
    pub api_version: Option<Seq<char>>,
    pub field_path: Seq<char>,
}

impl DeepView for ObjectFieldSelector {
    type V = ObjectFieldSelectorView;

    open spec fn deep_view(&self) -> ObjectFieldSelectorView {
        ObjectFieldSelectorView {
            api_version: self.api_version.deep_view(),
            field_path: self.field_path.deep_view(),
        }
    }
}

impl Clone for ObjectFieldSelector {
    fn clone(&self) -> (r: Self)
        ensures
            r.deep_view() == self.deep_view(),
    {
        let r = ObjectFieldSelector {
            api_version: self.api_version.clone(),
            field_path: self.field_path.clone(),
        };
        assert(r.deep_view() =~~= self.deep_view());
        r
    }
}

/// A key of a file in a volume.
#[derive(Debug, Default)]
pub struct FileKeySelector {
    pub volume_name: String,
    pub path: String,
    pub key: String,
    pub optional: Option<bool>,
}

/// The view of `FileKeySelector`.
#[verifier::ext_equal]
pub struct FileKeySelectorView {
    pub volume_name: Seq<char>,
    pub path: Seq<char>,
    pub key: Seq<char>,
    pub optional: Option<bool>,
}

impl DeepView for FileKeySelector {
    type V = FileKeySelectorView;

    open spec fn deep_view(&self) -> FileKeySelectorView {
        FileKeySelectorView {
            volume_name: self.volume_name.deep_view(),
            path: self.path.deep_view(),
            key: self.key.deep_view(),
            optional: self.optional,
        }
    }
}

impl Clone for FileKeySelector {
    fn clone(&self) -> (r: Self)
        ensures
            r.deep_view() == self.deep_view(),
    {
        let r = FileKeySelector {
            volume_name: self.volume_name.clone(),
            path: self.path.clone(),
            key: self.key.clone(),
            optional: self.optional,
        };
        assert(r.deep_view() =~~= self.deep_view());
        r
    }
}

/// A resource of a container.
#[derive(Debug, Default)]
pub struct ResourceFieldSelector {
    pub container_name: Option<String>,
    pub resource: String,
    /// A quantity, as it is written.
    pub divisor: Option<String>,
}

/// The view of `ResourceFieldSelector`.
#[verifier::ext_equal]
pub struct ResourceFieldSelectorView {
    pub container_name: Option<Seq<char>>,
    pub resource: Seq<char>,
    pub divisor: Option<Seq<char>>,
}

impl DeepView for ResourceFieldSelector {
    type V = ResourceFieldSelectorView;

    open spec fn deep_view(&self) -> ResourceFieldSelectorView {
        ResourceFieldSelectorView {
            container_name: self.container_name.deep_view(),
            resource: self.resource.deep_view(),
            divisor: self.divisor.deep_view(),
        }
    }
}

impl Clone for ResourceFieldSelector {
    fn clone(&self) -> (r: Self)
        ensures
            r.deep_view() == self.deep_view(),
    {
        let r = ResourceFieldSelector {
            container_name: self.container_name.clone(),
            resource: self.resource.clone(),
            divisor: self.divisor.clone(),
        };
        assert(r.deep_view() =~~= self.deep_view());
        r
    }
}

/// A key of a Secret.
#[derive(Debug, Default)]
pub struct SecretKeySelector {
    pub name: String,
    pub key: String,
    pub optional: Option<bool>,
}

/// The view of `SecretKeySelector`.
#[verifier::ext_equal]
pub struct SecretKeySelectorView {
    pub name: Seq<char>,
    pub key: Seq<char>,
    pub optional: Option<bool>,
}

impl DeepView for SecretKeySelector {
    type V = SecretKeySelectorView;

    open spec fn deep_view(&self) -> SecretKeySelectorView {
        SecretKeySelectorView {
            name: self.name.deep_view(),
            key: self.key.deep_view(),
            optional: self.optional,
        }
    }
}

impl Clone for SecretKeySelector {
    fn clone(&self) -> (r: Self)
        ensures
            r.deep_view() == self.deep_view(),
    {
        let r = SecretKeySelector {
            name: self.name.clone(),
            key: self.key.clone(),
            optional: self.optional,
        };
        assert(r.deep_view() =~~= self.deep_view());
        r
    }
}

/// Where a variable has its value from, if it is not given in place.
#[derive(Debug, Default)]
pub struct EnvVarSource {
    pub config_map_key_ref: Option<ConfigMapKeySelector>,
    pub field_ref: Option<ObjectFieldSelector>,
    pub file_key_ref: Option<FileKeySelector>,
    pub resource_field_ref: Option<ResourceFieldSelector>,
    pub secret_key_ref: Option<SecretKeySelector>,
}

/// The view of `EnvVarSource`.
#[verifier::ext_equal]
pub struct EnvVarSourceView {
    pub config_map_key_ref: Option<ConfigMapKeySelectorView>,
    pub field_ref: Option<ObjectFieldSelectorView>,
    pub file_key_ref: Option<FileKeySelectorView>,
    pub resource_field_ref: Option<ResourceFieldSelectorView>,
    pub secret_key_ref: Option<SecretKeySelectorView>,
}

impl DeepView for EnvVarSource {
    type V = EnvVarSourceView;

    open spec fn deep_view(&self) -> EnvVarSourceView {
        EnvVarSourceView {
            config_map_key_ref: self.config_map_key_ref.deep_view(),
            field_ref: self.field_ref.deep_view(),
            file_key_ref: self.file_key_ref.deep_view(),
            resource_field_ref: self.resource_field_ref.deep_view(),
            secret_key_ref: self.secret_key_ref.deep_view(),
        }
    }
}

impl Clone for EnvVarSource {
    fn clone(&self) -> (r: Self)
        ensures
            r.deep_view() == self.deep_view(),
    {
        let r = EnvVarSource {
            config_map_key_ref: self.config_map_key_ref.clone(),
            field_ref: self.field_ref.clone(),
            file_key_ref: self.file_key_ref.clone(),
            resource_field_ref: self.resource_field_ref.clone(),
            secret_key_ref: self.secret_key_ref.clone(),
        };
        assert(r.deep_view() =~~= self.deep_view());
        r
    }
}

/// A variable in the environment of a container.
#[derive(Debug, Default)]
pub struct EnvVar {
    pub name: String,
    pub value: Option<String>,
    /// Where the value comes from instead.
    pub value_from: Option<EnvVarSource>,
}

/// The view of `EnvVar`.
#[verifier::ext_equal]
pub struct EnvVarView {
    pub name: Seq<char>,
    pub value: Option<Seq<char>>,
    pub value_from: Option<EnvVarSourceView>,
}

impl DeepView for EnvVar {
    type V = EnvVarView;

    open spec fn deep_view(&self) -> EnvVarView {
        EnvVarView {
            name: self.name.deep_view(),
            value: self.value.deep_view(),
            value_from: self.value_from.deep_view(),
        }
    }
}

impl Clone for EnvVar {
    fn clone(&self) -> (r: Self)
        ensures
            r.deep_view() == self.deep_view(),
    {
        let r = EnvVar {
            name: self.name.clone(),
            value: self.value.clone(),
            value_from: self.value_from.clone(),
        };
        assert(r.deep_view() =~~= self.deep_view());
        r
    }
}

/// A container of a pod, as its template describes it.
#[derive(Debug, Default)]
pub struct Container {
    pub name: String,
    pub env: Option<Vec<EnvVar>>,
}

/// The view of `Container`.
#[verifier::ext_equal]
pub struct ContainerView {
    pub name: Seq<char>,
    pub env: Option<Seq<EnvVarView>>,
}

impl DeepView for Container {
    type V = ContainerView;

    open spec fn deep_view(&self) -> ContainerView {
        ContainerView {
            name: self.name.deep_view(),
            env: self.env.deep_view(),
        }
    }
}

impl Clone for Container {
    fn clone(&self) -> (r: Self)
        ensures
            r.deep_view() == self.deep_view(),
    {
        let r = Container {
            name: self.name.clone(),
            env: self.env.clone(),
        };
        assert(r.deep_view() =~~= self.deep_view());
        r
    }
}

/// What is asked of a pod.
#[derive(Debug, Default)]
pub struct PodSpec {
    /// The node that the pod is bound to, past the scheduler.
    pub node_name: Option<String>,
    pub init_containers: Option<Vec<Container>>,
    pub containers: Vec<Container>,
}

/// The view of `PodSpec`.
#[verifier::ext_equal]
pub struct PodSpecView {
    pub node_name: Option<Seq<char>>,
    pub init_containers: Option<Seq<ContainerView>>,
    pub containers: Seq<ContainerView>,
}

impl DeepView for PodSpec {
    type V = PodSpecView;

    open spec fn deep_view(&self) -> PodSpecView {
        PodSpecView {
            node_name: self.node_name.deep_view(),
            init_containers: self.init_containers.deep_view(),
            containers: self.containers.deep_view(),
        }
    }
}

impl Clone for PodSpec {
    fn clone(&self) -> (r: Self)
        ensures
            r.deep_view() == self.deep_view(),
    {
        let r = PodSpec {
            node_name: self.node_name.clone(),
            init_containers: self.init_containers.clone(),
            containers: self.containers.clone(),
        };
        assert(r.deep_view() =~~= self.deep_view());
        r
    }
}

/// What the pods of a Job are made from.
#[derive(Debug, Default)]
pub struct PodTemplateSpec {
    pub metadata: Option<ObjectMeta>,
    pub spec: Option<PodSpec>,
}

/// The view of `PodTemplateSpec`.
#[verifier::ext_equal]
pub struct PodTemplateSpecView {
    pub metadata: Option<ObjectMetaView>,
    pub spec: Option<PodSpecView>,
}

impl DeepView for PodTemplateSpec {
    type V = PodTemplateSpecView;

    open spec fn deep_view(&self) -> PodTemplateSpecView {
        PodTemplateSpecView {
            metadata: self.metadata.deep_view(),
            spec: self.spec.deep_view(),
        }
    }
}

impl Clone for PodTemplateSpec {
    fn clone(&self) -> (r: Self)
        ensures
            r.deep_view() == self.deep_view(),
    {
        let r = PodTemplateSpec {
            metadata: self.metadata.clone(),
            spec: self.spec.clone(),
        };
        assert(r.deep_view() =~~= self.deep_view());
        r
    }
}

/// What is asked of a Job.
#[derive(Debug, Default)]
pub struct JobSpec {
    pub template: PodTemplateSpec,
}

/// The view of `JobSpec`.
#[verifier::ext_equal]
pub struct JobSpecView {
    pub template: PodTemplateSpecView,
}

impl DeepView for JobSpec {
    type V = JobSpecView;

    open spec fn deep_view(&self) -> JobSpecView {
        JobSpecView {
            template: self.template.deep_view(),
        }
    }
}

impl Clone for JobSpec {
    fn clone(&self) -> (r: Self)
        ensures
            r.deep_view() == self.deep_view(),
    {
        let r = JobSpec {
            template: self.template.clone(),
        };
        assert(r.deep_view() =~~= self.deep_view());
        r
    }
}

/// Something that the Job controller found of a Job.
#[derive(Debug, Default)]
pub struct JobCondition {
    pub type_: String,
    /// `True`, `False` or `Unknown`.
    pub status: String,
    pub reason: Option<String>,
    pub message: Option<String>,
}

/// The view of `JobCondition`.
#[verifier::ext_equal]
pub struct JobConditionView {
    pub type_: Seq<char>,
    pub status: Seq<char>,
    pub reason: Option<Seq<char>>,
    pub message: Option<Seq<char>>,
}

impl DeepView for JobCondition {
    type V = JobConditionView;

    open spec fn deep_view(&self) -> JobConditionView {
        JobConditionView {
            type_: self.type_.deep_view(),
            status: self.status.deep_view(),
            reason: self.reason.deep_view(),
            message: self.message.deep_view(),
        }
    }
}

impl Clone for JobCondition {
    fn clone(&self) -> (r: Self)
        ensures
            r.deep_view() == self.deep_view(),
    {
        let r = JobCondition {
            type_: self.type_.clone(),
            status: self.status.clone(),
            reason: self.reason.clone(),
            message: self.message.clone(),
        };
        assert(r.deep_view() =~~= self.deep_view());
        r
    }
}

/// What has become of a Job.
#[derive(Debug, Default)]
pub struct JobStatus {
    pub conditions: Option<Vec<JobCondition>>,
    /// How many of its pods succeeded.
    pub succeeded: Option<i32>,
}

/// The view of `JobStatus`.
#[verifier::ext_equal]
pub struct JobStatusView {
    pub conditions: Option<Seq<JobConditionView>>,
    pub succeeded: Option<i32>,
}

impl DeepView for JobStatus {
    type V = JobStatusView;

    open spec fn deep_view(&self) -> JobStatusView {
        JobStatusView {
            conditions: self.conditions.deep_view(),
            succeeded: self.succeeded,
        }
    }
}

impl Clone for JobStatus {
    fn clone(&self) -> (r: Self)
        ensures
            r.deep_view() == self.deep_view(),
    {
        let r = JobStatus {
            conditions: self.conditions.clone(),
            succeeded: self.succeeded,
        };
        assert(r.deep_view() =~~= self.deep_view());
        r
    }
}

/// A run to completion.
#[derive(Debug, Default)]
pub struct Job {
    pub metadata: ObjectMeta,
    pub spec: Option<JobSpec>,
    pub status: Option<JobStatus>,
}

/// The view of `Job`.
#[verifier::ext_equal]
pub struct JobView {
    pub metadata: ObjectMetaView,
    pub spec: Option<JobSpecView>,
    pub status: Option<JobStatusView>,
}

impl DeepView for Job {
    type V = JobView;

    open spec fn deep_view(&self) -> JobView {
        JobView {
            metadata: self.metadata.deep_view(),
            spec: self.spec.deep_view(),
            status: self.status.deep_view(),
        }
    }
}

impl Clone for Job {
    fn clone(&self) -> (r: Self)
        ensures
            r.deep_view() == self.deep_view(),
    {
        let r = Job {
            metadata: self.metadata.clone(),
            spec: self.spec.clone(),
            status: self.status.clone(),
        };
        assert(r.deep_view() =~~= self.deep_view());
        r
    }
}

/// How a container ended.
#[derive(Debug, Default)]
pub struct ContainerStateTerminated {
    pub exit_code: i32,
    pub reason: Option<String>,
    pub message: Option<String>,
}

/// The view of `ContainerStateTerminated`.
#[verifier::ext_equal]
pub struct ContainerStateTerminatedView {
    pub exit_code: i32,
    pub reason: Option<Seq<char>>,
    pub message: Option<Seq<char>>,
}

impl DeepView for ContainerStateTerminated {
    type V = ContainerStateTerminatedView;

    open spec fn deep_view(&self) -> ContainerStateTerminatedView {
        ContainerStateTerminatedView {
            exit_code: self.exit_code,
            reason: self.reason.deep_view(),
            message: self.message.deep_view(),
        }
    }
}

impl Clone for ContainerStateTerminated {
    fn clone(&self) -> (r: Self)
        ensures
            r.deep_view() == self.deep_view(),
    {
        let r = ContainerStateTerminated {
            exit_code: self.exit_code,
            reason: self.reason.clone(),
            message: self.message.clone(),
        };
        assert(r.deep_view() =~~= self.deep_view());
        r
    }
}

/// What a container waits for.
#[derive(Debug, Default)]
pub struct ContainerStateWaiting {
    pub reason: Option<String>,
    pub message: Option<String>,
}

/// The view of `ContainerStateWaiting`.
#[verifier::ext_equal]
pub struct ContainerStateWaitingView {
    pub reason: Option<Seq<char>>,
    pub message: Option<Seq<char>>,
}

impl DeepView for ContainerStateWaiting {
    type V = ContainerStateWaitingView;

    open spec fn deep_view(&self) -> ContainerStateWaitingView {
        ContainerStateWaitingView {
            reason: self.reason.deep_view(),
            message: self.message.deep_view(),
        }
    }
}

impl Clone for ContainerStateWaiting {
    fn clone(&self) -> (r: Self)
        ensures
            r.deep_view() == self.deep_view(),
    {
        let r = ContainerStateWaiting {
            reason: self.reason.clone(),
            message: self.message.clone(),
        };
        assert(r.deep_view() =~~= self.deep_view());
        r
    }
}

/// Whether a container ended or waits. One that runs does neither.
#[derive(Debug, Default)]
pub struct ContainerState {
    pub terminated: Option<ContainerStateTerminated>,
    pub waiting: Option<ContainerStateWaiting>,
}

/// The view of `ContainerState`.
#[verifier::ext_equal]
pub struct ContainerStateView {
    pub terminated: Option<ContainerStateTerminatedView>,
    pub waiting: Option<ContainerStateWaitingView>,
}

impl DeepView for ContainerState {
    type V = ContainerStateView;

    open spec fn deep_view(&self) -> ContainerStateView {
        ContainerStateView {
            terminated: self.terminated.deep_view(),
            waiting: self.waiting.deep_view(),
        }
    }
}

impl Clone for ContainerState {
    fn clone(&self) -> (r: Self)
        ensures
            r.deep_view() == self.deep_view(),
    {
        let r = ContainerState {
            terminated: self.terminated.clone(),
            waiting: self.waiting.clone(),
        };
        assert(r.deep_view() =~~= self.deep_view());
        r
    }
}

/// What has become of a container.
#[derive(Debug, Default)]
pub struct ContainerStatus {
    pub name: String,
    pub state: Option<ContainerState>,
    /// The state of the run before this one.
    pub last_state: Option<ContainerState>,
}

/// The view of `ContainerStatus`.
#[verifier::ext_equal]
pub struct ContainerStatusView {
    pub name: Seq<char>,
    pub state: Option<ContainerStateView>,
    pub last_state: Option<ContainerStateView>,
}

impl DeepView for ContainerStatus {
    type V = ContainerStatusView;

    open spec fn deep_view(&self) -> ContainerStatusView {
        ContainerStatusView {
            name: self.name.deep_view(),
            state: self.state.deep_view(),
            last_state: self.last_state.deep_view(),
        }
    }
}

impl Clone for ContainerStatus {
    fn clone(&self) -> (r: Self)
        ensures
            r.deep_view() == self.deep_view(),
    {
        let r = ContainerStatus {
            name: self.name.clone(),
            state: self.state.clone(),
            last_state: self.last_state.clone(),
        };
        assert(r.deep_view() =~~= self.deep_view());
        r
    }
}

/// Something that was found of a pod.
#[derive(Debug, Default)]
pub struct PodCondition {
    pub type_: String,
    /// `True`, `False` or `Unknown`.
    pub status: String,
    pub reason: Option<String>,
    pub message: Option<String>,
}

/// The view of `PodCondition`.
#[verifier::ext_equal]
pub struct PodConditionView {
    pub type_: Seq<char>,
    pub status: Seq<char>,
    pub reason: Option<Seq<char>>,
    pub message: Option<Seq<char>>,
}

impl DeepView for PodCondition {
    type V = PodConditionView;

    open spec fn deep_view(&self) -> PodConditionView {
        PodConditionView {
            type_: self.type_.deep_view(),
            status: self.status.deep_view(),
            reason: self.reason.deep_view(),
            message: self.message.deep_view(),
        }
    }
}

impl Clone for PodCondition {
    fn clone(&self) -> (r: Self)
        ensures
            r.deep_view() == self.deep_view(),
    {
        let r = PodCondition {
            type_: self.type_.clone(),
            status: self.status.clone(),
            reason: self.reason.clone(),
            message: self.message.clone(),
        };
        assert(r.deep_view() =~~= self.deep_view());
        r
    }
}

/// What has become of a pod.
#[derive(Debug, Default)]
pub struct PodStatus {
    pub phase: Option<String>,
    pub reason: Option<String>,
    pub message: Option<String>,
    pub conditions: Option<Vec<PodCondition>>,
    pub init_container_statuses: Option<Vec<ContainerStatus>>,
    pub container_statuses: Option<Vec<ContainerStatus>>,
}

/// The view of `PodStatus`.
#[verifier::ext_equal]
pub struct PodStatusView {
    pub phase: Option<Seq<char>>,
    pub reason: Option<Seq<char>>,
    pub message: Option<Seq<char>>,
    pub conditions: Option<Seq<PodConditionView>>,
    pub init_container_statuses: Option<Seq<ContainerStatusView>>,
    pub container_statuses: Option<Seq<ContainerStatusView>>,
}

impl DeepView for PodStatus {
    type V = PodStatusView;

    open spec fn deep_view(&self) -> PodStatusView {
        PodStatusView {
            phase: self.phase.deep_view(),
            reason: self.reason.deep_view(),
            message: self.message.deep_view(),
            conditions: self.conditions.deep_view(),
            init_container_statuses: self.init_container_statuses.deep_view(),
            container_statuses: self.container_statuses.deep_view(),
        }
    }
}

impl Clone for PodStatus {
    fn clone(&self) -> (r: Self)
        ensures
            r.deep_view() == self.deep_view(),
    {
        let r = PodStatus {
            phase: self.phase.clone(),
            reason: self.reason.clone(),
            message: self.message.clone(),
            conditions: self.conditions.clone(),
            init_container_statuses: self.init_container_statuses.clone(),
            container_statuses: self.container_statuses.clone(),
        };
        assert(r.deep_view() =~~= self.deep_view());
        r
    }
}

/// One attempt of a Job.
#[derive(Debug, Default)]
pub struct Pod {
    pub metadata: ObjectMeta,
    pub status: Option<PodStatus>,
}

/// The view of `Pod`.
#[verifier::ext_equal]
pub struct PodView {
    pub metadata: ObjectMetaView,
    pub status: Option<PodStatusView>,
}

impl DeepView for Pod {
    type V = PodView;

    open spec fn deep_view(&self) -> PodView {
        PodView {
            metadata: self.metadata.deep_view(),
            status: self.status.deep_view(),
        }
    }
}

impl Clone for Pod {
    fn clone(&self) -> (r: Self)
        ensures
            r.deep_view() == self.deep_view(),
    {
        let r = Pod {
            metadata: self.metadata.clone(),
            status: self.status.clone(),
        };
        assert(r.deep_view() =~~= self.deep_view());
        r
    }
}

} // verus!
