//! The views hold what the objects hold.
//!
//! Contracts speak of an object through its view. Here it is stated, field by field, that a view
//! leaves nothing out and changes nothing.
use vstd::prelude::*;
use vstd::string::*;

use crate::nodes::NodeFacts;
use crate::objects::{
    ConfigMapKeySelector,
    Container,
    ContainerState,
    ContainerStateTerminated,
    ContainerStateWaiting,
    ContainerStatus,
    EnvVar,
    EnvVarSource,
    FileKeySelector,
    Job,
    JobCondition,
    JobSpec,
    JobStatus,
    Node,
    NodeSpec,
    ObjectFieldSelector,
    ObjectMeta,
    OwnerReference,
    Pod,
    PodCondition,
    PodSpec,
    PodStatus,
    PodTemplateSpec,
    ResourceFieldSelector,
    SecretKeySelector,
    Taint,
    Toleration,
};
use crate::pods::{PodLookup, PodLookupView, PodSearch, PodSearchView};
use crate::tracking::TrackingLabels;

verus! {

/// The view of `OwnerReference` holds every field of it.
pub proof fn law_view_of_owner_reference(x: OwnerReference)
    ensures
        ({
            let v = x.deep_view();
            &&& v.api_version == x.api_version@
            &&& v.kind == x.kind@
            &&& v.name == x.name@
            &&& v.uid == x.uid@
            &&& v.controller == x.controller
            &&& v.block_owner_deletion == x.block_owner_deletion
        }),
{
}

/// The view of `ObjectMeta` holds every field of it.
pub proof fn law_view_of_object_meta(x: ObjectMeta)
    ensures
        ({
            let v = x.deep_view();
            &&& v.name is Some <==> x.name is Some
            &&& x.name is Some ==> v.name->0 == x.name->0@
            &&& v.generate_name is Some <==> x.generate_name is Some
            &&& x.generate_name is Some ==> v.generate_name->0 == x.generate_name->0@
            &&& v.labels is Some <==> x.labels is Some
            &&& x.labels is Some ==> v.labels->0 == x.labels->0.deep_view()
            &&& v.annotations is Some <==> x.annotations is Some
            &&& x.annotations is Some ==> v.annotations->0 == x.annotations->0.deep_view()
            &&& v.owner_references is Some <==> x.owner_references is Some
            &&& x.owner_references is Some
                ==> v.owner_references->0.len() == x.owner_references->0@.len()
            &&& x.owner_references is Some ==> forall|i: int|
                0 <= i < x.owner_references->0@.len() ==> #[trigger] v.owner_references->0[i]
                    == x.owner_references->0@[i].deep_view()
            &&& v.creation_timestamp == x.creation_timestamp
        }),
{
}

/// The view of `Taint` holds every field of it.
pub proof fn law_view_of_taint(x: Taint)
    ensures
        ({
            let v = x.deep_view();
            &&& v.key == x.key@
            &&& v.value is Some <==> x.value is Some
            &&& x.value is Some ==> v.value->0 == x.value->0@
            &&& v.effect == x.effect@
            &&& v.time_added == x.time_added
        }),
{
}

/// The view of `Toleration` holds every field of it.
pub proof fn law_view_of_toleration(x: Toleration)
    ensures
        ({
            let v = x.deep_view();
            &&& v.key is Some <==> x.key is Some
            &&& x.key is Some ==> v.key->0 == x.key->0@
            &&& v.operator is Some <==> x.operator is Some
            &&& x.operator is Some ==> v.operator->0 == x.operator->0@
            &&& v.value is Some <==> x.value is Some
            &&& x.value is Some ==> v.value->0 == x.value->0@
            &&& v.effect is Some <==> x.effect is Some
            &&& x.effect is Some ==> v.effect->0 == x.effect->0@
            &&& v.toleration_seconds == x.toleration_seconds
        }),
{
}

/// The view of `NodeSpec` holds every field of it.
pub proof fn law_view_of_node_spec(x: NodeSpec)
    ensures
        ({
            let v = x.deep_view();
            &&& v.taints is Some <==> x.taints is Some
            &&& x.taints is Some ==> v.taints->0.len() == x.taints->0@.len()
            &&& x.taints is Some ==> forall|i: int|
                0 <= i < x.taints->0@.len() ==> #[trigger] v.taints->0[i]
                    == x.taints->0@[i].deep_view()
        }),
{
}

/// The view of `Node` holds every field of it.
pub proof fn law_view_of_node(x: Node)
    ensures
        ({
            let v = x.deep_view();
            &&& v.metadata == x.metadata.deep_view()
            &&& v.spec is Some <==> x.spec is Some
            &&& x.spec is Some ==> v.spec->0 == x.spec->0.deep_view()
        }),
{
}

/// The view of `ConfigMapKeySelector` holds every field of it.
pub proof fn law_view_of_config_map_key_selector(x: ConfigMapKeySelector)
    ensures
        ({
            let v = x.deep_view();
            &&& v.name == x.name@
            &&& v.key == x.key@
            &&& v.optional == x.optional
        }),
{
}

/// The view of `ObjectFieldSelector` holds every field of it.
pub proof fn law_view_of_object_field_selector(x: ObjectFieldSelector)
    ensures
        ({
            let v = x.deep_view();
            &&& v.api_version is Some <==> x.api_version is Some
            &&& x.api_version is Some ==> v.api_version->0 == x.api_version->0@
            &&& v.field_path == x.field_path@
        }),
{
}

/// The view of `FileKeySelector` holds every field of it.
pub proof fn law_view_of_file_key_selector(x: FileKeySelector)
    ensures
        ({
            let v = x.deep_view();
            &&& v.volume_name == x.volume_name@
            &&& v.path == x.path@
            &&& v.key == x.key@
            &&& v.optional == x.optional
        }),
{
}

/// The view of `ResourceFieldSelector` holds every field of it.
pub proof fn law_view_of_resource_field_selector(x: ResourceFieldSelector)
    ensures
        ({
            let v = x.deep_view();
            &&& v.container_name is Some <==> x.container_name is Some
            &&& x.container_name is Some ==> v.container_name->0 == x.container_name->0@
            &&& v.resource == x.resource@
            &&& v.divisor is Some <==> x.divisor is Some
            &&& x.divisor is Some ==> v.divisor->0 == x.divisor->0@
        }),
{
}

/// The view of `SecretKeySelector` holds every field of it.
pub proof fn law_view_of_secret_key_selector(x: SecretKeySelector)
    ensures
        ({
            let v = x.deep_view();
            &&& v.name == x.name@
            &&& v.key == x.key@
            &&& v.optional == x.optional
        }),
{
}

/// The view of `EnvVarSource` holds every field of it.
pub proof fn law_view_of_env_var_source(x: EnvVarSource)
    ensures
        ({
            let v = x.deep_view();
            &&& v.config_map_key_ref is Some <==> x.config_map_key_ref is Some
            &&& x.config_map_key_ref is Some
                ==> v.config_map_key_ref->0 == x.config_map_key_ref->0.deep_view()
            &&& v.field_ref is Some <==> x.field_ref is Some
            &&& x.field_ref is Some ==> v.field_ref->0 == x.field_ref->0.deep_view()
            &&& v.file_key_ref is Some <==> x.file_key_ref is Some
            &&& x.file_key_ref is Some ==> v.file_key_ref->0 == x.file_key_ref->0.deep_view()
            &&& v.resource_field_ref is Some <==> x.resource_field_ref is Some
            &&& x.resource_field_ref is Some
                ==> v.resource_field_ref->0 == x.resource_field_ref->0.deep_view()
            &&& v.secret_key_ref is Some <==> x.secret_key_ref is Some
            &&& x.secret_key_ref is Some
                ==> v.secret_key_ref->0 == x.secret_key_ref->0.deep_view()
        }),
{
}

/// The view of `EnvVar` holds every field of it.
pub proof fn law_view_of_env_var(x: EnvVar)
    ensures
        ({
            let v = x.deep_view();
            &&& v.name == x.name@
            &&& v.value is Some <==> x.value is Some
            &&& x.value is Some ==> v.value->0 == x.value->0@
            &&& v.value_from is Some <==> x.value_from is Some
            &&& x.value_from is Some ==> v.value_from->0 == x.value_from->0.deep_view()
        }),
{
}

/// The view of `Container` holds every field of it.
pub proof fn law_view_of_container(x: Container)
    ensures
        ({
            let v = x.deep_view();
            &&& v.name == x.name@
            &&& v.env is Some <==> x.env is Some
            &&& x.env is Some ==> v.env->0.len() == x.env->0@.len()
            &&& x.env is Some ==> forall|i: int|
                0 <= i < x.env->0@.len() ==> #[trigger] v.env->0[i]
                    == x.env->0@[i].deep_view()
        }),
{
}

/// The view of `PodSpec` holds every field of it.
pub proof fn law_view_of_pod_spec(x: PodSpec)
    ensures
        ({
            let v = x.deep_view();
            &&& v.node_name is Some <==> x.node_name is Some
            &&& x.node_name is Some ==> v.node_name->0 == x.node_name->0@
            &&& v.init_containers is Some <==> x.init_containers is Some
            &&& x.init_containers is Some
                ==> v.init_containers->0.len() == x.init_containers->0@.len()
            &&& x.init_containers is Some ==> forall|i: int|
                0 <= i < x.init_containers->0@.len() ==> #[trigger] v.init_containers->0[i]
                    == x.init_containers->0@[i].deep_view()
            &&& v.containers.len() == x.containers@.len()
            &&& forall|i: int|
                0 <= i < x.containers@.len() ==> #[trigger] v.containers[i]
                    == x.containers@[i].deep_view()
        }),
{
}

/// The view of `PodTemplateSpec` holds every field of it.
pub proof fn law_view_of_pod_template_spec(x: PodTemplateSpec)
    ensures
        ({
            let v = x.deep_view();
            &&& v.metadata is Some <==> x.metadata is Some
            &&& x.metadata is Some ==> v.metadata->0 == x.metadata->0.deep_view()
            &&& v.spec is Some <==> x.spec is Some
            &&& x.spec is Some ==> v.spec->0 == x.spec->0.deep_view()
        }),
{
}

/// The view of `JobSpec` holds every field of it.
pub proof fn law_view_of_job_spec(x: JobSpec)
    ensures
        ({
            let v = x.deep_view();
            &&& v.template == x.template.deep_view()
        }),
{
}

/// The view of `JobCondition` holds every field of it.
pub proof fn law_view_of_job_condition(x: JobCondition)
    ensures
        ({
            let v = x.deep_view();
            &&& v.type_ == x.type_@
            &&& v.status == x.status@
            &&& v.reason is Some <==> x.reason is Some
            &&& x.reason is Some ==> v.reason->0 == x.reason->0@
            &&& v.message is Some <==> x.message is Some
            &&& x.message is Some ==> v.message->0 == x.message->0@
        }),
{
}

/// The view of `JobStatus` holds every field of it.
pub proof fn law_view_of_job_status(x: JobStatus)
    ensures
        ({
            let v = x.deep_view();
            &&& v.conditions is Some <==> x.conditions is Some
            &&& x.conditions is Some ==> v.conditions->0.len() == x.conditions->0@.len()
            &&& x.conditions is Some ==> forall|i: int|
                0 <= i < x.conditions->0@.len() ==> #[trigger] v.conditions->0[i]
                    == x.conditions->0@[i].deep_view()
            &&& v.succeeded == x.succeeded
        }),
{
}

/// The view of `Job` holds every field of it.
pub proof fn law_view_of_job(x: Job)
    ensures
        ({
            let v = x.deep_view();
            &&& v.metadata == x.metadata.deep_view()
            &&& v.spec is Some <==> x.spec is Some
            &&& x.spec is Some ==> v.spec->0 == x.spec->0.deep_view()
            &&& v.status is Some <==> x.status is Some
            &&& x.status is Some ==> v.status->0 == x.status->0.deep_view()
        }),
{
}

/// The view of `ContainerStateTerminated` holds every field of it.
pub proof fn law_view_of_container_state_terminated(x: ContainerStateTerminated)
    ensures
        ({
            let v = x.deep_view();
            &&& v.exit_code == x.exit_code
            &&& v.reason is Some <==> x.reason is Some
            &&& x.reason is Some ==> v.reason->0 == x.reason->0@
            &&& v.message is Some <==> x.message is Some
            &&& x.message is Some ==> v.message->0 == x.message->0@
        }),
{
}

/// The view of `ContainerStateWaiting` holds every field of it.
pub proof fn law_view_of_container_state_waiting(x: ContainerStateWaiting)
    ensures
        ({
            let v = x.deep_view();
            &&& v.reason is Some <==> x.reason is Some
            &&& x.reason is Some ==> v.reason->0 == x.reason->0@
            &&& v.message is Some <==> x.message is Some
            &&& x.message is Some ==> v.message->0 == x.message->0@
        }),
{
}

/// The view of `ContainerState` holds every field of it.
pub proof fn law_view_of_container_state(x: ContainerState)
    ensures
        ({
            let v = x.deep_view();
            &&& v.terminated is Some <==> x.terminated is Some
            &&& x.terminated is Some ==> v.terminated->0 == x.terminated->0.deep_view()
            &&& v.waiting is Some <==> x.waiting is Some
            &&& x.waiting is Some ==> v.waiting->0 == x.waiting->0.deep_view()
        }),
{
}

/// The view of `ContainerStatus` holds every field of it.
pub proof fn law_view_of_container_status(x: ContainerStatus)
    ensures
        ({
            let v = x.deep_view();
            &&& v.name == x.name@
            &&& v.state is Some <==> x.state is Some
            &&& x.state is Some ==> v.state->0 == x.state->0.deep_view()
            &&& v.last_state is Some <==> x.last_state is Some
            &&& x.last_state is Some ==> v.last_state->0 == x.last_state->0.deep_view()
        }),
{
}

/// The view of `PodCondition` holds every field of it.
pub proof fn law_view_of_pod_condition(x: PodCondition)
    ensures
        ({
            let v = x.deep_view();
            &&& v.type_ == x.type_@
            &&& v.status == x.status@
            &&& v.reason is Some <==> x.reason is Some
            &&& x.reason is Some ==> v.reason->0 == x.reason->0@
            &&& v.message is Some <==> x.message is Some
            &&& x.message is Some ==> v.message->0 == x.message->0@
        }),
{
}

/// The view of `PodStatus` holds every field of it.
pub proof fn law_view_of_pod_status(x: PodStatus)
    ensures
        ({
            let v = x.deep_view();
            &&& v.phase is Some <==> x.phase is Some
            &&& x.phase is Some ==> v.phase->0 == x.phase->0@
            &&& v.reason is Some <==> x.reason is Some
            &&& x.reason is Some ==> v.reason->0 == x.reason->0@
            &&& v.message is Some <==> x.message is Some
            &&& x.message is Some ==> v.message->0 == x.message->0@
            &&& v.conditions is Some <==> x.conditions is Some
            &&& x.conditions is Some ==> v.conditions->0.len() == x.conditions->0@.len()
            &&& x.conditions is Some ==> forall|i: int|
                0 <= i < x.conditions->0@.len() ==> #[trigger] v.conditions->0[i]
                    == x.conditions->0@[i].deep_view()
            &&& v.init_container_statuses is Some <==> x.init_container_statuses is Some
            &&& x.init_container_statuses is Some
                ==> v.init_container_statuses->0.len() == x.init_container_statuses->0@.len()
            &&& x.init_container_statuses is Some ==> forall|i: int|
                0 <= i < x.init_container_statuses->0@.len() ==> #[trigger] v.init_container_statuses->0[i]
                    == x.init_container_statuses->0@[i].deep_view()
            &&& v.container_statuses is Some <==> x.container_statuses is Some
            &&& x.container_statuses is Some
                ==> v.container_statuses->0.len() == x.container_statuses->0@.len()
            &&& x.container_statuses is Some ==> forall|i: int|
                0 <= i < x.container_statuses->0@.len() ==> #[trigger] v.container_statuses->0[i]
                    == x.container_statuses->0@[i].deep_view()
        }),
{
}

/// The view of `Pod` holds every field of it.
pub proof fn law_view_of_pod(x: Pod)
    ensures
        ({
            let v = x.deep_view();
            &&& v.metadata == x.metadata.deep_view()
            &&& v.status is Some <==> x.status is Some
            &&& x.status is Some ==> v.status->0 == x.status->0.deep_view()
        }),
{
}

/// The view of `NodeFacts` holds every field of it.
pub proof fn law_view_of_node_facts(x: NodeFacts)
    ensures
        ({
            let v = x.deep_view();
            &&& v.name == x.name@
            &&& v.container_runtime_version is Some <==> x.container_runtime_version is Some
            &&& x.container_runtime_version is Some
                ==> v.container_runtime_version->0 == x.container_runtime_version->0@
            &&& v.machine_id is Some <==> x.machine_id is Some
            &&& x.machine_id is Some ==> v.machine_id->0 == x.machine_id->0@
        }),
{
}

/// The view of `TrackingLabels` holds every field of it.
pub proof fn law_view_of_tracking_labels(x: TrackingLabels)
    ensures
        ({
            let v = x.deep_view();
            &&& v.owner == x.owner@
            &&& v.node == x.node@
            &&& v.node_annotation == x.node_annotation@
        }),
{
}

/// The view of `PodLookup` tells the same of the same pod.
pub proof fn law_view_of_pod_lookup(x: PodLookup)
    ensures
        match x {
            PodLookup::Found(pod) => x.deep_view() == PodLookupView::Found(pod.deep_view()),
            PodLookup::Missing => x.deep_view() == PodLookupView::Missing,
            PodLookup::Unreadable => x.deep_view() == PodLookupView::Unreadable,
        },
{
}

/// The view of `PodSearch` tells the same step.
pub proof fn law_view_of_pod_search(x: PodSearch)
    ensures
        match x {
            PodSearch::List(listing) => x.deep_view() == PodSearchView::List(listing),
            PodSearch::Done(found) => x.deep_view() == PodSearchView::Done(found.deep_view()),
        },
{
}

} // verus!
