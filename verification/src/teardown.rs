//! The logic of `delete`: which service is removed and which objects of the
//! control-plane bucket are cleaned up.
use vstd::prelude::*;
use crate::command::{CommandError, check_resource, resource_type};
use crate::manifest::{service_name, service_name_of};
use crate::store::{
    bucket_name, config_prefix, config_prefix_of, control_plane_bucket, manifest_key_of,
    manifest_object_key,
};

verus! {

/// What `delete` removes for one agent.
#[derive(Debug)]
pub struct DeletePlan {
    /// The ECS service that is scaled to zero and then deleted.
    pub service_name: String,
    /// The desired count the service is scaled to before it is deleted.
    pub scale_to: i32,
    /// Whether the service is deleted even while it still runs tasks.
    pub force_delete: bool,
    pub bucket: String,
    /// The key of the recorded manifest.
    pub manifest_key: String,
    /// The prefix under which every generation of the configuration is deleted.
    pub config_prefix: String,
}

/// `plan` is exactly what `delete` removes for agent `name` in `namespace`.
pub open spec fn plans_delete(namespace: Seq<char>, name: Seq<char>, plan: DeletePlan) -> bool {
    &&& plan.service_name@ == service_name_of(namespace, name)
    &&& plan.scale_to == 0
    &&& plan.force_delete
    &&& plan.bucket@ == bucket_name()
    &&& plan.manifest_key@ == manifest_key_of(namespace, name)
    &&& plan.config_prefix@ == config_prefix_of(namespace, name)
}

/// Plans `delete oabservice`: refuses any resource type but `oabservice`, and otherwise
/// names the service and the objects that are removed.
pub fn plan_delete(resource: &str, name: &str, namespace: &str) -> (r: Result<DeletePlan, CommandError>)
    ensures
        r is Ok <==> resource@ == resource_type(),
        r matches Ok(plan) ==> plans_delete(namespace@, name@, plan),
        r matches Err(e) ==> (e matches CommandError::UnknownResource(t) && t@ == resource@),
{
    match check_resource(resource) {
        Err(e) => Err(e),
        Ok(()) => Ok(
            DeletePlan {
                service_name: service_name(namespace, name),
                scale_to: 0,
                force_delete: true,
                bucket: control_plane_bucket(),
                manifest_key: manifest_object_key(namespace, name),
                config_prefix: config_prefix(namespace, name),
            },
        ),
    }
}

} // verus!
