//! Errors of the command-line operations and the resource-type check that `get` and
//! `delete` share.
use vstd::prelude::*;
use crate::text::text_eq;

verus! {

/// Why an operation fails before it changes anything.
#[derive(Debug)]
pub enum CommandError {
    /// `apply` found no manifest at the given path.
    NoManifests(String),
    /// The resource type is not `oabservice`.
    UnknownResource(String),
    /// The service's configuration has reached the largest possible generation.
    GenerationsExhausted(String),
}

/// The one resource type the operations manage.
pub open spec fn resource_type() -> Seq<char> {
    "oabservice"@
}

/// Accepts the resource type `oabservice` and refuses any other.
pub fn check_resource(resource: &str) -> (r: Result<(), CommandError>)
    ensures
        r is Ok <==> resource@ == resource_type(),
        r matches Err(e) ==> (e matches CommandError::UnknownResource(t) && t@ == resource@),
{
    if text_eq(resource, "oabservice") {
        Ok(())
    } else {
        Err(CommandError::UnknownResource(String::from_str(resource)))
    }
}

impl CommandError {
    /// The text the error is reported with.
    pub open spec fn message_text(&self) -> Seq<char> {
        match self {
            CommandError::NoManifests(p) => "no manifests found at "@ + p@,
            CommandError::UnknownResource(t) => "unknown resource type: "@ + t@
                + ". Use 'oabservice'"@,
            CommandError::GenerationsExhausted(s) => "no configuration generation left for "@
                + s@,
        }
    }

    /// The text the error is reported with.
    pub fn message(&self) -> (text: String)
        ensures
            text@ == self.message_text(),
    {
        match self {
            CommandError::NoManifests(p) => String::from_str("no manifests found at ").concat(
                p.as_str(),
            ),
            CommandError::UnknownResource(t) => String::from_str("unknown resource type: ").concat(
                t.as_str(),
            ).concat(". Use 'oabservice'"),
            CommandError::GenerationsExhausted(s) => String::from_str(
                "no configuration generation left for ",
            ).concat(s.as_str()),
        }
    }
}

/// The requests the operations send to AWS.
#[derive(Debug, Clone, Copy, PartialEq, Eq)]
pub enum Request {
    /// `apply`: list the stored configurations of the agent.
    ListConfigGenerations,
    /// `apply`: upload the rendered configuration.
    UploadConfig,
    /// `apply`: upload the manifest record.
    UploadManifest,
    /// `apply`: register the task definition.
    RegisterTaskDefinition,
    /// `apply`: look up the service.
    DescribeService,
    /// `apply`: update the service.
    UpdateService,
    /// `apply`: create the service.
    CreateService,
    /// `get`: list the services of the cluster.
    ListServices,
    /// `get`: describe a batch of services.
    DescribeServices,
    /// `get`: read a service's task definition.
    DescribeTaskDefinition,
    /// `delete`: scale the service to zero.
    ScaleToZero,
    /// `delete`: delete the service.
    DeleteService,
    /// `delete`: remove the manifest record.
    DeleteManifest,
    /// `delete`: list the stored configurations.
    ListConfigObjects,
    /// `delete`: remove one stored configuration.
    DeleteConfigObject,
}

/// What a failed request means: `Some(context)` when the operation stops with that
/// context, `None` when it goes on (a failed service lookup counts as "not active", a
/// failed task-definition lookup shows `-`, and `delete`'s clean-up steps are best-effort).
pub open spec fn failure_context_text(request: Request) -> Option<Seq<char>> {
    match request {
        Request::ListConfigGenerations => Some("failed to list stored configurations"@),
        Request::UploadConfig => Some("failed to upload config to S3"@),
        Request::UploadManifest => Some("failed to upload manifest to S3"@),
        Request::RegisterTaskDefinition => Some("failed to register task definition"@),
        Request::DescribeService => None,
        Request::UpdateService => Some("failed to update ECS service"@),
        Request::CreateService => Some("failed to create ECS service"@),
        Request::ListServices => Some("failed to list ECS services"@),
        Request::DescribeServices => Some("failed to describe ECS services"@),
        Request::DescribeTaskDefinition => None,
        Request::ScaleToZero => None,
        Request::DeleteService => Some("failed to delete ECS service"@),
        Request::DeleteManifest => None,
        Request::ListConfigObjects => None,
        Request::DeleteConfigObject => None,
    }
}

/// What a failed request means: the context the operation stops with, or `None` when
/// the failure is passed over.
pub fn failure_context(request: Request) -> (context: Option<String>)
    ensures
        match (context, failure_context_text(request)) {
            (Some(c), Some(t)) => c@ == t,
            (None, None) => true,
            _ => false,
        },
{
    match request {
        Request::ListConfigGenerations => Some(String::from_str("failed to list stored configurations")),
        Request::UploadConfig => Some(String::from_str("failed to upload config to S3")),
        Request::UploadManifest => Some(String::from_str("failed to upload manifest to S3")),
        Request::RegisterTaskDefinition => Some(String::from_str("failed to register task definition")),
        Request::DescribeService => None,
        Request::UpdateService => Some(String::from_str("failed to update ECS service")),
        Request::CreateService => Some(String::from_str("failed to create ECS service")),
        Request::ListServices => Some(String::from_str("failed to list ECS services")),
        Request::DescribeServices => Some(String::from_str("failed to describe ECS services")),
        Request::DescribeTaskDefinition => None,
        Request::ScaleToZero => None,
        Request::DeleteService => Some(String::from_str("failed to delete ECS service")),
        Request::DeleteManifest => None,
        Request::ListConfigObjects => None,
        Request::DeleteConfigObject => None,
    }
}

} // verus!
