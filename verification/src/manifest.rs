//! The `OABService` manifest: its data, the rules a manifest must satisfy, and the
//! ECS service name it deploys to.
use vstd::prelude::*;
use crate::text::text_eq;

verus! {

/// A declared agent service: `apiVersion`, `kind`, `metadata` and `spec`.
#[derive(Debug)]
pub struct OABServiceManifest {
    pub api_version: String,
    pub kind: String,
    pub metadata: Metadata,
    pub spec: Spec,
}

/// The identity of a manifest.
#[derive(Debug)]
pub struct Metadata {
    pub name: String,
    pub namespace: String,
}

/// The desired infrastructure of an agent service.
#[derive(Debug)]
pub struct Spec {
    pub capacity_provider: String,
    pub cpu: i32,
    pub memory: i32,
    pub task_definition: TaskDefinition,
    pub bootstrap_from: Option<String>,
    pub networking: Networking,
    pub config: AgentConfig,
    pub secrets: Vec<SecretRef>,
}

/// The container image of the service's task.
#[derive(Debug)]
pub struct TaskDefinition {
    pub image: String,
}

/// The awsvpc networking of the service.
#[derive(Debug)]
pub struct Networking {
    pub subnets: Vec<String>,
    pub security_groups: Vec<String>,
    pub assign_public_ip: bool,
}

/// A secret injected into the container: an environment name and where its value lives.
#[derive(Debug)]
pub struct SecretRef {
    pub name: String,
    pub value_from: String,
}

/// The agent-level configuration that is rendered to `config.toml`.
#[derive(Debug)]
pub struct AgentConfig {
    pub channels: Vec<ChannelConfig>,
    pub backend: Option<BackendConfig>,
    pub steering: Option<SteeringConfig>,
    pub features: Option<FeaturesConfig>,
}

/// A value of a channel's extra settings: a string, or any other YAML value (which the
/// rendering leaves out).
#[derive(Debug)]
pub enum ChannelValue {
    Text(String),
    Other,
}

/// A chat channel: its type and its further settings, as key and value in the order
/// in which they are to be rendered. As read from a YAML mapping, the settings have
/// distinct keys and none is `type` (`well_formed`).
#[derive(Debug)]
pub struct ChannelConfig {
    pub channel_type: String,
    pub extra: Vec<(String, ChannelValue)>,
}

/// The model backend of the agent.
#[derive(Debug)]
pub struct BackendConfig {
    pub backend_type: String,
    pub model_id: Option<String>,
    pub region: Option<String>,
}

/// Steering of the agent.
#[derive(Debug)]
pub struct SteeringConfig {
    pub system_prompt: Option<String>,
}

/// Optional agent features.
#[derive(Debug)]
pub struct FeaturesConfig {
    pub stt: bool,
    pub cronjob: bool,
}

/// Why a manifest is refused.
#[derive(Debug)]
pub enum ManifestError {
    UnsupportedApiVersion(String),
    UnsupportedKind(String),
    MissingName,
    MissingNamespace,
    InvalidCapacityProvider,
    NoSubnets,
    NoSecurityGroups,
}

/// The capacity provider a manifest gets when it names none.
pub fn default_capacity_provider() -> (provider: String)
    ensures
        provider@ == "FARGATE"@,
{
    String::from_str("FARGATE")
}

/// The ECS service name of the agent `name` in `namespace`: `oab-{namespace}-{name}`.
pub open spec fn service_name_of(namespace: Seq<char>, name: Seq<char>) -> Seq<char> {
    "oab-"@ + namespace + "-"@ + name
}

/// The ECS service name of the agent `name` in `namespace`.
pub fn service_name(namespace: &str, name: &str) -> (service: String)
    ensures
        service@ == service_name_of(namespace@, name@),
{
    String::from_str("oab-").concat(namespace).concat("-").concat(name)
}

impl OABServiceManifest {
    /// The api version is the supported one.
    pub open spec fn api_version_ok(&self) -> bool {
        self.api_version@ == "oab.dev/v1"@
    }

    /// The kind is the supported one.
    pub open spec fn kind_ok(&self) -> bool {
        self.kind@ == "OABService"@
    }

    /// The capacity provider is one of the two that ECS Fargate offers.
    pub open spec fn capacity_provider_ok(&self) -> bool {
        self.spec.capacity_provider@ == "FARGATE"@ || self.spec.capacity_provider@
            == "FARGATE_SPOT"@
    }

    /// Every rule that `validate` checks holds.
    pub open spec fn is_valid(&self) -> bool {
        &&& self.api_version_ok()
        &&& self.kind_ok()
        &&& self.metadata.name@.len() > 0
        &&& self.metadata.namespace@.len() > 0
        &&& self.capacity_provider_ok()
        &&& self.spec.networking.subnets.len() > 0
        &&& self.spec.networking.security_groups.len() > 0
    }

    /// `e` is the error for the first rule, in the order in which `validate` checks
    /// them, that the manifest breaks; false when it breaks none.
    pub open spec fn rejected_with(&self, e: ManifestError) -> bool {
        if !self.api_version_ok() {
            e matches ManifestError::UnsupportedApiVersion(v) && v@ == self.api_version@
        } else if !self.kind_ok() {
            e matches ManifestError::UnsupportedKind(k) && k@ == self.kind@
        } else if self.metadata.name@.len() == 0 {
            e is MissingName
        } else if self.metadata.namespace@.len() == 0 {
            e is MissingNamespace
        } else if !self.capacity_provider_ok() {
            e is InvalidCapacityProvider
        } else if self.spec.networking.subnets.len() == 0 {
            e is NoSubnets
        } else if self.spec.networking.security_groups.len() == 0 {
            e is NoSecurityGroups
        } else {
            false
        }
    }

    /// Checks the manifest's rules in order and reports the first one it breaks.
    pub fn validate(&self) -> (r: Result<(), ManifestError>)
        ensures
            r is Ok <==> self.is_valid(),
            r matches Err(e) ==> self.rejected_with(e),
    {
        if !text_eq(self.api_version.as_str(), "oab.dev/v1") {
            return Err(ManifestError::UnsupportedApiVersion(self.api_version.clone()));
        }
        if !text_eq(self.kind.as_str(), "OABService") {
            return Err(ManifestError::UnsupportedKind(self.kind.clone()));
        }
        if self.metadata.name.as_str().unicode_len() == 0 {
            return Err(ManifestError::MissingName);
        }
        if self.metadata.namespace.as_str().unicode_len() == 0 {
            return Err(ManifestError::MissingNamespace);
        }
        let cp = self.spec.capacity_provider.as_str();
        if !(text_eq(cp, "FARGATE") || text_eq(cp, "FARGATE_SPOT")) {
            return Err(ManifestError::InvalidCapacityProvider);
        }
        if self.spec.networking.subnets.len() == 0 {
            return Err(ManifestError::NoSubnets);
        }
        if self.spec.networking.security_groups.len() == 0 {
            return Err(ManifestError::NoSecurityGroups);
        }
        Ok(())
    }

    /// The ECS service name of this manifest: `oab-{namespace}-{name}`.
    pub fn ecs_service_name(&self) -> (service: String)
        ensures
            service@ == service_name_of(self.metadata.namespace@, self.metadata.name@),
    {
        service_name(self.metadata.namespace.as_str(), self.metadata.name.as_str())
    }
}

impl ManifestError {
    /// The text the error is reported with.
    pub open spec fn message_text(&self) -> Seq<char> {
        match self {
            ManifestError::UnsupportedApiVersion(v) => "unsupported apiVersion: "@ + v@,
            ManifestError::UnsupportedKind(k) => "unsupported kind: "@ + k@,
            ManifestError::MissingName => "metadata.name is required"@,
            ManifestError::MissingNamespace => "metadata.namespace is required"@,
            ManifestError::InvalidCapacityProvider =>
                "capacityProvider must be FARGATE or FARGATE_SPOT"@,
            ManifestError::NoSubnets => "networking.subnets must not be empty"@,
            ManifestError::NoSecurityGroups => "networking.securityGroups must not be empty"@,
        }
    }

    /// The text the error is reported with.
    pub fn message(&self) -> (text: String)
        ensures
            text@ == self.message_text(),
    {
        match self {
            ManifestError::UnsupportedApiVersion(v) => String::from_str(
                "unsupported apiVersion: ",
            ).concat(v.as_str()),
            ManifestError::UnsupportedKind(k) => String::from_str("unsupported kind: ").concat(
                k.as_str(),
            ),
            ManifestError::MissingName => String::from_str("metadata.name is required"),
            ManifestError::MissingNamespace => String::from_str("metadata.namespace is required"),
            ManifestError::InvalidCapacityProvider => String::from_str(
                "capacityProvider must be FARGATE or FARGATE_SPOT",
            ),
            ManifestError::NoSubnets => String::from_str("networking.subnets must not be empty"),
            ManifestError::NoSecurityGroups => String::from_str(
                "networking.securityGroups must not be empty",
            ),
        }
    }
}

impl ChannelConfig {
    /// The extra settings have distinct keys, and none of them is `type`, the key that
    /// holds the channel type: what a YAML mapping gives.
    pub open spec fn well_formed(&self) -> bool {
        &&& forall|i: int, j: int|
            0 <= i < j < self.extra@.len() ==> (#[trigger] self.extra@[i]).0@ != (
            #[trigger] self.extra@[j]).0@
        &&& forall|i: int| 0 <= i < self.extra@.len() ==> (#[trigger] self.extra@[i]).0@ != "type"@
    }

    /// Whether the extra settings have distinct keys, none of them `type`.
    pub fn is_well_formed(&self) -> (ok: bool)
        ensures
            ok == self.well_formed(),
    {
        let n = self.extra.len();
        let mut i: usize = 0;
        while i < n
            invariant
                n == self.extra@.len(),
                i <= n,
                forall|a: int, b: int|
                    0 <= a < i && a < b < n ==> (#[trigger] self.extra@[a]).0@ != (
                    #[trigger] self.extra@[b]).0@,
                forall|a: int| 0 <= a < i ==> (#[trigger] self.extra@[a]).0@ != "type"@,
            decreases n - i,
        {
            if text_eq(self.extra[i].0.as_str(), "type") {
                return false;
            }
            let mut j: usize = i + 1;
            while j < n
                invariant
                    n == self.extra@.len(),
                    i < n,
                    i + 1 <= j <= n,
                    forall|b: int| i < b < j ==> self.extra@[i as int].0@ != (
                    #[trigger] self.extra@[b]).0@,
                decreases n - j,
            {
                if text_eq(self.extra[i].0.as_str(), self.extra[j].0.as_str()) {
                    return false;
                }
                j = j + 1;
            }
            i = i + 1;
        }
        true
    }
}

impl AgentConfig {
    /// Every channel is well formed.
    pub open spec fn well_formed(&self) -> bool {
        forall|i: int| 0 <= i < self.channels@.len() ==> (#[trigger] self.channels@[i]).well_formed()
    }

    /// Whether every channel is well formed.
    pub fn is_well_formed(&self) -> (ok: bool)
        ensures
            ok == self.well_formed(),
    {
        let n = self.channels.len();
        let mut i: usize = 0;
        while i < n
            invariant
                n == self.channels@.len(),
                i <= n,
                forall|a: int| 0 <= a < i ==> (#[trigger] self.channels@[a]).well_formed(),
            decreases n - i,
        {
            if !self.channels[i].is_well_formed() {
                return false;
            }
            i = i + 1;
        }
        true
    }
}

} // verus!
