//! Planning of `apply`: the generation of the new configuration, what is uploaded where,
//! the task definition that is registered, whether the ECS service is created or
//! updated, and in which order manifests are taken.
use vstd::prelude::*;
use crate::config::{config_toml, render_config_toml};
use crate::manifest::{OABServiceManifest, ManifestError, SecretRef, service_name_of};
use crate::store::{
    bucket_name, config_key_of, config_prefix, config_prefix_of, generations_in,
    manifest_key_of, next_generation, next_generation_of, s3_uri_of, control_plane_bucket,
    config_object_key, manifest_object_key, s3_uri, stored_generations,
};
use crate::text::{int_decimal, decimal_text, text_eq, texts};
use crate::command::CommandError;

verus! {

/// An environment variable of the agent container.
#[derive(Debug)]
pub struct EnvVar {
    pub name: String,
    pub value: String,
}

/// The task definition `apply` registers.
#[derive(Debug)]
pub struct TaskPlan {
    /// The task definition family: the service name.
    pub family: String,
    /// The one launch type the task definition is compatible with.
    pub compatibility: String,
    /// The task's network mode.
    pub network_mode: String,
    /// The name of the single container.
    pub container_name: String,
    pub image: String,
    /// Whether the task stops when the container stops.
    pub essential: bool,
    pub environment: Vec<EnvVar>,
    /// The container's secrets; absent when the manifest declares none.
    pub secrets: Option<Vec<SecretRef>>,
    /// Task CPU units, in decimal.
    pub cpu: String,
    /// Task memory in MiB, in decimal.
    pub memory: String,
}

/// The ECS service `apply` creates or updates.
#[derive(Debug)]
pub struct ServicePlan {
    pub cluster: String,
    pub service_name: String,
    pub subnets: Vec<String>,
    pub security_groups: Vec<String>,
    pub assign_public_ip: bool,
    pub capacity_provider: String,
    /// Tasks the service runs when it is created.
    pub desired_count: i32,
    /// Weight of the capacity provider strategy when the service is created.
    pub capacity_weight: i32,
    pub maximum_percent: i32,
    pub minimum_healthy_percent: i32,
    /// The launch type sent when the service is created: none, since the capacity
    /// provider strategy chooses between FARGATE and FARGATE_SPOT and ECS refuses a
    /// launch type beside it.
    pub launch_type: Option<String>,
}

/// Everything `apply` does for one manifest, except the calls themselves.
#[derive(Debug)]
pub struct ApplyPlan {
    pub bucket: String,
    /// Key of the rendered configuration.
    pub config_key: String,
    /// The rendered `config.toml`.
    pub config_body: String,
    /// Key under which the manifest itself is recorded.
    pub manifest_key: String,
    pub task: TaskPlan,
    pub service: ServicePlan,
}

/// What `apply` does with the ECS service of a manifest.
#[derive(Debug, Clone, Copy, PartialEq, Eq)]
pub enum ServiceAction {
    Create,
    Update,
}

/// The environment of the agent container: `NAMESPACE`, `NAME`, `CONFIG_S3_PATH` and,
/// when the manifest names a bootstrap archive, `BOOTSTRAP_FROM`, as name and value.
pub open spec fn environment_of(m: OABServiceManifest, config_path: Seq<char>) -> Seq<
    (Seq<char>, Seq<char>),
> {
    let base = seq![
        ("NAMESPACE"@, m.metadata.namespace@),
        ("NAME"@, m.metadata.name@),
        ("CONFIG_S3_PATH"@, config_path),
    ];
    match m.spec.bootstrap_from {
        Some(b) => base.push(("BOOTSTRAP_FROM"@, b@)),
        None => base,
    }
}

/// The name and value of each environment variable.
pub open spec fn env_pairs(v: Seq<EnvVar>) -> Seq<(Seq<char>, Seq<char>)> {
    v.map_values(|e: EnvVar| (e.name@, e.value@))
}

/// The name and source of each secret.
pub open spec fn secret_pairs(v: Seq<SecretRef>) -> Seq<(Seq<char>, Seq<char>)> {
    v.map_values(|s: SecretRef| (s.name@, s.value_from@))
}

/// The `s3://` address of the configuration that `apply` uploads for `m` as `generation`.
pub open spec fn config_path_of(m: OABServiceManifest, generation: u64) -> Seq<char> {
    s3_uri_of(bucket_name(), config_key_of(m.metadata.namespace@, m.metadata.name@, generation as nat))
}

/// `plan` is exactly what `apply` does for `m` when its configuration is uploaded as
/// `generation`.
pub open spec fn plans_apply(m: OABServiceManifest, generation: u64, plan: ApplyPlan) -> bool {
    let ns = m.metadata.namespace@;
    let name = m.metadata.name@;
    let service = service_name_of(ns, name);
    &&& plan.bucket@ == bucket_name()
    &&& plan.config_key@ == config_key_of(ns, name, generation as nat)
    &&& plan.config_body@ == config_toml(m.spec.config)
    &&& plan.manifest_key@ == manifest_key_of(ns, name)
    &&& plan.task.family@ == service
    &&& plan.task.container_name@ == "openab"@
    &&& plan.task.image@ == m.spec.task_definition.image@
    &&& plan.task.compatibility@ == "FARGATE"@
    &&& plan.task.network_mode@ == "awsvpc"@
    &&& plan.task.essential
    &&& env_pairs(plan.task.environment@) == environment_of(m, config_path_of(m, generation))
    &&& match plan.task.secrets {
        None => m.spec.secrets@.len() == 0,
        Some(s) => m.spec.secrets@.len() > 0 && secret_pairs(s@) == secret_pairs(
            m.spec.secrets@,
        ),
    }
    &&& plan.task.cpu@ == int_decimal(m.spec.cpu as int)
    &&& plan.task.memory@ == int_decimal(m.spec.memory as int)
    &&& plan.service.cluster@ == "default"@
    &&& plan.service.service_name@ == service
    &&& texts(plan.service.subnets@) == texts(m.spec.networking.subnets@)
    &&& texts(plan.service.security_groups@) == texts(m.spec.networking.security_groups@)
    &&& plan.service.assign_public_ip == m.spec.networking.assign_public_ip
    &&& plan.service.capacity_provider@ == m.spec.capacity_provider@
    &&& plan.service.desired_count == 1
    &&& plan.service.capacity_weight == 1
    &&& plan.service.maximum_percent == 200
    &&& plan.service.minimum_healthy_percent == 100
    &&& plan.service.launch_type is None
}

/// A copy of a list of strings.
fn copy_texts(v: &Vec<String>) -> (c: Vec<String>)
    ensures
        texts(c@) == texts(v@),
{
    let mut out: Vec<String> = Vec::new();
    let n = v.len();
    let mut i: usize = 0;
    while i < n
        invariant
            n == v@.len(),
            i <= n,
            out@.len() == i,
            forall|j: int| 0 <= j < i ==> #[trigger] out@[j]@ == v@[j]@,
        decreases n - i,
    {
        out.push(v[i].clone());
        i = i + 1;
    }
    assert(texts(out@) =~= texts(v@));
    out
}

/// A copy of a list of secret references.
fn copy_secrets(v: &Vec<SecretRef>) -> (c: Vec<SecretRef>)
    ensures
        secret_pairs(c@) == secret_pairs(v@),
{
    let mut out: Vec<SecretRef> = Vec::new();
    let n = v.len();
    let mut i: usize = 0;
    while i < n
        invariant
            n == v@.len(),
            i <= n,
            out@.len() == i,
            forall|j: int|
                0 <= j < i ==> #[trigger] out@[j].name@ == v@[j].name@ && out@[j].value_from@
                    == v@[j].value_from@,
        decreases n - i,
    {
        let s = &v[i];
        out.push(SecretRef { name: s.name.clone(), value_from: s.value_from.clone() });
        i = i + 1;
    }
    assert(secret_pairs(out@) =~= secret_pairs(v@));
    out
}

/// An environment variable.
fn env_var(name: &str, value: &str) -> (e: EnvVar)
    ensures
        e.name@ == name@,
        e.value@ == value@,
{
    EnvVar { name: String::from_str(name), value: String::from_str(value) }
}

/// The environment of the agent container.
pub fn task_environment(m: &OABServiceManifest, config_path: &str) -> (env: Vec<EnvVar>)
    ensures
        env_pairs(env@) == environment_of(*m, config_path@),
{
    let mut env: Vec<EnvVar> = Vec::new();
    env.push(env_var("NAMESPACE", m.metadata.namespace.as_str()));
    env.push(env_var("NAME", m.metadata.name.as_str()));
    env.push(env_var("CONFIG_S3_PATH", config_path));
    if let Some(b) = &m.spec.bootstrap_from {
        env.push(env_var("BOOTSTRAP_FROM", b.as_str()));
    }
    assert(env_pairs(env@) =~= environment_of(*m, config_path@));
    env
}

/// The secrets of the agent container: those of the manifest, or none at all when it
/// declares none.
pub fn task_secrets(m: &OABServiceManifest) -> (secrets: Option<Vec<SecretRef>>)
    ensures
        match secrets {
            None => m.spec.secrets@.len() == 0,
            Some(s) => m.spec.secrets@.len() > 0 && secret_pairs(s@) == secret_pairs(
                m.spec.secrets@,
            ),
        },
{
    if m.spec.secrets.len() == 0 {
        None
    } else {
        Some(copy_secrets(&m.spec.secrets))
    }
}

/// Plans `apply` for one manifest whose configuration is uploaded as `generation`: the
/// configuration upload, the manifest record, the task definition and the ECS service.
pub fn plan_apply(m: &OABServiceManifest, generation: u64) -> (plan: ApplyPlan)
    requires
        m.spec.config.well_formed(),
    ensures
        plans_apply(*m, generation, plan),
{
    let ns = m.metadata.namespace.as_str();
    let name = m.metadata.name.as_str();
    let bucket = control_plane_bucket();
    let config_key = config_object_key(ns, name, generation);
    let config_path = s3_uri(bucket.as_str(), config_key.as_str());
    let service_name = m.ecs_service_name();
    let task = TaskPlan {
        family: service_name.clone(),
        compatibility: String::from_str("FARGATE"),
        network_mode: String::from_str("awsvpc"),
        container_name: String::from_str("openab"),
        image: m.spec.task_definition.image.clone(),
        essential: true,
        environment: task_environment(m, config_path.as_str()),
        secrets: task_secrets(m),
        cpu: decimal_text(m.spec.cpu as i64),
        memory: decimal_text(m.spec.memory as i64),
    };
    let service = ServicePlan {
        cluster: String::from_str("default"),
        service_name: service_name,
        subnets: copy_texts(&m.spec.networking.subnets),
        security_groups: copy_texts(&m.spec.networking.security_groups),
        assign_public_ip: m.spec.networking.assign_public_ip,
        capacity_provider: m.spec.capacity_provider.clone(),
        desired_count: 1,
        capacity_weight: 1,
        maximum_percent: 200,
        minimum_healthy_percent: 100,
        launch_type: None,
    };
    ApplyPlan {
        bucket: bucket,
        config_key: config_key,
        config_body: render_config_toml(&m.spec.config),
        manifest_key: manifest_object_key(ns, name),
        task: task,
        service: service,
    }
}

/// The generation a new configuration of `m` gets, from the keys listed under the
/// agent's configuration prefix: one above every generation stored there; an error
/// when the largest possible generation is already stored.
pub fn plan_generation(m: &OABServiceManifest, listed: &Vec<String>) -> (r: Result<u64, CommandError>)
    ensures
        ({
            let next = next_generation_of(
                generations_in(
                    config_prefix_of(m.metadata.namespace@, m.metadata.name@),
                    texts(listed@),
                ),
            );
            match r {
                Ok(g) => next == Some(g),
                Err(e) => next is None && (e matches CommandError::GenerationsExhausted(s)
                    && s@ == service_name_of(m.metadata.namespace@, m.metadata.name@)),
            }
        }),
{
    let prefix = config_prefix(m.metadata.namespace.as_str(), m.metadata.name.as_str());
    let stored = stored_generations(prefix.as_str(), listed);
    match next_generation(&stored) {
        Some(g) => Ok(g),
        None => Err(CommandError::GenerationsExhausted(m.ecs_service_name())),
    }
}

/// The ECS service counts as active when the lookup succeeded and the first service it
/// returned has the status `ACTIVE`.
pub open spec fn active_in(statuses: Option<Seq<Option<String>>>) -> bool {
    match statuses {
        Some(s) => s.len() > 0 && (s[0] matches Some(st) && st@ == "ACTIVE"@),
        None => false,
    }
}

/// Whether `apply` updates the service or creates it, from the statuses that the
/// service lookup returned (`None` when the lookup failed).
pub fn service_action(statuses: &Option<Vec<Option<String>>>) -> (action: ServiceAction)
    ensures
        action == (if active_in(
            match statuses {
                Some(v) => Some(v@),
                None => None,
            },
        ) {
            ServiceAction::Update
        } else {
            ServiceAction::Create
        }),
{
    match statuses {
        Some(v) => {
            if v.len() > 0 {
                match &v[0] {
                    Some(st) => {
                        if text_eq(st.as_str(), "ACTIVE") {
                            ServiceAction::Update
                        } else {
                            ServiceAction::Create
                        }
                    },
                    None => ServiceAction::Create,
                }
            } else {
                ServiceAction::Create
            }
        },
        None => ServiceAction::Create,
    }
}

/// The next step of an `apply` run over `manifests`, of which the first `next` have
/// been applied.
#[derive(Debug)]
pub enum ApplyStep {
    /// There was no manifest at all: the run fails.
    NothingFound,
    /// The manifest at this index is refused: the run stops with this error.
    Refuse(usize, ManifestError),
    /// The manifest at this index is valid and is applied next.
    Apply(usize),
    /// All manifests were applied; this many.
    Finished(usize),
}

/// Decides the next step of an `apply` run: each manifest is validated just before it
/// is applied, in order, and the run stops at the first invalid one.
pub fn next_apply_step(manifests: &Vec<OABServiceManifest>, next: usize) -> (step: ApplyStep)
    requires
        next <= manifests@.len(),
    ensures
        manifests@.len() == 0 ==> step is NothingFound,
        manifests@.len() > 0 && next == manifests@.len() ==> (step matches ApplyStep::Finished(n)
            && n == manifests@.len()),
        next < manifests@.len() && manifests@[next as int].is_valid() ==> (step matches ApplyStep::Apply(i)
            && i == next),
        next < manifests@.len() && !manifests@[next as int].is_valid() ==> (step matches ApplyStep::Refuse(i, e)
            && i == next && manifests@[next as int].rejected_with(e)),
{
    if manifests.len() == 0 {
        return ApplyStep::NothingFound;
    }
    if next == manifests.len() {
        return ApplyStep::Finished(next);
    }
    match manifests[next].validate() {
        Ok(()) => ApplyStep::Apply(next),
        Err(e) => ApplyStep::Refuse(next, e),
    }
}

/// A file is read as a manifest when its extension is `yaml` or `yml`.
pub open spec fn is_manifest_extension(extension: Option<Seq<char>>) -> bool {
    match extension {
        Some(e) => e == "yaml"@ || e == "yml"@,
        None => false,
    }
}

/// Whether a file with this extension (`None`: no extension, or one that is not text)
/// is read as a manifest when `apply` is given a directory.
pub fn has_manifest_extension(extension: Option<&str>) -> (manifest: bool)
    ensures
        manifest == is_manifest_extension(
            match extension {
                Some(e) => Some(e@),
                None => None,
            },
        ),
{
    match extension {
        Some(e) => text_eq(e, "yaml") || text_eq(e, "yml"),
        None => false,
    }
}

/// The line `apply` reports for a manifest once its service is updated or created.
pub open spec fn outcome_text(m: OABServiceManifest, action: ServiceAction) -> Seq<char> {
    match action {
        ServiceAction::Update => "  \u{2713} "@ + m.metadata.name@ + " updated"@,
        ServiceAction::Create => "  \u{2713} "@ + m.metadata.name@ + " created ("@
            + m.spec.capacity_provider@ + ", "@ + int_decimal(m.spec.cpu as int) + "cpu/"@
            + int_decimal(m.spec.memory as int) + "mem)"@,
    }
}

/// The line `apply` reports for a manifest once its service is updated or created.
pub fn apply_outcome_line(m: &OABServiceManifest, action: ServiceAction) -> (line: String)
    ensures
        line@ == outcome_text(*m, action),
{
    match action {
        ServiceAction::Update => String::from_str("  \u{2713} ").concat(
            m.metadata.name.as_str(),
        ).concat(" updated"),
        ServiceAction::Create => String::from_str("  \u{2713} ").concat(
            m.metadata.name.as_str(),
        ).concat(" created (").concat(m.spec.capacity_provider.as_str()).concat(", ").concat(
            decimal_text(m.spec.cpu as i64).as_str(),
        ).concat("cpu/").concat(decimal_text(m.spec.memory as i64).as_str()).concat("mem)"),
    }
}

} // verus!
