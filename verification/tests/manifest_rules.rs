use oabctl::manifest::{
    default_capacity_provider, service_name, AgentConfig, ManifestError, Metadata, Networking,
    OABServiceManifest, SecretRef, Spec, TaskDefinition,
};

fn sample() -> OABServiceManifest {
    OABServiceManifest {
        api_version: "oab.dev/v1".to_string(),
        kind: "OABService".to_string(),
        metadata: Metadata { name: "kiro-01".to_string(), namespace: "prod".to_string() },
        spec: Spec {
            capacity_provider: "FARGATE_SPOT".to_string(),
            cpu: 256,
            memory: 512,
            task_definition: TaskDefinition { image: "repo/openab:latest".to_string() },
            bootstrap_from: None,
            networking: Networking {
                subnets: vec!["subnet-aaa".to_string()],
                security_groups: vec!["sg-oab".to_string()],
                assign_public_ip: false,
            },
            config: AgentConfig { channels: vec![], backend: None, steering: None, features: None },
            secrets: vec![SecretRef {
                name: "DISCORD_TOKEN".to_string(),
                value_from: "/oab/prod/kiro-01/discord-token".to_string(),
            }],
        },
    }
}

fn message_of(m: &OABServiceManifest) -> String {
    match m.validate() {
        Ok(()) => panic!("manifest was accepted"),
        Err(e) => e.message(),
    }
}

#[test]
fn valid_manifest_is_accepted() {
    assert!(sample().validate().is_ok());
}

#[test]
fn plain_fargate_is_accepted() {
    let mut m = sample();
    m.spec.capacity_provider = "FARGATE".to_string();
    assert!(m.validate().is_ok());
}

#[test]
fn default_capacity_provider_is_fargate() {
    assert_eq!(default_capacity_provider(), "FARGATE");
}

#[test]
fn wrong_api_version_is_refused() {
    let mut m = sample();
    m.api_version = "oab.dev/v2".to_string();
    assert!(matches!(m.validate(), Err(ManifestError::UnsupportedApiVersion(ref v)) if v == "oab.dev/v2"));
    assert_eq!(message_of(&m), "unsupported apiVersion: oab.dev/v2");
}

#[test]
fn wrong_kind_is_refused() {
    let mut m = sample();
    m.kind = "Deployment".to_string();
    assert!(matches!(m.validate(), Err(ManifestError::UnsupportedKind(ref k)) if k == "Deployment"));
    assert_eq!(message_of(&m), "unsupported kind: Deployment");
}

#[test]
fn empty_name_is_refused() {
    let mut m = sample();
    m.metadata.name = String::new();
    assert!(matches!(m.validate(), Err(ManifestError::MissingName)));
    assert_eq!(message_of(&m), "metadata.name is required");
}

#[test]
fn empty_namespace_is_refused() {
    let mut m = sample();
    m.metadata.namespace = String::new();
    assert!(matches!(m.validate(), Err(ManifestError::MissingNamespace)));
    assert_eq!(message_of(&m), "metadata.namespace is required");
}

#[test]
fn unknown_capacity_provider_is_refused() {
    let mut m = sample();
    m.spec.capacity_provider = "EC2".to_string();
    assert!(matches!(m.validate(), Err(ManifestError::InvalidCapacityProvider)));
    assert_eq!(message_of(&m), "capacityProvider must be FARGATE or FARGATE_SPOT");
}

#[test]
fn capacity_provider_is_case_sensitive() {
    let mut m = sample();
    m.spec.capacity_provider = "fargate".to_string();
    assert!(matches!(m.validate(), Err(ManifestError::InvalidCapacityProvider)));
}

#[test]
fn no_subnets_is_refused() {
    let mut m = sample();
    m.spec.networking.subnets.clear();
    assert!(matches!(m.validate(), Err(ManifestError::NoSubnets)));
    assert_eq!(message_of(&m), "networking.subnets must not be empty");
}

#[test]
fn no_security_groups_is_refused() {
    let mut m = sample();
    m.spec.networking.security_groups.clear();
    assert!(matches!(m.validate(), Err(ManifestError::NoSecurityGroups)));
    assert_eq!(message_of(&m), "networking.securityGroups must not be empty");
}

#[test]
fn first_broken_rule_is_reported() {
    let mut m = sample();
    m.kind = "Other".to_string();
    m.metadata.name = String::new();
    m.spec.networking.subnets.clear();
    assert!(matches!(m.validate(), Err(ManifestError::UnsupportedKind(_))));
    m.kind = "OABService".to_string();
    assert!(matches!(m.validate(), Err(ManifestError::MissingName)));
}

#[test]
fn ecs_service_name_joins_namespace_and_name() {
    assert_eq!(sample().ecs_service_name(), "oab-prod-kiro-01");
    assert_eq!(service_name("staging", "cc-02"), "oab-staging-cc-02");
}
