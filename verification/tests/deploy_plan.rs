use oabctl::deploy::{
    apply_outcome_line, has_manifest_extension, next_apply_step, plan_apply, service_action,
    ApplyStep, ServiceAction,
};
use oabctl::manifest::{
    AgentConfig, FeaturesConfig, ManifestError, Metadata, Networking, OABServiceManifest,
    SecretRef, Spec, TaskDefinition,
};
use oabctl::command::CommandError;
use oabctl::deploy::plan_generation;
use oabctl::teardown::plan_delete;

fn sample(name: &str) -> OABServiceManifest {
    OABServiceManifest {
        api_version: "oab.dev/v1".to_string(),
        kind: "OABService".to_string(),
        metadata: Metadata { name: name.to_string(), namespace: "prod".to_string() },
        spec: Spec {
            capacity_provider: "FARGATE_SPOT".to_string(),
            cpu: 256,
            memory: 512,
            task_definition: TaskDefinition { image: "repo/openab:latest".to_string() },
            bootstrap_from: Some("s3://oab-backups/agents/kiro-01/latest.tar.gz".to_string()),
            networking: Networking {
                subnets: vec!["subnet-aaa".to_string(), "subnet-bbb".to_string()],
                security_groups: vec!["sg-oab".to_string()],
                assign_public_ip: true,
            },
            config: AgentConfig {
                channels: vec![],
                backend: None,
                steering: None,
                features: Some(FeaturesConfig { stt: false, cronjob: true }),
            },
            secrets: vec![SecretRef {
                name: "DISCORD_TOKEN".to_string(),
                value_from: "/oab/prod/kiro-01/discord-token".to_string(),
            }],
        },
    }
}

#[test]
fn plan_names_objects_and_service() {
    let m = sample("kiro-01");
    let p = plan_apply(&m, 1);
    assert_eq!(p.bucket, "oab-control-plane");
    assert_eq!(p.config_key, "config/prod/kiro-01/1/config.toml");
    assert_eq!(p.manifest_key, "manifests/prod/kiro-01.yaml");
    assert_eq!(p.config_body, "\n[features]\nstt = false\ncronjob = true\n");
    assert_eq!(p.task.family, "oab-prod-kiro-01");
    assert_eq!(p.task.container_name, "openab");
    assert_eq!(p.task.compatibility, "FARGATE");
    assert_eq!(p.task.network_mode, "awsvpc");
    assert!(p.task.essential);
    assert!(p.service.launch_type.is_none());
    assert_eq!(p.task.image, "repo/openab:latest");
    assert_eq!(p.task.cpu, "256");
    assert_eq!(p.task.memory, "512");
    assert_eq!(p.service.cluster, "default");
    assert_eq!(p.service.service_name, "oab-prod-kiro-01");
    assert_eq!(p.service.subnets, vec!["subnet-aaa".to_string(), "subnet-bbb".to_string()]);
    assert_eq!(p.service.security_groups, vec!["sg-oab".to_string()]);
    assert!(p.service.assign_public_ip);
    assert_eq!(p.service.capacity_provider, "FARGATE_SPOT");
    assert_eq!(p.service.desired_count, 1);
    assert_eq!(p.service.capacity_weight, 1);
    assert_eq!(p.service.maximum_percent, 200);
    assert_eq!(p.service.minimum_healthy_percent, 100);
}

#[test]
fn plan_environment_and_secrets() {
    let m = sample("kiro-01");
    let p = plan_apply(&m, 1);
    let env: Vec<(String, String)> =
        p.task.environment.iter().map(|e| (e.name.clone(), e.value.clone())).collect();
    assert_eq!(
        env,
        vec![
            ("NAMESPACE".to_string(), "prod".to_string()),
            ("NAME".to_string(), "kiro-01".to_string()),
            (
                "CONFIG_S3_PATH".to_string(),
                "s3://oab-control-plane/config/prod/kiro-01/1/config.toml".to_string()
            ),
            (
                "BOOTSTRAP_FROM".to_string(),
                "s3://oab-backups/agents/kiro-01/latest.tar.gz".to_string()
            ),
        ]
    );
    let secrets = p.task.secrets.expect("secrets are declared");
    assert_eq!(secrets.len(), 1);
    assert_eq!(secrets[0].name, "DISCORD_TOKEN");
    assert_eq!(secrets[0].value_from, "/oab/prod/kiro-01/discord-token");
}

#[test]
fn no_bootstrap_and_no_secrets() {
    let mut m = sample("cc-01");
    m.spec.bootstrap_from = None;
    m.spec.secrets.clear();
    m.spec.cpu = 1024;
    m.spec.memory = 2048;
    let p = plan_apply(&m, 1);
    assert_eq!(p.task.environment.len(), 3);
    assert!(p.task.secrets.is_none());
    assert_eq!(p.task.cpu, "1024");
    assert_eq!(p.task.memory, "2048");
}

#[test]
fn service_is_updated_only_when_active() {
    assert_eq!(service_action(&Some(vec![Some("ACTIVE".to_string())])), ServiceAction::Update);
    assert_eq!(service_action(&Some(vec![Some("INACTIVE".to_string())])), ServiceAction::Create);
    assert_eq!(service_action(&Some(vec![Some("DRAINING".to_string())])), ServiceAction::Create);
    assert_eq!(service_action(&Some(vec![None])), ServiceAction::Create);
    assert_eq!(service_action(&Some(vec![])), ServiceAction::Create);
    assert_eq!(service_action(&None), ServiceAction::Create);
    assert_eq!(
        service_action(&Some(vec![Some("INACTIVE".to_string()), Some("ACTIVE".to_string())])),
        ServiceAction::Create
    );
}

#[test]
fn outcome_lines() {
    let m = sample("kiro-01");
    assert_eq!(apply_outcome_line(&m, ServiceAction::Update), "  \u{2713} kiro-01 updated");
    assert_eq!(
        apply_outcome_line(&m, ServiceAction::Create),
        "  \u{2713} kiro-01 created (FARGATE_SPOT, 256cpu/512mem)"
    );
}

#[test]
fn manifest_extensions() {
    assert!(has_manifest_extension(Some("yaml")));
    assert!(has_manifest_extension(Some("yml")));
    assert!(!has_manifest_extension(Some("YAML")));
    assert!(!has_manifest_extension(Some("json")));
    assert!(!has_manifest_extension(None));
}

#[test]
fn apply_run_stops_at_first_invalid_manifest() {
    let mut bad = sample("b");
    bad.spec.networking.security_groups.clear();
    let ms = vec![sample("a"), bad, sample("c")];
    assert!(matches!(next_apply_step(&ms, 0), ApplyStep::Apply(0)));
    assert!(matches!(
        next_apply_step(&ms, 1),
        ApplyStep::Refuse(1, ManifestError::NoSecurityGroups)
    ));
}

#[test]
fn apply_run_over_valid_manifests_finishes() {
    let ms = vec![sample("a"), sample("b")];
    assert!(matches!(next_apply_step(&ms, 1), ApplyStep::Apply(1)));
    assert!(matches!(next_apply_step(&ms, 2), ApplyStep::Finished(2)));
    assert!(matches!(next_apply_step(&vec![], 0), ApplyStep::NothingFound));
}

#[test]
fn delete_removes_what_apply_created() {
    let m = sample("kiro-01");
    let applied = plan_apply(&m, 1);
    let deleted = plan_delete("oabservice", "kiro-01", "prod").expect("known resource");
    assert_eq!(deleted.service_name, applied.service.service_name);
    assert_eq!(deleted.bucket, applied.bucket);
    assert_eq!(deleted.manifest_key, applied.manifest_key);
    assert_eq!(deleted.config_prefix, "config/prod/kiro-01/");
    assert!(applied.config_key.starts_with(&deleted.config_prefix));
}

#[test]
fn reapplying_targets_the_same_agent() {
    let first = sample("kiro-01");
    let mut second = sample("kiro-01");
    second.spec.cpu = 512;
    second.spec.capacity_provider = "FARGATE".to_string();
    let p1 = plan_apply(&first, 1);
    let p2 = plan_apply(&second, 2);
    assert_eq!(p1.service.service_name, p2.service.service_name);
    assert_eq!(p1.task.family, p2.task.family);
    assert_eq!(p1.manifest_key, p2.manifest_key);
    assert_ne!(p1.config_key, p2.config_key);
    assert_eq!(p2.task.cpu, "512");
}

#[test]
fn first_apply_uses_generation_one() {
    let m = sample("kiro-01");
    assert_eq!(plan_generation(&m, &vec![]).ok(), Some(1));
}

#[test]
fn next_generation_is_above_every_stored_one() {
    let m = sample("kiro-01");
    let listed = vec![
        "config/prod/kiro-01/1/config.toml".to_string(),
        "config/prod/kiro-01/7/config.toml".to_string(),
        "config/prod/kiro-01/3/config.toml".to_string(),
        "config/prod/kiro-01/notes.txt".to_string(),
        "config/prod/kiro-01/08/config.toml".to_string(),
    ];
    let g = plan_generation(&m, &listed).ok().expect("a generation is left");
    assert_eq!(g, 8);
    let p = plan_apply(&m, g);
    assert_eq!(p.config_key, "config/prod/kiro-01/8/config.toml");
    assert!(!listed.contains(&p.config_key));
}

#[test]
fn reapply_does_not_overwrite_the_configuration() {
    let m = sample("kiro-01");
    let first = plan_apply(&m, plan_generation(&m, &vec![]).ok().unwrap());
    let listed = vec![first.config_key.clone()];
    let second = plan_apply(&m, plan_generation(&m, &listed).ok().unwrap());
    assert_eq!(second.config_key, "config/prod/kiro-01/2/config.toml");
    assert_ne!(first.config_key, second.config_key);
}

#[test]
fn generations_run_out_at_the_largest() {
    let m = sample("kiro-01");
    let listed = vec![format!("config/prod/kiro-01/{}/config.toml", u64::MAX)];
    match plan_generation(&m, &listed) {
        Err(e) => {
            assert!(matches!(e, CommandError::GenerationsExhausted(ref s) if s == "oab-prod-kiro-01"));
            assert_eq!(e.message(), "no configuration generation left for oab-prod-kiro-01");
        }
        Ok(g) => panic!("generation {} planned", g),
    }
}

#[test]
fn delete_scales_to_zero_and_forces() {
    let d = plan_delete("oabservice", "kiro-01", "prod").expect("known resource");
    assert_eq!(d.scale_to, 0);
    assert!(d.force_delete);
}
