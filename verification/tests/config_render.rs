use oabctl::config::render_config_toml;
use oabctl::manifest::{
    AgentConfig, BackendConfig, ChannelConfig, ChannelValue, FeaturesConfig, SteeringConfig,
};

fn empty() -> AgentConfig {
    AgentConfig { channels: vec![], backend: None, steering: None, features: None }
}

#[test]
fn empty_config_renders_nothing() {
    assert_eq!(render_config_toml(&empty()), "");
}

#[test]
fn backend_with_model_and_region() {
    let mut c = empty();
    c.backend = Some(BackendConfig {
        backend_type: "bedrock".to_string(),
        model_id: Some("titan-text-lite-v1".to_string()),
        region: Some("us-east-1".to_string()),
    });
    assert_eq!(
        render_config_toml(&c),
        "[backend]\ntype = \"bedrock\"\nmodel_id = \"titan-text-lite-v1\"\nregion = \"us-east-1\"\n\n"
    );
}

#[test]
fn backend_without_optional_fields() {
    let mut c = empty();
    c.backend = Some(BackendConfig { backend_type: "openai".to_string(), model_id: None, region: None });
    assert_eq!(render_config_toml(&c), "[backend]\ntype = \"openai\"\n\n");
}

#[test]
fn channels_are_separated_by_blank_lines_and_keep_only_string_settings() {
    let mut c = empty();
    c.channels = vec![
        ChannelConfig {
            channel_type: "discord".to_string(),
            extra: vec![
                ("guild".to_string(), ChannelValue::Text("123".to_string())),
                ("threads".to_string(), ChannelValue::Other),
            ],
        },
        ChannelConfig { channel_type: "slack".to_string(), extra: vec![] },
    ];
    assert_eq!(
        render_config_toml(&c),
        "[[channels]]\ntype = \"discord\"\nguild = \"123\"\n\n[[channels]]\ntype = \"slack\"\n"
    );
}

#[test]
fn steering_with_and_without_prompt() {
    let mut c = empty();
    c.steering = Some(SteeringConfig { system_prompt: Some("Be brief.".to_string()) });
    assert_eq!(render_config_toml(&c), "\n[steering]\nsystem_prompt = \"\"\"\nBe brief.\n\"\"\"\n");
    c.steering = Some(SteeringConfig { system_prompt: None });
    assert_eq!(render_config_toml(&c), "\n[steering]\n");
}

#[test]
fn features_render_as_booleans() {
    let mut c = empty();
    c.features = Some(FeaturesConfig { stt: false, cronjob: true });
    assert_eq!(render_config_toml(&c), "\n[features]\nstt = false\ncronjob = true\n");
}

#[test]
fn full_config_in_section_order() {
    let c = AgentConfig {
        channels: vec![ChannelConfig { channel_type: "discord".to_string(), extra: vec![] }],
        backend: Some(BackendConfig { backend_type: "bedrock".to_string(), model_id: None, region: None }),
        steering: Some(SteeringConfig { system_prompt: Some("hi".to_string()) }),
        features: Some(FeaturesConfig { stt: true, cronjob: false }),
    };
    assert_eq!(
        render_config_toml(&c),
        "[backend]\ntype = \"bedrock\"\n\n[[channels]]\ntype = \"discord\"\n\n[steering]\nsystem_prompt = \"\"\"\nhi\n\"\"\"\n\n[features]\nstt = true\ncronjob = false\n"
    );
}
