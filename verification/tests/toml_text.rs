use oabctl::command::{failure_context, Request};
use oabctl::config::render_config_toml;
use oabctl::manifest::{AgentConfig, BackendConfig, ChannelConfig, ChannelValue, SteeringConfig};
use oabctl::toml::{escape_text, format_key};

#[test]
fn basic_string_escapes() {
    assert_eq!(escape_text("plain", false), "plain");
    assert_eq!(escape_text("say \"hi\"", false), "say \\\"hi\\\"");
    assert_eq!(escape_text("a\\b", false), "a\\\\b");
    assert_eq!(escape_text("l1\nl2\tx\r", false), "l1\\nl2\\tx\\r");
    assert_eq!(escape_text("\u{1}\u{7f}", false), "\\u0001\\u007F");
    assert_eq!(escape_text("caf\u{e9}", false), "caf\u{e9}");
}

#[test]
fn multiline_string_keeps_line_breaks() {
    assert_eq!(escape_text("a\n\"\"\"b", true), "a\n\\\"\\\"\\\"b");
}

#[test]
fn keys_are_quoted_only_when_needed() {
    assert_eq!(format_key("guild_id-2"), "guild_id-2");
    assert_eq!(format_key("bot token"), "\"bot token\"");
    assert_eq!(format_key("a.b"), "\"a.b\"");
    assert_eq!(format_key(""), "\"\"");
}

#[test]
fn rendered_config_escapes_values_and_keys() {
    let c = AgentConfig {
        channels: vec![ChannelConfig {
            channel_type: "dis\"cord".to_string(),
            extra: vec![("room name".to_string(), ChannelValue::Text("a\\b".to_string()))],
        }],
        backend: Some(BackendConfig { backend_type: "x".to_string(), model_id: None, region: None }),
        steering: Some(SteeringConfig { system_prompt: Some("Say \"hi\".\nThen stop.".to_string()) }),
        features: None,
    };
    assert!(c.is_well_formed());
    assert_eq!(
        render_config_toml(&c),
        "[backend]\ntype = \"x\"\n\n[[channels]]\ntype = \"dis\\\"cord\"\n\"room name\" = \"a\\\\b\"\n\n[steering]\nsystem_prompt = \"\"\"\nSay \\\"hi\\\".\nThen stop.\n\"\"\"\n"
    );
}

#[test]
fn channel_well_formedness() {
    let dup = ChannelConfig {
        channel_type: "slack".to_string(),
        extra: vec![
            ("a".to_string(), ChannelValue::Other),
            ("a".to_string(), ChannelValue::Text("x".to_string())),
        ],
    };
    assert!(!dup.is_well_formed());
    let typed = ChannelConfig {
        channel_type: "slack".to_string(),
        extra: vec![("type".to_string(), ChannelValue::Other)],
    };
    assert!(!typed.is_well_formed());
    let ok = ChannelConfig {
        channel_type: "slack".to_string(),
        extra: vec![("a".to_string(), ChannelValue::Other), ("b".to_string(), ChannelValue::Other)],
    };
    assert!(ok.is_well_formed());
    let config = AgentConfig { channels: vec![ok, dup], backend: None, steering: None, features: None };
    assert!(!config.is_well_formed());
}

#[test]
fn failure_policy() {
    assert_eq!(failure_context(Request::UploadConfig).as_deref(), Some("failed to upload config to S3"));
    assert_eq!(failure_context(Request::UploadManifest).as_deref(), Some("failed to upload manifest to S3"));
    assert_eq!(failure_context(Request::RegisterTaskDefinition).as_deref(), Some("failed to register task definition"));
    assert_eq!(failure_context(Request::UpdateService).as_deref(), Some("failed to update ECS service"));
    assert_eq!(failure_context(Request::CreateService).as_deref(), Some("failed to create ECS service"));
    assert_eq!(failure_context(Request::ListServices).as_deref(), Some("failed to list ECS services"));
    assert_eq!(failure_context(Request::DescribeServices).as_deref(), Some("failed to describe ECS services"));
    assert_eq!(failure_context(Request::DeleteService).as_deref(), Some("failed to delete ECS service"));
    assert_eq!(failure_context(Request::ListConfigGenerations).as_deref(), Some("failed to list stored configurations"));
    assert_eq!(failure_context(Request::DescribeService), None);
    assert_eq!(failure_context(Request::DescribeTaskDefinition), None);
    assert_eq!(failure_context(Request::ScaleToZero), None);
    assert_eq!(failure_context(Request::DeleteManifest), None);
    assert_eq!(failure_context(Request::ListConfigObjects), None);
    assert_eq!(failure_context(Request::DeleteConfigObject), None);
}
