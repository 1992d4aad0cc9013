//! Rendering of an agent's configuration to the `config.toml` text that the agent
//! reads at startup.
use vstd::prelude::*;
use crate::manifest::{AgentConfig, BackendConfig, ChannelConfig, ChannelValue, FeaturesConfig, SteeringConfig};
use crate::text::{bool_text, bool_string};
use crate::toml::{escape_text, escaped, format_key, key_text};

verus! {

/// `key = "value"` on a line of its own, the value escaped as a TOML basic string; the
/// key is written as given.
pub open spec fn quoted_line(key: Seq<char>, value: Seq<char>) -> Seq<char> {
    key + " = \""@ + escaped(value, false) + "\"\n"@
}

/// A quoted line for an optional value: nothing when it is absent.
pub open spec fn optional_line(key: Seq<char>, value: Option<String>) -> Seq<char> {
    match value {
        Some(v) => quoted_line(key, v@),
        None => Seq::empty(),
    }
}

/// The `[backend]` table, followed by an empty line; nothing without a backend.
pub open spec fn backend_section(backend: Option<BackendConfig>) -> Seq<char> {
    match backend {
        Some(b) => "[backend]\n"@ + quoted_line("type"@, b.backend_type@) + optional_line(
            "model_id"@,
            b.model_id,
        ) + optional_line("region"@, b.region) + "\n"@,
        None => Seq::empty(),
    }
}

/// The line of one extra channel setting, its key bare or quoted: string values only,
/// others are left out.
pub open spec fn extra_line(entry: (String, ChannelValue)) -> Seq<char> {
    match entry.1 {
        ChannelValue::Text(s) => quoted_line(key_text(entry.0@), s@),
        ChannelValue::Other => Seq::empty(),
    }
}

/// The lines of a channel's extra settings, in order.
pub open spec fn extra_lines(extra: Seq<(String, ChannelValue)>) -> Seq<char>
    decreases extra.len(),
{
    if extra.len() == 0 {
        Seq::empty()
    } else {
        extra_lines(extra.drop_last()) + extra_line(extra.last())
    }
}

/// One `[[channels]]` table.
pub open spec fn channel_block(channel: ChannelConfig) -> Seq<char> {
    "[[channels]]\n"@ + quoted_line("type"@, channel.channel_type@) + extra_lines(channel.extra@)
}

/// The `[[channels]]` tables, in order, separated by empty lines.
pub open spec fn channels_section(channels: Seq<ChannelConfig>) -> Seq<char>
    decreases channels.len(),
{
    if channels.len() == 0 {
        Seq::empty()
    } else if channels.len() == 1 {
        channel_block(channels[0])
    } else {
        channels_section(channels.drop_last()) + "\n"@ + channel_block(channels.last())
    }
}

/// The `[steering]` table after an empty line, with the system prompt as an escaped
/// multi-line string when there is one; nothing without steering.
pub open spec fn steering_section(steering: Option<SteeringConfig>) -> Seq<char> {
    match steering {
        Some(s) => "\n[steering]\n"@ + match s.system_prompt {
            Some(p) => "system_prompt = \"\"\"\n"@ + escaped(p@, true) + "\n\"\"\"\n"@,
            None => Seq::empty(),
        },
        None => Seq::empty(),
    }
}

/// The `[features]` table after an empty line; nothing without features.
pub open spec fn features_section(features: Option<FeaturesConfig>) -> Seq<char> {
    match features {
        Some(f) => "\n[features]\n"@ + "stt = "@ + bool_text(f.stt) + "\n"@ + "cronjob = "@
            + bool_text(f.cronjob) + "\n"@,
        None => Seq::empty(),
    }
}

/// The whole `config.toml`: backend, channels, steering and features, in that order.
pub open spec fn config_toml(config: AgentConfig) -> Seq<char> {
    backend_section(config.backend) + channels_section(config.channels@) + steering_section(
        config.steering,
    ) + features_section(config.features)
}

/// Appends `key = "value"` and a line break to `out`.
fn append_quoted_line(out: &mut String, key: &str, value: &str)
    ensures
        final(out)@ == old(out)@ + quoted_line(key@, value@),
{
    out.append(key);
    out.append(" = \"");
    out.append(escape_text(value, false).as_str());
    out.append("\"\n");
}

/// Appends the `[backend]` table.
fn append_backend(out: &mut String, backend: &Option<BackendConfig>)
    ensures
        final(out)@ == old(out)@ + backend_section(*backend),
{
    if let Some(b) = backend {
        out.append("[backend]\n");
        append_quoted_line(out, "type", b.backend_type.as_str());
        if let Some(model) = &b.model_id {
            append_quoted_line(out, "model_id", model.as_str());
        }
        if let Some(region) = &b.region {
            append_quoted_line(out, "region", region.as_str());
        }
        out.append("\n");
    }
}

/// Appends one `[[channels]]` table.
fn append_channel(out: &mut String, channel: &ChannelConfig)
    ensures
        final(out)@ == old(out)@ + channel_block(*channel),
{
    out.append("[[channels]]\n");
    append_quoted_line(out, "type", channel.channel_type.as_str());
    let ghost start = out@;
    let n = channel.extra.len();
    let mut i: usize = 0;
    while i < n
        invariant
            n == channel.extra@.len(),
            i <= n,
            out@ == start + extra_lines(channel.extra@.take(i as int)),
        decreases n - i,
    {
        let entry = &channel.extra[i];
        if let ChannelValue::Text(s) = &entry.1 {
            append_quoted_line(out, format_key(entry.0.as_str()).as_str(), s.as_str());
        }
        assert(channel.extra@.take(i + 1).drop_last() =~= channel.extra@.take(i as int));
        i = i + 1;
    }
    assert(channel.extra@.take(n as int) =~= channel.extra@);
}

/// Appends the `[[channels]]` tables.
fn append_channels(out: &mut String, channels: &Vec<ChannelConfig>)
    ensures
        final(out)@ == old(out)@ + channels_section(channels@),
{
    let ghost start = out@;
    let n = channels.len();
    let mut i: usize = 0;
    while i < n
        invariant
            n == channels@.len(),
            i <= n,
            out@ == start + channels_section(channels@.take(i as int)),
        decreases n - i,
    {
        if i > 0 {
            out.append("\n");
        }
        append_channel(out, &channels[i]);
        assert(channels@.take(i + 1).drop_last() =~= channels@.take(i as int));
        proof {
            if i == 0 {
                assert(channels@.take(0) =~= Seq::<ChannelConfig>::empty());
                assert(channels_section(channels@.take(0)) =~= Seq::<char>::empty());
            }
        }
        assert(out@ =~= start + channels_section(channels@.take(i + 1)));
        i = i + 1;
    }
    assert(channels@.take(n as int) =~= channels@);
}

/// Appends the `[steering]` table.
fn append_steering(out: &mut String, steering: &Option<SteeringConfig>)
    ensures
        final(out)@ == old(out)@ + steering_section(*steering),
{
    if let Some(s) = steering {
        out.append("\n[steering]\n");
        if let Some(prompt) = &s.system_prompt {
            out.append("system_prompt = \"\"\"\n");
            out.append(escape_text(prompt.as_str(), true).as_str());
            out.append("\n\"\"\"\n");
        }
    }
}

/// Appends the `[features]` table.
fn append_features(out: &mut String, features: &Option<FeaturesConfig>)
    ensures
        final(out)@ == old(out)@ + features_section(*features),
{
    if let Some(f) = features {
        out.append("\n[features]\n");
        out.append("stt = ");
        out.append(bool_string(f.stt).as_str());
        out.append("\n");
        out.append("cronjob = ");
        out.append(bool_string(f.cronjob).as_str());
        out.append("\n");
    }
}

/// Renders the agent configuration to `config.toml`: the backend table, the channel
/// tables, the steering table and the features table, each only where present.
pub fn render_config_toml(config: &AgentConfig) -> (toml: String)
    requires
        config.well_formed(),
    ensures
        toml@ == config_toml(*config),
{
    let mut out = String::new();
    append_backend(&mut out, &config.backend);
    append_channels(&mut out, &config.channels);
    append_steering(&mut out, &config.steering);
    append_features(&mut out, &config.features);
    assert(out@ =~= config_toml(*config));
    out
}

} // verus!
