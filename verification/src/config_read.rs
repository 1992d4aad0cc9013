//! What a reader of `config.toml` finds in it: the items (tables, arrays of tables and
//! key/value pairs) that stand for the agent configuration, and the proof that the
//! text of each part of the document reads as exactly these items.
use vstd::prelude::*;
use crate::config::{
    backend_section, channel_block, channels_section, extra_line, extra_lines,
    features_section, optional_line, quoted_line, steering_section,
};
use crate::manifest::{
    AgentConfig, BackendConfig, ChannelConfig, ChannelValue, FeaturesConfig, SteeringConfig,
};
use crate::text::bool_text;
use crate::toml::{
    TomlItem, TomlValue, bare_run, escaped, is_bare_key, is_bare_key_char, key_text,
    lemma_escaped_no_leading_quote, lemma_scan_escaped, parse_doc, parse_key, parse_line,
    parse_value, scan_basic, starts,
};

verus! {

/// A key/value pair with a string value.
pub open spec fn text_pair(key: Seq<char>, value: Seq<char>) -> TomlItem {
    TomlItem::Pair(key, TomlValue::Text(value))
}

/// A pair for an optional value: none when it is absent.
pub open spec fn optional_items(key: Seq<char>, value: Option<String>) -> Seq<TomlItem> {
    match value {
        Some(v) => seq![text_pair(key, v@)],
        None => Seq::empty(),
    }
}

/// The `backend` table: its type, model and region.
pub open spec fn backend_items(backend: Option<BackendConfig>) -> Seq<TomlItem> {
    match backend {
        Some(b) => seq![
            TomlItem::Table("backend"@),
            text_pair("type"@, b.backend_type@),
        ] + optional_items("model_id"@, b.model_id) + optional_items("region"@, b.region),
        None => Seq::empty(),
    }
}

/// The pairs of a channel's string settings, in order.
pub open spec fn extra_items(extra: Seq<(String, ChannelValue)>) -> Seq<TomlItem>
    decreases extra.len(),
{
    if extra.len() == 0 {
        Seq::empty()
    } else {
        extra_items(extra.drop_last()) + match extra.last().1 {
            ChannelValue::Text(s) => seq![text_pair(extra.last().0@, s@)],
            ChannelValue::Other => Seq::empty(),
        }
    }
}

/// One element of the `channels` array: its type and string settings.
pub open spec fn channel_items(channel: ChannelConfig) -> Seq<TomlItem> {
    seq![TomlItem::ArrayTable("channels"@), text_pair("type"@, channel.channel_type@)]
        + extra_items(channel.extra@)
}

/// The elements of the `channels` array, in order.
pub open spec fn channels_items(channels: Seq<ChannelConfig>) -> Seq<TomlItem>
    decreases channels.len(),
{
    if channels.len() == 0 {
        Seq::empty()
    } else {
        channels_items(channels.drop_last()) + channel_items(channels.last())
    }
}

/// The `steering` table: the system prompt followed by a line break, as the
/// multi-line string gives it.
pub open spec fn steering_items(steering: Option<SteeringConfig>) -> Seq<TomlItem> {
    match steering {
        Some(s) => seq![TomlItem::Table("steering"@)] + match s.system_prompt {
            Some(p) => seq![text_pair("system_prompt"@, p@.push('\n'))],
            None => Seq::empty(),
        },
        None => Seq::empty(),
    }
}

/// The `features` table.
pub open spec fn features_items(features: Option<FeaturesConfig>) -> Seq<TomlItem> {
    match features {
        Some(f) => seq![
            TomlItem::Table("features"@),
            TomlItem::Pair("stt"@, TomlValue::Flag(f.stt)),
            TomlItem::Pair("cronjob"@, TomlValue::Flag(f.cronjob)),
        ],
        None => Seq::empty(),
    }
}

/// The items a reader finds in the `config.toml` of `config`.
pub open spec fn config_items(config: AgentConfig) -> Seq<TomlItem> {
    backend_items(config.backend) + channels_items(config.channels@) + steering_items(
        config.steering,
    ) + features_items(config.features)
}

/// A blank line is skipped.
proof fn lemma_blank(rest: Seq<char>)
    ensures
        parse_doc(seq!['\n'] + rest) == parse_doc(rest),
{
    reveal(parse_doc);
    let t = seq!['\n'] + rest;
    assert(t.subrange(1, t.len() as int) =~= rest);
}

/// A line that reads as an item, followed by the rest of the document.
proof fn lemma_line(line: Seq<char>, item: TomlItem, rest: Seq<char>, r: Seq<TomlItem>)
    requires
        line.len() > 0,
        line[0] != '\n',
        parse_line(line + rest) == Some((item, line.len() as int)),
        parse_doc(rest) == Some(r),
    ensures
        parse_doc(line + rest) == Some(seq![item] + r),
{
    reveal(parse_doc);
    let t = line + rest;
    assert(t[0] == line[0]);
    assert(t.subrange(line.len() as int, t.len() as int) =~= rest);
}

/// A closing delimiter ends a string body at once.
proof fn lemma_scan_close(t: Seq<char>, multiline: bool)
    requires
        t.len() > 0,
        t[0] == '"',
        multiline ==> (t.len() >= 3 && t[1] == '"' && t[2] == '"'),
    ensures
        scan_basic(t, multiline) == Some((Seq::<char>::empty(), 0int)),
{
    reveal(scan_basic);
}

/// The run of bare-key characters ends where the bare key does.
proof fn lemma_bare_run(k: Seq<char>, tail: Seq<char>)
    requires
        forall|i: int| 0 <= i < k.len() ==> is_bare_key_char(#[trigger] k[i]),
        tail.len() > 0,
        !is_bare_key_char(tail[0]),
    ensures
        bare_run(k + tail) == k.len(),
    decreases k.len(),
{
    reveal(bare_run);
    let t = k + tail;
    if k.len() == 0 {
        assert(t =~= tail);
    } else {
        assert(t.subrange(1, t.len() as int) =~= k.drop_first() + tail);
        assert forall|i: int| 0 <= i < k.drop_first().len() implies is_bare_key_char(
            #[trigger] k.drop_first()[i],
        ) by {
            assert(k.drop_first()[i] == k[i + 1]);
        }
        lemma_bare_run(k.drop_first(), tail);
        assert(t[0] == k[0]);
    }
}

/// A key followed by a space reads back as the key.
proof fn lemma_key(k: Seq<char>, tail: Seq<char>)
    requires
        tail.len() > 0,
        tail[0] == ' ',
    ensures
        parse_key(key_text(k) + tail) == Some((k, key_text(k).len() as int)),
        key_text(k).len() > 0,
        key_text(k)[0] != '[',
        key_text(k)[0] != '\n',
{
    reveal(parse_key);
    let t = key_text(k) + tail;
    if is_bare_key(k) {
        lemma_bare_run(k, tail);
        assert(t[0] == k[0]);
        assert(is_bare_key_char(k[0]));
        assert(t.subrange(0, k.len() as int) =~= k);
    } else {
        let rest = seq!['"'] + tail;
        lemma_scan_close(rest, false);
        lemma_scan_escaped(k, false, rest);
        assert(t.subrange(1, t.len() as int) =~= escaped(k, false) + rest);
    }
}

/// A bare literal key is written as it is.
proof fn lemma_bare_literal(k: Seq<char>)
    requires
        is_bare_key(k),
    ensures
        key_text(k) == k,
{
}

/// `key = value` on a line, followed by the rest of the document, reads as the pair.
proof fn lemma_pair_line(k: Seq<char>, vt: Seq<char>, v: TomlValue, rest: Seq<char>)
    requires
        parse_value(vt + seq!['\n'] + rest) == Some((v, vt.len() as int)),
    ensures
        parse_line(key_text(k) + seq![' ', '=', ' '] + vt + seq!['\n'] + rest) == Some(
            (TomlItem::Pair(k, v), (key_text(k).len() + vt.len() + 4) as int),
        ),
        key_text(k).len() > 0,
        key_text(k)[0] != '\n',
{
    reveal(parse_line);
    let kt = key_text(k);
    let after_key = seq![' ', '=', ' '] + vt + seq!['\n'] + rest;
    let t = kt + seq![' ', '=', ' '] + vt + seq!['\n'] + rest;
    assert(t =~= kt + after_key);
    lemma_key(k, after_key);
    let a = kt.len() as int;
    assert(t[0] == kt[0]);
    assert(t.subrange(0, 2)[0] == t[0]);
    assert(!starts(t, seq!['[', '[']));
    assert(t.subrange(a, t.len() as int) =~= after_key);
    assert(after_key.subrange(0, 3) =~= seq![' ', '=', ' ']);
    assert(t.subrange(a + 3, t.len() as int) =~= vt + seq!['\n'] + rest);
    let b = vt.len() as int;
    let nl = t.subrange(a + 3 + b, t.len() as int);
    assert(nl =~= seq!['\n'] + rest);
    assert(nl.subrange(0, 1) =~= seq!['\n']);
}

/// `key = value` reads as the pair, followed by the items of the rest.
proof fn lemma_pair(k: Seq<char>, vt: Seq<char>, v: TomlValue, rest: Seq<char>, r: Seq<TomlItem>)
    requires
        parse_value(vt + seq!['\n'] + rest) == Some((v, vt.len() as int)),
        parse_doc(rest) == Some(r),
    ensures
        parse_doc(key_text(k) + seq![' ', '=', ' '] + vt + seq!['\n'] + rest) == Some(
            seq![TomlItem::Pair(k, v)] + r,
        ),
{
    lemma_pair_line(k, vt, v, rest);
    let line = key_text(k) + seq![' ', '=', ' '] + vt + seq!['\n'];
    assert(line + rest =~= key_text(k) + seq![' ', '=', ' '] + vt + seq!['\n'] + rest);
    assert(line[0] == key_text(k)[0]);
    lemma_line(line, TomlItem::Pair(k, v), rest, r);
}

/// A basic string reads back as the text it was escaped from.
proof fn lemma_quoted_value(v: Seq<char>, tail: Seq<char>)
    requires
        tail.len() > 0,
        tail[0] == '\n',
    ensures
        parse_value(seq!['"'] + escaped(v, false) + seq!['"'] + tail) == Some(
            (TomlValue::Text(v), (escaped(v, false).len() + 2) as int),
        ),
{
    reveal(parse_value);
    let e = escaped(v, false);
    let u = seq!['"'] + e + seq!['"'] + tail;
    if v.len() > 0 {
        lemma_escaped_no_leading_quote(v, false);
        assert(u[1] == e[0]);
        assert(u.subrange(0, 3)[1] == u[1]);
    } else {
        assert(e =~= Seq::<char>::empty());
        assert(u[2] == '\n');
        assert(u.subrange(0, 3)[2] == u[2]);
    }
    assert(!starts(u, seq!['"', '"', '"']));
    let close = seq!['"'] + tail;
    lemma_scan_close(close, false);
    lemma_scan_escaped(v, false, close);
    assert(u.subrange(1, u.len() as int) =~= e + close);
}

/// `true` and `false` read as the flag.
proof fn lemma_flag_value(b: bool, tail: Seq<char>)
    ensures
        parse_value(bool_text(b) + tail) == Some((TomlValue::Flag(b), bool_text(b).len() as int)),
{
    reveal(parse_value);
    let u = bool_text(b) + tail;
    assert(u[0] != '"');
    assert(u.subrange(0, 3)[0] == u[0]);
    if b {
        assert(u.subrange(0, 4) =~= seq!['t', 'r', 'u', 'e']);
    } else {
        assert(u.subrange(0, 4)[0] == u[0]);
        assert(u.subrange(0, 5) =~= seq!['f', 'a', 'l', 's', 'e']);
    }
}

/// A multi-line string that opens with a line break reads as the text it was escaped
/// from followed by the line break before the closing delimiter.
proof fn lemma_prompt_value(p: Seq<char>, tail: Seq<char>)
    ensures
        parse_value(
            seq!['"', '"', '"', '\n'] + escaped(p, true) + seq!['\n', '"', '"', '"'] + tail,
        ) == Some((TomlValue::Text(p.push('\n')), (escaped(p, true).len() + 8) as int)),
{
    reveal(parse_value);
    let e = escaped(p, true);
    let u = seq!['"', '"', '"', '\n'] + e + seq!['\n', '"', '"', '"'] + tail;
    assert(u.subrange(0, 3) =~= seq!['"', '"', '"']);
    assert(u[3] == '\n');
    let pn = p.push('\n');
    assert(pn.drop_last() =~= p);
    assert(escaped(pn, true) =~= e + seq!['\n']);
    let close = seq!['"', '"', '"'] + tail;
    lemma_scan_close(close, true);
    lemma_scan_escaped(pn, true, close);
    assert(u.subrange(4, u.len() as int) =~= escaped(pn, true) + close);
}

/// `key = "value"` reads as the pair.
proof fn lemma_text_pair(k: Seq<char>, v: Seq<char>, rest: Seq<char>, r: Seq<TomlItem>)
    requires
        parse_doc(rest) == Some(r),
    ensures
        parse_doc(quoted_line(key_text(k), v) + rest) == Some(seq![text_pair(k, v)] + r),
{
    reveal_strlit(" = \"");
    reveal_strlit("\"\n");
    let e = escaped(v, false);
    let vt = seq!['"'] + e + seq!['"'];
    lemma_quoted_value(v, seq!['\n'] + rest);
    assert(vt + seq!['\n'] + rest =~= seq!['"'] + e + seq!['"'] + (seq!['\n'] + rest));
    lemma_pair(k, vt, TomlValue::Text(v), rest, r);
    assert(quoted_line(key_text(k), v) + rest =~= key_text(k) + seq![' ', '=', ' '] + vt + seq![
        '\n',
    ] + rest);
}

/// An optional `key = "value"` line reads as the optional pair.
proof fn lemma_optional_pair(k: Seq<char>, v: Option<String>, rest: Seq<char>, r: Seq<TomlItem>)
    requires
        is_bare_key(k),
        parse_doc(rest) == Some(r),
    ensures
        parse_doc(optional_line(k, v) + rest) == Some(optional_items(k, v) + r),
{
    match v {
        Some(s) => {
            lemma_bare_literal(k);
            lemma_text_pair(k, s@, rest, r);
        },
        None => {
            assert(optional_line(k, v) + rest =~= rest);
            assert(optional_items(k, v) + r =~= r);
        },
    }
}

/// `key = true` or `key = false` reads as the pair.
proof fn lemma_flag_pair(k: Seq<char>, b: bool, rest: Seq<char>, r: Seq<TomlItem>)
    requires
        is_bare_key(k),
        parse_doc(rest) == Some(r),
    ensures
        parse_doc(k + seq![' ', '=', ' '] + bool_text(b) + seq!['\n'] + rest) == Some(
            seq![TomlItem::Pair(k, TomlValue::Flag(b))] + r,
        ),
{
    lemma_bare_literal(k);
    lemma_flag_value(b, seq!['\n'] + rest);
    assert(bool_text(b) + seq!['\n'] + rest =~= bool_text(b) + (seq!['\n'] + rest));
    lemma_pair(k, bool_text(b), TomlValue::Flag(b), rest, r);
}

/// `key = """` + line break + prompt + line break + `"""` reads as the pair whose
/// value is the prompt followed by a line break.
proof fn lemma_prompt_pair(k: Seq<char>, p: Seq<char>, rest: Seq<char>, r: Seq<TomlItem>)
    requires
        is_bare_key(k),
        parse_doc(rest) == Some(r),
    ensures
        parse_doc(
            k + seq![' ', '=', ' ', '"', '"', '"', '\n'] + escaped(p, true) + seq![
                '\n',
                '"',
                '"',
                '"',
                '\n',
            ] + rest,
        ) == Some(seq![text_pair(k, p.push('\n'))] + r),
{
    let e = escaped(p, true);
    let vt = seq!['"', '"', '"', '\n'] + e + seq!['\n', '"', '"', '"'];
    lemma_bare_literal(k);
    lemma_prompt_value(p, seq!['\n'] + rest);
    assert(vt + seq!['\n'] + rest =~= seq!['"', '"', '"', '\n'] + e + seq!['\n', '"', '"', '"']
        + (seq!['\n'] + rest));
    lemma_pair(k, vt, TomlValue::Text(p.push('\n')), rest, r);
    assert(k + seq![' ', '=', ' ', '"', '"', '"', '\n'] + e + seq!['\n', '"', '"', '"', '\n']
        + rest =~= k + seq![' ', '=', ' '] + vt + seq!['\n'] + rest);
}

/// `[name]` reads as the table header.
proof fn lemma_table_header(name: Seq<char>, rest: Seq<char>, r: Seq<TomlItem>)
    requires
        is_bare_key(name),
        parse_doc(rest) == Some(r),
    ensures
        parse_doc(seq!['['] + name + seq![']', '\n'] + rest) == Some(
            seq![TomlItem::Table(name)] + r,
        ),
{
    let line = seq!['['] + name + seq![']', '\n'];
    let t = line + rest;
    let tail = seq![']', '\n'] + rest;
    assert(t.subrange(1, t.len() as int) =~= name + tail);
    lemma_bare_run(name, tail);
    assert(t[1] == name[0]);
    assert(is_bare_key_char(name[0]));
    assert(t.subrange(0, 2)[1] == t[1]);
    assert(!starts(t, seq!['[', '[']));
    let n = name.len() as int;
    assert(t.subrange(1 + n, t.len() as int) =~= tail);
    assert(tail.subrange(0, 2) =~= seq![']', '\n']);
    assert(t.subrange(1, 1 + n) =~= name);
    assert(parse_line(t) == Some((TomlItem::Table(name), line.len() as int))) by {
        reveal(parse_line);
    }
    lemma_line(line, TomlItem::Table(name), rest, r);
}

/// `[[name]]` reads as the array-of-tables header.
proof fn lemma_array_header(name: Seq<char>, rest: Seq<char>, r: Seq<TomlItem>)
    requires
        is_bare_key(name),
        parse_doc(rest) == Some(r),
    ensures
        parse_doc(seq!['[', '['] + name + seq![']', ']', '\n'] + rest) == Some(
            seq![TomlItem::ArrayTable(name)] + r,
        ),
{
    let line = seq!['[', '['] + name + seq![']', ']', '\n'];
    let t = line + rest;
    let tail = seq![']', ']', '\n'] + rest;
    assert(t.subrange(2, t.len() as int) =~= name + tail);
    lemma_bare_run(name, tail);
    assert(t.subrange(0, 2) =~= seq!['[', '[']);
    let n = name.len() as int;
    assert(t.subrange(2 + n, t.len() as int) =~= tail);
    assert(tail.subrange(0, 3) =~= seq![']', ']', '\n']);
    assert(t.subrange(2, 2 + n) =~= name);
    assert(parse_line(t) == Some((TomlItem::ArrayTable(name), line.len() as int))) by {
        reveal(parse_line);
    }
    lemma_line(line, TomlItem::ArrayTable(name), rest, r);
}

/// The literal names and keys of `config.toml` are bare keys.
proof fn lemma_literals()
    ensures
        is_bare_key("backend"@),
        is_bare_key("channels"@),
        is_bare_key("steering"@),
        is_bare_key("features"@),
        is_bare_key("type"@),
        is_bare_key("model_id"@),
        is_bare_key("region"@),
        is_bare_key("system_prompt"@),
        is_bare_key("stt"@),
        is_bare_key("cronjob"@),
{
    reveal_strlit("backend");
    reveal_strlit("channels");
    reveal_strlit("steering");
    reveal_strlit("features");
    reveal_strlit("type");
    reveal_strlit("model_id");
    reveal_strlit("region");
    reveal_strlit("system_prompt");
    reveal_strlit("stt");
    reveal_strlit("cronjob");
}

/// The backend table reads as its items.
pub(crate) proof fn lemma_backend(b: Option<BackendConfig>, rest: Seq<char>, r: Seq<TomlItem>)
    requires
        parse_doc(rest) == Some(r),
    ensures
        parse_doc(backend_section(b) + rest) == Some(backend_items(b) + r),
{
    match b {
        None => {
            assert(backend_section(b) + rest =~= rest);
            assert(backend_items(b) + r =~= r);
        },
        Some(bk) => {
            lemma_literals();
            reveal_strlit("[backend]\n");
            reveal_strlit("backend");
            reveal_strlit("\n");
            let r1 = seq!['\n'] + rest;
            lemma_blank(rest);
            let l3 = optional_line("region"@, bk.region);
            lemma_optional_pair("region"@, bk.region, r1, r);
            let i3 = optional_items("region"@, bk.region) + r;
            let r2 = l3 + r1;
            let l2 = optional_line("model_id"@, bk.model_id);
            lemma_optional_pair("model_id"@, bk.model_id, r2, i3);
            let i2 = optional_items("model_id"@, bk.model_id) + i3;
            let r3 = l2 + r2;
            lemma_bare_literal("type"@);
            lemma_text_pair("type"@, bk.backend_type@, r3, i2);
            let i1 = seq![text_pair("type"@, bk.backend_type@)] + i2;
            let r4 = quoted_line("type"@, bk.backend_type@) + r3;
            lemma_table_header("backend"@, r4, i1);
            assert("[backend]\n"@ =~= seq!['['] + "backend"@ + seq![']', '\n']);
            assert(backend_section(b) + rest =~= seq!['['] + "backend"@ + seq![']', '\n'] + r4);
            assert(backend_items(b) + r =~= seq![TomlItem::Table("backend"@)] + i1);
        },
    }
}

/// A channel's extra settings read as their pairs.
proof fn lemma_extras(extra: Seq<(String, ChannelValue)>, rest: Seq<char>, r: Seq<TomlItem>)
    requires
        parse_doc(rest) == Some(r),
    ensures
        parse_doc(extra_lines(extra) + rest) == Some(extra_items(extra) + r),
    decreases extra.len(),
{
    if extra.len() == 0 {
        assert(extra_lines(extra) + rest =~= rest);
        assert(extra_items(extra) + r =~= r);
    } else {
        let last = extra.last();
        let last_items = match last.1 {
            ChannelValue::Text(s) => seq![text_pair(last.0@, s@)],
            ChannelValue::Other => Seq::<TomlItem>::empty(),
        };
        match last.1 {
            ChannelValue::Text(s) => {
                lemma_text_pair(last.0@, s@, rest, r);
            },
            ChannelValue::Other => {
                assert(extra_line(last) + rest =~= rest);
                assert(last_items + r =~= r);
            },
        }
        let r1 = extra_line(last) + rest;
        lemma_extras(extra.drop_last(), r1, last_items + r);
        assert(extra_lines(extra) + rest =~= extra_lines(extra.drop_last()) + r1);
        assert(extra_items(extra) + r =~= extra_items(extra.drop_last()) + (last_items + r));
    }
}

/// One channel table reads as its items.
proof fn lemma_channel(ch: ChannelConfig, rest: Seq<char>, r: Seq<TomlItem>)
    requires
        parse_doc(rest) == Some(r),
    ensures
        parse_doc(channel_block(ch) + rest) == Some(channel_items(ch) + r),
{
    lemma_literals();
    reveal_strlit("[[channels]]\n");
    reveal_strlit("channels");
    lemma_extras(ch.extra@, rest, r);
    let r1 = extra_lines(ch.extra@) + rest;
    let i1 = extra_items(ch.extra@) + r;
    lemma_bare_literal("type"@);
    lemma_text_pair("type"@, ch.channel_type@, r1, i1);
    let r2 = quoted_line("type"@, ch.channel_type@) + r1;
    let i2 = seq![text_pair("type"@, ch.channel_type@)] + i1;
    lemma_array_header("channels"@, r2, i2);
    assert("[[channels]]\n"@ =~= seq!['[', '['] + "channels"@ + seq![']', ']', '\n']);
    assert(channel_block(ch) + rest =~= seq!['[', '['] + "channels"@ + seq![']', ']', '\n'] + r2);
    assert(channel_items(ch) + r =~= seq![TomlItem::ArrayTable("channels"@)] + i2);
}

/// The channel tables, separated by blank lines, read as their items.
pub(crate) proof fn lemma_channels(chs: Seq<ChannelConfig>, rest: Seq<char>, r: Seq<TomlItem>)
    requires
        parse_doc(rest) == Some(r),
    ensures
        parse_doc(channels_section(chs) + rest) == Some(channels_items(chs) + r),
    decreases chs.len(),
{
    if chs.len() == 0 {
        assert(channels_section(chs) + rest =~= rest);
        assert(channels_items(chs) + r =~= r);
    } else if chs.len() == 1 {
        lemma_channel(chs[0], rest, r);
        assert(chs.drop_last() =~= Seq::<ChannelConfig>::empty());
        assert(channels_items(chs.drop_last()) =~= Seq::<TomlItem>::empty());
        assert(chs.last() == chs[0]);
        assert(channels_items(chs) + r =~= channel_items(chs[0]) + r);
    } else {
        reveal_strlit("\n");
        lemma_channel(chs.last(), rest, r);
        let r1 = channel_block(chs.last()) + rest;
        let i1 = channel_items(chs.last()) + r;
        lemma_blank(r1);
        let r2 = seq!['\n'] + r1;
        lemma_channels(chs.drop_last(), r2, i1);
        assert(channels_section(chs) + rest =~= channels_section(chs.drop_last()) + r2);
        assert(channels_items(chs) + r =~= channels_items(chs.drop_last()) + i1);
    }
}

/// The steering table reads as its items.
pub(crate) proof fn lemma_steering(s: Option<SteeringConfig>, rest: Seq<char>, r: Seq<TomlItem>)
    requires
        parse_doc(rest) == Some(r),
    ensures
        parse_doc(steering_section(s) + rest) == Some(steering_items(s) + r),
{
    match s {
        None => {
            assert(steering_section(s) + rest =~= rest);
            assert(steering_items(s) + r =~= r);
        },
        Some(st) => {
            lemma_literals();
            reveal_strlit("\n[steering]\n");
            reveal_strlit("steering");
            let (body, items) = match st.system_prompt {
                Some(p) => {
                    reveal_strlit("system_prompt = \"\"\"\n");
                    reveal_strlit("\n\"\"\"\n");
                    reveal_strlit("system_prompt");
                    lemma_prompt_pair("system_prompt"@, p@, rest, r);
                    assert("system_prompt = \"\"\"\n"@ + escaped(p@, true) + "\n\"\"\"\n"@ + rest
                        =~= "system_prompt"@ + seq![' ', '=', ' ', '"', '"', '"', '\n'] + escaped(
                        p@,
                        true,
                    ) + seq!['\n', '"', '"', '"', '\n'] + rest);
                    (
                        "system_prompt = \"\"\"\n"@ + escaped(p@, true) + "\n\"\"\"\n"@,
                        seq![text_pair("system_prompt"@, p@.push('\n'))],
                    )
                },
                None => {
                    assert(Seq::<char>::empty() + rest =~= rest);
                    assert(Seq::<TomlItem>::empty() + r =~= r);
                    (Seq::<char>::empty(), Seq::<TomlItem>::empty())
                },
            };
            let r1 = body + rest;
            let i1 = items + r;
            lemma_table_header("steering"@, r1, i1);
            lemma_blank(seq!['['] + "steering"@ + seq![']', '\n'] + r1);
            assert("\n[steering]\n"@ =~= seq!['\n'] + (seq!['['] + "steering"@ + seq![']', '\n']));
            assert(steering_section(s) + rest =~= seq!['\n'] + (seq!['['] + "steering"@ + seq![
                ']',
                '\n',
            ] + r1));
            assert(steering_items(s) + r =~= seq![TomlItem::Table("steering"@)] + i1);
        },
    }
}

/// The features table reads as its items.
pub(crate) proof fn lemma_features(f: Option<FeaturesConfig>, rest: Seq<char>, r: Seq<TomlItem>)
    requires
        parse_doc(rest) == Some(r),
    ensures
        parse_doc(features_section(f) + rest) == Some(features_items(f) + r),
{
    match f {
        None => {
            assert(features_section(f) + rest =~= rest);
            assert(features_items(f) + r =~= r);
        },
        Some(ft) => {
            lemma_literals();
            reveal_strlit("\n[features]\n");
            reveal_strlit("features");
            reveal_strlit("stt = ");
            reveal_strlit("stt");
            reveal_strlit("cronjob = ");
            reveal_strlit("cronjob");
            reveal_strlit("\n");
            lemma_flag_pair("cronjob"@, ft.cronjob, rest, r);
            let r1 = "cronjob"@ + seq![' ', '=', ' '] + bool_text(ft.cronjob) + seq!['\n'] + rest;
            let i1 = seq![TomlItem::Pair("cronjob"@, TomlValue::Flag(ft.cronjob))] + r;
            lemma_flag_pair("stt"@, ft.stt, r1, i1);
            let r2 = "stt"@ + seq![' ', '=', ' '] + bool_text(ft.stt) + seq!['\n'] + r1;
            let i2 = seq![TomlItem::Pair("stt"@, TomlValue::Flag(ft.stt))] + i1;
            lemma_table_header("features"@, r2, i2);
            let r3 = seq!['['] + "features"@ + seq![']', '\n'] + r2;
            lemma_blank(r3);
            assert(features_section(f) + rest =~= seq!['\n'] + r3);
            assert(features_items(f) + r =~= seq![TomlItem::Table("features"@)] + i2);
        },
    }
}

} // verus!
