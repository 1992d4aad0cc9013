//! TOML text of the shape `config.toml` has: the escaped bodies of basic and multi-line
//! basic strings, keys that are quoted when they are not bare, and a reader for the
//! subset of TOML that `config.toml` is written in (table and array-of-tables headers,
//! `key = value` lines with string and boolean values, blank lines).
use vstd::prelude::*;
use crate::text::digit_char;

verus! {

/// The hexadecimal digit for `d` (0 through 15), upper case.
pub open spec fn hex_char(d: int) -> char {
    if d < 10 {
        digit_char(d)
    } else if d == 10 {
        'A'
    } else if d == 11 {
        'B'
    } else if d == 12 {
        'C'
    } else if d == 13 {
        'D'
    } else if d == 14 {
        'E'
    } else {
        'F'
    }
}

/// The value of a hexadecimal digit (either case); `None` for any other character.
pub open spec fn hex_value(c: char) -> Option<int> {
    if '0' <= c <= '9' {
        Some(c as int - '0' as int)
    } else if 'A' <= c <= 'F' {
        Some(c as int - 'A' as int + 10)
    } else if 'a' <= c <= 'f' {
        Some(c as int - 'a' as int + 10)
    } else {
        None
    }
}

/// A control character, which TOML strings may not hold as it is.
pub open spec fn is_control(c: char) -> bool {
    (c as u32) < 0x20 || (c as u32) == 0x7f
}

/// How one character is written inside a TOML string: quote and backslash escaped,
/// line feed escaped except in a multi-line string, tab and carriage return escaped,
/// other control characters as `\u00XX`, everything else as it is.
pub open spec fn escape_char(c: char, multiline: bool) -> Seq<char> {
    if c == '"' {
        seq!['\\', '"']
    } else if c == '\\' {
        seq!['\\', '\\']
    } else if c == '\n' {
        if multiline {
            seq!['\n']
        } else {
            seq!['\\', 'n']
        }
    } else if c == '\t' {
        seq!['\\', 't']
    } else if c == '\r' {
        seq!['\\', 'r']
    } else if is_control(c) {
        seq!['\\', 'u', '0', '0', hex_char(((c as u32) / 16) as int), hex_char(((c as u32) % 16) as int)]
    } else {
        seq![c]
    }
}

/// The escaped form of `s`.
pub open spec fn escaped(s: Seq<char>, multiline: bool) -> Seq<char>
    decreases s.len(),
{
    if s.len() == 0 {
        Seq::empty()
    } else {
        escaped(s.drop_last(), multiline) + escape_char(s.last(), multiline)
    }
}

/// The value of four hexadecimal digits at the start of `t`.
pub open spec fn hex4(t: Seq<char>) -> Option<int> {
    match (hex_value(t[0]), hex_value(t[1]), hex_value(t[2]), hex_value(t[3])) {
        (Some(a), Some(b), Some(c), Some(d)) => Some(((a * 16 + b) * 16 + c) * 16 + d),
        _ => None,
    }
}

/// A Unicode scalar value.
pub open spec fn is_scalar_value(v: int) -> bool {
    (0 <= v < 0xD800) || (0xE000 <= v <= 0x10FFFF)
}

/// Reads the body of a string from the start of `t` up to its closing delimiter: `"`
/// for a basic string, or, with `multiline`, `"""` for a multi-line basic string. Gives
/// the characters the body stands for and the position of the closing delimiter.
///
/// This reads the subset of TOML strings that `config.toml` is written in: the escapes
/// `\"`, `\\`, `\n`, `\t`, `\r`, `\b`, `\f` and `\uXXXX`; tab, and line feed in a
/// multi-line string, as they are. It refuses (`None`) a bare control character, an
/// unknown escape, and in a multi-line string a bare quote that does not close it. TOML
/// itself also allows `\UXXXXXXXX`, a line-ending backslash, bare quotes and CRLF
/// inside multi-line strings; `config.toml` never holds them.
#[verifier::opaque]
pub open spec fn scan_basic(t: Seq<char>, multiline: bool) -> Option<(Seq<char>, int)>
    decreases t.len(),
{
    if t.len() == 0 {
        None
    } else if t[0] == '"' {
        if !multiline {
            Some((Seq::empty(), 0))
        } else if t.len() >= 3 && t[1] == '"' && t[2] == '"' {
            Some((Seq::empty(), 0))
        } else {
            None
        }
    } else if t[0] == '\\' {
        if t.len() < 2 {
            None
        } else {
            let e = t[1];
            let rest2 = t.subrange(2, t.len() as int);
            if e == '"' || e == '\\' || e == 'n' || e == 't' || e == 'r' || e == 'b' || e
                == 'f' {
                let c = if e == 'n' {
                    '\n'
                } else if e == 't' {
                    '\t'
                } else if e == 'r' {
                    '\r'
                } else if e == 'b' {
                    '\x08'
                } else if e == 'f' {
                    '\x0c'
                } else {
                    e
                };
                match scan_basic(rest2, multiline) {
                    Some((r, m)) => Some((seq![c] + r, m + 2)),
                    None => None,
                }
            } else if e == 'u' && t.len() >= 6 {
                match hex4(t.subrange(2, 6)) {
                    Some(v) => if is_scalar_value(v) {
                        match scan_basic(t.subrange(6, t.len() as int), multiline) {
                            Some((r, m)) => Some((seq![(v as u32) as char] + r, m + 6)),
                            None => None,
                        }
                    } else {
                        None
                    },
                    None => None,
                }
            } else {
                None
            }
        }
    } else if is_control(t[0]) && t[0] != '\t' && !(multiline && t[0] == '\n') {
        None
    } else {
        match scan_basic(t.subrange(1, t.len() as int), multiline) {
            Some((r, m)) => Some((seq![t[0]] + r, m + 1)),
            None => None,
        }
    }
}

/// Escaping distributes over a first character.
pub proof fn lemma_escaped_first(s: Seq<char>, multiline: bool)
    requires
        s.len() > 0,
    ensures
        escaped(s, multiline) == escape_char(s[0], multiline) + escaped(s.drop_first(), multiline),
    decreases s.len(),
{
    if s.len() == 1 {
        assert(s.drop_last() =~= Seq::<char>::empty());
        assert(s.drop_first() =~= Seq::<char>::empty());
        assert(escaped(s.drop_last(), multiline) =~= Seq::<char>::empty());
        assert(escaped(s.drop_first(), multiline) =~= Seq::<char>::empty());
        assert(s.last() == s[0]);
        assert(escaped(s, multiline) =~= escape_char(s[0], multiline));
    } else {
        lemma_escaped_first(s.drop_last(), multiline);
        assert(s.drop_last().drop_first() =~= s.drop_first().drop_last());
        assert(s.drop_first().last() == s.last());
        assert(escaped(s, multiline) =~= escape_char(s[0], multiline) + escaped(
            s.drop_first(),
            multiline,
        ));
    }
}

/// Reading one escaped character followed by any text.
proof fn lemma_scan_escape_char(c: char, rest: Seq<char>, multiline: bool)
    ensures
        scan_basic(escape_char(c, multiline) + rest, multiline) == match scan_basic(
            rest,
            multiline,
        ) {
            Some((r, m)) => Some((seq![c] + r, m + escape_char(c, multiline).len())),
            None => None::<(Seq<char>, int)>,
        },
{
    reveal(scan_basic);
    let t = escape_char(c, multiline) + rest;
    let k = escape_char(c, multiline).len() as int;
    assert(t.subrange(k, t.len() as int) =~= rest);
    if c == '"' || c == '\\' || c == '\t' || c == '\r' || (c == '\n' && !multiline) {
        assert(t.subrange(2, t.len() as int) =~= rest);
    } else if c == '\n' {
        assert(t.subrange(1, t.len() as int) =~= rest);
    } else if is_control(c) {
        let u = c as u32;
        let hi = (u / 16) as int;
        let lo = (u % 16) as int;
        assert(0 <= hi < 8 && 0 <= lo < 16 && hi * 16 + lo == u) by (nonlinear_arith)
            requires
                u < 0x80,
                hi == u / 16,
                lo == u % 16,
        ;
        assert(hex_value(hex_char(hi)) == Some(hi));
        assert(hex_value(hex_char(lo)) == Some(lo));
        assert(t.subrange(2, 6) =~= seq!['0', '0', hex_char(hi), hex_char(lo)]);
        assert(hex4(t.subrange(2, 6)) == Some(u as int));
        assert(t.subrange(6, t.len() as int) =~= rest);
        vstd::utf8::char_u32_cast(c, u);
    } else {
        assert(t.subrange(1, t.len() as int) =~= rest);
    }
}

/// An escaped text followed by a closing delimiter reads back as the original
/// characters, and the delimiter is found right after the escaped text.
pub proof fn lemma_scan_escaped(s: Seq<char>, multiline: bool, tail: Seq<char>)
    requires
        scan_basic(tail, multiline) == Some((Seq::<char>::empty(), 0int)),
    ensures
        scan_basic(escaped(s, multiline) + tail, multiline) == Some(
            (s, escaped(s, multiline).len() as int),
        ),
    decreases s.len(),
{
    if s.len() == 0 {
        assert(escaped(s, multiline) + tail =~= tail);
        assert(s =~= Seq::<char>::empty());
    } else {
        lemma_escaped_first(s, multiline);
        lemma_scan_escaped(s.drop_first(), multiline, tail);
        let rest = escaped(s.drop_first(), multiline) + tail;
        lemma_scan_escape_char(s[0], rest, multiline);
        assert(escaped(s, multiline) + tail =~= escape_char(s[0], multiline) + rest);
        assert(seq![s[0]] + s.drop_first() =~= s);
    }
}

/// An escaped text never starts with a bare quote.
pub proof fn lemma_escaped_no_leading_quote(s: Seq<char>, multiline: bool)
    requires
        s.len() > 0,
    ensures
        escaped(s, multiline).len() > 0,
        escaped(s, multiline)[0] != '"',
{
    lemma_escaped_first(s, multiline);
}

/// A character allowed in a bare key.
pub open spec fn is_bare_key_char(c: char) -> bool {
    ('A' <= c <= 'Z') || ('a' <= c <= 'z') || ('0' <= c <= '9') || c == '_' || c == '-'
}

/// A key that can be written bare.
pub open spec fn is_bare_key(k: Seq<char>) -> bool {
    k.len() > 0 && forall|i: int| 0 <= i < k.len() ==> is_bare_key_char(#[trigger] k[i])
}

/// How a key is written: bare when it can be, otherwise as an escaped quoted key.
pub open spec fn key_text(k: Seq<char>) -> Seq<char> {
    if is_bare_key(k) {
        k
    } else {
        seq!['"'] + escaped(k, false) + seq!['"']
    }
}

/// The text of a hexadecimal digit.
fn hex_text(d: u32) -> (t: &'static str)
    requires
        d < 16,
    ensures
        t@ == seq![hex_char(d as int)],
{
    if d == 0 {
        proof {
            reveal_strlit("0");
        }
        "0"
    } else if d == 1 {
        proof {
            reveal_strlit("1");
        }
        "1"
    } else if d == 2 {
        proof {
            reveal_strlit("2");
        }
        "2"
    } else if d == 3 {
        proof {
            reveal_strlit("3");
        }
        "3"
    } else if d == 4 {
        proof {
            reveal_strlit("4");
        }
        "4"
    } else if d == 5 {
        proof {
            reveal_strlit("5");
        }
        "5"
    } else if d == 6 {
        proof {
            reveal_strlit("6");
        }
        "6"
    } else if d == 7 {
        proof {
            reveal_strlit("7");
        }
        "7"
    } else if d == 8 {
        proof {
            reveal_strlit("8");
        }
        "8"
    } else if d == 9 {
        proof {
            reveal_strlit("9");
        }
        "9"
    } else if d == 10 {
        proof {
            reveal_strlit("A");
        }
        "A"
    } else if d == 11 {
        proof {
            reveal_strlit("B");
        }
        "B"
    } else if d == 12 {
        proof {
            reveal_strlit("C");
        }
        "C"
    } else if d == 13 {
        proof {
            reveal_strlit("D");
        }
        "D"
    } else if d == 14 {
        proof {
            reveal_strlit("E");
        }
        "E"
    } else {
        proof {
            reveal_strlit("F");
        }
        "F"
    }
}

/// Appends the escaped form of one character.
fn append_escaped_char(out: &mut String, c: char, piece: &str, multiline: bool)
    requires
        piece@ == seq![c],
    ensures
        final(out)@ == old(out)@ + escape_char(c, multiline),
{
    if c == '"' {
        proof {
            reveal_strlit("\\\"");
        }
        out.append("\\\"");
    } else if c == '\\' {
        proof {
            reveal_strlit("\\\\");
        }
        out.append("\\\\");
    } else if c == '\n' {
        if multiline {
            proof {
                reveal_strlit("\n");
            }
            out.append("\n");
        } else {
            proof {
                reveal_strlit("\\n");
            }
            out.append("\\n");
        }
    } else if c == '\t' {
        proof {
            reveal_strlit("\\t");
        }
        out.append("\\t");
    } else if c == '\r' {
        proof {
            reveal_strlit("\\r");
        }
        out.append("\\r");
    } else if (c as u32) < 0x20 || (c as u32) == 0x7f {
        proof {
            reveal_strlit("\\u00");
        }
        let u = c as u32;
        out.append("\\u00");
        out.append(hex_text(u / 16));
        out.append(hex_text(u % 16));
    } else {
        out.append(piece);
    }
}

/// The escaped form of `s`, for a basic string or (with `multiline`) a multi-line
/// basic string.
pub fn escape_text(s: &str, multiline: bool) -> (t: String)
    ensures
        t@ == escaped(s@, multiline),
{
    let n = s.unicode_len();
    let mut out = String::new();
    let mut i: usize = 0;
    while i < n
        invariant
            n == s@.len(),
            i <= n,
            out@ == escaped(s@.take(i as int), multiline),
        decreases n - i,
    {
        let c = s.get_char(i);
        let piece = s.substring_char(i, i + 1);
        assert(piece@ =~= seq![c]);
        append_escaped_char(&mut out, c, piece, multiline);
        assert(s@.take(i + 1).drop_last() =~= s@.take(i as int));
        i = i + 1;
    }
    assert(s@.take(n as int) =~= s@);
    out
}

/// How a key is written: bare when it can be, otherwise quoted and escaped.
pub fn format_key(k: &str) -> (t: String)
    ensures
        t@ == key_text(k@),
{
    let n = k.unicode_len();
    let mut bare = n > 0;
    let mut i: usize = 0;
    while i < n
        invariant
            n == k@.len(),
            i <= n,
            bare == (n > 0 && forall|j: int| 0 <= j < i ==> is_bare_key_char(#[trigger] k@[j])),
        decreases n - i,
    {
        let c = k.get_char(i);
        let ok = ('A' <= c && c <= 'Z') || ('a' <= c && c <= 'z') || ('0' <= c && c <= '9')
            || c == '_' || c == '-';
        if !ok {
            bare = false;
        }
        i = i + 1;
    }
    if bare {
        String::from_str(k)
    } else {
        proof {
            reveal_strlit("\"");
        }
        String::from_str("\"").concat(escape_text(k, false).as_str()).concat("\"")
    }
}

/// A value of a key/value pair.
pub enum TomlValue {
    Text(Seq<char>),
    Flag(bool),
}

/// One line of a TOML document of the shape `config.toml` has.
pub enum TomlItem {
    /// `[name]`
    Table(Seq<char>),
    /// `[[name]]`
    ArrayTable(Seq<char>),
    /// `key = value`
    Pair(Seq<char>, TomlValue),
}

/// `t` begins with `p`.
pub open spec fn starts(t: Seq<char>, p: Seq<char>) -> bool {
    p.len() <= t.len() && t.subrange(0, p.len() as int) == p
}

/// The length of the run of bare-key characters at the start of `t`.
#[verifier::opaque]
pub open spec fn bare_run(t: Seq<char>) -> int
    decreases t.len(),
{
    if t.len() > 0 && is_bare_key_char(t[0]) {
        1 + bare_run(t.subrange(1, t.len() as int))
    } else {
        0
    }
}

/// A key at the start of `t` (bare, or a quoted basic string), and its length.
#[verifier::opaque]
pub open spec fn parse_key(t: Seq<char>) -> Option<(Seq<char>, int)> {
    if t.len() > 0 && t[0] == '"' {
        match scan_basic(t.subrange(1, t.len() as int), false) {
            Some((k, m)) => Some((k, m + 2)),
            None => None,
        }
    } else {
        let n = bare_run(t);
        if n > 0 {
            Some((t.subrange(0, n), n))
        } else {
            None
        }
    }
}

/// A value at the start of `t` (a multi-line basic string, whose first line break is
/// trimmed; a basic string; `true`; `false`), and its length.
#[verifier::opaque]
pub open spec fn parse_value(t: Seq<char>) -> Option<(TomlValue, int)> {
    if starts(t, seq!['"', '"', '"']) {
        let s: int = if t.len() > 3 && t[3] == '\n' {
            4
        } else {
            3
        };
        match scan_basic(t.subrange(s, t.len() as int), true) {
            Some((v, m)) => Some((TomlValue::Text(v), s + m + 3)),
            None => None,
        }
    } else if t.len() > 0 && t[0] == '"' {
        match scan_basic(t.subrange(1, t.len() as int), false) {
            Some((v, m)) => Some((TomlValue::Text(v), m + 2)),
            None => None,
        }
    } else if starts(t, seq!['t', 'r', 'u', 'e']) {
        Some((TomlValue::Flag(true), 4))
    } else if starts(t, seq!['f', 'a', 'l', 's', 'e']) {
        Some((TomlValue::Flag(false), 5))
    } else {
        None
    }
}

/// One line at the start of `t`, with its line break, and its length: a table header,
/// an array-of-tables header (both with bare names), or `key = value`.
#[verifier::opaque]
pub open spec fn parse_line(t: Seq<char>) -> Option<(TomlItem, int)> {
    if starts(t, seq!['[', '[']) {
        let n = bare_run(t.subrange(2, t.len() as int));
        if n > 0 && starts(t.subrange(2 + n, t.len() as int), seq![']', ']', '\n']) {
            Some((TomlItem::ArrayTable(t.subrange(2, 2 + n)), n + 5))
        } else {
            None
        }
    } else if t.len() > 0 && t[0] == '[' {
        let n = bare_run(t.subrange(1, t.len() as int));
        if n > 0 && starts(t.subrange(1 + n, t.len() as int), seq![']', '\n']) {
            Some((TomlItem::Table(t.subrange(1, 1 + n)), n + 3))
        } else {
            None
        }
    } else {
        match parse_key(t) {
            Some((k, a)) => if starts(t.subrange(a, t.len() as int), seq![' ', '=', ' ']) {
                match parse_value(t.subrange(a + 3, t.len() as int)) {
                    Some((v, b)) => if starts(t.subrange(a + 3 + b, t.len() as int), seq!['\n']) {
                        Some((TomlItem::Pair(k, v), a + b + 4))
                    } else {
                        None
                    },
                    None => None,
                }
            } else {
                None
            },
            None => None,
        }
    }
}

/// The items of a document of the shape `config.toml` has, blank lines skipped; `None`
/// when a line is not of that shape.
#[verifier::opaque]
pub open spec fn parse_doc(t: Seq<char>) -> Option<Seq<TomlItem>>
    decreases t.len(),
{
    if t.len() == 0 {
        Some(Seq::empty())
    } else if t[0] == '\n' {
        parse_doc(t.subrange(1, t.len() as int))
    } else {
        match parse_line(t) {
            Some((item, n)) => if 0 < n <= t.len() {
                match parse_doc(t.subrange(n, t.len() as int)) {
                    Some(r) => Some(seq![item] + r),
                    None => None,
                }
            } else {
                None
            },
            None => None,
        }
    }
}

} // verus!
