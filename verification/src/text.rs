//! Small text utilities with exact contracts over the character sequence of a string:
//! comparison, searching, decimal rendering and left-aligned padding.
use vstd::prelude::*;

verus! {

/// The character sequences of a vector of strings.
pub open spec fn texts(v: Seq<String>) -> Seq<Seq<char>> {
    v.map_values(|s: String| s@)
}

/// The character for a decimal digit `d` (0 through 9).
pub open spec fn digit_char(d: int) -> char {
    if d == 0 {
        '0'
    } else if d == 1 {
        '1'
    } else if d == 2 {
        '2'
    } else if d == 3 {
        '3'
    } else if d == 4 {
        '4'
    } else if d == 5 {
        '5'
    } else if d == 6 {
        '6'
    } else if d == 7 {
        '7'
    } else if d == 8 {
        '8'
    } else {
        '9'
    }
}

/// The decimal digits of a natural number, most significant first, without leading zeros.
pub open spec fn nat_decimal(n: nat) -> Seq<char>
    decreases n,
{
    if n < 10 {
        seq![digit_char(n as int)]
    } else {
        nat_decimal(n / 10) + seq![digit_char((n % 10) as int)]
    }
}

/// The decimal rendering of an integer, with a leading `-` when it is negative.
pub open spec fn int_decimal(i: int) -> Seq<char> {
    if i < 0 {
        seq!['-'] + nat_decimal((-i) as nat)
    } else {
        nat_decimal(i as nat)
    }
}

/// The rendering of a boolean: `true` or `false`.
pub open spec fn bool_text(b: bool) -> Seq<char> {
    if b {
        seq!['t', 'r', 'u', 'e']
    } else {
        seq!['f', 'a', 'l', 's', 'e']
    }
}

/// `n` space characters.
pub open spec fn spaces(n: nat) -> Seq<char> {
    Seq::new(n, |i: int| ' ')
}

/// `s` left-aligned in a field of `width` characters: `s` followed by as many spaces
/// as it falls short of the width (none when it is already as wide or wider).
pub open spec fn padded(s: Seq<char>, width: nat) -> Seq<char> {
    if s.len() < width {
        s + spaces((width - s.len()) as nat)
    } else {
        s
    }
}

/// `needle` occurs in `s` starting at position `i`.
pub open spec fn occurs_at(s: Seq<char>, needle: Seq<char>, i: int) -> bool {
    &&& 0 <= i
    &&& i + needle.len() <= s.len()
    &&& s.subrange(i, i + needle.len()) == needle
}

/// `needle` occurs somewhere in `s`.
pub open spec fn contains_seq(s: Seq<char>, needle: Seq<char>) -> bool {
    exists|i: int| occurs_at(s, needle, i)
}

/// Whether two strings hold the same characters.
pub fn text_eq(a: &str, b: &str) -> (same: bool)
    ensures
        same == (a@ == b@),
{
    let x = a.to_owned();
    let y = b.to_owned();
    x == y
}

/// Whether `s` begins with `prefix`.
pub fn starts_with_text(s: &str, prefix: &str) -> (found: bool)
    ensures
        found == prefix@.is_prefix_of(s@),
{
    let n = s.unicode_len();
    let p = prefix.unicode_len();
    if p > n {
        return false;
    }
    let head = s.substring_char(0, p);
    let found = text_eq(head, prefix);
    proof {
        if found {
            assert(prefix@.is_prefix_of(s@));
        } else {
            assert(!prefix@.is_prefix_of(s@)) by {
                if prefix@.is_prefix_of(s@) {
                    assert(s@.subrange(0, p as int) =~= prefix@);
                }
            }
        }
    }
    found
}

/// Whether `needle` occurs anywhere in `s`.
pub fn contains_text(s: &str, needle: &str) -> (found: bool)
    ensures
        found == contains_seq(s@, needle@),
{
    let n = s.unicode_len();
    let k = needle.unicode_len();
    if k > n {
        proof {
            assert forall|i: int| !occurs_at(s@, needle@, i) by {}
        }
        return false;
    }
    let last = n - k;
    let mut i: usize = 0;
    loop
        invariant
            n == s@.len(),
            k == needle@.len(),
            k <= n,
            last == n - k,
            i <= last,
            forall|j: int| 0 <= j < i ==> !occurs_at(s@, needle@, j),
        ensures
            forall|j: int| 0 <= j <= last ==> !occurs_at(s@, needle@, j),
        decreases last - i,
    {
        let window = s.substring_char(i, i + k);
        if text_eq(window, needle) {
            assert(occurs_at(s@, needle@, i as int));
            return true;
        }
        if i == last {
            break;
        }
        i = i + 1;
    }
    proof {
        assert forall|j: int| !occurs_at(s@, needle@, j) by {
            if 0 <= j <= last {
            }
        }
    }
    false
}

/// The first position at or after `from` where `s` holds the character `c`, if any.
pub fn find_char_from(s: &str, c: char, from: usize) -> (pos: Option<usize>)
    ensures
        match pos {
            Some(p) => from <= p < s@.len() && s@[p as int] == c && forall|j: int|
                from <= j < p ==> s@[j] != c,
            None => forall|j: int| from <= j < s@.len() ==> s@[j] != c,
        },
{
    let n = s.unicode_len();
    let mut i: usize = from;
    while i < n
        invariant
            n == s@.len(),
            from <= i || n <= i,
            forall|j: int| from <= j < i ==> s@[j] != c,
        decreases n - i,
    {
        if s.get_char(i) == c {
            return Some(i);
        }
        i = i + 1;
    }
    None
}

/// The text of one decimal digit.
fn digit_text(d: u64) -> (t: &'static str)
    requires
        d < 10,
    ensures
        t@ == seq![digit_char(d as int)],
{
    if d == 0 {
        proof {
            reveal_strlit("0");
        }
        "0"
    } else if d == 1 {
        proof {
            reveal_strlit("1");
        }
        "1"
    } else if d == 2 {
        proof {
            reveal_strlit("2");
        }
        "2"
    } else if d == 3 {
        proof {
            reveal_strlit("3");
        }
        "3"
    } else if d == 4 {
        proof {
            reveal_strlit("4");
        }
        "4"
    } else if d == 5 {
        proof {
            reveal_strlit("5");
        }
        "5"
    } else if d == 6 {
        proof {
            reveal_strlit("6");
        }
        "6"
    } else if d == 7 {
        proof {
            reveal_strlit("7");
        }
        "7"
    } else if d == 8 {
        proof {
            reveal_strlit("8");
        }
        "8"
    } else {
        proof {
            reveal_strlit("9");
        }
        "9"
    }
}

/// Appends the decimal digits of `n` to `out`.
fn append_decimal(out: &mut String, n: u64)
    ensures
        final(out)@ == old(out)@ + nat_decimal(n as nat),
    decreases n,
{
    if n >= 10 {
        append_decimal(out, n / 10);
    }
    out.append(digit_text(n % 10));
}

/// The decimal rendering of a 64-bit integer, as `to_string` gives it.
pub fn decimal_text(i: i64) -> (t: String)
    ensures
        t@ == int_decimal(i as int),
{
    let mut out = String::new();
    if i < 0 {
        proof {
            reveal_strlit("-");
        }
        out.append("-");
        let magnitude: u64 = if i == i64::MIN {
            9223372036854775808u64
        } else {
            (-i) as u64
        };
        append_decimal(&mut out, magnitude);
    } else {
        append_decimal(&mut out, i as u64);
    }
    out
}

/// The rendering of a boolean, as `to_string` gives it.
pub fn bool_string(b: bool) -> (t: String)
    ensures
        t@ == bool_text(b),
{
    if b {
        proof {
            reveal_strlit("true");
        }
        String::from_str("true")
    } else {
        proof {
            reveal_strlit("false");
        }
        String::from_str("false")
    }
}

/// `s` left-aligned in a field of `width` characters, as the `{:<width}` format gives it.
pub fn pad_right(s: &str, width: usize) -> (t: String)
    ensures
        t@ == padded(s@, width as nat),
{
    let n = s.unicode_len();
    let mut out = String::from_str(s);
    if n >= width {
        return out;
    }
    proof {
        reveal_strlit(" ");
    }
    let mut k: usize = n;
    while k < width
        invariant
            n == s@.len(),
            n <= k <= width,
            out@ == s@ + spaces((k - n) as nat),
        decreases width - k,
    {
        out.append(" ");
        proof {
            reveal_strlit(" ");
        }
        assert(spaces((k + 1 - n) as nat) =~= spaces((k - n) as nat).push(' '));
        assert(out@ =~= s@ + spaces((k + 1 - n) as nat));
        k = k + 1;
    }
    assert(out@ =~= padded(s@, width as nat));
    out
}

/// The value of a decimal digit character; `None` for any other character.
pub open spec fn char_digit(c: char) -> Option<int> {
    if c == '0' {
        Some(0)
    } else if c == '1' {
        Some(1)
    } else if c == '2' {
        Some(2)
    } else if c == '3' {
        Some(3)
    } else if c == '4' {
        Some(4)
    } else if c == '5' {
        Some(5)
    } else if c == '6' {
        Some(6)
    } else if c == '7' {
        Some(7)
    } else if c == '8' {
        Some(8)
    } else if c == '9' {
        Some(9)
    } else {
        None
    }
}

/// Every character of `s` is a decimal digit.
pub open spec fn all_digits(s: Seq<char>) -> bool {
    forall|i: int| 0 <= i < s.len() ==> (#[trigger] char_digit(s[i])) is Some
}

/// The number that a sequence of digits reads as (leading zeros allowed; 0 when empty).
pub open spec fn decimal_value(s: Seq<char>) -> int
    decreases s.len(),
{
    if s.len() == 0 {
        0
    } else {
        decimal_value(s.drop_last()) * 10 + match char_digit(s.last()) {
            Some(d) => d,
            None => 0,
        }
    }
}

/// A digit character reads back as its digit.
proof fn lemma_char_digit(d: int)
    requires
        0 <= d < 10,
    ensures
        char_digit(digit_char(d)) == Some(d),
{
}

/// The decimal rendering of a number consists of digits and reads back as the number.
pub proof fn lemma_decimal_round_trip(n: nat)
    ensures
        all_digits(nat_decimal(n)),
        decimal_value(nat_decimal(n)) == n,
        nat_decimal(n).len() > 0,
    decreases n,
{
    if n < 10 {
        lemma_char_digit(n as int);
        let s = nat_decimal(n);
        assert(s.drop_last() =~= Seq::<char>::empty());
        assert(decimal_value(s.drop_last()) == 0);
        assert(decimal_value(s) == decimal_value(s.drop_last()) * 10 + n);
    } else {
        lemma_decimal_round_trip(n / 10);
        lemma_char_digit((n % 10) as int);
        let s = nat_decimal(n);
        assert(s.drop_last() =~= nat_decimal(n / 10));
        assert(s.last() == digit_char((n % 10) as int));
        assert((n / 10) * 10 + n % 10 == n) by (nonlinear_arith);
        assert(decimal_value(s) == decimal_value(s.drop_last()) * 10 + (n % 10));
        assert forall|i: int| 0 <= i < s.len() implies (#[trigger] char_digit(s[i])) is Some by {
            if i < s.len() - 1 {
                assert(s[i] == nat_decimal(n / 10)[i]);
            }
        }
    }
}

/// Two numbers with the same decimal rendering are equal.
pub proof fn lemma_decimal_injective(a: nat, b: nat)
    requires
        nat_decimal(a) == nat_decimal(b),
    ensures
        a == b,
{
    lemma_decimal_round_trip(a);
    lemma_decimal_round_trip(b);
}

/// A prefix of a digit sequence reads as no more than the whole.
proof fn lemma_decimal_prefix_le(s: Seq<char>, i: int)
    requires
        all_digits(s),
        0 <= i <= s.len(),
    ensures
        0 <= decimal_value(s.take(i)) <= decimal_value(s),
    decreases s.len(),
{
    if s.len() > 0 {
        if i < s.len() {
            assert(all_digits(s.drop_last())) by {
                assert forall|k: int| 0 <= k < s.drop_last().len() implies (#[trigger] char_digit(
                    s.drop_last()[k],
                )) is Some by {
                    assert(char_digit(s[k]) is Some);
                }
            }
            lemma_decimal_prefix_le(s.drop_last(), i);
            assert(s.drop_last().take(i) =~= s.take(i));
            assert(char_digit(s.last()) is Some);
        } else {
            assert(s.take(i) =~= s);
            lemma_decimal_prefix_le(s.drop_last(), 0);
            assert(s.drop_last().take(0) =~= s.take(0));
            assert(char_digit(s.last()) is Some);
        }
    }
}

/// The value of a digit character.
fn digit_value(c: char) -> (d: Option<u64>)
    ensures
        match d {
            Some(v) => char_digit(c) == Some(v as int),
            None => char_digit(c) is None,
        },
{
    if c == '0' {
        Some(0)
    } else if c == '1' {
        Some(1)
    } else if c == '2' {
        Some(2)
    } else if c == '3' {
        Some(3)
    } else if c == '4' {
        Some(4)
    } else if c == '5' {
        Some(5)
    } else if c == '6' {
        Some(6)
    } else if c == '7' {
        Some(7)
    } else if c == '8' {
        Some(8)
    } else if c == '9' {
        Some(9)
    } else {
        None
    }
}

/// Reads a run of digits as a number; `None` when `s` is empty, holds a non-digit, or
/// reads as more than `u64::MAX`. The decimal rendering of any `u64` is read back as it.
pub fn parse_decimal(s: &str) -> (v: Option<u64>)
    ensures
        v matches Some(n) ==> s@.len() > 0 && all_digits(s@) && decimal_value(s@) == n,
        forall|g: nat| g <= u64::MAX && s@ == nat_decimal(g) ==> v == Some(g as u64),
{
    let n = s.unicode_len();
    if n == 0 {
        proof {
            assert forall|g: nat| g <= u64::MAX && s@ == nat_decimal(g) implies false by {
                lemma_decimal_round_trip(g);
            }
        }
        return None;
    }
    let mut acc: u64 = 0;
    let mut i: usize = 0;
    while i < n
        invariant
            n == s@.len(),
            i <= n,
            all_digits(s@.take(i as int)),
            acc == decimal_value(s@.take(i as int)),
        decreases n - i,
    {
        let c = s.get_char(i);
        assert(s@.take(i + 1).drop_last() =~= s@.take(i as int));
        assert(s@.take(i + 1).last() == c);
        match digit_value(c) {
            None => {
                proof {
                    assert forall|g: nat| g <= u64::MAX && s@ == nat_decimal(g) implies false by {
                        lemma_decimal_round_trip(g);
                        assert(char_digit(s@[i as int]) is Some);
                    }
                }
                return None;
            },
            Some(d) => {
                let next = match acc.checked_mul(10) {
                    Some(t) => t.checked_add(d),
                    None => None,
                };
                match next {
                    None => {
                        proof {
                            assert forall|g: nat|
                                g <= u64::MAX && s@ == nat_decimal(g) implies false by {
                                lemma_decimal_round_trip(g);
                                lemma_decimal_prefix_le(s@, i + 1);
                            }
                        }
                        return None;
                    },
                    Some(t) => {
                        assert forall|k: int| 0 <= k < i + 1 implies (#[trigger] char_digit(
                            s@.take(i + 1)[k],
                        )) is Some by {
                            if k < i {
                                assert(s@.take(i + 1)[k] == s@.take(i as int)[k]);
                            }
                        }
                        acc = t;
                    },
                }
            },
        }
        i = i + 1;
    }
    assert(s@.take(n as int) =~= s@);
    proof {
        assert forall|g: nat| g <= u64::MAX && s@ == nat_decimal(g) implies Some(acc) == Some(
            g as u64,
        ) by {
            lemma_decimal_round_trip(g);
        }
    }
    Some(acc)
}

/// The decimal rendering of a 64-bit unsigned integer.
pub fn unsigned_decimal_text(n: u64) -> (t: String)
    ensures
        t@ == nat_decimal(n as nat),
{
    let mut out = String::new();
    append_decimal(&mut out, n);
    out
}

} // verus!
