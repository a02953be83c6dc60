//! Text building blocks of the wire formats: decimal numbers and JSON string
//! literals.

use vstd::prelude::*;
use vstd::string::*;

verus! {

/// The decimal digit character for `d < 10`.
pub open spec fn digit_char(d: nat) -> char {
    if d == 0 { '0' }
    else if d == 1 { '1' }
    else if d == 2 { '2' }
    else if d == 3 { '3' }
    else if d == 4 { '4' }
    else if d == 5 { '5' }
    else if d == 6 { '6' }
    else if d == 7 { '7' }
    else if d == 8 { '8' }
    else { '9' }
}

/// The decimal notation of `n`, without leading zeros.
pub open spec fn decimal(n: nat) -> Seq<char>
    decreases n,
{
    if n < 10 {
        seq![digit_char(n)]
    } else {
        decimal(n / 10) + seq![digit_char(n % 10)]
    }
}

/// The decimal notation of `n`, with a leading `-` when it is negative.
pub open spec fn signed_decimal(n: int) -> Seq<char> {
    if n < 0 {
        seq!['-'] + decimal((-n) as nat)
    } else {
        decimal(n as nat)
    }
}

fn digit_text(d: u64) -> (r: &'static str)
    requires
        d < 10,
    ensures
        r@ == seq![digit_char(d as nat)],
{
    proof {
        reveal_strlit("0");
        reveal_strlit("1");
        reveal_strlit("2");
        reveal_strlit("3");
        reveal_strlit("4");
        reveal_strlit("5");
        reveal_strlit("6");
        reveal_strlit("7");
        reveal_strlit("8");
        reveal_strlit("9");
    }
    if d == 0 { "0" }
    else if d == 1 { "1" }
    else if d == 2 { "2" }
    else if d == 3 { "3" }
    else if d == 4 { "4" }
    else if d == 5 { "5" }
    else if d == 6 { "6" }
    else if d == 7 { "7" }
    else if d == 8 { "8" }
    else { "9" }
}

/// Appends the decimal notation of `n` to `out`.
pub fn push_decimal(out: &mut String, n: u64)
    ensures
        final(out)@ == old(out)@ + decimal(n as nat),
    decreases n,
{
    if n >= 10 {
        push_decimal(out, n / 10);
    }
    out.append(digit_text(n % 10));
    assert(n < 10 ==> n % 10 == n);
}

/// Appends the signed decimal notation of `n` to `out`.
pub fn push_signed_decimal(out: &mut String, n: i64)
    ensures
        final(out)@ == old(out)@ + signed_decimal(n as int),
{
    if n < 0 {
        proof {
            reveal_strlit("-");
        }
        out.append("-");
        let magnitude: u64 = (-(n as i128)) as u64;
        push_decimal(out, magnitude);
    } else {
        push_decimal(out, n as u64);
    }
}

/// Whether two texts are the same.
pub fn same_text(a: &str, b: &str) -> (r: bool)
    ensures
        r == (a@ == b@),
{
    String::from_str(a) == String::from_str(b)
}

/// The lower-case hexadecimal digit for `d < 16`.
pub open spec fn hex_digit(d: nat) -> char {
    if d < 10 {
        digit_char(d)
    } else if d == 10 { 'a' }
    else if d == 11 { 'b' }
    else if d == 12 { 'c' }
    else if d == 13 { 'd' }
    else if d == 14 { 'e' }
    else { 'f' }
}

/// How a JSON string literal writes the character `c`: quote and backslash
/// behind a backslash; backspace, tab, line feed, form feed and carriage
/// return as `\b \t \n \f \r`; every other character below U+0020 as
/// `\u00` and two lower-case hex digits; anything else as itself.
pub open spec fn escape_char(c: char) -> Seq<char> {
    let n = c as u32;
    if c == '"' {
        seq!['\\', '"']
    } else if c == '\\' {
        seq!['\\', '\\']
    } else if n == 8 {
        seq!['\\', 'b']
    } else if n == 9 {
        seq!['\\', 't']
    } else if n == 10 {
        seq!['\\', 'n']
    } else if n == 12 {
        seq!['\\', 'f']
    } else if n == 13 {
        seq!['\\', 'r']
    } else if n < 0x20 {
        seq!['\\', 'u', '0', '0', hex_digit((n / 16) as nat), hex_digit((n % 16) as nat)]
    } else {
        seq![c]
    }
}

/// The characters of `s`, each escaped as in a JSON string literal.
pub open spec fn json_escape(s: Seq<char>) -> Seq<char>
    decreases s.len(),
{
    if s.len() == 0 {
        Seq::empty()
    } else {
        json_escape(s.drop_last()) + escape_char(s.last())
    }
}

/// `s` between double quotes.
pub open spec fn quoted(s: Seq<char>) -> Seq<char> {
    seq!['"'] + s + seq!['"']
}

/// The JSON string literal holding `s`, quotes included.
pub open spec fn json_string(s: Seq<char>) -> Seq<char> {
    quoted(json_escape(s))
}

/// Whether `s` holds no character that a JSON string literal escapes:
/// no quote, no backslash and no control character below U+0020.
pub open spec fn needs_no_escape(s: Seq<char>) -> bool {
    forall|i: int| 0 <= i < s.len() ==> s[i] != '"' && s[i] != '\\' && (s[i] as u32) >= 0x20
}

/// Text without quotes, backslashes and control characters is written as
/// it is.
pub proof fn lemma_plain_text_unescaped(s: Seq<char>)
    requires
        needs_no_escape(s),
    ensures
        json_escape(s) == s,
    decreases s.len(),
{
    if s.len() > 0 {
        lemma_plain_text_unescaped(s.drop_last());
        assert(s.drop_last().push(s.last()) =~= s);
    }
}

/// An escaped text holds no line feed.
pub proof fn lemma_escape_has_no_line_feed(s: Seq<char>)
    ensures
        forall|i: int| 0 <= i < json_escape(s).len() ==> json_escape(s)[i] != '\n',
    decreases s.len(),
{
    if s.len() > 0 {
        lemma_escape_has_no_line_feed(s.drop_last());
        let c = s.last();
        let n = c as u32;
        let e = escape_char(c);
        assert forall|i: int| 0 <= i < e.len() implies e[i] != '\n' by {
            if n < 0x20 && c != '"' && c != '\\' && n != 8 && n != 9 && n != 10 && n != 12 && n != 13 {
                assert(n / 16 < 2);
                assert(hex_digit((n / 16) as nat) == '0' || hex_digit((n / 16) as nat) == '1');
                assert((n % 16) < 16);
            }
        }
        let pre = json_escape(s.drop_last());
        assert forall|i: int| 0 <= i < json_escape(s).len() implies json_escape(s)[i] != '\n' by {
            if i < pre.len() {
                assert(json_escape(s)[i] == pre[i]);
            } else {
                assert(json_escape(s)[i] == e[i - pre.len()]);
            }
        }
    }
}

/// A decimal notation holds only digits, so no line feed.
pub proof fn lemma_decimal_has_no_line_feed(n: nat)
    ensures
        forall|i: int| 0 <= i < decimal(n).len() ==> decimal(n)[i] != '\n',
    decreases n,
{
    if n >= 10 {
        lemma_decimal_has_no_line_feed(n / 10);
        let pre = decimal(n / 10);
        assert forall|i: int| 0 <= i < decimal(n).len() implies decimal(n)[i] != '\n' by {
            if i < pre.len() {
                assert(decimal(n)[i] == pre[i]);
            }
        }
    }
}

/// A signed decimal notation holds no line feed.
pub proof fn lemma_signed_decimal_has_no_line_feed(n: int)
    ensures
        forall|i: int| 0 <= i < signed_decimal(n).len() ==> signed_decimal(n)[i] != '\n',
{
    if n < 0 {
        lemma_decimal_has_no_line_feed((-n) as nat);
        let d = decimal((-n) as nat);
        assert forall|i: int| 0 <= i < signed_decimal(n).len() implies signed_decimal(n)[i] != '\n' by {
            if i > 0 {
                assert(signed_decimal(n)[i] == d[i - 1]);
            }
        }
    } else {
        lemma_decimal_has_no_line_feed(n as nat);
    }
}

/// A JSON string literal holds no line feed.
pub proof fn lemma_json_string_has_no_line_feed(s: Seq<char>)
    ensures
        forall|i: int| 0 <= i < json_string(s).len() ==> json_string(s)[i] != '\n',
{
    lemma_escape_has_no_line_feed(s);
    let e = json_escape(s);
    assert forall|i: int| 0 <= i < json_string(s).len() implies json_string(s)[i] != '\n' by {
        if 0 < i < e.len() + 1 {
            assert(json_string(s)[i] == e[i - 1]);
        }
    }
}

/// Writes `s` as a JSON string literal, by serializing a
/// `serde_json::Value::String`. Claimed of serde_json (its compact
/// formatter and escape table): `s` between double quotes, with quote,
/// backslash and the characters below U+0020 escaped as `escape_char` says,
/// and every other character as it is.
#[verifier::external_body]
pub(crate) fn quote_json(s: &str) -> (r: String)
    ensures
        r@ == json_string(s@),
{
    serde_json::Value::String(s.to_string()).to_string()
}

/// Appends `s` as a JSON string literal to `out`.
pub fn push_json_string(out: &mut String, s: &str)
    ensures
        final(out)@ == old(out)@ + json_string(s@),
{
    let q = quote_json(s);
    out.append(q.as_str());
}

/// Whether `c` has the Unicode `White_Space` property: the characters that
/// a line's trailing whitespace is made of.
pub open spec fn is_white_space(c: char) -> bool {
    let u = c as u32;
    ||| 0x09 <= u <= 0x0D
    ||| u == 0x20
    ||| u == 0x85
    ||| u == 0xA0
    ||| u == 0x1680
    ||| 0x2000 <= u <= 0x200A
    ||| u == 0x2028
    ||| u == 0x2029
    ||| u == 0x202F
    ||| u == 0x205F
    ||| u == 0x3000
}

/// Whether `c` is whitespace in the sense of [`is_white_space`].
pub fn white_space(c: char) -> (r: bool)
    ensures
        r == is_white_space(c),
{
    let u: u32 = c as u32;
    (0x09 <= u && u <= 0x0D) || u == 0x20 || u == 0x85 || u == 0xA0 || u == 0x1680 || (0x2000
        <= u && u <= 0x200A) || u == 0x2028 || u == 0x2029 || u == 0x202F || u == 0x205F || u
        == 0x3000
}

/// `s` without its trailing whitespace.
pub open spec fn trim_end_of(s: Seq<char>) -> Seq<char>
    decreases s.len(),
{
    if s.len() > 0 && is_white_space(s.last()) {
        trim_end_of(s.drop_last())
    } else {
        s
    }
}

/// `s` without its trailing whitespace.
pub fn trim_end(s: &str) -> (r: &str)
    ensures
        r@ == trim_end_of(s@),
{
    let mut n: usize = s.unicode_len();
    assert(s@.subrange(0, n as int) =~= s@);
    while n > 0 && white_space(s.get_char(n - 1))
        invariant
            n <= s@.len(),
            trim_end_of(s@) == trim_end_of(s@.subrange(0, n as int)),
        decreases n,
    {
        assert(s@.subrange(0, n as int).drop_last() =~= s@.subrange(0, n - 1));
        n = n - 1;
    }
    s.substring_char(0, n)
}

} // verus!
