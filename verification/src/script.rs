//! The JavaScript snippets the plugin hands to the Strudel pattern engine.
use vstd::prelude::*;

verus! {

#[verifier::external_type_specification]
#[verifier::external_body]
pub struct ExJsonError(serde_json::Error);

/// Lower-case hexadecimal digit `d`.
pub open spec fn hex_digit(d: int) -> char {
    seq!['0', '1', '2', '3', '4', '5', '6', '7', '8', '9', 'a', 'b', 'c', 'd', 'e', 'f'][d]
}

/// How one character is written inside a JSON string: `"` and `\` behind a
/// backslash, the control characters with a short escape as `\b \t \n \f
/// \r`, the other characters below U+0020 as `\u00` and two hex digits, and
/// every other character as itself.
pub open spec fn json_escape_char(c: char) -> Seq<char> {
    if c == '"' {
        seq!['\\', '"']
    } else if c == '\\' {
        seq!['\\', '\\']
    } else if c == '\u{8}' {
        seq!['\\', 'b']
    } else if c == '\t' {
        seq!['\\', 't']
    } else if c == '\n' {
        seq!['\\', 'n']
    } else if c == '\u{c}' {
        seq!['\\', 'f']
    } else if c == '\r' {
        seq!['\\', 'r']
    } else if (c as int) < 0x20 {
        seq!['\\', 'u', '0', '0', hex_digit((c as int) / 16), hex_digit((c as int) % 16)]
    } else {
        seq![c]
    }
}

/// The escaped characters of a text.
pub open spec fn json_escape(text: Seq<char>) -> Seq<char>
    decreases text.len(),
{
    if text.len() == 0 {
        Seq::empty()
    } else {
        json_escape(text.drop_last()) + json_escape_char(text.last())
    }
}

/// The JSON string literal of a text: its escaped characters between quotes.
pub open spec fn json_string_literal(text: Seq<char>) -> Seq<char> {
    seq!['"'] + json_escape(text) + seq!['"']
}

proof fn lemma_hex_digit_printable(d: int)
    requires
        0 <= d < 16,
    ensures
        hex_digit(d) as int >= 0x30,
        hex_digit(d) != '"',
{
    let t = seq!['0', '1', '2', '3', '4', '5', '6', '7', '8', '9', 'a', 'b', 'c', 'd', 'e', 'f'];
    assert(t[d] == hex_digit(d));
    assert(forall|k: int| 0 <= k < 16 ==> (#[trigger] t[k]) as int >= 0x30);
}

proof fn lemma_escape_char_inert(c: char)
    ensures
        forall|k: int|
            0 <= k < json_escape_char(c).len() ==> (#[trigger] json_escape_char(c)[k]) as int >= 0x20,
        forall|k: int|
            0 <= k < json_escape_char(c).len() && #[trigger] json_escape_char(c)[k] == '"' ==> k > 0
                && json_escape_char(c)[k - 1] == '\\',
{
    let b = json_escape_char(c);
    if c == '"' || c == '\\' || c == '\u{8}' || c == '\t' || c == '\n' || c == '\u{c}' || c == '\r' {
        assert(b.len() == 2);
    } else if (c as int) < 0x20 {
        lemma_hex_digit_printable((c as int) / 16);
        lemma_hex_digit_printable((c as int) % 16);
        assert(b.len() == 6);
    } else {
        assert(b =~= seq![c]);
    }
}

/// An escaped text holds no raw control character, and every `"` in it comes
/// right after a backslash, so a string literal made from it is not closed
/// early and does not break across lines.
pub proof fn lemma_json_escape_is_inert(text: Seq<char>)
    ensures
        forall|i: int| 0 <= i < json_escape(text).len() ==> (#[trigger] json_escape(text)[i]) as int >= 0x20,
        forall|i: int|
            0 <= i < json_escape(text).len() && #[trigger] json_escape(text)[i] == '"' ==> i > 0
                && json_escape(text)[i - 1] == '\\',
    decreases text.len(),
{
    if text.len() > 0 {
        let init = text.drop_last();
        lemma_json_escape_is_inert(init);
        lemma_escape_char_inert(text.last());
        let a = json_escape(init);
        let b = json_escape_char(text.last());
        assert(json_escape(text) == a + b);
        assert forall|i: int| 0 <= i < (a + b).len() implies ((#[trigger] (a + b)[i]) as int) >= 0x20 by {
            if i >= a.len() {
                assert((a + b)[i] == b[i - a.len()]);
            } else {
                assert((a + b)[i] == a[i]);
            }
        }
        assert forall|i: int| 0 <= i < (a + b).len() && #[trigger] (a + b)[i] == '"' implies i > 0
            && (a + b)[i - 1] == '\\' by {
            if i >= a.len() {
                assert((a + b)[i] == b[i - a.len()]);
                assert((a + b)[i - 1] == b[i - a.len() - 1]);
            } else {
                assert((a + b)[i] == a[i]);
                assert((a + b)[i - 1] == a[i - 1]);
            }
        }
    }
}

/// Calls `serde_json::to_string` on a `&str`. For a string the serializer
/// writes into a `Vec<u8>`, which cannot fail, so the result is always `Ok`:
/// a `"`, each character escaped by its escape table (`json_escape_char`),
/// and a closing `"`.
#[verifier::external_body]
fn json_quote(text: &str) -> (r: Result<String, serde_json::Error>)
    ensures
        r is Ok,
        r matches Ok(lit) ==> lit@ == json_string_literal(text@),
{
    serde_json::to_string(text)
}

/// Decimal digit `d` as a character.
pub open spec fn digit_char(d: int) -> char {
    seq!['0', '1', '2', '3', '4', '5', '6', '7', '8', '9'][d]
}

/// Decimal notation of a natural number, without leading zeros.
pub open spec fn decimal_nat(n: nat) -> Seq<char>
    decreases n,
{
    if n < 10 {
        seq![digit_char(n as int)]
    } else {
        decimal_nat(n / 10).push(digit_char((n % 10) as int))
    }
}

/// Decimal notation of an integer, with a leading `-` when negative.
pub open spec fn decimal(n: int) -> Seq<char> {
    if n < 0 {
        seq!['-'] + decimal_nat((-n) as nat)
    } else {
        decimal_nat(n as nat)
    }
}

fn digit_str(d: u64) -> (s: &'static str)
    requires
        d < 10,
    ensures
        s@ == seq![digit_char(d as int)],
{
    proof {
        reveal_strlit("0");
        reveal_strlit("1");
        reveal_strlit("2");
        reveal_strlit("3");
        reveal_strlit("4");
        reveal_strlit("5");
        reveal_strlit("6");
        reveal_strlit("7");
        reveal_strlit("8");
        reveal_strlit("9");
    }
    let s = if d == 0 {
        "0"
    } else if d == 1 {
        "1"
    } else if d == 2 {
        "2"
    } else if d == 3 {
        "3"
    } else if d == 4 {
        "4"
    } else if d == 5 {
        "5"
    } else if d == 6 {
        "6"
    } else if d == 7 {
        "7"
    } else if d == 8 {
        "8"
    } else {
        "9"
    };
    assert(s@ =~= seq![digit_char(d as int)]);
    s
}

fn append_decimal_nat(out: &mut String, n: u64)
    ensures
        final(out)@ == old(out)@ + decimal_nat(n as nat),
    decreases n,
{
    if n >= 10 {
        append_decimal_nat(out, n / 10);
    }
    out.append(digit_str(n % 10));
    assert(final(out)@ =~= old(out)@ + decimal_nat(n as nat));
}

/// Appends the decimal notation of `n` to `out`.
fn append_decimal(out: &mut String, n: i64)
    ensures
        final(out)@ == old(out)@ + decimal(n as int),
{
    if n < 0 {
        proof {
            reveal_strlit("-");
        }
        out.append("-");
        let magnitude: u64 = (0i128 - n as i128) as u64;
        append_decimal_nat(out, magnitude);
        assert(final(out)@ =~= old(out)@ + decimal(n as int));
    } else {
        append_decimal_nat(out, n as u64);
    }
}

/// Decimal notation of `n`, as Rust's `Display` writes it.
pub fn decimal_string(n: i64) -> (s: String)
    ensures
        s@ == decimal(n as int),
{
    let mut s = String::new();
    append_decimal(&mut s, n);
    assert(s@ =~= decimal(n as int));
    s
}

/// The script that queries the current pattern for the events between two
/// cycle positions, each a fraction (numerator, denominator), and returns
/// them as JSON.
pub open spec fn query_script_text(start: (i64, i64), end: (i64, i64)) -> Seq<char> {
    "JSON.stringify(globalThis.queryPattern("@ + decimal(start.0 as int) + ", "@ + decimal(
        start.1 as int,
    ) + ", "@ + decimal(end.0 as int) + ", "@ + decimal(end.1 as int) + "))"@
}

/// Builds the pattern query script for `[start, end)`.
pub fn query_pattern_script(start: (i64, i64), end: (i64, i64)) -> (s: String)
    ensures
        s@ == query_script_text(start, end),
{
    let mut s = String::from_str("JSON.stringify(globalThis.queryPattern(");
    append_decimal(&mut s, start.0);
    s.append(", ");
    append_decimal(&mut s, start.1);
    s.append(", ");
    append_decimal(&mut s, end.0);
    s.append(", ");
    append_decimal(&mut s, end.1);
    s.append("))");
    assert(s@ =~= query_script_text(start, end));
    s
}

/// The script that evaluates pattern code, given the code as a JSON string
/// literal.
pub open spec fn evaluate_script_text(code_literal: Seq<char>) -> Seq<char> {
    "globalThis.evaluateCode("@ + code_literal + ")"@
}

/// Builds the evaluation script around an already quoted code literal.
pub fn evaluate_script_for_literal(code_literal: &str) -> (s: String)
    ensures
        s@ == evaluate_script_text(code_literal@),
{
    let mut s = String::from_str("globalThis.evaluateCode(");
    s.append(code_literal);
    s.append(")");
    assert(s@ =~= evaluate_script_text(code_literal@));
    s
}

/// Builds the script that transpiles and evaluates `code`, passing it to the
/// engine as a JSON string literal.
pub fn evaluate_code_script(code: &str) -> (s: String)
    ensures
        s@ == evaluate_script_text(json_string_literal(code@)),
{
    match json_quote(code) {
        Ok(lit) => evaluate_script_for_literal(lit.as_str()),
        Err(_) => {
            assert(false);
            String::new()
        },
    }
}

} // verus!
