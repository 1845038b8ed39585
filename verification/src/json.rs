//! JSON output for the service: the exact texts the HTTP layer returns.
//!
//! Every body the service produces is specified character by character:
//! records and record lists as JSON objects and arrays with the fields in
//! declaration order, and error payloads as an object with one `error`
//! member. String values are escaped as JSON requires: quote, backslash and
//! control characters, the common ones by their short forms and the rest as
//! `\u00` followed by two hex digits.

use vstd::prelude::*;
use vstd::string::StrSliceExecFns;
use vstd::string::StringExecFns;
use crate::models::Template;
use crate::models::TemplateView;

verus! {

/// The decimal digit character for `d`.
pub open spec fn spec_digit_char(d: int) -> char {
    if d == 0 {
        '0'
    } else if d == 1 {
        '1'
    } else if d == 2 {
        '2'
    } else if d == 3 {
        '3'
    } else if d == 4 {
        '4'
    } else if d == 5 {
        '5'
    } else if d == 6 {
        '6'
    } else if d == 7 {
        '7'
    } else if d == 8 {
        '8'
    } else {
        '9'
    }
}

/// The lower-case hexadecimal digit character for `d`.
pub open spec fn spec_hex_char(d: int) -> char {
    if d < 10 {
        spec_digit_char(d)
    } else if d == 10 {
        'a'
    } else if d == 11 {
        'b'
    } else if d == 12 {
        'c'
    } else if d == 13 {
        'd'
    } else if d == 14 {
        'e'
    } else {
        'f'
    }
}

/// Decimal text of a non-negative number, most significant digit first, with
/// no leading zeros (a single `0` for zero).
pub open spec fn spec_udec(n: nat) -> Seq<char>
    decreases n,
{
    if n < 10 {
        seq![spec_digit_char(n as int)]
    } else {
        spec_udec(n / 10) + seq![spec_digit_char((n % 10) as int)]
    }
}

/// Decimal text of an integer: a minus sign for negative values, then the
/// digits.
pub open spec fn spec_int_dec(v: int) -> Seq<char> {
    if v < 0 {
        "-"@ + spec_udec((-v) as nat)
    } else {
        spec_udec(v as nat)
    }
}

/// The JSON escape of one character: quote and backslash by a backslash
/// form, the named control characters by their short forms, every other
/// control character as `\u00` and two hex digits, and anything else as
/// itself.
pub open spec fn spec_escape_char(c: char) -> Seq<char> {
    if c == '"' {
        "\\\""@
    } else if c == '\\' {
        "\\\\"@
    } else if c == '\n' {
        "\\n"@
    } else if c == '\r' {
        "\\r"@
    } else if c == '\t' {
        "\\t"@
    } else if c == '\u{8}' {
        "\\b"@
    } else if c == '\u{c}' {
        "\\f"@
    } else if (c as u32) < 32 {
        "\\u00"@ + seq![
            spec_hex_char((c as u32 / 16) as int),
            spec_hex_char((c as u32 % 16) as int),
        ]
    } else {
        seq![c]
    }
}

/// The JSON escape of a whole text.
pub open spec fn spec_escape(s: Seq<char>) -> Seq<char>
    decreases s.len(),
{
    if s.len() == 0 {
        Seq::empty()
    } else {
        spec_escape(s.drop_last()) + spec_escape_char(s.last())
    }
}

/// The JSON object text of one template record, fields in declaration order.
pub open spec fn spec_template_json(t: TemplateView) -> Seq<char> {
    "{\"id\":"@ + spec_int_dec(t.id) + ",\"name\":\""@ + spec_escape(t.name)
        + "\",\"content\":\""@ + spec_escape(t.content) + "\",\"created_at\":\""@ + spec_escape(
        t.created_at,
    ) + "\"}"@
}

/// The comma-separated JSON objects of a record sequence.
pub open spec fn spec_join_templates(rows: Seq<TemplateView>) -> Seq<char>
    decreases rows.len(),
{
    if rows.len() == 0 {
        Seq::empty()
    } else if rows.len() == 1 {
        spec_template_json(rows[0])
    } else {
        spec_join_templates(rows.drop_last()) + ","@ + spec_template_json(rows.last())
    }
}

/// The JSON array text of a record sequence.
pub open spec fn spec_list_json(rows: Seq<TemplateView>) -> Seq<char> {
    "["@ + spec_join_templates(rows) + "]"@
}

/// The JSON error payload: one object with one `error` member holding the
/// message.
pub open spec fn spec_error_body(msg: Seq<char>) -> Seq<char> {
    "{\"error\":\""@ + spec_escape(msg) + "\"}"@
}

/// Relies on String::push: appends the given character to the end of the
/// string.
#[verifier::external_body]
fn push_char(out: &mut String, c: char)
    ensures
        final(out)@ == old(out)@.push(c),
{
    out.push(c);
}

/// The decimal digit character for `d`.
fn digit_char(d: u64) -> (c: char)
    requires
        d < 10,
    ensures
        c == spec_digit_char(d as int),
{
    if d == 0 {
        '0'
    } else if d == 1 {
        '1'
    } else if d == 2 {
        '2'
    } else if d == 3 {
        '3'
    } else if d == 4 {
        '4'
    } else if d == 5 {
        '5'
    } else if d == 6 {
        '6'
    } else if d == 7 {
        '7'
    } else if d == 8 {
        '8'
    } else {
        '9'
    }
}

/// The lower-case hexadecimal digit character for `d`.
fn hex_char(d: u32) -> (c: char)
    requires
        d < 16,
    ensures
        c == spec_hex_char(d as int),
{
    if d < 10 {
        digit_char(d as u64)
    } else if d == 10 {
        'a'
    } else if d == 11 {
        'b'
    } else if d == 12 {
        'c'
    } else if d == 13 {
        'd'
    } else if d == 14 {
        'e'
    } else {
        'f'
    }
}

/// Append the decimal text of `n`.
fn push_udec(out: &mut String, n: u64)
    ensures
        final(out)@ == old(out)@ + spec_udec(n as nat),
    decreases n,
{
    if n < 10 {
        push_char(out, digit_char(n));
        proof {
            assert(out@ =~= old(out)@ + spec_udec(n as nat));
        }
    } else {
        let d = n % 10;
        proof {
            assert(n / 10 < n) by (nonlinear_arith)
                requires
                    n >= 10,
            ;
        }
        push_udec(out, n / 10);
        push_char(out, digit_char(d));
        proof {
            assert(out@ =~= old(out)@ + spec_udec(n as nat));
        }
    }
}

/// Append the decimal text of `v`.
fn push_i32(out: &mut String, v: i32)
    ensures
        final(out)@ == old(out)@ + spec_int_dec(v as int),
{
    if v < 0 {
        out.append("-");
        let wide: i64 = v as i64;
        let mag: u64 = (-wide) as u64;
        proof {
            assert(mag as nat == (-(v as int)) as nat);
        }
        push_udec(out, mag);
        proof {
            assert(out@ =~= old(out)@ + spec_int_dec(v as int));
        }
    } else {
        push_udec(out, v as u64);
    }
}

/// Append the JSON escape of one character.
fn push_escaped_char(out: &mut String, c: char)
    ensures
        final(out)@ == old(out)@ + spec_escape_char(c),
{
    if c == '"' {
        out.append("\\\"");
    } else if c == '\\' {
        out.append("\\\\");
    } else if c == '\n' {
        out.append("\\n");
    } else if c == '\r' {
        out.append("\\r");
    } else if c == '\t' {
        out.append("\\t");
    } else if c == '\u{8}' {
        out.append("\\b");
    } else if c == '\u{c}' {
        out.append("\\f");
    } else if (c as u32) < 32 {
        let code = c as u32;
        out.append("\\u00");
        push_char(out, hex_char(code / 16));
        push_char(out, hex_char(code % 16));
        proof {
            assert(out@ =~= old(out)@ + spec_escape_char(c));
        }
    } else {
        push_char(out, c);
        proof {
            assert(out@ =~= old(out)@ + spec_escape_char(c));
        }
    }
}

/// Append the JSON escape of a whole text.
fn push_escaped(out: &mut String, s: &str)
    ensures
        final(out)@ == old(out)@ + spec_escape(s@),
{
    let n = s.unicode_len();
    let mut i: usize = 0;
    while i < n
        invariant
            n == s@.len(),
            i <= n,
            out@ == old(out)@ + spec_escape(s@.take(i as int)),
        decreases n - i,
    {
        let c = s.get_char(i);
        push_escaped_char(out, c);
        proof {
            assert(s@.take(i + 1 as int).drop_last() =~= s@.take(i as int));
            assert(s@.take(i + 1 as int).last() == c);
            assert(out@ =~= old(out)@ + spec_escape(s@.take(i + 1 as int)));
        }
        i += 1;
    }
    proof {
        assert(s@.take(n as int) =~= s@);
    }
}

/// The JSON object text of one template record.
pub fn template_to_json(t: &Template) -> (r: String)
    ensures
        r@ == spec_template_json(t@),
{
    let mut out = String::from_str("{\"id\":");
    push_i32(&mut out, t.id);
    out.append(",\"name\":\"");
    push_escaped(&mut out, t.name.as_str());
    out.append("\",\"content\":\"");
    push_escaped(&mut out, t.content.as_str());
    out.append("\",\"created_at\":\"");
    push_escaped(&mut out, t.created_at.as_str());
    out.append("\"}");
    proof {
        assert(out@ =~= spec_template_json(t@));
    }
    out
}

/// The JSON array text of a record list.
pub fn templates_to_json(ts: &Vec<Template>) -> (r: String)
    ensures
        r@ == spec_list_json(ts@.map_values(|t: Template| t@)),
{
    let ghost rows = ts@.map_values(|t: Template| t@);
    let mut out = String::from_str("[");
    let mut i: usize = 0;
    while i < ts.len()
        invariant
            rows == ts@.map_values(|t: Template| t@),
            rows.len() == ts@.len(),
            i <= ts@.len(),
            out@ == "["@ + spec_join_templates(rows.take(i as int)),
        decreases ts@.len() - i,
    {
        if i > 0 {
            out.append(",");
        }
        let piece = template_to_json(&ts[i]);
        out.append(piece.as_str());
        proof {
            let part = rows.take(i + 1 as int);
            assert(part.drop_last() =~= rows.take(i as int));
            assert(part.last() == rows[i as int]);
            assert(piece@ == spec_template_json(rows[i as int]));
            assert(out@ =~= "["@ + spec_join_templates(part));
        }
        i += 1;
    }
    out.append("]");
    proof {
        assert(rows.take(rows.len() as int) =~= rows);
        assert(out@ =~= spec_list_json(rows));
    }
    out
}

/// The JSON error payload carrying `msg`.
pub fn error_body(msg: &str) -> (r: String)
    ensures
        r@ == spec_error_body(msg@),
{
    let mut out = String::from_str("{\"error\":\"");
    push_escaped(&mut out, msg);
    out.append("\"}");
    proof {
        assert(out@ =~= spec_error_body(msg@));
    }
    out
}

} // verus!
