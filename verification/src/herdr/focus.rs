//! Exact-pane focus: the one `pane.focus` request and its outcome.

use vstd::prelude::*;

use crate::herdr::protocol::digits_value;
use crate::text::{concat, decimal, decimal_string, digit_char};

verus! {

/// Outcome of an exact-pane focus attempt.
#[derive(Debug, Clone, PartialEq, Eq)]
pub enum FocusResult {
    Focused,
    NotFound { code: String, message: String },
}

/// Lowercase hexadecimal digit of `d < 16`.
pub open spec fn hex_digit(d: int) -> char {
    if d < 10 { (48 + d) as char } else { (87 + d) as char }
}

/// How `serde_json` writes one character inside a string literal: `"` and
/// `\` after a backslash; backspace, tab, line feed, form feed and carriage
/// return as `\b \t \n \f \r`; other characters below U+0020 as `\u00XX`
/// with lowercase hex digits; every other character as itself.
pub open spec fn json_char(c: char) -> Seq<char> {
    if c == '"' {
        seq!['\\', '"']
    } else if c == '\\' {
        seq!['\\', '\\']
    } else if c == '\x08' {
        seq!['\\', 'b']
    } else if c == '\t' {
        seq!['\\', 't']
    } else if c == '\n' {
        seq!['\\', 'n']
    } else if c == '\x0c' {
        seq!['\\', 'f']
    } else if c == '\r' {
        seq!['\\', 'r']
    } else if (c as int) < 0x20 {
        seq!['\\', 'u', '0', '0', hex_digit((c as int) / 16), hex_digit((c as int) % 16)]
    } else {
        seq![c]
    }
}

/// The escaped contents of a JSON string literal.
pub open spec fn json_escaped(s: Seq<char>) -> Seq<char>
    decreases s.len(),
{
    if s.len() == 0 {
        seq![]
    } else {
        json_escaped(s.drop_last()) + json_char(s.last())
    }
}

/// The JSON string literal that `serde_json::to_string` writes for a
/// string: the escaped text between double quotes.
pub open spec fn json_string(s: Seq<char>) -> Seq<char> {
    seq!['"'] + json_escaped(s) + seq!['"']
}

/// `serde_json::to_string` on a `&str`: the string literal that its
/// compact formatter writes, escaping as `json_char` states. Writing into a
/// `Vec` cannot fail, so the error arm never runs.
#[verifier::external_body]
fn json_quote(s: &str) -> (r: String)
    ensures
        r@ == json_string(s@),
{
    serde_json::to_string(s).unwrap_or_default()
}

/// The compact JSON of one `pane.focus` request, keys in order, around the
/// JSON string literals of the request id and the pane id.
pub open spec fn spec_focus_line(quoted_id: Seq<char>, quoted_pane: Seq<char>) -> Seq<char> {
    "{\"id\":"@ + quoted_id + ",\"method\":\"pane.focus\",\"params\":{\"pane_id\":"@ + quoted_pane + "}}"@
}

pub open spec fn spec_focus_request(request_id: Seq<char>, pane_id: Seq<char>) -> Seq<char> {
    spec_focus_line(json_string(request_id), json_string(pane_id))
}

/// The `pane.focus` request around already quoted JSON strings.
pub fn focus_line(quoted_id: &str, quoted_pane: &str) -> (r: String)
    ensures
        r@ == spec_focus_line(quoted_id@, quoted_pane@),
{
    let head = concat("{\"id\":", quoted_id);
    let middle = concat(head.as_str(), ",\"method\":\"pane.focus\",\"params\":{\"pane_id\":");
    let with_pane = concat(middle.as_str(), quoted_pane);
    concat(with_pane.as_str(), "}}")
}

/// The request line that focuses exactly one pane and nothing else.
pub fn focus_request(request_id: &str, pane_id: &str) -> (r: String)
    ensures
        r@ == spec_focus_request(request_id@, pane_id@),
{
    let id = json_quote(request_id);
    let pane = json_quote(pane_id);
    focus_line(id.as_str(), pane.as_str())
}

/// `hcd-{process id}-{counter}`: unique per process and request.
pub open spec fn spec_request_id(pid: u32, counter: u64) -> Seq<char> {
    "hcd-"@ + decimal(pid as nat) + "-"@ + decimal(counter as nat)
}

pub fn request_id_text(pid: u32, counter: u64) -> (r: String)
    ensures
        r@ == spec_request_id(pid, counter),
{
    let p = decimal_string(pid as u64);
    let c = decimal_string(counter);
    let head = concat("hcd-", p.as_str());
    let with_sep = concat(head.as_str(), "-");
    concat(with_sep.as_str(), c.as_str())
}

proof fn lemma_digit_value(d: nat)
    requires
        d < 10,
    ensures
        ((digit_char(d) as u32) - ('0' as u32)) as nat == d,
{
    if d == 0 {} else if d == 1 {} else if d == 2 {} else if d == 3 {} else if d == 4 {}
    else if d == 5 {} else if d == 6 {} else if d == 7 {} else if d == 8 {} else {}
}

proof fn lemma_decimal_value(n: nat)
    ensures
        digits_value(decimal(n)) == n,
    decreases n,
{
    lemma_digit_value(n % 10);
    let s = decimal(n);
    assert(s.len() > 0);
    assert(s.last() == digit_char(n % 10));
    if n >= 10 {
        lemma_decimal_value(n / 10);
        assert(s.drop_last() =~= decimal(n / 10));
        assert((n / 10) * 10 + n % 10 == n) by (nonlinear_arith);
    } else {
        assert(s.drop_last() =~= Seq::<char>::empty());
        assert(digits_value(Seq::<char>::empty()) == 0);
    }
    assert(digits_value(s) == digits_value(s.drop_last()) * 10 + ((s.last() as u32) - ('0' as u32)) as nat);
}

/// Request ids are `hcd-` prefixed, and two requests of one process with
/// different counters never share an id.
pub proof fn law_request_ids_are_unique(pid: u32, a: u64, b: u64)
    requires
        a != b,
    ensures
        spec_request_id(pid, a) != spec_request_id(pid, b),
        spec_request_id(pid, a).take(4) == "hcd-"@,
{
    let p = "hcd-"@ + decimal(pid as nat) + "-"@;
    assert(spec_request_id(pid, a) =~= p + decimal(a as nat));
    assert(spec_request_id(pid, b) =~= p + decimal(b as nat));
    assert((p + decimal(a as nat)).skip(p.len() as int) =~= decimal(a as nat));
    assert((p + decimal(b as nat)).skip(p.len() as int) =~= decimal(b as nat));
    lemma_decimal_value(a as nat);
    lemma_decimal_value(b as nat);
    reveal_strlit("hcd-");
    assert(spec_request_id(pid, a).take(4) =~= "hcd-"@);
}

} // verus!
