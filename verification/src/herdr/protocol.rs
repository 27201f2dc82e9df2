//! Typed Herdr responses: envelope interpretation, server errors, CLI exit
//! handling, and the version baseline. JSON text is decoded outside the
//! library into the envelope types here.

use vstd::prelude::*;

use crate::error::{Error, ErrorKind, ErrorView, RunError, RunErrorView};
use crate::herdr::detail::{sanitize_detail, spec_sanitize};
use crate::text::{chars_of, concat, decimal, signed_decimal, signed_decimal_string, str_equal, spec_trim, trim_text};

verus! {

/// Minimum Herdr protocol number.
pub const MIN_PROTOCOL: u32 = 20;

/// A Herdr command either completed with its payload or reported a
/// not-found condition that callers may recompute from.
#[derive(Debug, Clone, PartialEq, Eq)]
pub enum CommandResult<T> {
    Completed(T),
    NotFound { code: String, message: String },
}

/// Error object of a Herdr response.
#[derive(Debug, Clone, PartialEq, Eq)]
pub struct ErrorBody {
    pub code: String,
    pub message: Option<String>,
}

/// Decoding of the payload object inside a result: absent, present but
/// without the required typed fields, or decoded.
#[derive(Debug, Clone, PartialEq, Eq)]
pub enum Fields<T> {
    Missing,
    Invalid,
    Decoded(T),
}

/// The `result` of a response: its `type` tag and its decoded payload.
#[derive(Debug, Clone, PartialEq, Eq)]
pub struct TaggedResult<T> {
    pub kind: String,
    pub fields: Fields<T>,
}

/// A decoded Herdr response envelope.
#[derive(Debug, Clone, PartialEq, Eq)]
pub struct Envelope<T> {
    pub id: Option<String>,
    pub result: Option<TaggedResult<T>>,
    pub error: Option<ErrorBody>,
}

/// Whether a server error becomes a protocol or an action failure.
#[derive(Debug, Clone, Copy, PartialEq, Eq, Structural)]
pub enum ServerErrorStyle {
    Protocol,
    Action,
}

pub open spec fn protocol_error(operation: Seq<char>, detail: Seq<char>) -> ErrorView {
    ErrorView { kind: ErrorKind::HerdrProtocol, message: operation + ": "@ + detail }
}

pub fn protocol(operation: &str, detail: &str) -> (e: Error)
    ensures
        e@ == protocol_error(operation@, detail@),
{
    let head = concat(operation, ": ");
    Error::herdr_protocol(concat(head.as_str(), detail))
}

pub open spec fn ends_with_chars(s: Seq<char>, suffix: Seq<char>) -> bool {
    suffix.len() <= s.len() && s.skip(s.len() - suffix.len()) == suffix
}

/// `not_found` and every `*_not_found` code mark a missing resource.
pub open spec fn spec_is_not_found(code: Seq<char>) -> bool {
    code == "not_found"@ || ends_with_chars(code, "_not_found"@)
}

pub fn is_not_found_code(code: &str) -> (r: bool)
    ensures
        r == spec_is_not_found(code@),
{
    if str_equal(code, "not_found") {
        return true;
    }
    let c = chars_of(code);
    let suffix = chars_of("_not_found");
    if suffix.len() > c.len() {
        return false;
    }
    let start = c.len() - suffix.len();
    let mut i: usize = 0;
    while i < suffix.len()
        invariant
            i <= suffix@.len(),
            start + suffix@.len() == c@.len(),
            c@.len() <= usize::MAX,
            c@ == code@,
            code@ != "not_found"@,
            suffix@ == "_not_found"@,
            forall|j: int| 0 <= j < i ==> c@[start + j] == suffix@[j],
        decreases suffix@.len() - i,
    {
        if c[start + i] != suffix[i] {
            assert(c@.skip(start as int)[i as int] != suffix@[i as int]);
            return false;
        }
        i += 1;
    }
    assert(c@.skip(start as int) =~= suffix@);
    true
}

/// `"{operation} failed ({code}: {message})"`, without the message part
/// when it is absent or sanitizes to nothing.
pub open spec fn server_error_detail(operation: Seq<char>, code: Seq<char>, message: Option<Seq<char>>) -> Seq<char> {
    let c = spec_sanitize(code);
    match message {
        Some(m) if spec_sanitize(m).len() > 0 => operation + " failed ("@ + c + ": "@ + spec_sanitize(m) + ")"@,
        _ => operation + " failed ("@ + c + ")"@,
    }
}

pub open spec fn opt_string(o: Option<String>) -> Option<Seq<char>> {
    match o {
        Some(s) => Some(s@),
        None => None,
    }
}

pub open spec fn spec_server_error(operation: Seq<char>, body: ErrorBody, style: ServerErrorStyle) -> ErrorView {
    ErrorView {
        kind: if style == ServerErrorStyle::Protocol { ErrorKind::HerdrProtocol } else { ErrorKind::HerdrAction },
        message: server_error_detail(operation, body.code@, opt_string(body.message)),
    }
}

pub fn server_error(operation: &str, error: &ErrorBody, style: ServerErrorStyle) -> (e: Error)
    ensures
        e@ == spec_server_error(operation@, *error, style),
{
    let code = sanitize_detail(error.code.as_str());
    let message = match &error.message {
        Some(m) => {
            let cleaned = sanitize_detail(m.as_str());
            if chars_of(cleaned.as_str()).len() > 0 { Some(cleaned) } else { None }
        },
        None => None,
    };
    let head = concat(operation, " failed (");
    let with_code = concat(head.as_str(), code.as_str());
    let detail = match message {
        Some(m) => {
            let sep = concat(with_code.as_str(), ": ");
            let body = concat(sep.as_str(), m.as_str());
            concat(body.as_str(), ")")
        },
        None => concat(with_code.as_str(), ")"),
    };
    match style {
        ServerErrorStyle::Protocol => Error::herdr_protocol(detail),
        ServerErrorStyle::Action => Error::herdr_action(detail),
    }
}

pub enum CommandResultView<V> {
    Completed(V),
    NotFound { code: Seq<char>, message: Seq<char> },
}

/// Interpretation of a response envelope: a present id (matching the
/// request when one is expected), never both result and error, not-found
/// codes as a distinct result, other server errors in the given style, and
/// the expected result kind with its decoded payload.
pub open spec fn spec_interpret<T>(envelope: Envelope<T>, expected_kind: Seq<char>, expected_id: Option<Seq<char>>, operation: Seq<char>, style: ServerErrorStyle, missing_detail: Seq<char>) -> Result<CommandResultView<T>, ErrorView> {
    if envelope.id is None || envelope.id->0@.len() == 0 {
        Err(protocol_error(operation, "missing response id"@))
    } else if expected_id is Some && envelope.id->0@ != expected_id->0 {
        Err(protocol_error(operation, "response id does not match the request"@))
    } else if envelope.result is Some && envelope.error is Some {
        Err(protocol_error(operation, "response includes both result and error"@))
    } else if envelope.error is Some {
        let e = envelope.error->0;
        if spec_is_not_found(e.code@) {
            Ok(CommandResultView::NotFound {
                code: e.code@,
                message: spec_sanitize(match e.message { Some(m) => m@, None => "not found"@ }),
            })
        } else {
            Err(spec_server_error(operation, e, style))
        }
    } else if envelope.result is None {
        Err(protocol_error(operation, "missing result"@))
    } else {
        let r = envelope.result->0;
        if r.kind@ != expected_kind {
            Err(protocol_error(operation, "unexpected result kind "@ + spec_sanitize(r.kind@)))
        } else {
            match r.fields {
                Fields::Missing => Err(protocol_error(operation, missing_detail)),
                Fields::Invalid => Err(protocol_error(operation, "missing or invalid required fields"@)),
                Fields::Decoded(t) => Ok(CommandResultView::Completed(t)),
            }
        }
    }
}

pub open spec fn result_view<T>(r: CommandResult<T>) -> CommandResultView<T> {
    match r {
        CommandResult::Completed(t) => CommandResultView::Completed(t),
        CommandResult::NotFound { code, message } => CommandResultView::NotFound { code: code@, message: message@ },
    }
}

pub open spec fn opt_str(o: Option<&str>) -> Option<Seq<char>> {
    match o {
        Some(s) => Some(s@),
        None => None,
    }
}

pub fn interpret_envelope<T>(envelope: Envelope<T>, expected_kind: &str, expected_id: Option<&str>, operation: &str, style: ServerErrorStyle, missing_detail: &str) -> (r: Result<CommandResult<T>, Error>)
    ensures
        match r {
            Ok(c) => spec_interpret(envelope, expected_kind@, opt_str(expected_id), operation@, style, missing_detail@) == Ok::<CommandResultView<T>, ErrorView>(result_view(c)),
            Err(e) => spec_interpret(envelope, expected_kind@, opt_str(expected_id), operation@, style, missing_detail@) == Err::<CommandResultView<T>, ErrorView>(e@),
        },
{
    let id_missing = match &envelope.id {
        None => true,
        Some(id) => chars_of(id.as_str()).len() == 0,
    };
    if id_missing {
        return Err(protocol(operation, "missing response id"));
    }
    if let Some(expected) = expected_id {
        let matches = match &envelope.id {
            Some(id) => str_equal(id.as_str(), expected),
            None => false,
        };
        if !matches {
            return Err(protocol(operation, "response id does not match the request"));
        }
    }
    if envelope.result.is_some() && envelope.error.is_some() {
        return Err(protocol(operation, "response includes both result and error"));
    }
    let Envelope { id: _, result, error } = envelope;
    if let Some(e) = error {
        if is_not_found_code(e.code.as_str()) {
            let message = match &e.message {
                Some(m) => sanitize_detail(m.as_str()),
                None => sanitize_detail("not found"),
            };
            return Ok(CommandResult::NotFound { code: e.code, message });
        }
        return Err(server_error(operation, &e, style));
    }
    let r = match result {
        Some(r) => r,
        None => return Err(protocol(operation, "missing result")),
    };
    if !str_equal(r.kind.as_str(), expected_kind) {
        let kind = sanitize_detail(r.kind.as_str());
        let detail = concat("unexpected result kind ", kind.as_str());
        return Err(protocol(operation, detail.as_str()));
    }
    match r.fields {
        Fields::Missing => Err(protocol(operation, missing_detail)),
        Fields::Invalid => Err(protocol(operation, "missing or invalid required fields")),
        Fields::Decoded(t) => Ok(CommandResult::Completed(t)),
    }
}


/// Output of one finished Herdr CLI run.
#[derive(Debug, Clone, PartialEq, Eq)]
pub struct CliOutput {
    pub stdout: Vec<u8>,
    pub stderr: Vec<u8>,
    pub success: bool,
    /// Exit code; `None` when a signal ended the process.
    pub code: Option<i32>,
}

/// Text that `String::from_utf8_lossy` makes of `bytes`.
pub uninterp spec fn utf8_lossy(bytes: Seq<u8>) -> Seq<char>;

/// `String::from_utf8_lossy`: the bytes as text, with each invalid UTF-8
/// sequence replaced by U+FFFD. The contract names the result; it depends on
/// the bytes alone.
#[verifier::external_body]
fn lossy_text(bytes: &[u8]) -> (s: String)
    ensures
        s@ == utf8_lossy(bytes@),
{
    String::from_utf8_lossy(bytes).into_owned()
}

/// Sanitized text of raw output bytes.
pub fn utf8_lossy_sanitized(bytes: &[u8]) -> (s: String)
    ensures
        s@ == spec_sanitize(utf8_lossy(bytes@)),
{
    let text = lossy_text(bytes);
    sanitize_detail(text.as_str())
}

/// The transport error of a run that exited with `code` (`None` for a
/// signal) and whose stderr reads as `stderr`.
pub open spec fn spec_status_error(operation: Seq<char>, code: Option<i32>, stderr: Seq<char>) -> ErrorView {
    let status: int = match code { Some(c) => c as int, None => -1 };
    ErrorView {
        kind: ErrorKind::HerdrTransport,
        message: operation + " exited with status "@ + signed_decimal(status) + ": "@ + spec_sanitize(stderr),
    }
}

pub open spec fn spec_failed_status(operation: Seq<char>, output: CliOutput) -> ErrorView {
    spec_status_error(operation, output.code, utf8_lossy(output.stderr@))
}

/// Transport error for a run that exited with `code` and wrote `stderr`.
pub fn status_error(operation: &str, code: Option<i32>, stderr: &str) -> (e: Error)
    ensures
        e@ == spec_status_error(operation@, code, stderr@),
{
    let status: i32 = match code {
        Some(c) => c,
        None => -1,
    };
    let digits = signed_decimal_string(status);
    let detail = sanitize_detail(stderr);
    let head = concat(operation, " exited with status ");
    let with_code = concat(head.as_str(), digits.as_str());
    let sep = concat(with_code.as_str(), ": ");
    Error::herdr_transport(concat(sep.as_str(), detail.as_str()))
}

/// Transport error for a run that exited unsuccessfully.
pub fn failed_status(operation: &str, output: &CliOutput) -> (e: Error)
    ensures
        e@ == spec_failed_status(operation@, *output),
{
    let stderr = lossy_text(output.stderr.as_slice());
    status_error(operation, output.code, stderr.as_str())
}

/// The stream that carries the response: stdout on success, otherwise
/// stderr unless it is empty.
pub open spec fn payload_of(output: CliOutput) -> Seq<u8> {
    if output.success {
        output.stdout@
    } else if output.stderr@.len() > 0 {
        output.stderr@
    } else {
        output.stdout@
    }
}

pub fn cli_payload(output: &CliOutput) -> (p: &Vec<u8>)
    ensures
        p@ == payload_of(*output),
{
    if output.success {
        &output.stdout
    } else if output.stderr.len() > 0 {
        &output.stderr
    } else {
        &output.stdout
    }
}

/// Interpretation of a finished CLI run whose payload decoded to
/// `envelope` (`None` when it is not a JSON envelope): an empty or
/// undecodable payload is a protocol error on success and a transport error
/// otherwise, and a completed result from a failed run is a transport error.
pub open spec fn spec_parse_cli<T>(output: CliOutput, envelope: Option<Envelope<T>>, expected_kind: Seq<char>, operation: Seq<char>, style: ServerErrorStyle, missing_detail: Seq<char>) -> Result<CommandResultView<T>, RunErrorView> {
    if payload_of(output).len() == 0 {
        if output.success {
            Err(RunErrorView::Failed(protocol_error(operation, "empty response"@)))
        } else {
            Err(RunErrorView::Failed(spec_failed_status(operation, output)))
        }
    } else if envelope is None {
        if output.success {
            Err(RunErrorView::Failed(protocol_error(operation, "response is not valid JSON"@)))
        } else {
            Err(RunErrorView::Failed(spec_failed_status(operation, output)))
        }
    } else {
        match spec_interpret(envelope->0, expected_kind, None, operation, style, missing_detail) {
            Ok(CommandResultView::Completed(t)) => if output.success {
                Ok(CommandResultView::Completed(t))
            } else {
                Err(RunErrorView::Failed(spec_failed_status(operation, output)))
            },
            Ok(other) => Ok(other),
            Err(e) => Err(RunErrorView::Failed(e)),
        }
    }
}

pub fn parse_cli<T>(output: &CliOutput, envelope: Option<Envelope<T>>, expected_kind: &str, operation: &str, style: ServerErrorStyle, missing_detail: &str) -> (r: Result<CommandResult<T>, RunError>)
    ensures
        match r {
            Ok(c) => spec_parse_cli(*output, envelope, expected_kind@, operation@, style, missing_detail@) == Ok::<CommandResultView<T>, RunErrorView>(result_view(c)),
            Err(e) => spec_parse_cli(*output, envelope, expected_kind@, operation@, style, missing_detail@) == Err::<CommandResultView<T>, RunErrorView>(e@),
        },
{
    if cli_payload(output).len() == 0 {
        if output.success {
            return Err(RunError::Failed(protocol(operation, "empty response")));
        }
        return Err(RunError::Failed(failed_status(operation, output)));
    }
    let envelope = match envelope {
        Some(e) => e,
        None => {
            if output.success {
                return Err(RunError::Failed(protocol(operation, "response is not valid JSON")));
            }
            return Err(RunError::Failed(failed_status(operation, output)));
        },
    };
    match interpret_envelope(envelope, expected_kind, None, operation, style, missing_detail) {
        Ok(CommandResult::Completed(t)) => {
            if output.success {
                Ok(CommandResult::Completed(t))
            } else {
                Err(RunError::Failed(failed_status(operation, output)))
            }
        },
        Ok(other) => Ok(other),
        Err(e) => Err(RunError::Failed(e)),
    }
}

pub open spec fn focus_error(detail: Seq<char>) -> RunErrorView {
    RunErrorView::Failed(protocol_error("pane focus"@, detail))
}

/// Interpretation of the one `pane.focus` response: the id must be the
/// request's, a `pane_info` result must name exactly the focused pane, and
/// not-found codes stay a distinct result.
pub open spec fn spec_focus_response(envelope: Option<Envelope<String>>, request_id: Seq<char>, pane_id: Seq<char>) -> Result<CommandResultView<()>, RunErrorView> {
    match envelope {
        None => Err(focus_error("response is not valid JSON"@)),
        Some(env) => match spec_interpret(env, "pane_info"@, Some(request_id), "pane focus"@, ServerErrorStyle::Action, "missing pane object"@) {
            Err(e) => Err(RunErrorView::Failed(e)),
            Ok(CommandResultView::NotFound { code, message }) => Ok(CommandResultView::NotFound { code, message }),
            Ok(CommandResultView::Completed(focused)) => if focused@ != pane_id {
                Err(focus_error("returned a mismatched pane id"@))
            } else if focused@.len() == 0 {
                Err(focus_error("missing pane id"@))
            } else {
                Ok(CommandResultView::Completed(()))
            },
        },
    }
}

/// Interpret the response to one exact-pane focus request. `envelope` is
/// the decoded response, with the focused pane's id as its payload.
pub fn parse_pane_focus_response(envelope: Option<Envelope<String>>, request_id: &str, pane_id: &str) -> (r: Result<CommandResult<()>, RunError>)
    ensures
        match r {
            Ok(c) => spec_focus_response(envelope, request_id@, pane_id@) == Ok::<CommandResultView<()>, RunErrorView>(result_view(c)),
            Err(e) => spec_focus_response(envelope, request_id@, pane_id@) == Err::<CommandResultView<()>, RunErrorView>(e@),
        },
{
    let env = match envelope {
        Some(e) => e,
        None => return Err(RunError::Failed(protocol("pane focus", "response is not valid JSON"))),
    };
    match interpret_envelope(env, "pane_info", Some(request_id), "pane focus", ServerErrorStyle::Action, "missing pane object") {
        Err(e) => Err(RunError::Failed(e)),
        Ok(CommandResult::NotFound { code, message }) => Ok(CommandResult::NotFound { code, message }),
        Ok(CommandResult::Completed(focused)) => {
            if !str_equal(focused.as_str(), pane_id) {
                return Err(RunError::Failed(protocol("pane focus", "returned a mismatched pane id")));
            }
            if chars_of(focused.as_str()).len() == 0 {
                return Err(RunError::Failed(protocol("pane focus", "missing pane id")));
            }
            Ok(CommandResult::Completed(()))
        },
    }
}


pub open spec fn is_digit(c: char) -> bool {
    '0' <= c && c <= '9'
}

/// Value of a run of decimal digits.
pub open spec fn digits_value(s: Seq<char>) -> nat
    decreases s.len(),
{
    if s.len() == 0 {
        0
    } else {
        digits_value(s.drop_last()) * 10 + ((s.last() as u32) - ('0' as u32)) as nat
    }
}

/// A non-empty run of decimal digits whose value fits in a `u64`, as
/// `u64::from_str` reads text without a sign.
pub open spec fn spec_parse_u64(s: Seq<char>) -> Option<u64> {
    if s.len() > 0 && (forall|i: int| 0 <= i < s.len() ==> is_digit(#[trigger] s[i])) && digits_value(s) <= u64::MAX {
        Some(digits_value(s) as u64)
    } else {
        None
    }
}

proof fn lemma_digits_value_mono(s: Seq<char>, i: int)
    requires
        0 <= i <= s.len(),
        forall|j: int| 0 <= j < s.len() ==> is_digit(#[trigger] s[j]),
    ensures
        digits_value(s.take(i)) <= digits_value(s),
    decreases s.len() - i,
{
    if i < s.len() {
        lemma_digits_value_mono(s, i + 1);
        assert(s.take(i + 1).drop_last() =~= s.take(i));
        assert(digits_value(s.take(i + 1)) == digits_value(s.take(i)) * 10 + ((s[i] as u32) - ('0' as u32)) as nat);
    } else {
        assert(s.take(i) =~= s);
    }
}

pub fn parse_u64(v: &Vec<char>, lo: usize, hi: usize) -> (r: Option<u64>)
    requires
        lo <= hi <= v@.len(),
    ensures
        r == spec_parse_u64(v@.subrange(lo as int, hi as int)),
{
    let ghost s = v@.subrange(lo as int, hi as int);
    if lo == hi {
        return None;
    }
    let mut i = lo;
    let mut value: u64 = 0;
    while i < hi
        invariant
            lo <= i <= hi <= v@.len(),
            s == v@.subrange(lo as int, hi as int),
            forall|j: int| lo <= j < i ==> is_digit(#[trigger] v@[j]),
            value == digits_value(v@.subrange(lo as int, i as int)),
        decreases hi - i,
    {
        let c = v[i];
        if !('0' <= c && c <= '9') {
            assert(!is_digit(s[i - lo]));
            return None;
        }
        let d: u64 = ((c as u32) - ('0' as u32)) as u64;
        assert(v@.subrange(lo as int, i + 1).drop_last() =~= v@.subrange(lo as int, i as int));
        if value > (u64::MAX - d) / 10 {
            proof {
                if forall|k: int| 0 <= k < s.len() ==> is_digit(#[trigger] s[k]) {
                    assert(s.take(i + 1 - lo) =~= v@.subrange(lo as int, i + 1));
                    lemma_digits_value_mono(s, i + 1 - lo);
                    assert(digits_value(v@.subrange(lo as int, i + 1)) == value * 10 + d);
                    assert(value * 10 + d > u64::MAX) by (nonlinear_arith)
                        requires value > (u64::MAX - d) / 10, d <= 9;
                }
            }
            return None;
        }
        assert(value * 10 + d <= u64::MAX) by (nonlinear_arith)
            requires value <= (u64::MAX - d) / 10, d <= 9;
        value = value * 10 + d;
        i += 1;
    }
    Some(value)
}


/// Index of the first `a` or `b` in `s`, or -1.
pub open spec fn first_of(s: Seq<char>, a: char, b: char) -> int
    decreases s.len(),
{
    if s.len() == 0 {
        -1
    } else if s[0] == a || s[0] == b {
        0
    } else {
        let r = first_of(s.drop_first(), a, b);
        if r < 0 { -1 } else { r + 1 }
    }
}

proof fn lemma_first_of(s: Seq<char>, a: char, b: char)
    ensures
        -1 <= first_of(s, a, b) < s.len(),
        first_of(s, a, b) >= 0 ==> s[first_of(s, a, b)] == a || s[first_of(s, a, b)] == b,
        forall|j: int| 0 <= j < s.len() && (first_of(s, a, b) < 0 || j < first_of(s, a, b)) ==> #[trigger] s[j] != a && s[j] != b,
    decreases s.len(),
{
    if s.len() > 0 && s[0] != a && s[0] != b {
        lemma_first_of(s.drop_first(), a, b);
        assert forall|j: int| 0 <= j < s.len() && (first_of(s, a, b) < 0 || j < first_of(s, a, b)) implies #[trigger] s[j] != a && s[j] != b by {
            if j > 0 {
                assert(s[j] == s.drop_first()[j - 1]);
            }
        }
    }
}

/// Scan `v[from..to]` for the first `a` or `b`; `to` when there is none.
fn scan_for(v: &Vec<char>, from: usize, to: usize, a: char, b: char) -> (i: usize)
    requires
        from <= to <= v@.len(),
    ensures
        from <= i <= to,
        i < to ==> first_of(v@.subrange(from as int, to as int), a, b) == i - from,
        i == to ==> first_of(v@.subrange(from as int, to as int), a, b) == -1,
{
    let ghost s = v@.subrange(from as int, to as int);
    proof { lemma_first_of(s, a, b); }
    let mut i = from;
    while i < to && v[i] != a && v[i] != b
        invariant
            from <= i <= to <= v@.len(),
            s == v@.subrange(from as int, to as int),
            forall|j: int| from <= j < i ==> #[trigger] v@[j] != a && v@[j] != b,
        decreases to - i,
    {
        i += 1;
    }
    proof {
        let f = first_of(s, a, b);
        if i < to {
            assert(s[i - from] == v@[i as int]);
            if f >= 0 && f < i - from {
                assert(s[f] == v@[from + f]);
            }
            if f < 0 || f > i - from {
                assert(s[i - from] != a && s[i - from] != b);
            }
        } else if f >= 0 {
            assert(s[f] == v@[from + f]);
        }
    }
    i
}

pub open spec fn strip_leading_v(s: Seq<char>) -> Seq<char>
    decreases s.len(),
{
    if s.len() > 0 && s[0] == 'v' { strip_leading_v(s.drop_first()) } else { s }
}

/// The first three `.`-separated numbers of a version, after trimming,
/// dropping leading `v`s, and cutting at the first `-` or `+`.
pub open spec fn spec_parse_version(value: Seq<char>) -> Option<(u64, u64, u64)> {
    let u = strip_leading_v(spec_trim(value));
    let cut = first_of(u, '-', '+');
    let core = if cut < 0 { u } else { u.take(cut) };
    let d1 = first_of(core, '.', '.');
    if d1 < 0 {
        None
    } else {
        let rest1 = core.skip(d1 + 1);
        let d2 = first_of(rest1, '.', '.');
        if d2 < 0 {
            None
        } else {
            let rest2 = rest1.skip(d2 + 1);
            let d3 = first_of(rest2, '.', '.');
            let third = if d3 < 0 { rest2 } else { rest2.take(d3) };
            match (spec_parse_u64(core.take(d1)), spec_parse_u64(rest1.take(d2)), spec_parse_u64(third)) {
                (Some(a), Some(b), Some(c)) => Some((a, b, c)),
                _ => None,
            }
        }
    }
}

#[verifier::spinoff_prover]
#[verifier::rlimit(40)]
pub fn parse_version(value: &str) -> (r: Option<(u64, u64, u64)>)
    ensures
        r == spec_parse_version(value@),
{
    let t = trim_text(value);
    let v = chars_of(t.as_str());
    let mut lo: usize = 0;
    assert(v@.skip(0) =~= v@);
    while lo < v.len() && v[lo] == 'v'
        invariant
            lo <= v@.len(),
            strip_leading_v(v@.skip(lo as int)) == strip_leading_v(v@),
        decreases v@.len() - lo,
    {
        assert(v@.skip(lo as int).drop_first() =~= v@.skip(lo + 1));
        lo += 1;
    }
    let ghost u = v@.skip(lo as int);
    assert(strip_leading_v(u) == u);
    assert(v@.subrange(lo as int, v@.len() as int) =~= u);
    let hi = scan_for(&v, lo, v.len(), '-', '+');
    let ghost core = v@.subrange(lo as int, hi as int);
    proof {
        if hi < v.len() {
            assert(u.take(hi - lo) =~= core);
        } else {
            assert(u =~= core);
        }
    }
    let d1 = scan_for(&v, lo, hi, '.', '.');
    if d1 == hi {
        return None;
    }
    assert(core.take(d1 - lo) =~= v@.subrange(lo as int, d1 as int));
    assert(core.skip(d1 - lo + 1) =~= v@.subrange(d1 + 1, hi as int));
    let d2 = scan_for(&v, d1 + 1, hi, '.', '.');
    if d2 == hi {
        return None;
    }
    let ghost rest1 = v@.subrange(d1 + 1, hi as int);
    assert(rest1.take(d2 - d1 - 1) =~= v@.subrange(d1 + 1, d2 as int));
    assert(rest1.skip(d2 - d1) =~= v@.subrange(d2 + 1, hi as int));
    let d3 = scan_for(&v, d2 + 1, hi, '.', '.');
    let ghost rest2 = v@.subrange(d2 + 1, hi as int);
    proof {
        if d3 < hi {
            assert(rest2.take(d3 - d2 - 1) =~= v@.subrange(d2 + 1, d3 as int));
        } else {
            assert(rest2 =~= v@.subrange(d2 + 1, d3 as int));
        }
    }
    let major = parse_u64(&v, lo, d1);
    let minor = parse_u64(&v, d1 + 1, d2);
    let patch = parse_u64(&v, d2 + 1, d3);
    match (major, minor, patch) {
        (Some(a), Some(b), Some(c)) => Some((a, b, c)),
        _ => None,
    }
}

/// `a` is older than `b`, comparing major, minor, then patch.
pub open spec fn version_lt(a: (u64, u64, u64), b: (u64, u64, u64)) -> bool {
    a.0 < b.0 || (a.0 == b.0 && (a.1 < b.1 || (a.1 == b.1 && a.2 < b.2)))
}

/// The snapshot's version must parse and neither it nor the protocol may
/// be older than the 0.8.2 / protocol 20 baseline.
pub open spec fn spec_require_supported(version: Seq<char>, protocol: u32) -> Result<(), ErrorView> {
    match spec_parse_version(version) {
        None => Err(ErrorView { kind: ErrorKind::IncompatibleHerdr, message: "Herdr snapshot version is missing or unsupported"@ }),
        Some(v) => if protocol < MIN_PROTOCOL || version_lt(v, (0, 8, 2)) {
            Err(ErrorView { kind: ErrorKind::IncompatibleHerdr, message: "Herdr version or protocol is below the 0.8.2 baseline"@ })
        } else {
            Ok(())
        },
    }
}

pub fn require_supported_version(version: &str, protocol: u32) -> (r: Result<(), Error>)
    ensures
        match r {
            Ok(()) => spec_require_supported(version@, protocol) is Ok,
            Err(e) => spec_require_supported(version@, protocol) == Err::<(), ErrorView>(e@),
        },
{
    let v = match parse_version(version) {
        Some(v) => v,
        None => return Err(Error::incompatible_herdr(String::from_str("Herdr snapshot version is missing or unsupported"))),
    };
    let older = v.0 < 0 || (v.0 == 0 && (v.1 < 8 || (v.1 == 8 && v.2 < 2)));
    if protocol < MIN_PROTOCOL || older {
        return Err(Error::incompatible_herdr(String::from_str("Herdr version or protocol is below the 0.8.2 baseline")));
    }
    Ok(())
}


/// `session_snapshot` responses; the payload is the `snapshot` object.
pub fn parse_snapshot<T>(output: &CliOutput, envelope: Option<Envelope<T>>) -> (r: Result<CommandResult<T>, RunError>)
    ensures
        match r {
            Ok(c) => spec_parse_cli(*output, envelope, "session_snapshot"@, "session snapshot"@, ServerErrorStyle::Protocol, "missing snapshot object"@) == Ok::<CommandResultView<T>, RunErrorView>(result_view(c)),
            Err(e) => spec_parse_cli(*output, envelope, "session_snapshot"@, "session snapshot"@, ServerErrorStyle::Protocol, "missing snapshot object"@) == Err::<CommandResultView<T>, RunErrorView>(e@),
        },
{
    parse_cli(output, envelope, "session_snapshot", "session snapshot", ServerErrorStyle::Protocol, "missing snapshot object")
}

/// `pane_current` responses; the payload is the `pane` object.
pub fn parse_pane_current<T>(output: &CliOutput, envelope: Option<Envelope<T>>) -> (r: Result<CommandResult<T>, RunError>)
    ensures
        match r {
            Ok(c) => spec_parse_cli(*output, envelope, "pane_current"@, "live caller lookup"@, ServerErrorStyle::Protocol, "missing pane object"@) == Ok::<CommandResultView<T>, RunErrorView>(result_view(c)),
            Err(e) => spec_parse_cli(*output, envelope, "pane_current"@, "live caller lookup"@, ServerErrorStyle::Protocol, "missing pane object"@) == Err::<CommandResultView<T>, RunErrorView>(e@),
        },
{
    parse_cli(output, envelope, "pane_current", "live caller lookup", ServerErrorStyle::Protocol, "missing pane object")
}

/// `pane_process_info` responses; the payload is the `process_info` object.
pub fn parse_process_info<T>(output: &CliOutput, envelope: Option<Envelope<T>>) -> (r: Result<CommandResult<T>, RunError>)
    ensures
        match r {
            Ok(c) => spec_parse_cli(*output, envelope, "pane_process_info"@, "pane process inspection"@, ServerErrorStyle::Protocol, "missing process_info object"@) == Ok::<CommandResultView<T>, RunErrorView>(result_view(c)),
            Err(e) => spec_parse_cli(*output, envelope, "pane_process_info"@, "pane process inspection"@, ServerErrorStyle::Protocol, "missing process_info object"@) == Err::<CommandResultView<T>, RunErrorView>(e@),
        },
{
    parse_cli(output, envelope, "pane_process_info", "pane process inspection", ServerErrorStyle::Protocol, "missing process_info object")
}

} // verus!
