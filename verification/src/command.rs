//! The `hnd` command boundary: plugin identity, argument decoding, caller
//! environment rules, and the errors shown to Nushell.

use vstd::prelude::*;

use crate::error::{Error, ErrorKind, ErrorView, RunError, RunErrorView, Span, kind_name};
use crate::herdr::context::{EnvValue, HerdrMode, InsideContext, classify_herdr_env, inside_context, opt_env, pair_views, spec_classify, spec_inside_context, ContextView, distinct_keys};
use crate::path::{CanonicalPath, is_absolute_text, spec_lexical_target, text_of};
use crate::text::{chars_of, concat, str_equal, chars_start_with};

verus! {

/// Nushell plugin identity advertised by the plugin binary.
pub const PLUGIN_IDENTITY: &'static str = "herdr_navigate_directory";

/// Version the plugin reports to Nushell.
pub const PLUGIN_VERSION: &'static str = "0.2.0";

/// The one public command.
pub const COMMAND_NAME: &'static str = "hnd";

/// Command name of the `hcd` plugin.
pub const HCD_COMMAND_NAME: &'static str = "hcd";

/// The plugin process that registers exactly one public command, `hnd`.
pub struct HerdrNavigateDirectoryPlugin;

impl HerdrNavigateDirectoryPlugin {
    pub fn version(&self) -> (v: &'static str)
        ensures
            v@ == "0.2.0"@,
    {
        PLUGIN_VERSION
    }

    /// Names of the registered commands.
    pub fn command_names(&self) -> (names: Vec<&'static str>)
        ensures
            names@.len() == 1,
            names@[0]@ == "hnd"@,
    {
        let mut names: Vec<&'static str> = Vec::new();
        names.push(COMMAND_NAME);
        names
    }
}

/// The plugin process that registers only `hcd`.
pub struct HerdrCdPlugin;

impl HerdrCdPlugin {
    pub fn version(&self) -> (v: &'static str)
        ensures
            v@ == "0.2.0"@,
    {
        PLUGIN_VERSION
    }

    pub fn command_names(&self) -> (names: Vec<&'static str>)
        ensures
            names@.len() == 1,
            names@[0]@ == "hcd"@,
    {
        let mut names: Vec<&'static str> = Vec::new();
        names.push(HCD_COMMAND_NAME);
        names
    }
}

/// One-line description of `hnd`.
pub const HND_DESCRIPTION: &'static str = "Change directory, reusing an idle Herdr pane when possible";

/// Extended help of `hnd`.
pub const HND_EXTRA_DESCRIPTION: &'static str = "With no path, hnd navigates to the caller's $env.HOME. A bare - selects $env.OLDPWD, falling back to the current directory when OLDPWD is absent; use ./- for a literal directory named -. Every directory change writes the canonical old directory to $env.OLDPWD before updating $env.PWD. Outside Herdr, hnd changes the calling pane's directory. Inside Herdr, it reuses an eligible pane, changes directory only for downward navigation, or creates a focused tab or workspace; focus and create actions leave PWD and OLDPWD unchanged. Configure reusable agent states with $env.config.plugins.herdr_navigate_directory.idle_agent_statuses; the default is [idle done]. Successful calls return nothing. Experimental opt-in dynamic completion can enrich the directory argument with live Herdr workspace and pane paths; it is not an action preview.";

/// Help of the optional `path` argument of `hnd`.
pub const HND_PATH_DESCRIPTION: &'static str = "Directory to navigate to; omit for home or use - for the previous directory";

/// Extended help of `hcd`.
pub const HCD_EXTRA_DESCRIPTION: &'static str = "Navigation is not implemented yet. Successful calls will later return nothing.";

/// What the positional argument asks for.
#[derive(Debug, Clone, PartialEq, Eq)]
pub enum TargetRequest {
    Home,
    Previous,
    Explicit(String),
}

pub enum TargetRequestView {
    Home,
    Previous,
    Explicit(Seq<char>),
}

impl View for TargetRequest {
    type V = TargetRequestView;

    open spec fn view(&self) -> TargetRequestView {
        match self {
            TargetRequest::Home => TargetRequestView::Home,
            TargetRequest::Previous => TargetRequestView::Previous,
            TargetRequest::Explicit(s) => TargetRequestView::Explicit(s@),
        }
    }
}

/// No argument means home, a bare `-` the previous directory, anything
/// else (including `./-`) a literal path.
pub open spec fn spec_decode_target(arg: Option<Seq<char>>) -> TargetRequestView {
    match arg {
        None => TargetRequestView::Home,
        Some(t) => if t == "-"@ { TargetRequestView::Previous } else { TargetRequestView::Explicit(t) },
    }
}

pub open spec fn opt_string_view(o: Option<String>) -> Option<Seq<char>> {
    match o {
        Some(s) => Some(s@),
        None => None,
    }
}

pub fn decode_target_request(arg: Option<String>) -> (r: TargetRequest)
    ensures
        r@ == spec_decode_target(opt_string_view(arg)),
{
    match arg {
        None => TargetRequest::Home,
        Some(target) => if str_equal(target.as_str(), "-") { TargetRequest::Previous } else { TargetRequest::Explicit(target) },
    }
}

/// A Nushell labeled error before conversion: message, machine code, one
/// label with its span.
#[derive(Debug, Clone, PartialEq, Eq)]
pub struct LabeledErrorData {
    pub message: String,
    pub code: String,
    pub label: String,
    pub span: Span,
}

/// The error code `herdr_navigate_directory::{kind}`.
pub open spec fn error_code(kind: ErrorKind) -> Seq<char> {
    "herdr_navigate_directory::"@ + kind_name(kind)
}

pub open spec fn labeled_matches(l: LabeledErrorData, e: ErrorView, span: Span) -> bool {
    &&& l.message@ == e.message
    &&& l.code@ == error_code(e.kind)
    &&& l.label@ == kind_name(e.kind)
    &&& l.span == span
}

pub fn labeled_error_at(error: &Error, span: Span) -> (l: LabeledErrorData)
    ensures
        labeled_matches(l, error@, span),
{
    let kind = error.kind();
    LabeledErrorData {
        message: String::from_str(error.message()),
        code: concat("herdr_navigate_directory::", kind.as_str()),
        label: String::from_str(kind.as_str()),
        span,
    }
}

/// Path errors point at the path argument; every other kind at the command.
pub open spec fn error_span(kind: ErrorKind, path_span: Span, head: Span) -> Span {
    if kind == ErrorKind::InvalidPath { path_span } else { head }
}

pub fn labeled_error(error: &Error, path_span: Span, head: Span) -> (l: LabeledErrorData)
    ensures
        labeled_matches(l, error@, error_span(error@.kind, path_span, head)),
{
    let span = match error.kind() {
        ErrorKind::InvalidPath => path_span,
        _ => head,
    };
    labeled_error_at(error, span)
}

/// What a failed invocation reports: Nushell's interruption at the
/// command head, or a labeled error.
#[derive(Debug, Clone, PartialEq, Eq)]
pub enum Failure {
    Interrupted { span: Span },
    Labeled(LabeledErrorData),
}

pub fn map_run_error_parts(error: RunError, path_span: Span, head: Span) -> (f: Failure)
    ensures
        error is Interrupted ==> f == (Failure::Interrupted { span: head }),
        error matches RunError::Failed(e) ==> (f matches Failure::Labeled(l) && labeled_matches(l, e@, error_span(e@.kind, path_span, head))),
{
    match error {
        RunError::Interrupted => Failure::Interrupted { span: head },
        RunError::Failed(e) => Failure::Labeled(labeled_error(&e, path_span, head)),
    }
}

/// The error that `hcd` reports: navigation is not implemented in it.
pub fn not_implemented(span: Span) -> (l: (String, String, Span))
    ensures
        l.0@ == "hcd is not implemented yet"@,
        l.1@ == "navigation behavior will be added in later phases"@,
        l.2 == span,
{
    (String::from_str("hcd is not implemented yet"), String::from_str("navigation behavior will be added in later phases"), span)
}

/// `hnd` supports Linux and macOS only.
pub open spec fn spec_platform_supported(os: Seq<char>) -> bool {
    os == "linux"@ || os == "macos"@
}

pub fn platform_is_supported(os: &str) -> (r: bool)
    ensures
        r == spec_platform_supported(os@),
{
    str_equal(os, "linux") || str_equal(os, "macos")
}

pub open spec fn path_error(message: Seq<char>) -> ErrorView {
    ErrorView { kind: ErrorKind::InvalidPath, message }
}

/// An optional absolute path from the caller's environment: absent is
/// fine; otherwise a non-empty absolute string.
pub open spec fn spec_optional_absolute(name: Seq<char>, value: Option<EnvValue>) -> Result<Option<Seq<char>>, ErrorView> {
    match value {
        None => Ok(None),
        Some(EnvValue::Other) => Err(path_error(name + " must be a string"@)),
        Some(EnvValue::String(s)) => if s@.len() == 0 {
            Err(path_error(name + " must not be empty"@))
        } else if !is_absolute_text(s@) {
            Err(path_error(name + " must be an absolute path"@))
        } else {
            Ok(Some(s@))
        },
    }
}

pub fn optional_absolute_path_env(name: &str, value: Option<EnvValue>) -> (r: Result<Option<String>, Error>)
    ensures
        match r {
            Ok(v) => spec_optional_absolute(name@, value) == Ok::<Option<Seq<char>>, ErrorView>(opt_string_view(v)),
            Err(e) => spec_optional_absolute(name@, value) == Err::<Option<Seq<char>>, ErrorView>(e@),
        },
{
    match value {
        None => Ok(None),
        Some(EnvValue::Other) => Err(Error::invalid_path(concat(name, " must be a string"))),
        Some(EnvValue::String(s)) => {
            let v = chars_of(s.as_str());
            if v.len() == 0 {
                return Err(Error::invalid_path(concat(name, " must not be empty")));
            }
            if v[0] != '/' {
                return Err(Error::invalid_path(concat(name, " must be an absolute path")));
            }
            Ok(Some(s))
        },
    }
}

/// A required absolute path from the caller's environment.
pub open spec fn spec_required_absolute(name: Seq<char>, value: Option<EnvValue>) -> Result<Seq<char>, ErrorView> {
    match spec_optional_absolute(name, value) {
        Err(e) => Err(e),
        Ok(None) => Err(path_error(name + " is missing from the caller environment"@)),
        Ok(Some(s)) => Ok(s),
    }
}

pub fn required_absolute_path_env(name: &str, value: Option<EnvValue>) -> (r: Result<String, Error>)
    ensures
        match r {
            Ok(v) => spec_required_absolute(name@, value) == Ok::<Seq<char>, ErrorView>(v@),
            Err(e) => spec_required_absolute(name@, value) == Err::<Seq<char>, ErrorView>(e@),
        },
{
    match optional_absolute_path_env(name, value)? {
        Some(v) => Ok(v),
        None => Err(Error::invalid_path(concat(name, " is missing from the caller environment"))),
    }
}

/// The caller's home for `~` expansion: a non-empty string, else none.
pub open spec fn spec_read_home(value: Option<EnvValue>) -> Option<Seq<char>> {
    match value {
        Some(EnvValue::String(s)) => if s@.len() > 0 { Some(s@) } else { None },
        _ => None,
    }
}

pub fn read_home(value: Option<EnvValue>) -> (r: Option<String>)
    ensures
        opt_string_view(r) == spec_read_home(value),
{
    match value {
        Some(EnvValue::String(s)) => if chars_of(s.as_str()).len() > 0 { Some(s) } else { None },
        _ => None,
    }
}

/// Where a request points before path resolution: the caller's own
/// directory (a bare `-` without `OLDPWD`), or a lexical target with the
/// home to expand `~` against.
#[derive(Debug, Clone, PartialEq, Eq)]
pub enum TargetPlan {
    CallerCwd,
    Lexical { target: String, home: Option<String> },
}

pub open spec fn wants_home_text(t: Seq<char>) -> bool {
    t == "~"@ || (t.len() >= 2 && t[0] == '~' && t[1] == '/')
}

/// The caller's `HOME` is read for a home request and for an explicit
/// `~` or `~/...` target; `OLDPWD` only for a previous request.
pub open spec fn spec_reads_home(request: TargetRequestView) -> bool {
    match request {
        TargetRequestView::Home => true,
        TargetRequestView::Previous => false,
        TargetRequestView::Explicit(t) => wants_home_text(t),
    }
}

pub fn reads_home(request: &TargetRequest) -> (r: bool)
    ensures
        r == spec_reads_home(request@),
{
    match request {
        TargetRequest::Home => true,
        TargetRequest::Previous => false,
        TargetRequest::Explicit(t) => {
            let v = chars_of(t.as_str());
            proof {
                if v@ == "~"@ { reveal_strlit("~"); assert(v@.len() == 1 && v@[0] == '~'); }
                if v@.len() == 1 && v@[0] == '~' { assert(v@ =~= "~"@) by { reveal_strlit("~"); } }
            }
            (v.len() == 1 && v[0] == '~') || (v.len() >= 2 && v[0] == '~' && v[1] == '/')
        },
    }
}

/// Home uses the required absolute `HOME`; previous the optional absolute
/// `OLDPWD`, else stays; an explicit path reads the home only for `~`.
pub open spec fn spec_plan_target(request: TargetRequestView, home: Option<EnvValue>, oldpwd: Option<EnvValue>) -> Result<(bool, Seq<char>, Option<Seq<char>>), ErrorView> {
    match request {
        TargetRequestView::Home => match spec_required_absolute("HOME"@, home) {
            Err(e) => Err(e),
            Ok(h) => Ok((false, h, None)),
        },
        TargetRequestView::Previous => match spec_optional_absolute("OLDPWD"@, oldpwd) {
            Err(e) => Err(e),
            Ok(None) => Ok((true, seq![], None)),
            Ok(Some(p)) => Ok((false, p, None)),
        },
        TargetRequestView::Explicit(t) => Ok((false, t, if wants_home_text(t) { spec_read_home(home) } else { None })),
    }
}

pub open spec fn plan_view(p: TargetPlan) -> (bool, Seq<char>, Option<Seq<char>>) {
    match p {
        TargetPlan::CallerCwd => (true, seq![], None),
        TargetPlan::Lexical { target, home } => (false, target@, opt_string_view(home)),
    }
}

pub fn plan_target(request: TargetRequest, home: Option<EnvValue>, oldpwd: Option<EnvValue>) -> (r: Result<TargetPlan, Error>)
    ensures
        match r {
            Ok(p) => spec_plan_target(request@, home, oldpwd) == Ok::<(bool, Seq<char>, Option<Seq<char>>), ErrorView>(plan_view(p)),
            Err(e) => spec_plan_target(request@, home, oldpwd) == Err::<(bool, Seq<char>, Option<Seq<char>>), ErrorView>(e@),
        },
{
    match request {
        TargetRequest::Home => {
            let h = required_absolute_path_env("HOME", home)?;
            Ok(TargetPlan::Lexical { target: h, home: None })
        },
        TargetRequest::Previous => match optional_absolute_path_env("OLDPWD", oldpwd)? {
            None => Ok(TargetPlan::CallerCwd),
            Some(p) => Ok(TargetPlan::Lexical { target: p, home: None }),
        },
        TargetRequest::Explicit(t) => {
            let v = chars_of(t.as_str());
            let is_tilde = v.len() == 1 && v[0] == '~';
            let tilde_slash = v.len() >= 2 && v[0] == '~' && v[1] == '/';
            proof {
                if is_tilde { assert(v@ =~= "~"@) by { reveal_strlit("~"); } }
                if v@ == "~"@ { reveal_strlit("~"); assert(v@.len() == 1 && v@[0] == '~'); }
            }
            let h = if is_tilde || tilde_slash { read_home(home) } else { None };
            Ok(TargetPlan::Lexical { target: t, home: h })
        },
    }
}


/// `hnd ~` goes exactly where a bare `hnd` goes: with a usable `HOME`, the
/// explicit `~` target and the home request plan, expand, and join to the
/// same lexical target from any caller directory.
pub proof fn law_explicit_tilde_resolves_like_home(cwd: Seq<Seq<char>>, home: Option<EnvValue>, oldpwd: Option<EnvValue>)
    requires
        spec_required_absolute("HOME"@, home) is Ok,
    ensures
        spec_plan_target(TargetRequestView::Explicit("~"@), home, oldpwd) matches Ok((false, t1, h1))
            && spec_plan_target(TargetRequestView::Home, home, oldpwd) matches Ok((false, t2, h2))
            && spec_lexical_target(cwd, t1, h1) is Ok
            && spec_lexical_target(cwd, t1, h1) == spec_lexical_target(cwd, t2, h2),
{
    reveal_strlit("~");
    reveal_strlit("HOME");
    let h = spec_required_absolute("HOME"@, home)->Ok_0;
    assert(h.len() > 0 && is_absolute_text(h));
    assert("~"@ =~= seq!['~']);
    assert(spec_read_home(home) == Some(h));
}

/// An explicit target that starts with `~/` is planned with the caller's
/// home whenever one is set, so that `~/x` expands against it.
pub proof fn law_tilde_paths_carry_the_home(t: Seq<char>, home: Option<EnvValue>, oldpwd: Option<EnvValue>)
    requires
        t.len() >= 2,
        t[0] == '~',
        t[1] == '/',
    ensures
        spec_plan_target(TargetRequestView::Explicit(t), home, oldpwd) == Ok::<(bool, Seq<char>, Option<Seq<char>>), ErrorView>((false, t, spec_read_home(home))),
{
}

/// Any other explicit target is planned without a home: `HOME` plays no
/// part in it.
pub proof fn law_plain_targets_ignore_home(t: Seq<char>, home: Option<EnvValue>, other: Option<EnvValue>, oldpwd: Option<EnvValue>)
    requires
        t != seq!['~'],
        !(t.len() >= 2 && t[0] == '~' && t[1] == '/'),
    ensures
        spec_plan_target(TargetRequestView::Explicit(t), home, oldpwd) == spec_plan_target(TargetRequestView::Explicit(t), other, oldpwd),
        spec_plan_target(TargetRequestView::Explicit(t), home, oldpwd) == Ok::<(bool, Seq<char>, Option<Seq<char>>), ErrorView>((false, t, None)),
{
    reveal_strlit("~");
    assert("~"@ =~= seq!['~']);
}

pub open spec fn herdr_key(k: Seq<char>) -> bool {
    k.len() >= 6 && k.take(6) == "HERDR_"@
}

pub open spec fn context_error(message: Seq<char>) -> ErrorView {
    ErrorView { kind: ErrorKind::InvalidHerdrContext, message }
}

/// The caller's `HERDR_*` variables: strings kept in order, a non-string
/// `HERDR_ENV` skipped, any other non-string rejected.
pub open spec fn collect_herdr_vars(vars: Seq<(String, EnvValue)>) -> Result<Seq<(Seq<char>, Seq<char>)>, ErrorView>
    decreases vars.len(),
{
    if vars.len() == 0 {
        Ok(seq![])
    } else {
        match collect_herdr_vars(vars.drop_last()) {
            Err(e) => Err(e),
            Ok(kept) => {
                let (k, v) = vars.last();
                if !herdr_key(k@) {
                    Ok(kept)
                } else {
                    match v {
                        EnvValue::String(s) => Ok(kept.push((k@, s@))),
                        EnvValue::Other => if k@ == "HERDR_ENV"@ {
                            Ok(kept)
                        } else {
                            Err(context_error(k@ + " must be a string"@))
                        },
                    }
                }
            },
        }
    }
}

/// `k` holds the first pair named `name`.
pub open spec fn first_pair_at(pairs: Seq<(Seq<char>, Seq<char>)>, name: Seq<char>, k: int) -> bool {
    0 <= k < pairs.len() && pairs[k].0 == name && forall|j: int| 0 <= j < k ==> (#[trigger] pairs[j]).0 != name
}

pub open spec fn spec_required(pairs: Seq<(Seq<char>, Seq<char>)>, name: Seq<char>) -> Result<Seq<char>, ErrorView> {
    if exists|k: int| first_pair_at(pairs, name, k) {
        Ok(pairs[choose|k: int| first_pair_at(pairs, name, k)].1)
    } else {
        Err(context_error(name + " is missing from the Herdr caller context"@))
    }
}

pub enum ModeView {
    Outside,
    Inside(ContextView),
}

/// Herdr mode from the caller's environment, never the plugin process's:
/// outside unless `HERDR_ENV` is exactly `1`; inside, the identity values
/// must be present strings, checked in the order bin, socket, workspace,
/// tab, pane, and then validated as a context.
pub open spec fn spec_read_herdr_mode(herdr_env: Option<EnvValue>, vars: Seq<(String, EnvValue)>, canonical_bin: Option<Seq<char>>) -> Result<ModeView, ErrorView> {
    match spec_classify(herdr_env) {
        Err(e) => Err(e),
        Ok(false) => Ok(ModeView::Outside),
        Ok(true) => match collect_herdr_vars(vars) {
            Err(e) => Err(e),
            Ok(pairs) => match spec_required(pairs, "HERDR_BIN_PATH"@) {
                Err(e) => Err(e),
                Ok(bin) => match spec_required(pairs, "HERDR_SOCKET_PATH"@) {
                    Err(e) => Err(e),
                    Ok(socket) => match spec_required(pairs, "HERDR_WORKSPACE_ID"@) {
                        Err(e) => Err(e),
                        Ok(ws) => match spec_required(pairs, "HERDR_TAB_ID"@) {
                            Err(e) => Err(e),
                            Ok(tab) => match spec_required(pairs, "HERDR_PANE_ID"@) {
                                Err(e) => Err(e),
                                Ok(pane) => match spec_inside_context(bin, socket, ws, tab, pane, pairs, canonical_bin) {
                                    Err(e) => Err(e),
                                    Ok(c) => Ok(ModeView::Inside(c)),
                                },
                            },
                        },
                    },
                },
            },
        },
    }
}

pub open spec fn mode_view(m: HerdrMode) -> ModeView {
    match m {
        HerdrMode::Outside => ModeView::Outside,
        HerdrMode::Inside(c) => ModeView::Inside(c@),
    }
}

fn is_herdr_key(k: &str) -> (r: bool)
    ensures
        r == herdr_key(k@),
{
    let v = chars_of(k);
    let p = chars_of("HERDR_");
    let r = chars_start_with(&v, &p);
    proof {
        reveal_strlit("HERDR_");
        if r {
            assert(v@.take(6) =~= v@.subrange(0, 6));
        }
        if herdr_key(k@) {
            assert(v@.subrange(0, 6) =~= v@.take(6));
        }
    }
    r
}

fn collect_vars(vars: &Vec<(String, EnvValue)>) -> (r: Result<Vec<(String, String)>, Error>)
    ensures
        match r {
            Ok(kept) => collect_herdr_vars(vars@) == Ok::<Seq<(Seq<char>, Seq<char>)>, ErrorView>(pair_views(kept@)),
            Err(e) => collect_herdr_vars(vars@) == Err::<Seq<(Seq<char>, Seq<char>)>, ErrorView>(e@),
        },
        env_keys_distinct(vars@) ==> (r matches Ok(kept) ==> distinct_keys(pair_views(kept@))),
{
    let mut kept: Vec<(String, String)> = Vec::new();
    let mut i: usize = 0;
    assert(vars@.take(0) =~= Seq::<(String, EnvValue)>::empty());
    assert(pair_views(kept@) =~= Seq::<(Seq<char>, Seq<char>)>::empty());
    while i < vars.len()
        invariant
            i <= vars@.len(),
            collect_herdr_vars(vars@.take(i as int)) == Ok::<Seq<(Seq<char>, Seq<char>)>, ErrorView>(pair_views(kept@)),
        decreases vars@.len() - i,
    {
        let ghost before = kept@;
        assert(vars@.take(i + 1).drop_last() =~= vars@.take(i as int));
        let key = vars[i].0.as_str();
        if is_herdr_key(key) {
            match &vars[i].1 {
                EnvValue::String(v) => {
                    kept.push((String::from_str(key), v.clone()));
                    assert(pair_views(kept@) =~= pair_views(before).push((key@, v@)));
                },
                EnvValue::Other => {
                    if !str_equal(key, "HERDR_ENV") {
                        proof { lemma_collect_error_prefix(vars@, i + 1); }
                        return Err(Error::invalid_herdr_context(concat(key, " must be a string")));
                    }
                },
            }
        }
        i += 1;
    }
    assert(vars@.take(vars@.len() as int) =~= vars@);
    proof {
        if env_keys_distinct(vars@) {
            lemma_collect_distinct(vars@);
        }
    }
    Ok(kept)
}

/// No variable name occurs twice among the caller's variables, as in the
/// engine's environment map.
pub open spec fn env_keys_distinct(vars: Seq<(String, EnvValue)>) -> bool {
    forall|i: int, j: int| 0 <= i < j < vars.len() ==> (#[trigger] vars[i]).0@ != (#[trigger] vars[j]).0@
}

pub open spec fn env_keys(vars: Seq<(String, EnvValue)>) -> Seq<Seq<char>> {
    vars.map_values(|p: (String, EnvValue)| p.0@)
}

proof fn lemma_collect_distinct(vars: Seq<(String, EnvValue)>)
    requires
        env_keys_distinct(vars),
        collect_herdr_vars(vars) is Ok,
    ensures
        distinct_keys(collect_herdr_vars(vars)->Ok_0),
        forall|k: int| 0 <= k < collect_herdr_vars(vars)->Ok_0.len() ==> env_keys(vars).contains(#[trigger] collect_herdr_vars(vars)->Ok_0[k].0),
    decreases vars.len(),
{
    if vars.len() > 0 {
        let d = vars.drop_last();
        assert forall|i: int, j: int| 0 <= i < j < d.len() implies (#[trigger] d[i]).0@ != (#[trigger] d[j]).0@ by {
            assert(d[i] == vars[i] && d[j] == vars[j]);
        }
        lemma_collect_distinct(d);
        let prev = collect_herdr_vars(d)->Ok_0;
        let kept = collect_herdr_vars(vars)->Ok_0;
        let last = vars.last();
        assert forall|k: int| 0 <= k < prev.len() implies (#[trigger] prev[k]).0 != last.0@ && env_keys(vars).contains(prev[k].0) by {
            assert(env_keys(d).contains(prev[k].0));
            let m = choose|m: int| 0 <= m < env_keys(d).len() && env_keys(d)[m] == prev[k].0;
            assert(env_keys(d)[m] == d[m].0@);
            assert(d[m] == vars[m]);
            assert(env_keys(vars)[m] == vars[m].0@);
            assert(last == vars[vars.len() - 1]);
        }
        assert(env_keys(vars)[vars.len() - 1] == last.0@);
        if kept.len() != prev.len() {
            assert(kept == prev.push((last.0@, kept[prev.len() as int].1)));
            assert forall|i: int, j: int| 0 <= i < j < kept.len() implies (#[trigger] kept[i]).0 != (#[trigger] kept[j]).0 by {
                assert(kept[i] == prev[i]);
                if j < prev.len() {
                    assert(kept[j] == prev[j]);
                }
            }
        }
    }
}

proof fn lemma_collect_error_prefix(vars: Seq<(String, EnvValue)>, n: int)
    requires
        0 <= n <= vars.len(),
        collect_herdr_vars(vars.take(n)) is Err,
    ensures
        collect_herdr_vars(vars) == collect_herdr_vars(vars.take(n)),
    decreases vars.len() - n,
{
    if n < vars.len() {
        assert(vars.take(n + 1).drop_last() =~= vars.take(n));
        lemma_collect_error_prefix(vars, n + 1);
    } else {
        assert(vars.take(n) =~= vars);
    }
}

fn required(pairs: &Vec<(String, String)>, name: &str) -> (r: Result<String, Error>)
    ensures
        match r {
            Ok(v) => spec_required(pair_views(pairs@), name@) == Ok::<Seq<char>, ErrorView>(v@),
            Err(e) => spec_required(pair_views(pairs@), name@) == Err::<Seq<char>, ErrorView>(e@),
        },
{
    let ghost pv = pair_views(pairs@);
    let mut i: usize = 0;
    while i < pairs.len()
        invariant
            i <= pairs@.len(),
            pv == pair_views(pairs@),
            forall|j: int| 0 <= j < i ==> (#[trigger] pv[j]).0 != name@,
        decreases pairs@.len() - i,
    {
        if str_equal(pairs[i].0.as_str(), name) {
            proof {
                assert(first_pair_at(pv, name@, i as int));
                let c = choose|c: int| first_pair_at(pv, name@, c);
                if c < i { assert(pv[c].0 == name@); }
                if i < c { assert(pv[i as int].0 == name@); }
            }
            return Ok(pairs[i].1.clone());
        }
        i += 1;
    }
    proof {
        if exists|c: int| first_pair_at(pv, name@, c) {
            let c = choose|c: int| first_pair_at(pv, name@, c);
            assert(pv[c].0 == name@);
        }
    }
    Err(Error::invalid_herdr_context(concat(name, " is missing from the Herdr caller context")))
}

pub open spec fn opt_env_text(o: Option<String>) -> Option<Seq<char>> {
    match o {
        Some(s) => Some(s@),
        None => None,
    }
}

/// Read the Herdr mode from the caller's `HERDR_ENV` and `HERDR_*`
/// variables; `canonical_bin` is what the filesystem resolved the binary
/// path to.
pub fn read_herdr_mode(herdr_env: Option<EnvValue>, vars: &Vec<(String, EnvValue)>, canonical_bin: Option<String>) -> (r: Result<HerdrMode, Error>)
    ensures
        match r {
            Ok(m) => spec_read_herdr_mode(herdr_env, vars@, opt_env_text(canonical_bin)) == Ok::<ModeView, ErrorView>(mode_view(m)),
            Err(e) => spec_read_herdr_mode(herdr_env, vars@, opt_env_text(canonical_bin)) == Err::<ModeView, ErrorView>(e@),
        },
        env_keys_distinct(vars@) ==> (r matches Ok(HerdrMode::Inside(c)) ==> distinct_keys(c@.herdr_vars)),
{
    let inside = match &herdr_env {
        Some(v) => classify_herdr_env(Some(v))?,
        None => classify_herdr_env(None)?,
    };
    if !inside {
        return Ok(HerdrMode::Outside);
    }
    let pairs = collect_vars(vars)?;
    let bin = required(&pairs, "HERDR_BIN_PATH")?;
    let socket = required(&pairs, "HERDR_SOCKET_PATH")?;
    let ws = required(&pairs, "HERDR_WORKSPACE_ID")?;
    let tab = required(&pairs, "HERDR_TAB_ID")?;
    let pane = required(&pairs, "HERDR_PANE_ID")?;
    let context = inside_context(bin.as_str(), socket.as_str(), ws.as_str(), tab.as_str(), pane.as_str(), &pairs, canonical_bin)?;
    Ok(HerdrMode::Inside(context))
}

} // verus!
