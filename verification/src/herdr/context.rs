//! Caller Herdr environment classification and inside-Herdr context checks.

use vstd::prelude::*;

use crate::error::{Error, ErrorKind, ErrorView};
use crate::path::is_absolute_text;
use crate::text::{chars_of, concat, spec_trim, str_equal, trim_text};

verus! {

/// Environment value as observed from the caller, not the plugin process.
#[derive(Debug, Clone, PartialEq, Eq)]
pub enum EnvValue {
    String(String),
    Other,
}

/// Validated inside-Herdr caller context used for Herdr inspection.
#[derive(Debug, Clone, PartialEq, Eq)]
pub struct InsideContext {
    pub bin: String,
    pub socket_path: String,
    pub workspace_id: String,
    pub tab_id: String,
    pub pane_id: String,
    /// Herdr variables handed to the child: the caller's, without
    /// `HERDR_SESSION`, with the validated identity values.
    pub herdr_vars: Vec<(String, String)>,
}

/// Top-level Herdr mode derived from `HERDR_ENV`.
#[derive(Debug, Clone, PartialEq, Eq)]
pub enum HerdrMode {
    Outside,
    Inside(InsideContext),
}

pub open spec fn context_error(message: Seq<char>) -> ErrorView {
    ErrorView { kind: ErrorKind::InvalidHerdrContext, message }
}

/// `HERDR_ENV` absent means outside, exactly the string `1` inside; any
/// other value or type is malformed.
pub open spec fn spec_classify(value: Option<EnvValue>) -> Result<bool, ErrorView> {
    match value {
        None => Ok(false),
        Some(EnvValue::String(s)) => if s@ == "1"@ {
            Ok(true)
        } else {
            Err(context_error("HERDR_ENV must be absent or exactly the string 1"@))
        },
        Some(EnvValue::Other) => Err(context_error("HERDR_ENV must be absent or exactly the string 1"@)),
    }
}

pub open spec fn opt_env(value: Option<&EnvValue>) -> Option<EnvValue> {
    match value {
        Some(v) => Some(*v),
        None => None,
    }
}

/// Classify `HERDR_ENV`: absent, exactly the string `1`, or malformed.
pub fn classify_herdr_env(value: Option<&EnvValue>) -> (r: Result<bool, Error>)
    ensures
        match r {
            Ok(b) => spec_classify(opt_env(value)) == Ok::<bool, ErrorView>(b),
            Err(e) => spec_classify(opt_env(value)) == Err::<bool, ErrorView>(e@),
        },
{
    match value {
        None => Ok(false),
        Some(EnvValue::String(s)) => {
            if str_equal(s.as_str(), "1") {
                Ok(true)
            } else {
                Err(Error::invalid_herdr_context(String::from_str("HERDR_ENV must be absent or exactly the string 1")))
            }
        },
        Some(EnvValue::Other) => Err(Error::invalid_herdr_context(String::from_str("HERDR_ENV must be absent or exactly the string 1"))),
    }
}

/// The trimmed value, or a context error naming the missing variable.
pub open spec fn spec_require_non_empty(name: Seq<char>, value: Seq<char>) -> Result<Seq<char>, ErrorView> {
    if spec_trim(value).len() == 0 {
        Err(context_error(name + " is missing from the Herdr caller context"@))
    } else {
        Ok(spec_trim(value))
    }
}

pub fn require_non_empty(name: &str, value: &str) -> (r: Result<String, Error>)
    ensures
        match r {
            Ok(s) => spec_require_non_empty(name@, value@) == Ok::<Seq<char>, ErrorView>(s@),
            Err(e) => spec_require_non_empty(name@, value@) == Err::<Seq<char>, ErrorView>(e@),
        },
{
    let trimmed = trim_text(value);
    if chars_of(trimmed.as_str()).len() == 0 {
        return Err(Error::invalid_herdr_context(concat(name, " is missing from the Herdr caller context")));
    }
    Ok(trimmed)
}

pub open spec fn invalid_binary_error() -> ErrorView {
    context_error("Herdr binary is missing, invalid, or not executable"@)
}

pub fn invalid_binary() -> (e: Error)
    ensures
        e@ == invalid_binary_error(),
{
    Error::invalid_herdr_context(String::from_str("Herdr binary is missing, invalid, or not executable"))
}

/// Checks on the injected binary path before the filesystem resolves it:
/// present, and absolute. The message never repeats the path.
pub open spec fn spec_bin_text(bin_path: Seq<char>) -> Result<Seq<char>, ErrorView> {
    let t = spec_trim(bin_path);
    if t.len() == 0 {
        Err(context_error("HERDR_BIN_PATH is missing from the Herdr caller context"@))
    } else if !is_absolute_text(t) {
        Err(context_error("HERDR_BIN_PATH must be an absolute path"@))
    } else {
        Ok(t)
    }
}

pub fn validate_bin_text(bin_path: &str) -> (r: Result<String, Error>)
    ensures
        match r {
            Ok(s) => spec_bin_text(bin_path@) == Ok::<Seq<char>, ErrorView>(s@),
            Err(e) => spec_bin_text(bin_path@) == Err::<Seq<char>, ErrorView>(e@),
        },
{
    let trimmed = trim_text(bin_path);
    let v = chars_of(trimmed.as_str());
    if v.len() == 0 {
        return Err(Error::invalid_herdr_context(String::from_str("HERDR_BIN_PATH is missing from the Herdr caller context")));
    }
    if v[0] != '/' {
        return Err(Error::invalid_herdr_context(String::from_str("HERDR_BIN_PATH must be an absolute path")));
    }
    Ok(trimmed)
}

/// Names of the variables that the validated context sets itself.
pub open spec fn overridden_key(k: Seq<char>) -> bool {
    k == "HERDR_SESSION"@ || k == "HERDR_ENV"@ || k == "HERDR_SOCKET_PATH"@ || k == "HERDR_BIN_PATH"@
        || k == "HERDR_WORKSPACE_ID"@ || k == "HERDR_TAB_ID"@ || k == "HERDR_PANE_ID"@
}

pub open spec fn pair_views(v: Seq<(String, String)>) -> Seq<(Seq<char>, Seq<char>)> {
    v.map_values(|p: (String, String)| (p.0@, p.1@))
}

/// The caller's Herdr variables without `HERDR_SESSION` and the identity
/// variables, followed by the validated identity values.
pub open spec fn spec_child_vars(vars: Seq<(Seq<char>, Seq<char>)>, socket: Seq<char>, bin: Seq<char>, ws: Seq<char>, tab: Seq<char>, pane: Seq<char>) -> Seq<(Seq<char>, Seq<char>)> {
    vars.filter(|p: (Seq<char>, Seq<char>)| !overridden_key(p.0)) + seq![
        ("HERDR_ENV"@, "1"@),
        ("HERDR_SOCKET_PATH"@, socket),
        ("HERDR_BIN_PATH"@, bin),
        ("HERDR_WORKSPACE_ID"@, ws),
        ("HERDR_TAB_ID"@, tab),
        ("HERDR_PANE_ID"@, pane),
    ]
}

/// No key occurs twice.
pub open spec fn distinct_keys(s: Seq<(Seq<char>, Seq<char>)>) -> bool {
    forall|i: int, j: int| 0 <= i < j < s.len() ==> (#[trigger] s[i]).0 != (#[trigger] s[j]).0
}

proof fn lemma_filter_distinct(s: Seq<(Seq<char>, Seq<char>)>, keep: spec_fn((Seq<char>, Seq<char>)) -> bool)
    requires
        distinct_keys(s),
    ensures
        distinct_keys(s.filter(keep)),
    decreases s.len(),
{
    reveal(Seq::filter);
    if s.len() > 0 {
        let d = s.drop_last();
        assert forall|i: int, j: int| 0 <= i < j < d.len() implies (#[trigger] d[i]).0 != (#[trigger] d[j]).0 by {
            assert(d[i] == s[i] && d[j] == s[j]);
        }
        lemma_filter_distinct(d, keep);
        let sub = d.filter(keep);
        if keep(s.last()) {
            assert forall|k: int| 0 <= k < sub.len() implies (#[trigger] sub[k]).0 != s.last().0 by {
                d.lemma_filter_contains_rev(keep, sub[k]);
                let m = choose|m: int| 0 <= m < d.len() && d[m] == sub[k];
                assert(d[m] == s[m]);
                assert(s.last() == s[s.len() - 1]);
            }
            let f = sub.push(s.last());
            assert forall|i: int, j: int| 0 <= i < j < f.len() implies (#[trigger] f[i]).0 != (#[trigger] f[j]).0 by {
                assert(f[i] == sub[i]);
                if j < f.len() - 1 {
                    assert(f[j] == sub[j]);
                }
            }
            assert(s.filter(keep) == f);
        }
    }
}

/// The variables handed to a Herdr child never repeat a key when the
/// caller's variables do not: the caller's entries for the identity keys
/// are dropped before the validated values are added.
pub proof fn law_child_vars_keys_distinct(vars: Seq<(Seq<char>, Seq<char>)>, socket: Seq<char>, bin: Seq<char>, ws: Seq<char>, tab: Seq<char>, pane: Seq<char>)
    requires
        distinct_keys(vars),
    ensures
        distinct_keys(spec_child_vars(vars, socket, bin, ws, tab, pane)),
{
    broadcast use vstd::seq_lib::group_filter_ensures;
    let keep = |p: (Seq<char>, Seq<char>)| !overridden_key(p.0);
    lemma_filter_distinct(vars, keep);
    let f = vars.filter(keep);
    reveal_strlit("HERDR_SESSION");
    reveal_strlit("HERDR_ENV");
    reveal_strlit("HERDR_SOCKET_PATH");
    reveal_strlit("HERDR_BIN_PATH");
    reveal_strlit("HERDR_WORKSPACE_ID");
    reveal_strlit("HERDR_TAB_ID");
    reveal_strlit("HERDR_PANE_ID");
    let tail = seq![
        ("HERDR_ENV"@, "1"@),
        ("HERDR_SOCKET_PATH"@, socket),
        ("HERDR_BIN_PATH"@, bin),
        ("HERDR_WORKSPACE_ID"@, ws),
        ("HERDR_TAB_ID"@, tab),
        ("HERDR_PANE_ID"@, pane),
    ];
    let all = f + tail;
    assert(all == spec_child_vars(vars, socket, bin, ws, tab, pane));
    assert forall|i: int, j: int| 0 <= i < j < all.len() implies (#[trigger] all[i]).0 != (#[trigger] all[j]).0 by {
        if j < f.len() {
            assert(all[i] == f[i] && all[j] == f[j]);
        } else if i < f.len() {
            assert(all[i] == f[i]);
            assert(keep(f[i]));
            assert(all[j] == tail[j - f.len()]);
            assert(overridden_key(tail[j - f.len()].0));
        } else {
            assert(all[i] == tail[i - f.len()] && all[j] == tail[j - f.len()]);
            assert(tail[i - f.len()].0.len() != tail[j - f.len()].0.len());
        }
    }
}

fn is_overridden_key(k: &str) -> (r: bool)
    ensures
        r == overridden_key(k@),
{
    str_equal(k, "HERDR_SESSION") || str_equal(k, "HERDR_ENV") || str_equal(k, "HERDR_SOCKET_PATH")
        || str_equal(k, "HERDR_BIN_PATH") || str_equal(k, "HERDR_WORKSPACE_ID") || str_equal(k, "HERDR_TAB_ID")
        || str_equal(k, "HERDR_PANE_ID")
}

pub fn child_vars(vars: &Vec<(String, String)>, socket: &str, bin: &str, ws: &str, tab: &str, pane: &str) -> (r: Vec<(String, String)>)
    ensures
        pair_views(r@) == spec_child_vars(pair_views(vars@), socket@, bin@, ws@, tab@, pane@),
        distinct_keys(pair_views(vars@)) ==> distinct_keys(pair_views(r@)),
{
    let ghost pv = pair_views(vars@);
    let ghost keep = |p: (Seq<char>, Seq<char>)| !overridden_key(p.0);
    let mut out: Vec<(String, String)> = Vec::new();
    let mut i: usize = 0;
    while i < vars.len()
        invariant
            i <= vars@.len(),
            pv == pair_views(vars@),
            keep == |p: (Seq<char>, Seq<char>)| !overridden_key(p.0),
            pair_views(out@) == pv.take(i as int).filter(keep),
        decreases vars@.len() - i,
    {
        assert(pv.take(i + 1) =~= pv.take(i as int).push(pv[i as int]));
        proof { pv.take(i as int).lemma_filter_push(pv[i as int], keep); }
        if !is_overridden_key(vars[i].0.as_str()) {
            out.push((vars[i].0.clone(), vars[i].1.clone()));
        }
        assert(pair_views(out@) =~= pv.take(i + 1).filter(keep));
        i += 1;
    }
    assert(pv.take(vars@.len() as int) =~= pv);
    out.push((String::from_str("HERDR_ENV"), String::from_str("1")));
    out.push((String::from_str("HERDR_SOCKET_PATH"), String::from_str(socket)));
    out.push((String::from_str("HERDR_BIN_PATH"), String::from_str(bin)));
    out.push((String::from_str("HERDR_WORKSPACE_ID"), String::from_str(ws)));
    out.push((String::from_str("HERDR_TAB_ID"), String::from_str(tab)));
    out.push((String::from_str("HERDR_PANE_ID"), String::from_str(pane)));
    assert(pair_views(out@) =~= spec_child_vars(pv, socket@, bin@, ws@, tab@, pane@));
    proof {
        if distinct_keys(pv) {
            law_child_vars_keys_distinct(pv, socket@, bin@, ws@, tab@, pane@);
        }
    }
    out
}

pub struct ContextView {
    pub bin: Seq<char>,
    pub socket_path: Seq<char>,
    pub workspace_id: Seq<char>,
    pub tab_id: Seq<char>,
    pub pane_id: Seq<char>,
    pub herdr_vars: Seq<(Seq<char>, Seq<char>)>,
}

impl View for InsideContext {
    type V = ContextView;

    open spec fn view(&self) -> ContextView {
        ContextView {
            bin: self.bin@,
            socket_path: self.socket_path@,
            workspace_id: self.workspace_id@,
            tab_id: self.tab_id@,
            pane_id: self.pane_id@,
            herdr_vars: pair_views(self.herdr_vars@),
        }
    }
}

/// The validated context: identity values present after trimming, checked
/// in the order socket, workspace, tab, pane; then the binary path present
/// and absolute; then `canonical` is what the filesystem resolved it to,
/// `None` when it is missing, not a regular file, or not executable.
pub open spec fn spec_inside_context(bin_path: Seq<char>, socket: Seq<char>, ws: Seq<char>, tab: Seq<char>, pane: Seq<char>, vars: Seq<(Seq<char>, Seq<char>)>, canonical: Option<Seq<char>>) -> Result<ContextView, ErrorView> {
    match spec_require_non_empty("HERDR_SOCKET_PATH"@, socket) {
        Err(e) => Err(e),
        Ok(s) => match spec_require_non_empty("HERDR_WORKSPACE_ID"@, ws) {
            Err(e) => Err(e),
            Ok(w) => match spec_require_non_empty("HERDR_TAB_ID"@, tab) {
                Err(e) => Err(e),
                Ok(t) => match spec_require_non_empty("HERDR_PANE_ID"@, pane) {
                    Err(e) => Err(e),
                    Ok(p) => match spec_bin_text(bin_path) {
                        Err(e) => Err(e),
                        Ok(_) => match canonical {
                            None => Err(invalid_binary_error()),
                            Some(b) => Ok(ContextView { bin: b, socket_path: s, workspace_id: w, tab_id: t, pane_id: p, herdr_vars: spec_child_vars(vars, s, b, w, t, p) }),
                        },
                    },
                },
            },
        },
    }
}

pub open spec fn opt_text(o: Option<String>) -> Option<Seq<char>> {
    match o {
        Some(s) => Some(s@),
        None => None,
    }
}

/// Build the validated inside-Herdr context from caller environment values.
pub fn inside_context(bin_path: &str, socket_path: &str, workspace_id: &str, tab_id: &str, pane_id: &str, herdr_vars: &Vec<(String, String)>, canonical_bin: Option<String>) -> (r: Result<InsideContext, Error>)
    ensures
        match r {
            Ok(c) => spec_inside_context(bin_path@, socket_path@, workspace_id@, tab_id@, pane_id@, pair_views(herdr_vars@), opt_text(canonical_bin)) == Ok::<ContextView, ErrorView>(c@),
            Err(e) => spec_inside_context(bin_path@, socket_path@, workspace_id@, tab_id@, pane_id@, pair_views(herdr_vars@), opt_text(canonical_bin)) == Err::<ContextView, ErrorView>(e@),
        },
        distinct_keys(pair_views(herdr_vars@)) ==> (r matches Ok(c) ==> distinct_keys(c@.herdr_vars)),
{
    let socket_path = require_non_empty("HERDR_SOCKET_PATH", socket_path)?;
    let workspace_id = require_non_empty("HERDR_WORKSPACE_ID", workspace_id)?;
    let tab_id = require_non_empty("HERDR_TAB_ID", tab_id)?;
    let pane_id = require_non_empty("HERDR_PANE_ID", pane_id)?;
    validate_bin_text(bin_path)?;
    let bin = match canonical_bin {
        Some(b) => b,
        None => return Err(invalid_binary()),
    };
    let vars = child_vars(herdr_vars, socket_path.as_str(), bin.as_str(), workspace_id.as_str(), tab_id.as_str(), pane_id.as_str());
    Ok(InsideContext { bin, socket_path, workspace_id, tab_id, pane_id, herdr_vars: vars })
}

} // verus!
