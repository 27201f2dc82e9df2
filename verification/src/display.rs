//! Quoting, terminal-safe display, and suggestion rendering.

use vstd::prelude::*;

use crate::completion::{CompletionCandidate, DescriptionData, DescriptionView, PrefixBound, ScopeLabel, ScopeView, SourceLabel};
use crate::error::Span;
use crate::path::CanonicalPath;
use crate::prefix::{TypedPrefix, entry_lexical, opt_path_view, prefix_view, reconstruct, spec_join_lexical, spec_reconstruct};
use crate::text::{chars_of, concat, control_char, decimal, decimal_string, hex_string, hexadecimal, is_control, is_whitespace, push_str, string_of, whitespace_char};

verus! {

broadcast use vstd::string::group_string_axioms;

/// Characters that Nushell would read as syntax inside a bare word.
pub open spec fn is_shell_special(c: char) -> bool {
    c == '\'' || c == '"' || c == '`' || c == '$' || c == '(' || c == ')' || c == '[' || c == ']'
        || c == '{' || c == '}' || c == ';' || c == '|' || c == '&' || c == '<' || c == '>'
        || c == '#' || c == '\\' || c == '*' || c == '?' || c == '!' || c == ','
}

pub open spec fn quoting_char(c: char) -> bool {
    is_whitespace(c) || is_control(c) || is_shell_special(c)
}

/// A replacement needs quoting when any character is whitespace, a control
/// character, or shell syntax.
pub open spec fn spec_needs_quoting(s: Seq<char>) -> bool {
    exists|i: int| 0 <= i < s.len() && quoting_char(#[trigger] s[i])
}

pub fn needs_quoting(path: &str) -> (r: bool)
    ensures
        r == spec_needs_quoting(path@),
{
    let v = chars_of(path);
    let mut i: usize = 0;
    while i < v.len()
        invariant
            i <= v@.len(),
            v@ == path@,
            forall|j: int| 0 <= j < i ==> !quoting_char(#[trigger] v@[j]),
        decreases v@.len() - i,
    {
        let c = v[i];
        let special = c == '\'' || c == '"' || c == '`' || c == '$' || c == '(' || c == ')' || c == '[' || c == ']'
            || c == '{' || c == '}' || c == ';' || c == '|' || c == '&' || c == '<' || c == '>'
            || c == '#' || c == '\\' || c == '*' || c == '?' || c == '!' || c == ',';
        if whitespace_char(c) || control_char(c) || special {
            assert(quoting_char(v@[i as int]));
            return true;
        }
        i += 1;
    }
    false
}

/// Text with every `'` doubled.
pub open spec fn double_quotes(s: Seq<char>) -> Seq<char>
    decreases s.len(),
{
    if s.len() == 0 {
        seq![]
    } else {
        double_quotes(s.drop_last()) + if s.last() == '\'' { seq!['\'', '\''] } else { seq![s.last()] }
    }
}

/// A Nushell single-quoted string of `s`.
pub open spec fn spec_quote_nu(s: Seq<char>) -> Seq<char> {
    seq!['\''] + double_quotes(s) + seq!['\'']
}

pub fn quote_nu(path: &str) -> (r: String)
    ensures
        r@ == spec_quote_nu(path@),
{
    let v = chars_of(path);
    let mut out: Vec<char> = Vec::new();
    out.push('\'');
    let mut i: usize = 0;
    while i < v.len()
        invariant
            i <= v@.len(),
            v@ == path@,
            out@ == seq!['\''] + double_quotes(v@.take(i as int)),
        decreases v@.len() - i,
    {
        assert(v@.take(i + 1).drop_last() =~= v@.take(i as int));
        if v[i] == '\'' {
            out.push('\'');
            out.push('\'');
        } else {
            out.push(v[i]);
        }
        i += 1;
        assert(out@ =~= seq!['\''] + double_quotes(v@.take(i as int)));
    }
    out.push('\'');
    assert(v@.take(v@.len() as int) =~= v@);
    assert(out@ =~= spec_quote_nu(path@));
    string_of(&out)
}

/// Control, bidi-override, and invisible formatting characters that must
/// not reach the terminal.
pub open spec fn spec_unsafe_display(c: char) -> bool {
    is_control(c) || c == '\u{ad}' || c == '\u{61c}' || c == '\u{180e}' || c == '\u{200e}'
        || c == '\u{200f}' || ('\u{202a}' <= c && c <= '\u{202e}') || c == '\u{2060}'
        || ('\u{2066}' <= c && c <= '\u{2069}') || c == '\u{feff}'
}

pub fn is_unsafe_display_char(c: char) -> (r: bool)
    ensures
        r == spec_unsafe_display(c),
{
    control_char(c) || c == '\u{ad}' || c == '\u{61c}' || c == '\u{180e}' || c == '\u{200e}'
        || c == '\u{200f}' || ('\u{202a}' <= c && c <= '\u{202e}') || c == '\u{2060}'
        || ('\u{2066}' <= c && c <= '\u{2069}') || c == '\u{feff}'
}

/// A character as displayed: unsafe ones as `\u{hex}`, others unchanged.
pub open spec fn escape_char(c: char) -> Seq<char> {
    if spec_unsafe_display(c) {
        seq!['\\', 'u', '{'] + hexadecimal((c as u32) as nat) + seq!['}']
    } else {
        seq![c]
    }
}

pub open spec fn spec_escape(s: Seq<char>) -> Seq<char>
    decreases s.len(),
{
    if s.len() == 0 {
        seq![]
    } else {
        spec_escape(s.drop_last()) + escape_char(s.last())
    }
}

/// Escape control, bidi, and invisible characters for display only.
pub fn escape_display(input: &str) -> (r: String)
    ensures
        r@ == spec_escape(input@),
{
    let v = chars_of(input);
    let mut out = String::new();
    let mut i: usize = 0;
    while i < v.len()
        invariant
            i <= v@.len(),
            v@ == input@,
            out@ == spec_escape(v@.take(i as int)),
        decreases v@.len() - i,
    {
        assert(v@.take(i + 1).drop_last() =~= v@.take(i as int));
        let c = v[i];
        if is_unsafe_display_char(c) {
            let code: u32 = c as u32;
            let hex = hex_string(code as u64);
            proof { reveal_strlit("\\u{"); reveal_strlit("}"); }
            push_str(&mut out, "\\u{");
            push_str(&mut out, hex.as_str());
            push_str(&mut out, "}");
        } else {
            out.push(c);
        }
        i += 1;
        assert(out@ =~= spec_escape(v@.take(i as int)));
    }
    assert(v@.take(v@.len() as int) =~= v@);
    out
}

/// No character of the text would reach the terminal unescaped.
pub open spec fn display_safe(s: Seq<char>) -> bool {
    forall|i: int| 0 <= i < s.len() ==> !spec_unsafe_display(#[trigger] s[i])
}

proof fn lemma_hexadecimal_safe(n: nat)
    ensures
        display_safe(hexadecimal(n)),
    decreases n,
{
    if n >= 16 {
        lemma_hexadecimal_safe(n / 16);
    }
}

/// Escaped display text never holds a control, bidi-override, or invisible
/// formatting character, whatever the input.
pub proof fn law_escaped_display_is_safe(s: Seq<char>)
    ensures
        display_safe(spec_escape(s)),
    decreases s.len(),
{
    if s.len() > 0 {
        law_escaped_display_is_safe(s.drop_last());
        let c = s.last();
        if spec_unsafe_display(c) {
            lemma_hexadecimal_safe((c as u32) as nat);
        }
        let a = spec_escape(s.drop_last());
        let b = escape_char(c);
        assert forall|i: int| 0 <= i < (a + b).len() implies !spec_unsafe_display(#[trigger] (a + b)[i]) by {
            if i < a.len() {
                assert((a + b)[i] == a[i]);
            } else {
                assert((a + b)[i] == b[i - a.len()]);
                if spec_unsafe_display(c) {
                    let h = hexadecimal((c as u32) as nat);
                    let j = i - a.len();
                    if 3 <= j < 3 + h.len() {
                        assert(b[j] == h[j - 3]);
                    }
                }
            }
        }
    }
}

proof fn lemma_safe_text_escapes_to_itself(s: Seq<char>)
    requires
        display_safe(s),
    ensures
        spec_escape(s) == s,
    decreases s.len(),
{
    if s.len() > 0 {
        let d = s.drop_last();
        assert forall|i: int| 0 <= i < d.len() implies !spec_unsafe_display(#[trigger] d[i]) by {
            assert(d[i] == s[i]);
        }
        lemma_safe_text_escapes_to_itself(d);
        assert(!spec_unsafe_display(s[s.len() - 1]));
        assert(spec_escape(s) =~= d + seq![s.last()]);
        assert(d + seq![s.last()] =~= s);
    }
}

/// Escaping is idempotent: escaping already escaped display text changes
/// nothing.
pub proof fn law_escape_display_is_idempotent(s: Seq<char>)
    ensures
        spec_escape(spec_escape(s)) == spec_escape(s),
{
    law_escaped_display_is_safe(s);
    lemma_safe_text_escapes_to_itself(spec_escape(s));
}

pub open spec fn all_whitespace(s: Seq<char>) -> bool {
    forall|i: int| 0 <= i < s.len() ==> is_whitespace(#[trigger] s[i])
}

pub open spec fn source_text(source: SourceLabel) -> Seq<char> {
    match source {
        SourceLabel::AgentIdle => "agent idle"@,
        SourceLabel::AgentDone => "agent done"@,
        SourceLabel::AgentWorking => "agent working"@,
        SourceLabel::AgentBlocked => "agent blocked"@,
        SourceLabel::AgentUnknown => "agent unknown"@,
        SourceLabel::Workspace => "workspace"@,
        SourceLabel::ShellPane => "shell pane"@,
        SourceLabel::Directory => "directory"@,
    }
}

pub open spec fn scope_text(scope: ScopeView) -> Seq<char> {
    match scope {
        ScopeView::Unscoped => seq![],
        ScopeView::CurrentTab => "current tab"@,
        ScopeView::CurrentWorkspace => "current workspace"@,
        ScopeView::Workspace { label, number } => {
            let safe = spec_escape(label);
            if all_whitespace(safe) {
                "workspace #"@ + decimal(number as nat)
            } else {
                "workspace "@ + safe
            }
        },
        ScopeView::MultipleWorkspaces { count } => decimal(count as nat) + " workspaces"@,
    }
}

/// `source · scope`, with `· N panes` when more than one pane backs the
/// path; a bare source without scope; `directory` for filesystem-only paths.
pub open spec fn spec_render(d: DescriptionView) -> Seq<char> {
    if d.source == SourceLabel::Directory {
        "directory"@
    } else if d.scope is Unscoped {
        source_text(d.source)
    } else if d.pane_count > 1 {
        source_text(d.source) + " · "@ + scope_text(d.scope) + " · "@ + decimal(d.pane_count) + " panes"@
    } else {
        source_text(d.source) + " · "@ + scope_text(d.scope)
    }
}

fn source_str(source: SourceLabel) -> (s: &'static str)
    ensures
        s@ == source_text(source),
{
    match source {
        SourceLabel::AgentIdle => "agent idle",
        SourceLabel::AgentDone => "agent done",
        SourceLabel::AgentWorking => "agent working",
        SourceLabel::AgentBlocked => "agent blocked",
        SourceLabel::AgentUnknown => "agent unknown",
        SourceLabel::Workspace => "workspace",
        SourceLabel::ShellPane => "shell pane",
        SourceLabel::Directory => "directory",
    }
}

fn is_blank(s: &str) -> (r: bool)
    ensures
        r == all_whitespace(s@),
{
    let v = chars_of(s);
    let mut i: usize = 0;
    while i < v.len()
        invariant
            i <= v@.len(),
            v@ == s@,
            forall|j: int| 0 <= j < i ==> is_whitespace(#[trigger] v@[j]),
        decreases v@.len() - i,
    {
        if !whitespace_char(v[i]) {
            assert(!is_whitespace(v@[i as int]));
            return false;
        }
        i += 1;
    }
    true
}

fn scope_string(scope: &ScopeLabel) -> (s: String)
    ensures
        s@ == scope_text(scope@),
{
    match scope {
        ScopeLabel::Unscoped => String::new(),
        ScopeLabel::CurrentTab => String::from_str("current tab"),
        ScopeLabel::CurrentWorkspace => String::from_str("current workspace"),
        ScopeLabel::Workspace { label, number } => {
            let safe = escape_display(label.as_str());
            if is_blank(safe.as_str()) {
                let digits = decimal_string(*number as u64);
                concat("workspace #", digits.as_str())
            } else {
                concat("workspace ", safe.as_str())
            }
        },
        ScopeLabel::MultipleWorkspaces { count } => {
            let digits = decimal_string(*count as u64);
            concat(digits.as_str(), " workspaces")
        },
    }
}

/// Render description data as terminal-safe text without opaque ids.
pub fn render_description(data: &DescriptionData) -> (r: String)
    ensures
        r@ == spec_render(data@),
{
    if let SourceLabel::Directory = data.source {
        return String::from_str("directory");
    }
    let source = source_str(data.source);
    if let ScopeLabel::Unscoped = data.scope {
        return String::from_str(source);
    }
    let scope = scope_string(&data.scope);
    let mut out = concat(source, " · ");
    push_str(&mut out, scope.as_str());
    if data.pane_count > 1 {
        push_str(&mut out, " · ");
        let digits = decimal_string(data.pane_count as u64);
        push_str(&mut out, digits.as_str());
        push_str(&mut out, " panes");
    }
    out
}

/// Text without its trailing `/` characters.
pub open spec fn trim_end_slashes(s: Seq<char>) -> Seq<char>
    decreases s.len(),
{
    if s.len() > 0 && s.last() == '/' {
        trim_end_slashes(s.drop_last())
    } else {
        s
    }
}

fn trim_end_slashes_of(s: &str) -> (r: String)
    ensures
        r@ == trim_end_slashes(s@),
{
    let v = chars_of(s);
    let mut n: usize = v.len();
    assert(v@.take(n as int) =~= v@);
    while n > 0 && v[n - 1] == '/'
        invariant
            n <= v@.len(),
            v@ == s@,
            trim_end_slashes(v@.take(n as int)) == trim_end_slashes(s@),
        decreases n,
    {
        assert(v@.take(n as int).drop_last() =~= v@.take(n - 1));
        n -= 1;
    }
    let mut out: Vec<char> = Vec::new();
    let mut i: usize = 0;
    while i < n
        invariant
            i <= n <= v@.len(),
            out@ == v@.take(i as int),
        decreases n - i,
    {
        out.push(v[i]);
        i += 1;
        assert(out@ =~= v@.take(i as int));
    }
    assert(trim_end_slashes(v@.take(n as int)) == v@.take(n as int));
    string_of(&out)
}

/// A directory completion item, before conversion to Nushell's type: the
/// replacement text (quoted when needed), its escaped display, and the
/// rendered description. Such an item is a directory and never appends
/// whitespace.
#[derive(Debug, Clone, PartialEq, Eq)]
pub struct Suggestion {
    pub value: String,
    pub display: String,
    pub description: String,
    pub span: Option<Span>,
}

/// The item for replacement text `lexical`: quoted when needed, displayed
/// escaped without trailing `/`.
pub open spec fn suggestion_of(s: Suggestion, lexical: Seq<char>, description: DescriptionView, span: Option<Span>) -> bool {
    &&& s.value@ == (if spec_needs_quoting(lexical) { spec_quote_nu(lexical) } else { lexical })
    &&& s.display@ == spec_escape(trim_end_slashes(lexical))
    &&& s.description@ == spec_render(description)
    &&& s.span == span
}

/// Characters that Nushell reads as syntax inside a bare word: quotes,
/// backtick, `$`, brackets, separators, redirections, comment, escape and
/// glob characters, and the space, tab and line breaks.
pub open spec fn nushell_syntax_char(c: char) -> bool {
    c == '\'' || c == '"' || c == '`' || c == '$' || c == '(' || c == ')' || c == '[' || c == ']'
        || c == '{' || c == '}' || c == ';' || c == '|' || c == '&' || c == '<' || c == '>'
        || c == '#' || c == '\\' || c == '*' || c == '?' || c == '!' || c == ','
        || c == ' ' || c == '\t' || c == '\n' || c == '\r'
}

/// Any replacement text holding a character that Nushell reads as syntax,
/// a single quote above all, is inserted single-quoted: such text always
/// needs quoting, and the item's value is then exactly its quoted form.
pub proof fn law_syntax_characters_force_quoting(s: Seq<char>, i: int, item: Suggestion, description: DescriptionView, span: Option<Span>)
    requires
        0 <= i < s.len(),
        nushell_syntax_char(s[i]),
    ensures
        spec_needs_quoting(s),
        suggestion_of(item, s, description, span) ==> item.value@ == spec_quote_nu(s),
{
    assert(quoting_char(s[i]));
}

/// A single-quoted replacement is one Nushell string: it opens and closes
/// with `'`, and every `'` of the text inside is doubled.
pub proof fn law_quoted_text_doubles_each_quote(s: Seq<char>)
    ensures
        spec_quote_nu(s).len() >= 2,
        spec_quote_nu(s)[0] == '\'',
        spec_quote_nu(s).last() == '\'',
        spec_quote_nu(s).len() == s.len() + 2 + s.filter(|c: char| c == '\'').len(),
    decreases s.len(),
{
    reveal(Seq::filter);
    lemma_double_quotes_len(s);
}

proof fn lemma_double_quotes_len(s: Seq<char>)
    ensures
        double_quotes(s).len() == s.len() + s.filter(|c: char| c == '\'').len(),
    decreases s.len(),
{
    reveal(Seq::filter);
    if s.len() > 0 {
        lemma_double_quotes_len(s.drop_last());
    }
}

fn finish_suggestion(lexical: String, description: &DescriptionData, span: Option<Span>) -> (s: Suggestion)
    ensures
        suggestion_of(s, lexical@, description@, span),
{
    let trimmed = trim_end_slashes_of(lexical.as_str());
    let display = escape_display(trimmed.as_str());
    let value = if needs_quoting(lexical.as_str()) { quote_nu(lexical.as_str()) } else { lexical };
    Suggestion { value, display, description: render_description(description), span }
}

/// Build the completion item for one candidate.
pub fn to_suggestion(candidate: CompletionCandidate, prefix: &TypedPrefix, bound: Option<&PrefixBound>, home: Option<&CanonicalPath>, span: Option<Span>) -> (s: Suggestion)
    ensures
        suggestion_of(s, spec_reconstruct(prefix_view(*prefix), candidate.path@, crate::completion::bound_view(bound), opt_path_view(home)), candidate.description@, span),
{
    let lexical = reconstruct(prefix, &candidate.path, bound, home);
    finish_suggestion(lexical, &candidate.description, span)
}

/// A directory entry listed under the prefix base: its own name, and
/// whether it is a symlink.
#[derive(Debug, Clone, PartialEq, Eq)]
pub struct FilesystemAlias {
    pub name: String,
    pub symlink: bool,
}

pub open spec fn alias_views(a: Seq<FilesystemAlias>) -> Seq<(Seq<char>, bool)> {
    a.map_values(|x: FilesystemAlias| (x.name@, x.symlink))
}

/// The entry name a directory is shown under: none when some listed entry
/// is the directory itself, otherwise the first of the symlinks that name
/// it.
pub open spec fn shown_name(names: Seq<(Seq<char>, bool)>) -> Option<Seq<char>> {
    if names.len() > 0 && forall|i: int| 0 <= i < names.len() ==> (#[trigger] names[i]).1 {
        Some(names[0].0)
    } else {
        None
    }
}

/// Replacement text of a candidate listed under the entry names `names`:
/// a symlink is inserted under its own name after the typed parent, never
/// as the directory it resolves to.
pub open spec fn spec_named_lexical(prefix: (Seq<char>, Seq<char>, bool), path: Seq<Seq<char>>, bound: Option<(Seq<Seq<char>>, Seq<char>)>, home: Option<Seq<Seq<char>>>, names: Seq<(Seq<char>, bool)>) -> Seq<char> {
    match shown_name(names) {
        Some(n) => spec_join_lexical(prefix.0, seq![n]),
        None => spec_reconstruct(prefix, path, bound, home),
    }
}

/// Build the completion item for one candidate that the listed entries
/// `names` resolve to.
pub fn to_named_suggestion(candidate: CompletionCandidate, prefix: &TypedPrefix, bound: Option<&PrefixBound>, home: Option<&CanonicalPath>, span: Option<Span>, names: &Vec<FilesystemAlias>) -> (s: Suggestion)
    ensures
        suggestion_of(s, spec_named_lexical(prefix_view(*prefix), candidate.path@, crate::completion::bound_view(bound), opt_path_view(home), alias_views(names@)), candidate.description@, span),
{
    let ghost nv = alias_views(names@);
    let mut all_symlinks = names.len() > 0;
    let mut i: usize = 0;
    while i < names.len()
        invariant
            i <= names@.len(),
            nv == alias_views(names@),
            all_symlinks == (names@.len() > 0 && forall|j: int| 0 <= j < i ==> (#[trigger] nv[j]).1),
        decreases names@.len() - i,
    {
        assert(nv[i as int].1 == names@[i as int].symlink);
        if !names[i].symlink {
            all_symlinks = false;
        }
        i += 1;
    }
    let lexical = if all_symlinks {
        assert(nv[0].0 == names@[0].name@);
        entry_lexical(prefix, names[0].name.as_str())
    } else {
        proof {
            if nv.len() > 0 && forall|j: int| 0 <= j < nv.len() ==> (#[trigger] nv[j]).1 {
                assert(all_symlinks);
            }
        }
        reconstruct(prefix, &candidate.path, bound, home)
    };
    finish_suggestion(lexical, &candidate.description, span)
}

} // verus!
