//! Lexical prefix splitting and reconstruction for dynamic completion.

use vstd::prelude::*;

use crate::completion::PrefixBound;
use crate::path::{CanonicalPath, expand_leading_home, is_prefix, join_path, opt_view, push_path, spec_expand_home, text_of};
use crate::text::{chars_of, concat, push_str, string_of, strings_view};

verus! {

broadcast use {crate::text::lemma_strings_view, crate::text::lemma_strings_view_push};

/// User-typed directory argument before physical resolution.
#[derive(Debug, Clone, PartialEq, Eq)]
pub struct TypedPrefix {
    pub raw: String,
    pub lexical_parent: String,
    pub remaining: String,
    pub empty: bool,
}

/// Index of the last `/` in `s`, or -1.
pub open spec fn last_slash(s: Seq<char>) -> int
    decreases s.len(),
{
    if s.len() == 0 {
        -1
    } else if s.last() == '/' {
        s.len() - 1
    } else {
        last_slash(s.drop_last())
    }
}

pub open spec fn spec_trim_trailing_slash(raw: Seq<char>) -> Seq<char> {
    if raw == seq!['/'] {
        raw
    } else if raw.len() > 0 && raw.last() == '/' {
        raw.drop_last()
    } else {
        raw
    }
}

/// Lexical parent, remaining fragment, and emptiness of a typed argument:
/// `~` and `~/` complete inside home, a trailing `/` lists that directory,
/// otherwise the text splits at its last `/`.
pub open spec fn spec_parse_prefix(raw: Seq<char>) -> (Seq<char>, Seq<char>, bool) {
    if raw.len() == 0 {
        (seq![], seq![], true)
    } else if raw == seq!['~'] || raw == seq!['~', '/'] {
        (seq!['~'], seq![], false)
    } else if raw.last() == '/' {
        (spec_trim_trailing_slash(raw), seq![], false)
    } else {
        let i = last_slash(raw);
        if i < 0 {
            (seq![], raw, false)
        } else if i == 0 {
            (seq!['/'], raw.skip(1), false)
        } else {
            (raw.take(i), raw.skip(i + 1), false)
        }
    }
}

pub open spec fn prefix_view(p: TypedPrefix) -> (Seq<char>, Seq<char>, bool) {
    (p.lexical_parent@, p.remaining@, p.empty)
}

proof fn lemma_last_slash(s: Seq<char>)
    ensures
        -1 <= last_slash(s) < s.len(),
        last_slash(s) >= 0 ==> s[last_slash(s)] == '/',
        forall|j: int| last_slash(s) < j < s.len() ==> s[j] != '/',
    decreases s.len(),
{
    if s.len() > 0 && s.last() != '/' {
        lemma_last_slash(s.drop_last());
        assert forall|j: int| last_slash(s) < j < s.len() implies s[j] != '/' by {
            if j < s.len() - 1 {
                assert(s[j] == s.drop_last()[j]);
            }
        }
    }
}

fn chars_range(v: &Vec<char>, lo: usize, hi: usize) -> (s: String)
    requires
        lo <= hi <= v@.len(),
    ensures
        s@ == v@.subrange(lo as int, hi as int),
{
    let mut out: Vec<char> = Vec::new();
    let mut i = lo;
    while i < hi
        invariant
            lo <= i <= hi,
            hi <= v@.len(),
            out@ == v@.subrange(lo as int, i as int),
        decreases hi - i,
    {
        out.push(v[i]);
        i += 1;
        assert(out@ =~= v@.subrange(lo as int, i as int));
    }
    string_of(&out)
}

fn trim_trailing_slash(raw: &str) -> (r: String)
    ensures
        r@ == spec_trim_trailing_slash(raw@),
{
    let v = chars_of(raw);
    if v.len() == 1 && v[0] == '/' {
        assert(v@ =~= seq!['/']);
        return String::from_str(raw);
    }
    proof {
        if v@ == seq!['/'] { assert(v@.len() == 1 && v@[0] == '/'); }
    }
    if v.len() > 0 && v[v.len() - 1] == '/' {
        let r = chars_range(&v, 0, v.len() - 1);
        assert(r@ =~= raw@.drop_last());
        r
    } else {
        String::from_str(raw)
    }
}

/// Split a typed argument into its lexical parent and remaining fragment.
pub fn parse_typed_prefix(raw: &str) -> (p: TypedPrefix)
    ensures
        p.raw@ == raw@,
        prefix_view(p) == spec_parse_prefix(raw@),
{
    let v = chars_of(raw);
    if v.len() == 0 {
        return TypedPrefix { raw: String::new(), lexical_parent: String::new(), remaining: String::new(), empty: true };
    }
    let tilde = v.len() == 1 && v[0] == '~';
    let tilde_slash = v.len() == 2 && v[0] == '~' && v[1] == '/';
    proof {
        if tilde { assert(v@ =~= seq!['~']); }
        if tilde_slash { assert(v@ =~= seq!['~', '/']); }
        if v@ == seq!['~'] { assert(v@.len() == 1 && v@[0] == '~'); }
        if v@ == seq!['~', '/'] { assert(v@.len() == 2 && v@[0] == '~' && v@[1] == '/'); }
        reveal_strlit("~");
    }
    if tilde || tilde_slash {
        return TypedPrefix { raw: String::from_str(raw), lexical_parent: String::from_str("~"), remaining: String::new(), empty: false };
    }
    if v[v.len() - 1] == '/' {
        return TypedPrefix { raw: String::from_str(raw), lexical_parent: trim_trailing_slash(raw), remaining: String::new(), empty: false };
    }
    proof { lemma_last_slash(raw@); }
    let mut i: usize = v.len();
    while i > 0 && v[i - 1] != '/'
        invariant
            i <= v@.len(),
            v@ == raw@,
            forall|j: int| i <= j < v@.len() ==> v@[j] != '/',
        decreases i,
    {
        i -= 1;
    }
    let ghost ls = last_slash(raw@);
    if i == 0 {
        proof {
            if ls >= 0 { assert(v@[ls] == '/'); }
        }
        return TypedPrefix { raw: String::from_str(raw), lexical_parent: String::new(), remaining: String::from_str(raw), empty: false };
    }
    proof {
        assert(v@[i - 1] == '/');
        if ls < i - 1 { assert(v@[i - 1] != '/'); }
        if ls > i - 1 { assert(v@[ls] == '/'); }
        assert(ls == i - 1);
    }
    let slash = i - 1;
    let remaining = chars_range(&v, slash + 1, v.len());
    assert(remaining@ =~= raw@.skip(slash + 1));
    if slash == 0 {
        proof { reveal_strlit("/"); }
        TypedPrefix { raw: String::from_str(raw), lexical_parent: String::from_str("/"), remaining, empty: false }
    } else {
        let parent = chars_range(&v, 0, slash);
        assert(parent@ =~= raw@.take(slash as int));
        TypedPrefix { raw: String::from_str(raw), lexical_parent: parent, remaining, empty: false }
    }
}

/// The lexical directory that a non-empty prefix lists, before the
/// filesystem canonicalizes it: the caller's directory for a bare name,
/// otherwise the home-expanded parent joined to the caller's directory.
pub open spec fn spec_bound_parent(parent: Seq<char>, cwd: Seq<Seq<char>>, home: Option<Seq<char>>) -> Option<Seq<char>> {
    if parent.len() == 0 {
        Some(text_of(cwd))
    } else {
        match spec_expand_home(parent, home) {
            Ok(expanded) => Some(push_path(text_of(cwd), expanded)),
            Err(_) => None,
        }
    }
}

pub fn bound_parent(prefix: &TypedPrefix, caller_cwd: &CanonicalPath, home: Option<&str>) -> (r: Option<String>)
    ensures
        r is Some == spec_bound_parent(prefix.lexical_parent@, caller_cwd@, opt_view(home)) is Some,
        r matches Some(s) ==> s@ == spec_bound_parent(prefix.lexical_parent@, caller_cwd@, opt_view(home))->0,
{
    let cwd = caller_cwd.as_str();
    if chars_of(prefix.lexical_parent.as_str()).len() == 0 {
        return Some(cwd);
    }
    match expand_leading_home(prefix.lexical_parent.as_str(), home) {
        Ok(expanded) => Some(join_path(cwd.as_str(), expanded.as_str())),
        Err(_) => None,
    }
}

/// The prefix bound once the lexical parent has been canonicalized as a
/// directory; `None` when it did not resolve to one.
pub fn resolve_bound(prefix: &TypedPrefix, canonical_parent: Option<CanonicalPath>) -> (r: Option<PrefixBound>)
    ensures
        r is Some == canonical_parent is Some,
        r matches Some(b) ==> b.base@ == canonical_parent->0@ && b.remaining@ == prefix.remaining@,
{
    match canonical_parent {
        Some(base) => Some(PrefixBound { base, remaining: prefix.remaining.clone() }),
        None => None,
    }
}

/// Components joined with `/`.
pub open spec fn join_parts(parts: Seq<Seq<char>>) -> Seq<char>
    decreases parts.len(),
{
    if parts.len() == 0 {
        seq![]
    } else if parts.len() == 1 {
        parts[0]
    } else {
        join_parts(parts.drop_last()) + seq!['/'] + parts.last()
    }
}

fn join_strings(parts: &Vec<String>) -> (r: String)
    ensures
        r@ == join_parts(strings_view(parts@)),
{
    let ghost sv = strings_view(parts@);
    let mut out = String::new();
    let mut i: usize = 0;
    while i < parts.len()
        invariant
            i <= parts@.len(),
            sv == strings_view(parts@),
            out@ == join_parts(sv.take(i as int)),
        decreases parts@.len() - i,
    {
        assert(sv.take(i + 1).drop_last() =~= sv.take(i as int));
        if i > 0 {
            proof { reveal_strlit("/"); }
            push_str(&mut out, "/");
        }
        push_str(&mut out, parts[i].as_str());
        i += 1;
        proof {
            if i == 1 {
                assert(out@ =~= join_parts(sv.take(1)));
            } else {
                assert(out@ =~= join_parts(sv.take(i as int)));
            }
        }
    }
    assert(sv.take(parts@.len() as int) =~= sv);
    out
}

/// Display of a candidate for an empty argument: under home as `~/...`,
/// otherwise its absolute path, always with a trailing `/`.
pub open spec fn spec_empty_display(path: Seq<Seq<char>>, home: Option<Seq<Seq<char>>>) -> Seq<char> {
    if home is Some && is_prefix(home->0, path) {
        let suffix = path.skip(home->0.len() as int);
        if suffix.len() == 0 {
            seq!['~', '/']
        } else {
            seq!['~', '/'] + join_parts(suffix) + seq!['/']
        }
    } else if path.len() == 0 {
        seq!['/']
    } else {
        text_of(path) + seq!['/']
    }
}

pub open spec fn opt_path_view(home: Option<&CanonicalPath>) -> Option<Seq<Seq<char>>> {
    match home {
        Some(h) => Some(h@),
        None => None,
    }
}

fn empty_display(path: &CanonicalPath, home: Option<&CanonicalPath>) -> (r: String)
    ensures
        r@ == spec_empty_display(path@, opt_path_view(home)),
{
    proof { reveal_strlit("~/"); reveal_strlit("/"); }
    if let Some(h) = home {
        if let Some(suffix) = path.relative_components(h) {
            if suffix.len() == 0 {
                assert(strings_view(suffix@).len() == 0);
                return String::from_str("~/");
            }
            let joined = join_strings(&suffix);
            let with_home = concat("~/", joined.as_str());
            return concat(with_home.as_str(), "/");
        }
    }
    if path.depth() == 0 {
        return String::from_str("/");
    }
    let text = path.as_str();
    concat(text.as_str(), "/")
}

/// Lexical reconstruction: the typed parent followed by the components
/// below the bound, made non-empty and ending in `/`.
pub open spec fn spec_join_lexical(parent: Seq<char>, parts: Seq<Seq<char>>) -> Seq<char> {
    let out = if parent.len() == 0 {
        join_parts(parts)
    } else if parent == seq!['/'] {
        if parts.len() == 0 { seq!['/'] } else { seq!['/'] + join_parts(parts) }
    } else if parts.len() == 0 {
        parent
    } else {
        parent + seq!['/'] + join_parts(parts)
    };
    let out = if out.len() == 0 { seq!['.'] } else { out };
    if out.last() != '/' { out + seq!['/'] } else { out }
}

fn join_lexical(parent: &str, parts: &Vec<String>) -> (r: String)
    ensures
        r@ == spec_join_lexical(parent@, strings_view(parts@)),
{
    proof { reveal_strlit("/"); reveal_strlit("."); }
    let pv = chars_of(parent);
    let is_root = pv.len() == 1 && pv[0] == '/';
    proof {
        if is_root { assert(pv@ =~= seq!['/']); }
        if pv@ == seq!['/'] { assert(pv@.len() == 1 && pv@[0] == '/'); }
    }
    let joined = join_strings(parts);
    let mut out = if pv.len() == 0 {
        joined
    } else if is_root {
        if parts.len() == 0 {
            String::from_str("/")
        } else {
            concat("/", joined.as_str())
        }
    } else if parts.len() == 0 {
        String::from_str(parent)
    } else {
        let with_sep = concat(parent, "/");
        concat(with_sep.as_str(), joined.as_str())
    };
    if chars_of(out.as_str()).len() == 0 {
        out = String::from_str(".");
    }
    let ov = chars_of(out.as_str());
    if ov[ov.len() - 1] != '/' {
        push_str(&mut out, "/");
    }
    out
}

pub open spec fn spec_reconstruct(prefix: (Seq<char>, Seq<char>, bool), candidate: Seq<Seq<char>>, bound: Option<(Seq<Seq<char>>, Seq<char>)>, home: Option<Seq<Seq<char>>>) -> Seq<char> {
    if prefix.2 || bound is None {
        spec_empty_display(candidate, home)
    } else {
        let b = bound->0;
        let base = b.0;
        let suffix = if is_prefix(base, candidate) { candidate.skip(base.len() as int) } else { seq![] };
        spec_join_lexical(prefix.0, suffix)
    }
}

/// Replacement text for a candidate in the user's own lexical style.
pub fn reconstruct(prefix: &TypedPrefix, candidate: &CanonicalPath, bound: Option<&PrefixBound>, home: Option<&CanonicalPath>) -> (r: String)
    ensures
        r@ == spec_reconstruct(prefix_view(*prefix), candidate@, crate::completion::bound_view(bound), opt_path_view(home)),
{
    if prefix.empty {
        return empty_display(candidate, home);
    }
    let b = match bound {
        Some(b) => b,
        None => return empty_display(candidate, home),
    };
    let suffix = match candidate.relative_components(&b.base) {
        Some(s) => s,
        None => Vec::new(),
    };
    proof {
        if !is_prefix(b.base@, candidate@) {
            assert(strings_view(suffix@) =~= Seq::<Seq<char>>::empty());
        }
    }
    join_lexical(prefix.lexical_parent.as_str(), &suffix)
}

/// Replacement text for a listed entry of the prefix base shown under its
/// own name: the typed parent joined with the name.
pub fn entry_lexical(prefix: &TypedPrefix, name: &str) -> (r: String)
    ensures
        r@ == spec_join_lexical(prefix.lexical_parent@, seq![name@]),
{
    let mut parts: Vec<String> = Vec::new();
    parts.push(String::from_str(name));
    assert(strings_view(parts@) =~= seq![name@]);
    join_lexical(prefix.lexical_parent.as_str(), &parts)
}

} // verus!
