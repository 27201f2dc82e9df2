//! Canonical physical paths as component sequences, and caller-relative
//! target expansion before the filesystem resolves it.

use vstd::prelude::*;

use crate::error::{Error, ErrorView, ErrorKind};
use crate::text::{chars_of, concat, str_equal, strings_view};

verus! {

broadcast use {crate::text::lemma_strings_view, crate::text::lemma_strings_view_push};

/// A path component as `std::path::Path::components` yields it for a
/// canonical path: non-empty, without `/`, and neither `.` nor `..`.
pub open spec fn valid_component(c: Seq<char>) -> bool {
    c.len() > 0 && !c.contains('/') && c != seq!['.'] && c != seq!['.', '.']
}

pub open spec fn valid_parts(p: Seq<Seq<char>>) -> bool {
    forall|i: int| 0 <= i < p.len() ==> valid_component(#[trigger] p[i])
}

/// Absolute text of a component sequence: `/` for the root, else `/a/b/c`.
pub open spec fn text_of(p: Seq<Seq<char>>) -> Seq<char>
    decreases p.len(),
{
    if p.len() == 0 {
        seq!['/']
    } else if p.len() == 1 {
        seq!['/'] + p[0]
    } else {
        text_of(p.drop_last()) + seq!['/'] + p.last()
    }
}

/// Pieces of `s` between `/` separators, as `str::split('/')` yields them.
pub open spec fn split_slash(s: Seq<char>) -> Seq<Seq<char>>
    decreases s.len(),
{
    if s.len() == 0 {
        seq![seq![]]
    } else {
        let rest = split_slash(s.drop_last());
        if s.last() == '/' {
            rest.push(seq![])
        } else {
            rest.update(rest.len() - 1, rest.last().push(s.last()))
        }
    }
}

/// Components of a canonical absolute path text, or `None` when the text is
/// not absolute and normalized.
pub open spec fn parse_path(s: Seq<char>) -> Option<Seq<Seq<char>>> {
    if s.len() == 0 || s[0] != '/' {
        None
    } else if s.len() == 1 {
        Some(seq![])
    } else if valid_parts(split_slash(s.drop_first())) {
        Some(split_slash(s.drop_first()))
    } else {
        None
    }
}

/// Whether `a` is a prefix of `b`, component by component.
pub open spec fn is_prefix(a: Seq<Seq<char>>, b: Seq<Seq<char>>) -> bool {
    a.len() <= b.len() && b.subrange(0, a.len() as int) == a
}

pub proof fn lemma_split_slash_nonempty(s: Seq<char>)
    ensures
        split_slash(s).len() >= 1,
    decreases s.len(),
{
    if s.len() > 0 {
        lemma_split_slash_nonempty(s.drop_last());
    }
}

/// Absolute UTF-8 physical path after `.`, `..`, and symlink resolution,
/// held as its components after the root.
#[derive(Debug, Clone, PartialEq, Eq, Hash)]
pub struct CanonicalPath {
    parts: Vec<String>,
}

impl View for CanonicalPath {
    type V = Seq<Seq<char>>;

    closed spec fn view(&self) -> Seq<Seq<char>> {
        strings_view(self.parts@)
    }
}

impl CanonicalPath {
    /// Read a canonical absolute path from its text. `None` when the text is
    /// relative or holds empty, `.`, or `..` components.
    pub fn parse(text: &str) -> (r: Option<CanonicalPath>)
        ensures
            r is Some <==> parse_path(text@) is Some,
            r matches Some(p) ==> p@ == parse_path(text@)->0,
    {
        let chars = chars_of(text);
        if chars.len() == 0 || chars[0] != '/' {
            return None;
        }
        let ghost body = chars@.drop_first();
        let mut parts: Vec<String> = Vec::new();
        let mut current: Vec<char> = Vec::new();
        let mut i: usize = 1;
        proof {
            assert(chars@.subrange(1, 1) =~= Seq::<char>::empty());
        }
        while i < chars.len()
            invariant
                1 <= i <= chars.len(),
                body == chars@.drop_first(),
                strings_view(parts@).push(current@) == split_slash(chars@.subrange(1, i as int)),
            decreases chars.len() - i,
        {
            let c = chars[i];
            let ghost prev = chars@.subrange(1, i as int);
            assert(chars@.subrange(1, i + 1) =~= prev.push(c));
            assert(chars@.subrange(1, i + 1).drop_last() =~= prev);
            if c == '/' {
                let piece = crate::text::string_of(&current);
                parts.push(piece);
                current = Vec::new();
                assert(strings_view(parts@).push(current@)
                    =~= split_slash(prev).push(seq![]));
            } else {
                current.push(c);
                assert(strings_view(parts@).push(current@)
                    =~= split_slash(prev).update(split_slash(prev).len() - 1, split_slash(prev).last().push(c)));
            }
            i += 1;
        }
        assert(chars@.subrange(1, chars@.len() as int) =~= body);
        if chars.len() == 1 {
            let r = CanonicalPath { parts: Vec::new() };
            assert(r@ =~= seq![]);
            return Some(r);
        }
        let last = crate::text::string_of(&current);
        parts.push(last);
        let ghost all = strings_view(parts@);
        assert(all =~= split_slash(body));
        let mut k: usize = 0;
        while k < parts.len()
            invariant
                k <= parts.len(),
                all == strings_view(parts@),
                all == split_slash(body),
                body == chars@.drop_first(),
                chars@ == text@,
                chars@.len() > 1,
                chars@[0] == '/',
                forall|j: int| 0 <= j < k ==> valid_component(#[trigger] all[j]),
            decreases parts.len() - k,
        {
            if !valid_component_text(parts[k].as_str()) {
                assert(!valid_component(all[k as int]));
                return None;
            }
            k += 1;
        }
        let r = CanonicalPath { parts };
        Some(r)
    }

    /// The absolute text of this path.
    pub fn as_str(&self) -> (s: String)
        ensures
            s@ == text_of(self@),
    {
        let mut s = String::new();
        if self.parts.len() == 0 {
            proof { reveal_strlit("/"); }
            crate::text::push_str(&mut s, "/");
            return s;
        }
        let mut i: usize = 0;
        while i < self.parts.len()
            invariant
                0 <= i <= self.parts.len(),
                self.parts.len() > 0,
                i == 0 ==> s@ == Seq::<char>::empty(),
                i > 0 ==> s@ == text_of(self@.subrange(0, i as int)),
            decreases self.parts.len() - i,
        {
            proof { reveal_strlit("/"); }
            crate::text::push_str(&mut s, "/");
            crate::text::push_str(&mut s, self.parts[i].as_str());
            proof {
                let sub = self@.subrange(0, i + 1);
                assert(sub.drop_last() =~= self@.subrange(0, i as int));
                if i == 0 {
                    assert(s@ =~= text_of(sub));
                } else {
                    assert(s@ =~= text_of(sub));
                }
            }
            i += 1;
        }
        assert(self@.subrange(0, self.parts.len() as int) =~= self@);
        s
    }

    /// Components after the root, in order.
    pub fn components(&self) -> (v: Vec<String>)
        ensures
            strings_view(v@) == self@,
    {
        let mut v: Vec<String> = Vec::new();
        let mut i: usize = 0;
        while i < self.parts.len()
            invariant
                i <= self.parts.len(),
                strings_view(v@) == self@.subrange(0, i as int),
            decreases self.parts.len() - i,
        {
            let ghost old_v = v@;
            assert(strings_view(old_v).len() == i);
            assert(old_v.len() == i);
            assert(self@ == strings_view(self.parts@));
            assert(strings_view(self.parts@).len() == self.parts@.len());
            assert(self@.len() == self.parts@.len());
            assert(self@[i as int] == self.parts@[i as int]@);
            let c = self.parts[i].clone();
            assert(c@ == self.parts@[i as int]@);
            v.push(c);
            assert(v@ == old_v.push(c));
            assert(strings_view(v@).len() == i + 1);
            assert(strings_view(v@)[i as int] == c@);
            assert(self@.subrange(0, i + 1)[i as int] == self@[i as int]);
            i += 1;
            assert forall|j: int| 0 <= j < i implies strings_view(v@)[j] == self@.subrange(0, i as int)[j] by {
                if j < i - 1 {
                    assert(strings_view(old_v)[j] == self@.subrange(0, i - 1)[j]);
                }
            }
            assert(strings_view(v@) =~= self@.subrange(0, i as int));
        }
        assert(self@.subrange(0, self.parts.len() as int) =~= self@);
        v
    }

    /// A copy of this path.
    pub fn duplicate(&self) -> (r: CanonicalPath)
        ensures
            r@ == self@,
    {
        CanonicalPath { parts: self.components() }
    }

    /// Whether both values name the same path.
    pub fn same_as(&self, other: &CanonicalPath) -> (r: bool)
        ensures
            r == (self@ == other@),
    {
        if self.parts.len() != other.parts.len() {
            return false;
        }
        let r = self.prefix_of(other);
        proof {
            if self@ == other@ {
                assert(other@.subrange(0, self@.len() as int) =~= self@);
            }
            if r {
                assert(other@.subrange(0, self@.len() as int) =~= other@);
            }
        }
        r
    }

    fn prefix_of(&self, other: &CanonicalPath) -> (r: bool)
        ensures
            r == is_prefix(self@, other@),
    {
        if self.parts.len() > other.parts.len() {
            return false;
        }
        let mut i: usize = 0;
        while i < self.parts.len()
            invariant
                i <= self.parts.len(),
                self.parts.len() <= other.parts.len(),
                forall|j: int| 0 <= j < i ==> self@[j] == other@[j],
            decreases self.parts.len() - i,
        {
            if !str_equal(self.parts[i].as_str(), other.parts[i].as_str()) {
                assert(other@.subrange(0, self@.len() as int)[i as int] != self@[i as int]);
                return false;
            }
            i += 1;
        }
        assert(other@.subrange(0, self@.len() as int) =~= self@);
        true
    }

    /// Component-aware containment, including equality.
    pub fn contains(&self, other: &CanonicalPath) -> (r: bool)
        ensures
            r == is_prefix(self@, other@),
    {
        self.prefix_of(other)
    }

    /// True when `other` is inside this path but is not this path.
    pub fn is_strict_ancestor_of(&self, other: &CanonicalPath) -> (r: bool)
        ensures
            r == (is_prefix(self@, other@) && self@ != other@),
    {
        let r = self.prefix_of(other) && self.parts.len() < other.parts.len();
        proof {
            if is_prefix(self@, other@) && self@.len() == other@.len() {
                assert(other@.subrange(0, self@.len() as int) =~= other@);
            }
        }
        r
    }

    /// Workspace-root depth: component count after the filesystem root.
    pub fn depth(&self) -> (d: usize)
        ensures
            d == self@.len(),
    {
        self.parts.len()
    }

    /// Components of this path below `base`, or `None` when `base` does not
    /// contain it.
    pub fn relative_components(&self, base: &CanonicalPath) -> (r: Option<Vec<String>>)
        ensures
            r is Some <==> is_prefix(base@, self@),
            r matches Some(v) ==> strings_view(v@) == self@.skip(base@.len() as int),
    {
        if !base.prefix_of(self) {
            return None;
        }
        let mut v: Vec<String> = Vec::new();
        let mut i: usize = base.parts.len();
        while i < self.parts.len()
            invariant
                base@.len() <= i <= self.parts.len(),
                strings_view(v@) == self@.subrange(base@.len() as int, i as int),
            decreases self.parts.len() - i,
        {
            v.push(self.parts[i].clone());
            i += 1;
            assert(strings_view(v@) =~= self@.subrange(base@.len() as int, i as int));
        }
        assert(self@.subrange(base@.len() as int, self@.len() as int) =~= self@.skip(base@.len() as int));
        Some(v)
    }
}

/// Whether a single path component is valid in a canonical path.
pub fn valid_component_text(c: &str) -> (r: bool)
    ensures
        r == valid_component(c@),
{
    let v = chars_of(c);
    if v.len() == 0 {
        return false;
    }
    let mut i: usize = 0;
    while i < v.len()
        invariant
            i <= v.len(),
            v@ == c@,
            forall|j: int| 0 <= j < i ==> v@[j] != '/',
        decreases v.len() - i,
    {
        if v[i] == '/' {
            assert(v@[i as int] == '/');
            assert(v@.contains('/'));
            return false;
        }
        i += 1;
    }
    let dot = v.len() == 1 && v[0] == '.';
    let dotdot = v.len() == 2 && v[0] == '.' && v[1] == '.';
    proof {
        if v@ == seq!['.'] { assert(v@[0] == '.'); }
        if v@ == seq!['.', '.'] { assert(v@[0] == '.' && v@[1] == '.'); }
        if dot { assert(v@ =~= seq!['.']); }
        if dotdot { assert(v@ =~= seq!['.', '.']); }
    }
    !dot && !dotdot
}

/// Whether a path text is absolute, as `Path::is_absolute` decides on Unix.
pub open spec fn is_absolute_text(s: Seq<char>) -> bool {
    s.len() > 0 && s[0] == '/'
}

/// `base` after `PathBuf::push(p)`: an absolute `p` replaces `base`;
/// otherwise a separator is added when `base` does not already end in one.
pub open spec fn push_path(base: Seq<char>, p: Seq<char>) -> Seq<char> {
    if is_absolute_text(p) {
        p
    } else if base.len() > 0 && base.last() != '/' {
        base + seq!['/'] + p
    } else {
        base + p
    }
}

/// Whether a typed target asks for home expansion: exactly `~` or `~/...`.
pub open spec fn wants_home(target: Seq<char>) -> bool {
    target == seq!['~'] || (target.len() >= 2 && target[0] == '~' && target[1] == '/')
}

/// Expansion of only `~` and a leading `~/` against the caller's home.
pub open spec fn spec_expand_home(target: Seq<char>, home: Option<Seq<char>>) -> Result<Seq<char>, ErrorView> {
    if !wants_home(target) {
        Ok(target)
    } else if home is None || home->0.len() == 0 {
        Err(ErrorView { kind: ErrorKind::InvalidPath, message: "home directory is unavailable for ~ expansion"@ })
    } else if !is_absolute_text(home->0) {
        Err(ErrorView { kind: ErrorKind::InvalidPath, message: "home directory must be an absolute path: "@ + home->0 })
    } else if target == seq!['~'] {
        Ok(home->0)
    } else {
        Ok(push_path(home->0, target.skip(2)))
    }
}

pub open spec fn opt_view(o: Option<&str>) -> Option<Seq<char>> {
    match o {
        Some(s) => Some(s@),
        None => None,
    }
}

/// `base` joined with `p` as `Path::join` does.
pub fn join_path(base: &str, p: &str) -> (r: String)
    ensures
        r@ == push_path(base@, p@),
{
    let pv = chars_of(p);
    let bv = chars_of(base);
    if pv.len() > 0 && pv[0] == '/' {
        return String::from_str(p);
    }
    if bv.len() > 0 && bv[bv.len() - 1] != '/' {
        proof { reveal_strlit("/"); }
        let with_sep = concat(base, "/");
        concat(with_sep.as_str(), p)
    } else {
        concat(base, p)
    }
}

/// Expand only `~` and a leading `~/` against the caller's home directory.
pub fn expand_leading_home(target: &str, home: Option<&str>) -> (r: Result<String, Error>)
    ensures
        match r {
            Ok(s) => spec_expand_home(target@, opt_view(home)) == Ok::<Seq<char>, ErrorView>(s@),
            Err(e) => spec_expand_home(target@, opt_view(home)) == Err::<Seq<char>, ErrorView>(e@),
        },
{
    let t = chars_of(target);
    let is_tilde = t.len() == 1 && t[0] == '~';
    let tilde_slash = t.len() >= 2 && t[0] == '~' && t[1] == '/';
    proof {
        if is_tilde { assert(t@ =~= seq!['~']); }
        if t@ == seq!['~'] { assert(t@[0] == '~'); }
    }
    if !is_tilde && !tilde_slash {
        return Ok(String::from_str(target));
    }
    let h = match home {
        Some(h) => h,
        None => {
            return Err(Error::invalid_path(String::from_str("home directory is unavailable for ~ expansion")));
        },
    };
    let hv = chars_of(h);
    if hv.len() == 0 {
        return Err(Error::invalid_path(String::from_str("home directory is unavailable for ~ expansion")));
    }
    if hv[0] != '/' {
        return Err(Error::invalid_path(concat("home directory must be an absolute path: ", h)));
    }
    if is_tilde {
        return Ok(String::from_str(h));
    }
    let mut rest: Vec<char> = Vec::new();
    let mut i: usize = 2;
    while i < t.len()
        invariant
            2 <= i <= t.len(),
            rest@ == t@.subrange(2, i as int),
        decreases t.len() - i,
    {
        rest.push(t[i]);
        i += 1;
        assert(rest@ =~= t@.subrange(2, i as int));
    }
    assert(rest@ =~= t@.skip(2));
    let rest_s = crate::text::string_of(&rest);
    Ok(join_path(h, rest_s.as_str()))
}

/// The lexical absolute target that the filesystem must resolve: the
/// expanded target joined to the caller's canonical working directory.
pub open spec fn spec_lexical_target(cwd: Seq<Seq<char>>, target: Seq<char>, home: Option<Seq<char>>) -> Result<Seq<char>, ErrorView> {
    if target.len() == 0 {
        Err(ErrorView { kind: ErrorKind::InvalidPath, message: "target path is empty"@ })
    } else {
        match spec_expand_home(target, home) {
            Ok(expanded) => Ok(push_path(text_of(cwd), expanded)),
            Err(e) => Err(e),
        }
    }
}

/// Expand `~`, then resolve a relative target against the caller's canonical
/// working directory. The result still has to be canonicalized.
pub fn lexical_target(caller_cwd: &CanonicalPath, target: &str, home: Option<&str>) -> (r: Result<String, Error>)
    ensures
        match r {
            Ok(s) => spec_lexical_target(caller_cwd@, target@, opt_view(home)) == Ok::<Seq<char>, ErrorView>(s@),
            Err(e) => spec_lexical_target(caller_cwd@, target@, opt_view(home)) == Err::<Seq<char>, ErrorView>(e@),
        },
{
    let t = chars_of(target);
    if t.len() == 0 {
        return Err(Error::invalid_path(String::from_str("target path is empty")));
    }
    let expanded = expand_leading_home(target, home)?;
    let base = caller_cwd.as_str();
    Ok(join_path(base.as_str(), expanded.as_str()))
}

/// Reject a relative caller working directory before it is canonicalized.
pub fn require_absolute_cwd(raw: &str) -> (r: Result<(), Error>)
    ensures
        r is Ok <==> is_absolute_text(raw@),
        r matches Err(e) ==> e@ == (ErrorView { kind: ErrorKind::InvalidPath, message: "caller working directory must be an absolute path: "@ + raw@ }),
{
    let v = chars_of(raw);
    if v.len() > 0 && v[0] == '/' {
        Ok(())
    } else {
        Err(Error::invalid_path(concat("caller working directory must be an absolute path: ", raw)))
    }
}

/// Reject a relative path before it is canonicalized as a directory.
pub fn require_absolute(path: &str) -> (r: Result<(), Error>)
    ensures
        r is Ok <==> is_absolute_text(path@),
        r matches Err(e) ==> e@ == (ErrorView { kind: ErrorKind::InvalidPath, message: "path must be absolute: "@ + path@ }),
{
    let v = chars_of(path);
    if v.len() > 0 && v[0] == '/' {
        Ok(())
    } else {
        Err(Error::invalid_path(concat("path must be absolute: ", path)))
    }
}

/// Filesystem failure classes that path resolution distinguishes.
#[derive(Debug, Clone, Copy, PartialEq, Eq, Structural)]
pub enum IoErrorKind {
    NotFound,
    NotADirectory,
    PermissionDenied,
    Other,
}

pub open spec fn io_error_message(path: Seq<char>, kind: IoErrorKind) -> Seq<char> {
    match kind {
        IoErrorKind::NotFound => "path does not exist: "@ + path,
        IoErrorKind::NotADirectory => "path is not a directory: "@ + path,
        IoErrorKind::PermissionDenied => "path is not enterable: "@ + path,
        IoErrorKind::Other => "path cannot be resolved: "@ + path,
    }
}

/// Invalid-path error for a failed canonicalization of `path`.
pub fn map_io_error(path: &str, kind: IoErrorKind) -> (e: Error)
    ensures
        e@ == (ErrorView { kind: ErrorKind::InvalidPath, message: io_error_message(path@, kind) }),
{
    let message = match kind {
        IoErrorKind::NotFound => concat("path does not exist: ", path),
        IoErrorKind::NotADirectory => concat("path is not a directory: ", path),
        IoErrorKind::PermissionDenied => concat("path is not enterable: ", path),
        IoErrorKind::Other => concat("path cannot be resolved: ", path),
    };
    Error::invalid_path(message)
}

/// Invalid-path error for a canonical path that is not a directory.
pub fn not_a_directory(path: &str) -> (e: Error)
    ensures
        e@ == (ErrorView { kind: ErrorKind::InvalidPath, message: "path is not a directory: "@ + path@ }),
{
    Error::invalid_path(concat("path is not a directory: ", path))
}

/// Invalid-path error for a directory without search permission.
pub fn require_enterable(path: &str, searchable: bool) -> (r: Result<(), Error>)
    ensures
        r is Ok <==> searchable,
        r matches Err(e) ==> e@ == (ErrorView { kind: ErrorKind::InvalidPath, message: "path is not enterable: "@ + path@ }),
{
    if searchable {
        Ok(())
    } else {
        Err(Error::invalid_path(concat("path is not enterable: ", path)))
    }
}

/// Invalid-path error for a path whose bytes are not UTF-8.
pub fn not_utf8(path: &str) -> (e: Error)
    ensures
        e@ == (ErrorView { kind: ErrorKind::InvalidPath, message: "path is not valid UTF-8: "@ + path@ }),
{
    Error::invalid_path(concat("path is not valid UTF-8: ", path))
}


/// Canonical caller working directory and target of one navigation.
#[derive(Debug, Clone, PartialEq, Eq)]
pub struct ResolvedPaths {
    pub caller_cwd: CanonicalPath,
    pub target: CanonicalPath,
}

} // verus!
