//! Bounded, sanitized error details: control characters removed,
//! `HERDR_*=value` assignments redacted, length capped.

use vstd::prelude::*;

use crate::text::{chars_of, control_char, is_ascii_alphanumeric, is_control, is_whitespace, ascii_alphanumeric_char, whitespace_char, string_of};

verus! {

/// Longest detail kept, in characters.
pub const MAX_ERROR_DETAIL_CHARS: usize = 200;

/// Replacement for a redacted assignment value.
pub const REDACTED: &'static str = "<redacted>";

pub open spec fn marker() -> Seq<char> {
    seq!['H', 'E', 'R', 'D', 'R', '_']
}

/// Index of the first `HERDR_` in `s`, or -1.
pub open spec fn find_marker(s: Seq<char>) -> int
    decreases s.len(),
{
    if s.len() < 6 {
        -1
    } else if s.take(6) == marker() {
        0
    } else {
        let r = find_marker(s.drop_first());
        if r < 0 { -1 } else { r + 1 }
    }
}

/// `HERDR_` starts at index `j` of `s`.
pub open spec fn marker_at(s: Seq<char>, j: int) -> bool {
    0 <= j && j + 6 <= s.len() && s.subrange(j, j + 6) == marker()
}

pub open spec fn key_char(c: char) -> bool {
    is_ascii_alphanumeric(c) || c == '_'
}

/// Length of the leading run of key characters.
pub open spec fn key_len(s: Seq<char>) -> nat
    decreases s.len(),
{
    if s.len() > 0 && key_char(s[0]) { 1 + key_len(s.drop_first()) } else { 0 }
}

/// Length of the leading run of non-whitespace characters.
pub open spec fn value_len(s: Seq<char>) -> nat
    decreases s.len(),
{
    if s.len() > 0 && !is_whitespace(s[0]) { 1 + value_len(s.drop_first()) } else { 0 }
}

proof fn lemma_find_marker(s: Seq<char>)
    ensures
        -1 <= find_marker(s),
        find_marker(s) >= 0 ==> marker_at(s, find_marker(s)),
        forall|j: int| (find_marker(s) < 0 || j < find_marker(s)) ==> !#[trigger] marker_at(s, j),
    decreases s.len(),
{
    if s.len() >= 6 && s.take(6) != marker() {
        lemma_find_marker(s.drop_first());
        let t = s.drop_first();
        assert forall|j: int| (find_marker(s) < 0 || j < find_marker(s)) implies !#[trigger] marker_at(s, j) by {
            if j == 0 {
                assert(s.subrange(0, 6) == s.take(6));
            } else if 0 < j && j + 6 <= s.len() {
                assert(s.subrange(j, j + 6) =~= t.subrange(j - 1, j + 5));
                assert(!marker_at(t, j - 1));
            }
        }
        if find_marker(s) >= 0 {
            let r = find_marker(t);
            assert(s.subrange(r + 1, r + 7) =~= t.subrange(r, r + 6));
        }
    }
}

proof fn lemma_key_len(s: Seq<char>)
    ensures
        key_len(s) <= s.len(),
        forall|j: int| 0 <= j < key_len(s) ==> key_char(#[trigger] s[j]),
        key_len(s) < s.len() ==> !key_char(s[key_len(s) as int]),
    decreases s.len(),
{
    if s.len() > 0 && key_char(s[0]) {
        lemma_key_len(s.drop_first());
        assert forall|j: int| 0 <= j < key_len(s) implies key_char(#[trigger] s[j]) by {
            if j > 0 {
                assert(s[j] == s.drop_first()[j - 1]);
            }
        }
    }
}

proof fn lemma_value_len(s: Seq<char>)
    ensures
        value_len(s) <= s.len(),
        forall|j: int| 0 <= j < value_len(s) ==> !is_whitespace(#[trigger] s[j]),
        value_len(s) < s.len() ==> is_whitespace(s[value_len(s) as int]),
    decreases s.len(),
{
    if s.len() > 0 && !is_whitespace(s[0]) {
        lemma_value_len(s.drop_first());
        assert forall|j: int| 0 <= j < value_len(s) implies !is_whitespace(#[trigger] s[j]) by {
            if j > 0 {
                assert(s[j] == s.drop_first()[j - 1]);
            }
        }
    }
}

/// Text with every `HERDR_KEY=value` assignment's value replaced by
/// `<redacted>`; other text, paths and resource ids included, stays.
#[verifier::opaque]
pub open spec fn spec_redact(s: Seq<char>) -> Seq<char>
    decreases s.len(),
{
    let i = find_marker(s);
    if i < 0 || i + 6 > s.len() {
        s
    } else {
        let after = s.skip(i + 6);
        let k = key_len(after);
        if k == 0 || k > after.len() {
            s.take(i) + marker() + spec_redact(after)
        } else {
            let rest = after.skip(k as int);
            if rest.len() == 0 || rest[0] != '=' {
                s.take(i) + marker() + after.take(k as int) + spec_redact(rest)
            } else {
                let value = rest.skip(1);
                let vl = value_len(value);
                if vl > value.len() {
                    s
                } else {
                    s.take(i) + marker() + after.take(k as int) + seq!['='] + "<redacted>"@ + spec_redact(value.skip(vl as int))
                }
            }
        }
    }
}

fn first_marker(v: &Vec<char>, from: usize) -> (r: Option<usize>)
    requires
        from <= v@.len(),
    ensures
        match r {
            Some(i) => from <= i && find_marker(v@.skip(from as int)) == i - from,
            None => find_marker(v@.skip(from as int)) < 0,
        },
{
    let ghost s = v@.skip(from as int);
    proof { lemma_find_marker(s); }
    let mut i = from;
    while v.len() >= 6 && i <= v.len() - 6
        invariant
            from <= i <= v@.len(),
            s == v@.skip(from as int),
            forall|j: int| from <= j < i ==> !#[trigger] marker_at(v@, j),
            -1 <= find_marker(s),
            find_marker(s) >= 0 ==> marker_at(s, find_marker(s)),
            forall|j: int| (find_marker(s) < 0 || j < find_marker(s)) ==> !#[trigger] marker_at(s, j),
        decreases v@.len() - i,
    {
        if v[i] == 'H' && v[i + 1] == 'E' && v[i + 2] == 'R' && v[i + 3] == 'D' && v[i + 4] == 'R' && v[i + 5] == '_' {
            proof {
                assert(v@.subrange(i as int, i + 6) =~= marker());
                assert(s.subrange(i - from, i - from + 6) =~= v@.subrange(i as int, i + 6));
                assert(marker_at(s, i - from));
                let m = find_marker(s);
                if m >= 0 && m < i - from {
                    assert(s.subrange(m, m + 6) =~= v@.subrange(m + from, m + from + 6));
                    assert(marker_at(v@, m + from));
                }
            }
            return Some(i);
        }
        proof {
            assert(!marker_at(v@, i as int)) by {
                if v@.subrange(i as int, i + 6) == marker() {
                    assert(v@.subrange(i as int, i + 6)[0] == 'H');
                    assert(v@.subrange(i as int, i + 6)[1] == 'E');
                    assert(v@.subrange(i as int, i + 6)[2] == 'R');
                    assert(v@.subrange(i as int, i + 6)[3] == 'D');
                    assert(v@.subrange(i as int, i + 6)[4] == 'R');
                    assert(v@.subrange(i as int, i + 6)[5] == '_');
                }
            }
        }
        i += 1;
    }
    proof {
        let m = find_marker(s);
        if m >= 0 {
            assert(s.subrange(m, m + 6) =~= v@.subrange(m + from, m + from + 6));
            assert(marker_at(v@, m + from));
        }
    }
    None
}


fn push_range(out: &mut Vec<char>, v: &Vec<char>, lo: usize, hi: usize)
    requires
        lo <= hi <= v@.len(),
    ensures
        final(out)@ == old(out)@ + v@.subrange(lo as int, hi as int),
{
    let mut i = lo;
    while i < hi
        invariant
            lo <= i <= hi <= v@.len(),
            out@ == old(out)@ + v@.subrange(lo as int, i as int),
        decreases hi - i,
    {
        out.push(v[i]);
        i += 1;
        assert(out@ =~= old(out)@ + v@.subrange(lo as int, i as int));
    }
}

fn push_text(out: &mut Vec<char>, t: &str)
    ensures
        final(out)@ == old(out)@ + t@,
{
    let tv = chars_of(t);
    push_range(out, &tv, 0, tv.len());
    assert(tv@.subrange(0, tv@.len() as int) =~= t@);
}

fn key_end(v: &Vec<char>, start: usize) -> (k: usize)
    requires
        start <= v@.len(),
    ensures
        start <= k <= v@.len(),
        k - start == key_len(v@.skip(start as int)),
{
    let ghost after = v@.skip(start as int);
    proof { lemma_key_len(after); }
    let mut k = start;
    while k < v.len() && (ascii_alphanumeric_char(v[k]) || v[k] == '_')
        invariant
            start <= k <= v@.len(),
            after == v@.skip(start as int),
            forall|j: int| start <= j < k ==> key_char(#[trigger] v@[j]),
        decreases v@.len() - k,
    {
        k += 1;
    }
    proof {
        let kl = key_len(after) as int;
        if kl < k - start {
            assert(key_char(v@[start + kl]));
            assert(after[kl] == v@[start + kl]);
        }
        if kl > k - start {
            assert(after[k - start] == v@[k as int]);
            assert(key_char(after[k - start]));
        }
    }
    k
}

fn value_end(v: &Vec<char>, start: usize) -> (e: usize)
    requires
        start <= v@.len(),
    ensures
        start <= e <= v@.len(),
        e - start == value_len(v@.skip(start as int)),
{
    let ghost value = v@.skip(start as int);
    proof { lemma_value_len(value); }
    let mut e = start;
    while e < v.len() && !whitespace_char(v[e])
        invariant
            start <= e <= v@.len(),
            value == v@.skip(start as int),
            forall|j: int| start <= j < e ==> !is_whitespace(#[trigger] v@[j]),
        decreases v@.len() - e,
    {
        e += 1;
    }
    proof {
        let vl = value_len(value) as int;
        if vl < e - start {
            assert(!is_whitespace(v@[start + vl]));
            assert(value[vl] == v@[start + vl]);
        }
        if vl > e - start {
            assert(value[e - start] == v@[e as int]);
        }
    }
    e
}

proof fn lemma_redact_no_marker(s: Seq<char>)
    requires
        find_marker(s) < 0,
    ensures
        spec_redact(s) == s,
{
    reveal(spec_redact);
}

/// One unfolding of the redaction at the first marker of `v` after `pos`.
proof fn lemma_redact_step(v: Seq<char>, pos: int, i: int, k: int)
    requires
        0 <= pos <= i,
        i + 6 <= v.len(),
        find_marker(v.skip(pos)) == i - pos,
        i + 6 <= k <= v.len(),
        k - (i + 6) == key_len(v.skip(i + 6)),
    ensures
        k == i + 6 ==> spec_redact(v.skip(pos)) == v.subrange(pos, i) + marker() + spec_redact(v.skip(i + 6)),
        k > i + 6 && (k == v.len() || v[k] != '=') ==> spec_redact(v.skip(pos)) == v.subrange(pos, i) + marker() + v.subrange(i + 6, k) + spec_redact(v.skip(k)),
        k > i + 6 && k < v.len() && v[k] == '=' ==> {
            let e = k + 1 + value_len(v.skip(k + 1));
            &&& e <= v.len()
            &&& spec_redact(v.skip(pos)) == v.subrange(pos, i) + marker() + v.subrange(i + 6, k) + seq!['='] + "<redacted>"@ + spec_redact(v.skip(e))
        },
{
    reveal(spec_redact);
    let s = v.skip(pos);
    let m = i - pos;
    let after = s.skip(m + 6);
    assert(after =~= v.skip(i + 6));
    assert(s.take(m) =~= v.subrange(pos, i));
    lemma_key_len(after);
    let kl = key_len(after) as int;
    assert(after.take(kl) =~= v.subrange(i + 6, k));
    let rest = after.skip(kl);
    assert(rest =~= v.skip(k));
    if k > i + 6 && k < v.len() && v[k] == '=' {
        let value = rest.skip(1);
        assert(value =~= v.skip(k + 1));
        lemma_value_len(value);
        let vl = value_len(value) as int;
        assert(value.skip(vl) =~= v.skip(k + 1 + vl));
    }
}

/// Redact the values of `HERDR_*=value` assignments.
pub fn redact_herdr_assignments(text: &str) -> (r: String)
    ensures
        r@ == spec_redact(text@),
{
    let v = chars_of(text);
    let mut out: Vec<char> = Vec::new();
    let mut pos: usize = 0;
    assert(v@.skip(0) =~= v@);
    proof { reveal_strlit("HERDR_"); assert("HERDR_"@ =~= marker()); }
    while pos < v.len()
        invariant
            pos <= v@.len(),
            v@ == text@,
            "HERDR_"@ == marker(),
            out@ + spec_redact(v@.skip(pos as int)) == spec_redact(text@),
        decreases v@.len() - pos,
    {
        let ghost before = out@;
        match first_marker(&v, pos) {
            None => {
                push_range(&mut out, &v, pos, v.len());
                proof {
                    assert(v@.subrange(pos as int, v@.len() as int) =~= v@.skip(pos as int));
                    assert(v@.skip(v@.len() as int) =~= Seq::<char>::empty());
                    lemma_redact_no_marker(v@.skip(pos as int));
                    lemma_redact_no_marker(Seq::<char>::empty());
                    assert(out@ + spec_redact(v@.skip(v@.len() as int)) =~= before + spec_redact(v@.skip(pos as int)));
                }
                pos = v.len();
            },
            Some(i) => {
                proof {
                    lemma_find_marker(v@.skip(pos as int));
                }
                let a_start = i + 6;
                let k = key_end(&v, a_start);
                proof { lemma_redact_step(v@, pos as int, i as int, k as int); }
                push_range(&mut out, &v, pos, i);
                push_text(&mut out, "HERDR_");
                if k == a_start {
                    assert(out@ + spec_redact(v@.skip(a_start as int)) =~= before + spec_redact(v@.skip(pos as int)));
                    pos = a_start;
                } else if k == v.len() || v[k] != '=' {
                    push_range(&mut out, &v, a_start, k);
                    assert(out@ + spec_redact(v@.skip(k as int)) =~= before + spec_redact(v@.skip(pos as int)));
                    pos = k;
                } else {
                    push_range(&mut out, &v, a_start, k);
                    out.push('=');
                    push_text(&mut out, "<redacted>");
                    let e = value_end(&v, k + 1);
                    assert(out@ + spec_redact(v@.skip(e as int)) =~= before + spec_redact(v@.skip(pos as int)));
                    pos = e;
                }
            },
        }
    }
    assert(v@.skip(pos as int) =~= Seq::<char>::empty());
    proof { lemma_redact_no_marker(Seq::<char>::empty()); }
    assert(out@ =~= spec_redact(text@));
    string_of(&out)
}

/// Characters of `s` that are not control characters.
pub open spec fn strip_controls(s: Seq<char>) -> Seq<char>
    decreases s.len(),
{
    if s.len() == 0 {
        s
    } else {
        strip_controls(s.drop_last()) + if is_control(s.last()) { Seq::<char>::empty() } else { seq![s.last()] }
    }
}

/// A detail safe to show: control characters removed, Herdr assignments
/// redacted, at most `MAX_ERROR_DETAIL_CHARS` characters.
pub open spec fn spec_sanitize(s: Seq<char>) -> Seq<char> {
    let r = spec_redact(strip_controls(s));
    if r.len() <= 200 { r } else { r.take(200) }
}

pub fn sanitize_detail(text: &str) -> (r: String)
    ensures
        r@ == spec_sanitize(text@),
{
    let v = chars_of(text);
    let mut cleaned: Vec<char> = Vec::new();
    let mut i: usize = 0;
    while i < v.len()
        invariant
            i <= v@.len(),
            v@ == text@,
            cleaned@ == strip_controls(v@.take(i as int)),
        decreases v@.len() - i,
    {
        assert(v@.take(i + 1).drop_last() =~= v@.take(i as int));
        if !control_char(v[i]) {
            cleaned.push(v[i]);
        }
        i += 1;
        assert(cleaned@ =~= strip_controls(v@.take(i as int)));
    }
    assert(v@.take(v@.len() as int) =~= v@);
    let cleaned_text = string_of(&cleaned);
    let redacted = redact_herdr_assignments(cleaned_text.as_str());
    let rv = chars_of(redacted.as_str());
    let n = if rv.len() <= MAX_ERROR_DETAIL_CHARS { rv.len() } else { MAX_ERROR_DETAIL_CHARS };
    let mut out: Vec<char> = Vec::new();
    push_range(&mut out, &rv, 0, n);
    assert(rv@.subrange(0, n as int) =~= spec_sanitize(text@));
    string_of(&out)
}

/// No character of the text is a control character.
pub open spec fn free_of_controls(s: Seq<char>) -> bool {
    forall|i: int| 0 <= i < s.len() ==> !is_control(#[trigger] s[i])
}

proof fn lemma_strip_controls_clean(s: Seq<char>)
    ensures
        free_of_controls(strip_controls(s)),
    decreases s.len(),
{
    if s.len() > 0 {
        lemma_strip_controls_clean(s.drop_last());
    }
}

proof fn lemma_redact_keeps_clean(s: Seq<char>)
    requires
        free_of_controls(s),
    ensures
        free_of_controls(spec_redact(s)),
    decreases s.len(),
{
    reveal(spec_redact);
    let i = find_marker(s);
    lemma_find_marker(s);
    if i < 0 || i + 6 > s.len() {
    } else {
        let after = s.skip(i + 6);
        assert(free_of_controls(after)) by {
            assert forall|j: int| 0 <= j < after.len() implies !is_control(#[trigger] after[j]) by {
                assert(after[j] == s[i + 6 + j]);
            }
        }
        assert(free_of_controls(s.take(i))) by {
            assert forall|j: int| 0 <= j < s.take(i).len() implies !is_control(#[trigger] s.take(i)[j]) by {
                assert(s.take(i)[j] == s[j]);
            }
        }
        let k = key_len(after);
        lemma_key_len(after);
        if k == 0 || k > after.len() {
            lemma_redact_keeps_clean(after);
        } else {
            let rest = after.skip(k as int);
            assert(free_of_controls(rest)) by {
                assert forall|j: int| 0 <= j < rest.len() implies !is_control(#[trigger] rest[j]) by {
                    assert(rest[j] == after[k + j]);
                }
            }
            assert(free_of_controls(after.take(k as int))) by {
                assert forall|j: int| 0 <= j < after.take(k as int).len() implies !is_control(#[trigger] after.take(k as int)[j]) by {
                    assert(after.take(k as int)[j] == after[j]);
                }
            }
            if rest.len() == 0 || rest[0] != '=' {
                lemma_redact_keeps_clean(rest);
            } else {
                let value = rest.skip(1);
                let vl = value_len(value);
                lemma_value_len(value);
                if vl <= value.len() {
                    let tail = value.skip(vl as int);
                    assert(free_of_controls(tail)) by {
                        assert forall|j: int| 0 <= j < tail.len() implies !is_control(#[trigger] tail[j]) by {
                            assert(tail[j] == rest[1 + vl + j]);
                        }
                    }
                    lemma_redact_keeps_clean(tail);
                    reveal_strlit("<redacted>");
                }
            }
        }
    }
}

/// Every sanitized detail is terminal-safe and bounded: it holds no control
/// character and at most `MAX_ERROR_DETAIL_CHARS` characters, whatever text
/// Herdr returned.
pub proof fn law_sanitized_detail_is_safe(s: Seq<char>)
    ensures
        spec_sanitize(s).len() <= 200,
        free_of_controls(spec_sanitize(s)),
{
    lemma_strip_controls_clean(s);
    lemma_redact_keeps_clean(strip_controls(s));
    let r = spec_redact(strip_controls(s));
    if r.len() > 200 {
        assert forall|j: int| 0 <= j < r.take(200).len() implies !is_control(#[trigger] r.take(200)[j]) by {
            assert(r.take(200)[j] == r[j]);
        }
    }
}

} // verus!
