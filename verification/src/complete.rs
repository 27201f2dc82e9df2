//! Dynamic completion of the directory argument: semantic Herdr evidence
//! filtered by the typed prefix, merged with filesystem children, rendered
//! as suggestions.

use vstd::prelude::*;

use crate::completion::{CompletionCandidate, DescriptionView, Evidence, EvidenceView, PrefixBound, bound_view, candidate_views, item_views, merge_candidates, path_views, semantic_path_allowed, spec_merge, spec_semantic_allowed};
use crate::display::{FilesystemAlias, Suggestion, alias_views, spec_named_lexical, suggestion_of, to_named_suggestion};
use crate::error::Span;
use crate::path::CanonicalPath;
use crate::prefix::{TypedPrefix, opt_path_view, prefix_view, spec_reconstruct};

verus! {

/// Herdr sub-deadline of completion, in milliseconds from its start.
pub const HERDR_COMPLETION_DEADLINE_MS: u64 = 200;

/// Overall completion deadline, in milliseconds from its start.
pub const TOTAL_COMPLETION_DEADLINE_MS: u64 = 250;

/// The semantic records that pass the caller-cwd, hidden, and prefix rules,
/// in their order.
pub fn semantic_candidates(evidence: Vec<(CanonicalPath, Evidence)>, caller_cwd: &CanonicalPath, bound: Option<&PrefixBound>) -> (r: Vec<(CanonicalPath, Evidence)>)
    ensures
        item_views(r@) == item_views(evidence@).filter(|x: (Seq<Seq<char>>, EvidenceView)| spec_semantic_allowed(x.0, caller_cwd@, bound_view(bound))),
{
    let ghost keep = |x: (Seq<Seq<char>>, EvidenceView)| spec_semantic_allowed(x.0, caller_cwd@, bound_view(bound));
    let ghost iv = item_views(evidence@);
    let mut out: Vec<(CanonicalPath, Evidence)> = Vec::new();
    let mut i: usize = 0;
    while i < evidence.len()
        invariant
            i <= evidence@.len(),
            iv == item_views(evidence@),
            keep == |x: (Seq<Seq<char>>, EvidenceView)| spec_semantic_allowed(x.0, caller_cwd@, bound_view(bound)),
            item_views(out@) == iv.take(i as int).filter(keep),
        decreases evidence@.len() - i,
    {
        assert(iv.take(i + 1) =~= iv.take(i as int).push(iv[i as int]));
        proof { iv.take(i as int).lemma_filter_push(iv[i as int], keep); }
        if semantic_path_allowed(&evidence[i].0, caller_cwd, bound) {
            out.push((evidence[i].0.duplicate(), evidence[i].1.duplicate()));
        }
        assert(item_views(out@) =~= iv.take(i + 1).filter(keep));
        i += 1;
    }
    assert(iv.take(evidence@.len() as int) =~= iv);
    out
}

/// Views of listed directory entries: the directory each resolves to, and
/// its own name and symlink flag.
pub open spec fn entry_views(v: Seq<(CanonicalPath, FilesystemAlias)>) -> Seq<(Seq<Seq<char>>, (Seq<char>, bool))> {
    v.map_values(|e: (CanonicalPath, FilesystemAlias)| (e.0@, (e.1.name@, e.1.symlink)))
}

/// The directories the listed entries resolve to, in listing order.
pub open spec fn entry_paths(v: Seq<(Seq<Seq<char>>, (Seq<char>, bool))>) -> Seq<Seq<Seq<char>>> {
    v.map_values(|e: (Seq<Seq<char>>, (Seq<char>, bool))| e.0)
}

/// The names of the listed entries that resolve to `path`, in listing order.
pub open spec fn names_of(entries: Seq<(Seq<Seq<char>>, (Seq<char>, bool))>, path: Seq<Seq<char>>) -> Seq<(Seq<char>, bool)>
    decreases entries.len(),
{
    if entries.len() == 0 {
        seq![]
    } else {
        let rest = names_of(entries.drop_last(), path);
        if entries.last().0 == path { rest.push(entries.last().1) } else { rest }
    }
}

/// The suggestion for one candidate: its lexical replacement (quoted when
/// needed, a symlink under its own listed name), the escaped display
/// without trailing `/`, and its description.
pub open spec fn suggestion_for(s: Suggestion, path: Seq<Seq<char>>, description: DescriptionView, prefix: (Seq<char>, Seq<char>, bool), bound: Option<(Seq<Seq<char>>, Seq<char>)>, home: Option<Seq<Seq<char>>>, span: Option<Span>, entries: Seq<(Seq<Seq<char>>, (Seq<char>, bool))>) -> bool {
    suggestion_of(s, spec_named_lexical(prefix, path, bound, home, names_of(entries, path)), description, span)
}

fn entry_paths_of(filesystem: &Vec<(CanonicalPath, FilesystemAlias)>) -> (r: Vec<CanonicalPath>)
    ensures
        path_views(r@) == entry_paths(entry_views(filesystem@)),
{
    let ghost ev = entry_views(filesystem@);
    let mut out: Vec<CanonicalPath> = Vec::new();
    let mut i: usize = 0;
    while i < filesystem.len()
        invariant
            i <= filesystem@.len(),
            ev == entry_views(filesystem@),
            path_views(out@) =~= entry_paths(ev.take(i as int)),
        decreases filesystem@.len() - i,
    {
        let ghost before = out@;
        let p = filesystem[i].0.duplicate();
        out.push(p);
        assert(ev.take(i + 1) =~= ev.take(i as int).push(ev[i as int]));
        assert(out@ =~= before.push(p));
        assert(path_views(out@) =~= path_views(before).push(p@));
        assert(entry_paths(ev.take(i + 1)) =~= entry_paths(ev.take(i as int)).push(ev[i as int].0));
        i += 1;
    }
    assert(ev.take(filesystem@.len() as int) =~= ev);
    out
}

fn names_for(filesystem: &Vec<(CanonicalPath, FilesystemAlias)>, path: &CanonicalPath) -> (r: Vec<FilesystemAlias>)
    ensures
        alias_views(r@) == names_of(entry_views(filesystem@), path@),
{
    let ghost ev = entry_views(filesystem@);
    let mut out: Vec<FilesystemAlias> = Vec::new();
    let mut i: usize = 0;
    assert(ev.take(0) =~= Seq::<(Seq<Seq<char>>, (Seq<char>, bool))>::empty());
    while i < filesystem.len()
        invariant
            i <= filesystem@.len(),
            ev == entry_views(filesystem@),
            alias_views(out@) =~= names_of(ev.take(i as int), path@),
        decreases filesystem@.len() - i,
    {
        assert(ev.take(i + 1).drop_last() =~= ev.take(i as int));
        if filesystem[i].0.same_as(path) {
            let alias = FilesystemAlias { name: filesystem[i].1.name.clone(), symlink: filesystem[i].1.symlink };
            out.push(alias);
        }
        i += 1;
    }
    assert(ev.take(filesystem@.len() as int) =~= ev);
    out
}

/// Merge the semantic records with the listed filesystem entries and
/// render each candidate; `None` means native fallback.
pub fn suggestions_from(semantic: Vec<(CanonicalPath, Evidence)>, filesystem: Vec<(CanonicalPath, FilesystemAlias)>, caller_cwd: &CanonicalPath, prefix: &TypedPrefix, bound: Option<&PrefixBound>, home: Option<&CanonicalPath>, span: Option<Span>) -> (r: Option<Vec<Suggestion>>)
    ensures
        r is Some == spec_merge(item_views(semantic@), entry_paths(entry_views(filesystem@)), caller_cwd@) is Some,
        r matches Some(v) ==> {
            let merged = spec_merge(item_views(semantic@), entry_paths(entry_views(filesystem@)), caller_cwd@)->0;
            &&& v@.len() == merged.len()
            &&& forall|i: int| 0 <= i < v@.len() ==> suggestion_for(#[trigger] v@[i], merged[i].0, merged[i].1, prefix_view(*prefix), bound_view(bound), opt_path_view(home), span, entry_views(filesystem@))
        },
{
    let paths = entry_paths_of(&filesystem);
    let candidates = merge_candidates(semantic, paths, caller_cwd)?;
    let ghost cv = candidate_views(candidates@);
    let ghost ev = entry_views(filesystem@);
    let mut out: Vec<Suggestion> = Vec::new();
    let mut i: usize = 0;
    while i < candidates.len()
        invariant
            i <= candidates@.len(),
            cv == candidate_views(candidates@),
            ev == entry_views(filesystem@),
            out@.len() == i,
            forall|k: int| 0 <= k < i ==> suggestion_for(#[trigger] out@[k], cv[k].0, cv[k].1, prefix_view(*prefix), bound_view(bound), opt_path_view(home), span, ev),
        decreases candidates@.len() - i,
    {
        let c = candidates[i].duplicate();
        let names = names_for(&filesystem, &c.path);
        out.push(to_named_suggestion(c, prefix, bound, home, span, &names));
        i += 1;
    }
    Some(out)
}

/// How the filesystem pass of a completion ended.
pub enum MergePass {
    /// The listing found no child directory, or was skipped at the deadline.
    NothingListed,
    /// The merge with the listed children finished; `None` when it refused.
    Finished(Option<Vec<Suggestion>>),
    /// The merge was abandoned at the overall deadline.
    Abandoned,
}

/// The completion's answer once the semantic suggestions are ready: an
/// interruption discards everything; otherwise the merged suggestions when
/// the merge finished, and the semantic ones when nothing was listed or the
/// merge ran out of time.
pub fn settle_completion(semantic: Vec<Suggestion>, pass: MergePass, interrupted: bool) -> (r: Option<Vec<Suggestion>>)
    ensures
        interrupted ==> r is None,
        !interrupted ==> r == match pass {
            MergePass::NothingListed => Some(semantic),
            MergePass::Finished(merged) => merged,
            MergePass::Abandoned => Some(semantic),
        },
{
    if interrupted {
        return None;
    }
    match pass {
        MergePass::NothingListed => Some(semantic),
        MergePass::Finished(merged) => merged,
        MergePass::Abandoned => Some(semantic),
    }
}

} // verus!
