//! The cleanup decision: which worktrees may be removed, and why.

use vstd::prelude::*;

use crate::git::WorktreeInfo;
use crate::git::WorktreeRecord;
use crate::strutil::str_eq;
use crate::strutil::strings_view;

verus! {

/// A worktree that passed the cleanup pre-selection: not bare, on a
/// branch, and not on the main branch.
#[derive(Debug, Clone)]
pub struct CleanProspect {
    pub branch: String,
    pub path: String,
}

/// The mathematical value of a [`CleanProspect`].
pub ghost struct CleanProspectV {
    pub branch: Seq<char>,
    pub path: Seq<char>,
}

impl View for CleanProspect {
    type V = CleanProspectV;

    open spec fn view(&self) -> CleanProspectV {
        CleanProspectV { branch: self.branch@, path: self.path@ }
    }
}

/// A worktree eligible for removal, with the facts that made it so.
#[derive(Debug, Clone)]
pub struct CleanCandidate {
    pub branch: String,
    pub path: String,
    pub merged: bool,
    pub remote_deleted: bool,
    pub dirty: bool,
}

/// The mathematical value of a [`CleanCandidate`].
pub ghost struct CleanCandidateV {
    pub branch: Seq<char>,
    pub path: Seq<char>,
    pub merged: bool,
    pub remote_deleted: bool,
    pub dirty: bool,
}

impl View for CleanCandidate {
    type V = CleanCandidateV;

    open spec fn view(&self) -> CleanCandidateV {
        CleanCandidateV {
            branch: self.branch@,
            path: self.path@,
            merged: self.merged,
            remote_deleted: self.remote_deleted,
            dirty: self.dirty,
        }
    }
}

/// The text of a candidate's reason: the applicable labels, `merged`
/// first, joined by `" + "`.
pub open spec fn spec_reason(merged: bool, remote_deleted: bool) -> Seq<char> {
    if merged && remote_deleted {
        "merged + remote deleted"@
    } else if merged {
        "merged"@
    } else if remote_deleted {
        "remote deleted"@
    } else {
        ""@
    }
}

impl CleanCandidate {
    /// Why this worktree is a removal candidate.
    pub fn reason(&self) -> (r: String)
        ensures
            r@ == spec_reason(self.merged, self.remote_deleted),
    {
        if self.merged && self.remote_deleted {
            "merged + remote deleted".to_owned()
        } else if self.merged {
            "merged".to_owned()
        } else if self.remote_deleted {
            "remote deleted".to_owned()
        } else {
            "".to_owned()
        }
    }
}

/// Whether a record passes the cleanup pre-selection.
pub open spec fn is_prospect(w: WorktreeRecord, main: Seq<char>) -> bool {
    !w.is_bare && w.branch is Some && w.branch->0 != main
}

/// The pre-selected worktrees, in listing order: bare records,
/// detached heads and the main branch never qualify.
pub open spec fn spec_prospects(wts: Seq<WorktreeRecord>, main: Seq<char>) -> Seq<CleanProspectV>
    decreases wts.len(),
{
    if wts.len() == 0 {
        seq![]
    } else {
        let rest = spec_prospects(wts.drop_first(), main);
        if is_prospect(wts[0], main) {
            seq![CleanProspectV { branch: wts[0].branch->0, path: wts[0].path }] + rest
        } else {
            rest
        }
    }
}

/// Pre-selects the worktrees the cleanup may consider.
pub fn clean_prospects(worktrees: &Vec<WorktreeInfo>, main_branch: &str) -> (r: Vec<CleanProspect>)
    ensures
        r@.map_values(|p: CleanProspect| p@) == spec_prospects(
            worktrees@.map_values(|w: WorktreeInfo| w@),
            main_branch@,
        ),
{
    let ghost wv = worktrees@.map_values(|w: WorktreeInfo| w@);
    let mut r: Vec<CleanProspect> = Vec::new();
    let mut k: usize = 0;
    proof {
        assert(wv.skip(0) =~= wv);
    }
    while k < worktrees.len()
        invariant
            k <= worktrees.len(),
            wv == worktrees@.map_values(|w: WorktreeInfo| w@),
            spec_prospects(wv, main_branch@) == r@.map_values(|p: CleanProspect| p@)
                + spec_prospects(wv.skip(k as int), main_branch@),
        decreases worktrees.len() - k,
    {
        let ghost done = r@.map_values(|p: CleanProspect| p@);
        proof {
            assert(wv.skip(k as int)[0] == wv[k as int]);
            assert(wv.skip(k as int).drop_first() =~= wv.skip(k as int + 1));
        }
        let wt = &worktrees[k];
        if !wt.is_bare {
            if let Some(b) = &wt.branch {
                if !str_eq(b.as_str(), main_branch) {
                    let p = CleanProspect { branch: b.clone(), path: wt.path.clone() };
                    r.push(p);
                    proof {
                        assert(r@.map_values(|x: CleanProspect| x@) =~= done.push(p@));
                        assert(done.push(p@) + spec_prospects(wv.skip(k as int + 1), main_branch@)
                            =~= done + spec_prospects(wv.skip(k as int), main_branch@));
                    }
                }
            }
        }
        k += 1;
    }
    proof {
        assert(wv.skip(k as int) =~= Seq::<WorktreeRecord>::empty());
        assert(r@.map_values(|p: CleanProspect| p@) + spec_prospects(
            Seq::<WorktreeRecord>::empty(),
            main_branch@,
        ) =~= r@.map_values(|p: CleanProspect| p@));
    }
    r
}

/// The candidates among the prospects: those whose branch is merged or
/// whose remote branch is gone, each annotated with both facts and a
/// dirty flag still to be filled in.
pub open spec fn spec_select(
    ps: Seq<CleanProspectV>,
    merged: Seq<Seq<char>>,
    remote_exists: Seq<bool>,
) -> Seq<CleanCandidateV>
    decreases ps.len(),
{
    if ps.len() == 0 || remote_exists.len() == 0 {
        seq![]
    } else {
        let m = merged.contains(ps[0].branch);
        let rd = !remote_exists[0];
        let rest = spec_select(ps.drop_first(), merged, remote_exists.drop_first());
        if m || rd {
            seq![
                CleanCandidateV {
                    branch: ps[0].branch,
                    path: ps[0].path,
                    merged: m,
                    remote_deleted: rd,
                    dirty: false,
                },
            ] + rest
        } else {
            rest
        }
    }
}

/// Whether some string of `v` spells `s`.
fn vec_contains_str(v: &Vec<String>, s: &str) -> (r: bool)
    ensures
        r == strings_view(v@).contains(s@),
{
    let mut k: usize = 0;
    while k < v.len()
        invariant
            k <= v.len(),
            forall|j: int| 0 <= j < k ==> strings_view(v@)[j] != s@,
        decreases v.len() - k,
    {
        if str_eq(v[k].as_str(), s) {
            proof {
                assert(strings_view(v@)[k as int] == s@);
            }
            return true;
        }
        k += 1;
    }
    proof {
        assert(forall|j: int| 0 <= j < strings_view(v@).len() ==> strings_view(v@)[j] != s@);
    }
    false
}

/// Selects the removal candidates: prospect `i` is kept exactly when
/// its branch stands in `merged` or `remote_exists[i]` is false; the
/// dirty flag of every returned candidate is still false.
pub fn select_candidates(
    prospects: &Vec<CleanProspect>,
    merged: &Vec<String>,
    remote_exists: &Vec<bool>,
) -> (r: Vec<CleanCandidate>)
    requires
        remote_exists@.len() == prospects@.len(),
    ensures
        r@.map_values(|c: CleanCandidate| c@) == spec_select(
            prospects@.map_values(|p: CleanProspect| p@),
            strings_view(merged@),
            remote_exists@,
        ),
{
    let ghost pv = prospects@.map_values(|p: CleanProspect| p@);
    let mut r: Vec<CleanCandidate> = Vec::new();
    let mut k: usize = 0;
    proof {
        assert(pv.skip(0) =~= pv);
        assert(remote_exists@.skip(0) =~= remote_exists@);
    }
    while k < prospects.len()
        invariant
            k <= prospects.len(),
            pv == prospects@.map_values(|p: CleanProspect| p@),
            remote_exists@.len() == pv.len(),
            spec_select(pv, strings_view(merged@), remote_exists@) == r@.map_values(
                |c: CleanCandidate| c@,
            ) + spec_select(
                pv.skip(k as int),
                strings_view(merged@),
                remote_exists@.skip(k as int),
            ),
        decreases prospects.len() - k,
    {
        let ghost done = r@.map_values(|c: CleanCandidate| c@);
        proof {
            assert(pv.skip(k as int)[0] == pv[k as int]);
            assert(pv.skip(k as int).drop_first() =~= pv.skip(k as int + 1));
            assert(remote_exists@.skip(k as int)[0] == remote_exists@[k as int]);
            assert(remote_exists@.skip(k as int).drop_first() =~= remote_exists@.skip(k as int + 1));
        }
        let p = &prospects[k];
        let is_merged = vec_contains_str(merged, p.branch.as_str());
        let remote_deleted = !remote_exists[k];
        if is_merged || remote_deleted {
            let c = CleanCandidate {
                branch: p.branch.clone(),
                path: p.path.clone(),
                merged: is_merged,
                remote_deleted,
                dirty: false,
            };
            r.push(c);
            proof {
                assert(r@.map_values(|x: CleanCandidate| x@) =~= done.push(c@));
                assert(done.push(c@) + spec_select(
                    pv.skip(k as int + 1),
                    strings_view(merged@),
                    remote_exists@.skip(k as int + 1),
                ) =~= done + spec_select(
                    pv.skip(k as int),
                    strings_view(merged@),
                    remote_exists@.skip(k as int),
                ));
            }
        }
        k += 1;
    }
    proof {
        assert(pv.skip(k as int) =~= Seq::<CleanProspectV>::empty());
        assert(r@.map_values(|c: CleanCandidate| c@) + spec_select(
            Seq::<CleanProspectV>::empty(),
            strings_view(merged@),
            remote_exists@.skip(k as int),
        ) =~= r@.map_values(|c: CleanCandidate| c@));
    }
    r
}

/// A candidate counts as dirty only when its directory exists on disk
/// and the status reported there is non-empty; a missing directory is
/// never dirty and never an error.
pub fn dirty_flag(dir_exists: bool, status: Option<&str>) -> (r: bool)
    ensures
        r == (dir_exists && (status matches Some(s) && s@.len() > 0)),
{
    if dir_exists {
        match status {
            Some(s) => !s.is_empty(),
            None => false,
        }
    } else {
        false
    }
}

/// No prospect — and so no candidate — is ever on the main branch.
proof fn lemma_prospects_not_main(wts: Seq<WorktreeRecord>, main: Seq<char>)
    ensures
        forall|j: int|
            0 <= j < spec_prospects(wts, main).len() ==> #[trigger] spec_prospects(
                wts,
                main,
            )[j].branch != main,
    decreases wts.len(),
{
    if wts.len() > 0 {
        lemma_prospects_not_main(wts.drop_first(), main);
        let sel = spec_prospects(wts, main);
        let rest = spec_prospects(wts.drop_first(), main);
        assert forall|j: int| 0 <= j < sel.len() implies sel[j].branch != main by {
            if is_prospect(wts[0], main) {
                if j > 0 {
                    assert(sel[j] == rest[j - 1]);
                }
            } else {
                assert(sel[j] == rest[j]);
            }
        }
    }
}

/// Every selected candidate's branch and path come from a prospect
/// whose branch it keeps.
proof fn lemma_select_branches(
    ps: Seq<CleanProspectV>,
    merged: Seq<Seq<char>>,
    remote_exists: Seq<bool>,
)
    ensures
        forall|j: int|
            0 <= j < spec_select(ps, merged, remote_exists).len() ==> exists|i: int|
                0 <= i < ps.len() && #[trigger] spec_select(ps, merged, remote_exists)[j].branch
                    == ps[i].branch,
    decreases ps.len(),
{
    if ps.len() > 0 && remote_exists.len() > 0 {
        lemma_select_branches(ps.drop_first(), merged, remote_exists.drop_first());
        let sel = spec_select(ps, merged, remote_exists);
        let rest = spec_select(ps.drop_first(), merged, remote_exists.drop_first());
        assert forall|j: int| 0 <= j < sel.len() implies exists|i: int|
            0 <= i < ps.len() && #[trigger] sel[j].branch == ps[i].branch by {
            let m = merged.contains(ps[0].branch);
            let rd = !remote_exists[0];
            if m || rd {
                if j == 0 {
                    assert(sel[0].branch == ps[0].branch);
                } else {
                    let i = choose|i: int|
                        0 <= i < ps.drop_first().len() && #[trigger] rest[j - 1].branch
                            == ps.drop_first()[i].branch;
                    assert(sel[j].branch == ps[i + 1].branch);
                }
            } else {
                let i = choose|i: int|
                    0 <= i < ps.drop_first().len() && #[trigger] rest[j].branch
                        == ps.drop_first()[i].branch;
                assert(sel[j].branch == ps[i + 1].branch);
            }
        }
    }
}

/// A worktree on the main branch is never a cleanup candidate, however
/// the merge and remote facts fall.
pub proof fn lemma_main_branch_never_candidate(
    wts: Seq<WorktreeRecord>,
    main: Seq<char>,
    merged: Seq<Seq<char>>,
    remote_exists: Seq<bool>,
)
    ensures
        forall|j: int|
            0 <= j < spec_select(spec_prospects(wts, main), merged, remote_exists).len()
                ==> #[trigger] spec_select(
                spec_prospects(wts, main),
                merged,
                remote_exists,
            )[j].branch != main,
{
    lemma_prospects_not_main(wts, main);
    lemma_select_branches(spec_prospects(wts, main), merged, remote_exists);
}

/// A prospect that is neither merged nor missing its remote branch is
/// never a candidate; every candidate carries at least one of the two
/// facts, so its reason text is never empty.
pub proof fn lemma_candidate_has_reason(
    ps: Seq<CleanProspectV>,
    merged: Seq<Seq<char>>,
    remote_exists: Seq<bool>,
)
    ensures
        forall|j: int|
            0 <= j < spec_select(ps, merged, remote_exists).len() ==> (#[trigger] spec_select(
                ps,
                merged,
                remote_exists,
            )[j].merged || spec_select(ps, merged, remote_exists)[j].remote_deleted),
        forall|j: int|
            0 <= j < spec_select(ps, merged, remote_exists).len() ==> spec_reason(
                #[trigger] spec_select(ps, merged, remote_exists)[j].merged,
                spec_select(ps, merged, remote_exists)[j].remote_deleted,
            ).len() > 0,
    decreases ps.len(),
{
    reveal_strlit("merged + remote deleted");
    reveal_strlit("merged");
    reveal_strlit("remote deleted");
    if ps.len() > 0 && remote_exists.len() > 0 {
        lemma_candidate_has_reason(ps.drop_first(), merged, remote_exists.drop_first());
        let sel = spec_select(ps, merged, remote_exists);
        let rest = spec_select(ps.drop_first(), merged, remote_exists.drop_first());
        assert forall|j: int| 0 <= j < sel.len() implies (sel[j].merged || sel[j].remote_deleted)
            && spec_reason(sel[j].merged, sel[j].remote_deleted).len() > 0 by {
            let m = merged.contains(ps[0].branch);
            let rd = !remote_exists[0];
            if m || rd {
                if j > 0 {
                    assert(sel[j] == rest[j - 1]);
                }
            } else {
                assert(sel[j] == rest[j]);
            }
        }
    }
}

} // verus!
