//! What is known of the repositories that are open.

use crate::code::git::{repo_key, short_hash};
use crate::code::manager::{
    after_open, busy, cache_key, changed, clone_of, distinct, in_flight, noted, opened, phase_name,
    root_of, state_of, terminal, worktree_of, RepoModel, RepoPhase,
};
use crate::code::pipeline::ActionModel;
use crate::infra::pathname::{joined, Platform};
use crate::order;
use vstd::prelude::*;

verus! {

proof fn lemma_state_of(s: Seq<RepoModel>, id: Seq<char>, i: int)
    requires
        0 <= i,
    ensures
        match state_of(s, id, i) {
            Some(k) => i <= k < s.len() && s[k].repo_id == id,
            None => forall|k: int| i <= k < s.len() ==> (#[trigger] s[k]).repo_id != id,
        },
    decreases s.len() - i,
{
    if i < s.len() && s[i].repo_id != id {
        lemma_state_of(s, id, i + 1);
    }
}

/// Work that begins knows the repository and the ref, of that moment, and nothing yet of what
/// it comes to: no progress, no commit, no error.
pub proof fn law_work_begins_afresh(
    url: Seq<char>,
    git_ref: Seq<char>,
    worktree: Option<Seq<char>>,
    now: Seq<char>,
)
    ensures
        ({
            let m = opened(url, git_ref, worktree, now);
            &&& m.repo_id == repo_key(url, git_ref) && m.url_hash == short_hash(url)
            &&& m.repo_url == url && m.git_ref == git_ref && m.created_at == now
            &&& m.phase == RepoPhase::Cloning && m.worktree_path == worktree
            &&& m.progress is None && m.resolved_commit is None && m.stale_warning is None
            &&& m.error is None && m.error_code is None
        }),
{
}

/// Asking for a repository whose work is over, or that was not asked for, begins it afresh;
/// the others stay as they are, and no id comes to occur twice.
pub proof fn law_asking_begins_what_is_over(s: Seq<RepoModel>, fresh: RepoModel, k: int)
    requires
        distinct(s),
        0 <= k < s.len(),
    ensures
        distinct(after_open(s, fresh)),
        s[k].repo_id != fresh.repo_id ==> after_open(s, fresh)[k] == s[k],
        s[k].repo_id == fresh.repo_id && terminal(s[k].phase) ==> after_open(s, fresh) == s.update(
            k,
            fresh,
        ),
        s[k].repo_id == fresh.repo_id && !terminal(s[k].phase) ==> after_open(s, fresh) == s,
        (forall|j: int| 0 <= j < s.len() ==> (#[trigger] s[j]).repo_id != fresh.repo_id)
            ==> after_open(s, fresh) == s.push(fresh),
{
    lemma_state_of(s, fresh.repo_id, 0);
    let t = after_open(s, fresh);
    assert forall|i: int, j: int| 0 <= i < j < t.len() implies (#[trigger] t[i]).repo_id != (
    #[trigger] t[j]).repo_id by {
        if j < s.len() {
            assert(s[i].repo_id != s[j].repo_id);
        }
    }
    match state_of(s, fresh.repo_id, 0) {
        Some(i) => {
            if s[k].repo_id == fresh.repo_id && i != k {
                if i < k {
                    assert(s[i].repo_id != s[k].repo_id);
                } else {
                    assert(s[k].repo_id != s[i].repo_id);
                }
            }
        },
        None => {},
    }
}

/// A change is made to the repository that it is about, and to no other.
pub proof fn law_change_is_made_to_one(
    s: Seq<RepoModel>,
    id: Seq<char>,
    f: spec_fn(RepoModel) -> RepoModel,
    k: int,
)
    requires
        distinct(s),
        0 <= k < s.len(),
    ensures
        changed(s, id, f).len() == s.len(),
        s[k].repo_id == id ==> changed(s, id, f)[k] == f(s[k]),
        s[k].repo_id != id ==> changed(s, id, f)[k] == s[k],
{
    lemma_state_of(s, id, 0);
    match state_of(s, id, 0) {
        Some(i) => {
            if s[k].repo_id == id && i != k {
                if i < k {
                    assert(s[i].repo_id != s[k].repo_id);
                } else {
                    assert(s[k].repo_id != s[i].repo_id);
                }
            }
        },
        None => {},
    }
}

/// The state follows the steps of the work: it is cloning or fetching while git does that,
/// and a step that neither begins such work nor ends it leaves no trace. What identifies the
/// repository never changes.
pub proof fn law_state_follows_the_steps(m: RepoModel, a: ActionModel, worktree: Seq<char>)
    ensures
        ({
            let n = noted(m, a, worktree);
            &&& a is RunClone ==> n.phase == RepoPhase::Cloning && n.progress is None
            &&& a is RunFetch ==> n.phase == RepoPhase::Fetching && n.progress is None
            &&& a is ResolveRef || a is LookForWorktree || a is Checkout || a is AddWorktree || a
                is Ignore ==> n == m
            &&& n.repo_id == m.repo_id && n.url_hash == m.url_hash && n.repo_url == m.repo_url
                && n.git_ref == m.git_ref && n.created_at == m.created_at
            &&& !(a is Finish) ==> n.worktree_path == m.worktree_path && n.resolved_commit
                == m.resolved_commit && n.stale_warning == m.stale_warning
        }),
{
}

/// Work is under way on a repository just where some state of it is neither ready nor failed.
pub proof fn law_busy_is_not_over(s: Seq<RepoModel>, url_hash: Seq<char>)
    ensures
        busy(s, url_hash) <==> exists|i: int|
            0 <= i < s.len() && (#[trigger] s[i]).url_hash == url_hash && s[i].phase
                != RepoPhase::Ready && s[i].phase != RepoPhase::Failed,
{
    if busy(s, url_hash) {
        let i = choose|i: int|
            0 <= i < s.len() && (#[trigger] s[i]).url_hash == url_hash && !terminal(s[i].phase);
        assert(s[i].url_hash == url_hash);
    }
}

/// The clone of a repository and its files stand below one directory of its own, apart from
/// each other.
pub proof fn law_places_of_a_repository(
    dir: Seq<char>,
    p: Platform,
    hash: Seq<char>,
    git_ref: Seq<char>,
)
    ensures
        clone_of(dir, p, hash) == joined(joined(dir, hash, p), "clone"@, p),
        worktree_of(dir, p, hash, git_ref) == joined(
            joined(joined(dir, hash, p), "wt"@, p),
            short_hash(git_ref),
            p,
        ),
        root_of(dir, p, hash) == joined(dir, hash, p),
{
}

/// The phases have different names.
pub proof fn law_phases_have_names(p: RepoPhase, q: RepoPhase)
    ensures
        p != q ==> phase_name(p) != phase_name(q),
{
    reveal_strlit("cloning");
    reveal_strlit("fetching");
    reveal_strlit("ready");
    reveal_strlit("failed");
    assert("cloning"@.len() == 7);
    assert("fetching"@.len() == 8);
    assert("ready"@.len() == 5);
    assert("failed"@.len() == 6);
}

/// The largest cache is listed first.
pub proof fn law_largest_is_listed_first(sizes: Seq<u64>, o: Seq<usize>, i: int, j: int)
    requires
        order::is_order(Seq::new(sizes.len(), |i: int| cache_key(sizes[i])), false, o),
        0 <= i < j < o.len(),
    ensures
        o.len() == sizes.len(),
        sizes[o[i] as int] >= sizes[o[j] as int],
{
    let keys = Seq::new(sizes.len(), |i: int| cache_key(sizes[i]));
    assert(order::precedes(keys, false, o[i] as int, o[j] as int));
}

proof fn lemma_state_found(s: Seq<RepoModel>, id: Seq<char>, i: int)
    requires
        0 <= i <= s.len(),
    ensures
        match state_of(s, id, i) {
            Some(k) => i <= k < s.len() && s[k].repo_id == id && forall|j: int|
                i <= j < k ==> (#[trigger] s[j]).repo_id != id,
            None => forall|j: int| i <= j < s.len() ==> (#[trigger] s[j]).repo_id != id,
        },
    decreases s.len() - i,
{
    if i < s.len() {
        lemma_state_found(s, id, i + 1);
    }
}

/// The state of a repository is the first that has its id; there is none only where none has
/// it. Work is under way while that state is neither ready nor failed.
pub proof fn law_state_is_found_by_its_id(s: Seq<RepoModel>, id: Seq<char>)
    ensures
        match state_of(s, id, 0) {
            Some(k) => {
                &&& 0 <= k < s.len() && s[k].repo_id == id
                &&& forall|j: int| 0 <= j < k ==> (#[trigger] s[j]).repo_id != id
                &&& in_flight(s, id) <==> s[k].phase != RepoPhase::Ready && s[k].phase
                    != RepoPhase::Failed
            },
            None => !in_flight(s, id) && forall|j: int|
                0 <= j < s.len() ==> (#[trigger] s[j]).repo_id != id,
        },
{
    lemma_state_found(s, id, 0);
}

} // verus!
