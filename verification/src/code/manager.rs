//! The repositories that are open, and their caches.

use crate::chars;
use crate::code::git;
use crate::code::pipeline;
use crate::code::pipeline::{ActionModel, PipelineAction, PipelineEvent, PipelineModel};
use crate::infra::pathname;
use crate::infra::pathname::{joined, Platform};
use crate::order;
use crate::order::{OrderKey, OrderKeyModel};
use crate::text;
use vstd::prelude::*;

verus! {

pub const CLONE_TIMEOUT_SECS: u64 = 1800;

pub const FETCH_TIMEOUT_SECS: u64 = 300;

pub const GIT_TIMEOUT_SECS: u64 = 120;

#[derive(Clone, Copy, Debug, PartialEq, Eq, Structural)]
pub enum RepoPhase {
    Cloning,
    Fetching,
    Ready,
    Failed,
}

pub open spec fn phase_name(p: RepoPhase) -> Seq<char> {
    match p {
        RepoPhase::Cloning => "cloning"@,
        RepoPhase::Fetching => "fetching"@,
        RepoPhase::Ready => "ready"@,
        RepoPhase::Failed => "failed"@,
    }
}

/// The work on a repository is over.
pub open spec fn terminal(p: RepoPhase) -> bool {
    p == RepoPhase::Ready || p == RepoPhase::Failed
}

impl RepoPhase {
    pub fn as_str(self) -> (r: &'static str)
        ensures
            r@ == phase_name(self),
    {
        match self {
            RepoPhase::Cloning => "cloning",
            RepoPhase::Fetching => "fetching",
            RepoPhase::Ready => "ready",
            RepoPhase::Failed => "failed",
        }
    }

    pub fn is_terminal(self) -> (r: bool)
        ensures
            r == terminal(self),
    {
        match self {
            RepoPhase::Ready => true,
            RepoPhase::Failed => true,
            _ => false,
        }
    }
}

/// How far the work on a repository at a ref has come.
#[derive(Debug)]
pub struct RepoState {
    pub repo_id: String,
    pub url_hash: String,
    pub repo_url: String,
    pub git_ref: String,
    pub phase: RepoPhase,
    pub progress: Option<String>,
    pub resolved_commit: Option<String>,
    /// The code may not be the latest.
    pub stale_warning: Option<String>,
    pub error_code: Option<String>,
    pub error: Option<String>,
    /// Where the files are, once there are any.
    pub worktree_path: Option<String>,
    pub created_at: String,
}

#[verifier::ext_equal]
pub struct RepoModel {
    pub repo_id: Seq<char>,
    pub url_hash: Seq<char>,
    pub repo_url: Seq<char>,
    pub git_ref: Seq<char>,
    pub phase: RepoPhase,
    pub progress: Option<Seq<char>>,
    pub resolved_commit: Option<Seq<char>>,
    pub stale_warning: Option<Seq<char>>,
    pub error_code: Option<Seq<char>>,
    pub error: Option<Seq<char>>,
    pub worktree_path: Option<Seq<char>>,
    pub created_at: Seq<char>,
}

impl View for RepoState {
    type V = RepoModel;

    open spec fn view(&self) -> RepoModel {
        RepoModel {
            repo_id: self.repo_id@,
            url_hash: self.url_hash@,
            repo_url: self.repo_url@,
            git_ref: self.git_ref@,
            phase: self.phase,
            progress: self.progress.deep_view(),
            resolved_commit: self.resolved_commit.deep_view(),
            stale_warning: self.stale_warning.deep_view(),
            error_code: self.error_code.deep_view(),
            error: self.error.deep_view(),
            worktree_path: self.worktree_path.deep_view(),
            created_at: self.created_at@,
        }
    }
}

impl Clone for RepoState {
    fn clone(&self) -> (r: Self)
        ensures
            r == *self,
    {
        RepoState {
            repo_id: self.repo_id.clone(),
            url_hash: self.url_hash.clone(),
            repo_url: self.repo_url.clone(),
            git_ref: self.git_ref.clone(),
            phase: self.phase,
            progress: text::clone_opt(&self.progress),
            resolved_commit: text::clone_opt(&self.resolved_commit),
            stale_warning: text::clone_opt(&self.stale_warning),
            error_code: text::clone_opt(&self.error_code),
            error: text::clone_opt(&self.error),
            worktree_path: text::clone_opt(&self.worktree_path),
            created_at: self.created_at.clone(),
        }
    }
}

pub open spec fn repo_models(s: Seq<RepoState>) -> Seq<RepoModel> {
    s.map_values(|r: RepoState| r@)
}

/// The first state, from `i` on, with this id.
pub open spec fn state_of(s: Seq<RepoModel>, id: Seq<char>, i: int) -> Option<int>
    decreases s.len() - i,
{
    if i < 0 || i >= s.len() {
        None
    } else if s[i].repo_id == id {
        Some(i)
    } else {
        state_of(s, id, i + 1)
    }
}

/// Some work on a repository with this name is not over.
pub open spec fn busy(s: Seq<RepoModel>, url_hash: Seq<char>) -> bool {
    exists|i: int|
        0 <= i < s.len() && (#[trigger] s[i]).url_hash == url_hash && !terminal(s[i].phase)
}

/// The state of a repository when the work on it begins.
pub open spec fn opened(
    repo_url: Seq<char>,
    git_ref: Seq<char>,
    worktree: Option<Seq<char>>,
    now: Seq<char>,
) -> RepoModel {
    RepoModel {
        repo_id: git::repo_key(repo_url, git_ref),
        url_hash: git::short_hash(repo_url),
        repo_url,
        git_ref,
        phase: RepoPhase::Cloning,
        progress: None,
        resolved_commit: None,
        stale_warning: None,
        error_code: None,
        error: None,
        worktree_path: worktree,
        created_at: now,
    }
}

/// Work on the repository is under way.
pub open spec fn in_flight(s: Seq<RepoModel>, id: Seq<char>) -> bool {
    state_of(s, id, 0) is Some && !terminal(s[state_of(s, id, 0)->0].phase)
}

/// The states once a repository was asked for: as they are where work is under way.
pub open spec fn after_open(s: Seq<RepoModel>, fresh: RepoModel) -> Seq<RepoModel> {
    match state_of(s, fresh.repo_id, 0) {
        Some(i) => if terminal(s[i].phase) {
            s.update(i, fresh)
        } else {
            s
        },
        None => s.push(fresh),
    }
}

/// The states with one of them changed.
pub open spec fn changed(
    s: Seq<RepoModel>,
    id: Seq<char>,
    f: spec_fn(RepoModel) -> RepoModel,
) -> Seq<RepoModel> {
    match state_of(s, id, 0) {
        Some(i) => s.update(i, f(s[i])),
        None => s,
    }
}

/// No two states have the same id.
pub open spec fn distinct(s: Seq<RepoModel>) -> bool {
    forall|i: int, j: int|
        0 <= i < j < s.len() ==> (#[trigger] s[i]).repo_id != (#[trigger] s[j]).repo_id
}

/// The repositories that are open.
#[derive(Debug)]
pub struct CodeRepoManager {
    pub repos_dir: String,
    pub platform: Platform,
    pub states: Vec<RepoState>,
}

/// What asking for a repository comes to.
#[derive(Debug)]
pub struct Opened {
    pub repo_id: String,
    /// The work on it has to be started.
    pub start: bool,
}

pub open spec fn root_of(dir: Seq<char>, p: Platform, url_hash: Seq<char>) -> Seq<char> {
    joined(dir, url_hash, p)
}

pub open spec fn clone_of(dir: Seq<char>, p: Platform, url_hash: Seq<char>) -> Seq<char> {
    joined(root_of(dir, p, url_hash), "clone"@, p)
}

pub open spec fn worktree_of(
    dir: Seq<char>,
    p: Platform,
    url_hash: Seq<char>,
    git_ref: Seq<char>,
) -> Seq<char> {
    joined(joined(root_of(dir, p, url_hash), "wt"@, p), git::short_hash(git_ref), p)
}

impl CodeRepoManager {
    pub open spec fn wf(&self) -> bool {
        distinct(repo_models(self.states@))
    }

    pub open spec fn all(&self) -> Seq<RepoModel> {
        repo_models(self.states@)
    }

    pub fn new(repos_dir: String, platform: Platform) -> (r: Self)
        ensures
            r.wf(),
            r.all() == Seq::<RepoModel>::empty(),
            r.repos_dir == repos_dir,
            r.platform == platform,
    {
        let r = CodeRepoManager { repos_dir, platform, states: Vec::new() };
        assert(r.all() =~= Seq::<RepoModel>::empty());
        r
    }

    pub fn repo_root(&self, url_hash: &str) -> (r: String)
        ensures
            r@ == root_of(self.repos_dir@, self.platform, url_hash@),
    {
        pathname::join(self.repos_dir.as_str(), url_hash, self.platform)
    }

    pub fn clone_dir(&self, url_hash: &str) -> (r: String)
        ensures
            r@ == clone_of(self.repos_dir@, self.platform, url_hash@),
    {
        pathname::join(self.repo_root(url_hash).as_str(), "clone", self.platform)
    }

    pub fn worktree_dir(&self, url_hash: &str, git_ref: &str) -> (r: String)
        ensures
            r@ == worktree_of(self.repos_dir@, self.platform, url_hash@, git_ref@),
    {
        let wt = pathname::join(self.repo_root(url_hash).as_str(), "wt", self.platform);
        pathname::join(wt.as_str(), git::ref_hash(git_ref).as_str(), self.platform)
    }

    fn find(&self, repo_id: &str) -> (r: Option<usize>)
        ensures
            match r {
                Some(i) => i < self.states@.len() && state_of(self.all(), repo_id@, 0) == Some(
                    i as int,
                ) && self.all()[i as int].repo_id == repo_id@,
                None => state_of(self.all(), repo_id@, 0) is None && forall|k: int|
                    0 <= k < self.all().len() ==> (#[trigger] self.all()[k]).repo_id != repo_id@,
            },
    {
        let ghost s = self.all();
        let mut i: usize = 0;
        while i < self.states.len()
            invariant
                i <= self.states@.len(),
                s == self.all(),
                state_of(s, repo_id@, 0) == state_of(s, repo_id@, i as int),
                forall|k: int| 0 <= k < i ==> (#[trigger] s[k]).repo_id != repo_id@,
            decreases self.states@.len() - i,
        {
            assert(s[i as int] == self.states@[i as int]@);
            if text::same(self.states[i].repo_id.as_str(), repo_id) {
                return Some(i);
            }
            i = i + 1;
        }
        None
    }

    /// Asks for a repository at a ref. Where work on it is under way nothing changes;
    /// else it begins anew, also where it was ready. `worktree_exists` tells whether there
    /// are files from an earlier time.
    pub fn open(&mut self, repo_url: &str, git_ref: &str, worktree_exists: bool, now: &str) -> (r:
        Opened)
        requires
            old(self).wf(),
        ensures
            final(self).wf(),
            final(self).repos_dir == old(self).repos_dir,
            final(self).platform == old(self).platform,
            r.repo_id@ == git::repo_key(repo_url@, git_ref@),
            r.start == !in_flight(old(self).all(), r.repo_id@),
            final(self).all() == after_open(
                old(self).all(),
                opened(
                    repo_url@,
                    git_ref@,
                    if worktree_exists {
                        Some(
                            worktree_of(
                                old(self).repos_dir@,
                                old(self).platform,
                                git::short_hash(repo_url@),
                                git_ref@,
                            ),
                        )
                    } else {
                        None
                    },
                    now@,
                ),
            ),
    {
        let ghost was = self.all();
        let id = git::repo_id(repo_url, git_ref);
        let url_hash = git::url_hash(repo_url);
        let worktree_path = if worktree_exists {
            Some(self.worktree_dir(url_hash.as_str(), git_ref))
        } else {
            None
        };
        let fresh = RepoState {
            repo_id: id.clone(),
            url_hash,
            repo_url: text::owned(repo_url),
            git_ref: text::owned(git_ref),
            phase: RepoPhase::Cloning,
            progress: None,
            resolved_commit: None,
            stale_warning: None,
            error_code: None,
            error: None,
            worktree_path,
            created_at: text::owned(now),
        };
        let ghost m = fresh@;
        match self.find(id.as_str()) {
            Some(i) => {
                assert(was[i as int] == self.states@[i as int]@);
                if !self.states[i].phase.is_terminal() {
                    return Opened { repo_id: id, start: false };
                }
                self.states.set(i, fresh);
                assert(self.all() =~= was.update(i as int, m));
            },
            None => {
                self.states.push(fresh);
                assert(self.all() =~= was.push(m));
            },
        }
        assert(m =~= opened(
            repo_url@,
            git_ref@,
            m.worktree_path,
            now@,
        ));
        Opened { repo_id: id, start: true }
    }

    /// How far the work on a repository has come.
    pub fn status(&self, repo_id: &str) -> (r: Option<&RepoState>)
        ensures
            match state_of(self.all(), repo_id@, 0) {
                Some(i) => r is Some && r->0@ == self.all()[i],
                None => r is None,
            },
    {
        match self.find(repo_id) {
            Some(i) => {
                assert(self.all()[i as int] == self.states@[i as int]@);
                Some(&self.states[i])
            },
            None => None,
        }
    }

    /// Where the files of a repository are. They can be read while it is refreshed.
    /// `present` tells whether they are still there.
    pub fn worktree(&self, repo_id: &str, present: bool) -> (r: Result<String, String>)
        ensures
            match state_of(self.all(), repo_id@, 0) {
                None => r is Err && r->Err_0@ == "repo_not_found"@,
                Some(i) => match self.all()[i].worktree_path {
                    Some(p) if present => r is Ok && r->Ok_0@ == p,
                    _ => r is Err && r->Err_0@ == "repo_not_ready: "@ + phase_name(
                        self.all()[i].phase,
                    ),
                },
            },
    {
        match self.find(repo_id) {
            None => Err(text::owned("repo_not_found")),
            Some(i) => {
                assert(self.all()[i as int] == self.states@[i as int]@);
                match &self.states[i].worktree_path {
                    Some(p) if present => Ok(p.clone()),
                    _ => {
                        let mut m = text::owned("repo_not_ready: ");
                        m.append(self.states[i].phase.as_str());
                        Err(m)
                    },
                }
            },
        }
    }

    /// Whether work on a repository with this name is under way.
    pub fn url_busy(&self, url_hash: &str) -> (r: bool)
        ensures
            r == busy(self.all(), url_hash@),
    {
        let ghost s = self.all();
        let mut i: usize = 0;
        while i < self.states.len()
            invariant
                i <= self.states@.len(),
                s == self.all(),
                forall|k: int|
                    0 <= k < i ==> !((#[trigger] s[k]).url_hash == url_hash@ && !terminal(
                        s[k].phase,
                    )),
            decreases self.states@.len() - i,
        {
            assert(s[i as int] == self.states@[i as int]@);
            if text::same(self.states[i].url_hash.as_str(), url_hash)
                && !self.states[i].phase.is_terminal() {
                return true;
            }
            i = i + 1;
        }
        false
    }

    /// Forgets all states of a repository, unless work on it is under way.
    pub fn take_url_states_if_idle(&mut self, url_hash: &str) -> (r: Result<(), String>)
        requires
            old(self).wf(),
        ensures
            final(self).wf(),
            final(self).repos_dir == old(self).repos_dir,
            final(self).platform == old(self).platform,
            if busy(old(self).all(), url_hash@) {
                &&& r is Err
                &&& r->Err_0@ == "repo busy (cloning/fetching in progress); retry later"@
                &&& final(self).all() == old(self).all()
            } else {
                &&& r is Ok
                &&& final(self).all() == old(self).all().filter(
                    |m: RepoModel| m.url_hash != url_hash@,
                )
            },
    {
        let ghost s = self.all();
        if self.url_busy(url_hash) {
            return Err(text::owned("repo busy (cloning/fetching in progress); retry later"));
        }
        let ghost keep = |m: RepoModel| m.url_hash != url_hash@;
        let mut kept: Vec<RepoState> = Vec::new();
        let mut i: usize = 0;
        proof {
            reveal(Seq::filter);
            assert(s.take(0) =~= Seq::<RepoModel>::empty());
            assert(repo_models(kept@) =~= s.take(0).filter(keep));
        }
        while i < self.states.len()
            invariant
                i <= self.states@.len(),
                s == self.all(),
                keep == |m: RepoModel| m.url_hash != url_hash@,
                repo_models(kept@) == s.take(i as int).filter(keep),
            decreases self.states@.len() - i,
        {
            assert(s[i as int] == self.states@[i as int]@);
            let ghost before = repo_models(kept@);
            proof {
                assert(s.take(i + 1) =~= s.take(i as int).push(s[i as int]));
                s.take(i as int).lemma_filter_push(s[i as int], keep);
            }
            if !text::same(self.states[i].url_hash.as_str(), url_hash) {
                kept.push(self.states[i].clone());
                assert(repo_models(kept@) =~= before.push(s[i as int]));
            }
            i = i + 1;
        }
        proof {
            assert(s.take(i as int) =~= s);
            lemma_filter_distinct(s, keep);
        }
        self.states = kept;
        Ok(())
    }

    /// Begins to delete the cache of a repository: checks its name, which becomes part of
    /// a path, and that no work on it is under way; then hands out the directory to remove.
    pub fn delete_cache(&mut self, url_hash: &str) -> (r: Result<String, String>)
        requires
            old(self).wf(),
        ensures
            final(self).wf(),
            final(self).repos_dir == old(self).repos_dir,
            final(self).platform == old(self).platform,
            if !git::is_cache_name(url_hash@) {
                &&& r is Err
                &&& r->Err_0@ == "invalid url_hash: "@ + url_hash@
                &&& final(self).all() == old(self).all()
            } else if busy(old(self).all(), url_hash@) {
                &&& r is Err
                &&& r->Err_0@ == "repo busy (cloning/fetching in progress); retry later"@
                &&& final(self).all() == old(self).all()
            } else {
                &&& r is Ok
                &&& r->Ok_0@ == root_of(old(self).repos_dir@, old(self).platform, url_hash@)
                &&& final(self).all() == old(self).all().filter(
                    |m: RepoModel| m.url_hash != url_hash@,
                )
            },
    {
        if url_hash.unicode_len() != 16 || !text::all_hex(url_hash) {
            let mut m = text::owned("invalid url_hash: ");
            m.append(url_hash);
            return Err(m);
        }
        match self.take_url_states_if_idle(url_hash) {
            Err(e) => Err(e),
            Ok(()) => Ok(self.repo_root(url_hash)),
        }
    }

    /// The work on a repository enters another phase.
    pub fn set_phase(&mut self, repo_id: &str, phase: RepoPhase)
        requires
            old(self).wf(),
        ensures
            final(self).wf(),
            final(self).repos_dir == old(self).repos_dir,
            final(self).platform == old(self).platform,
            final(self).all() == changed(
                old(self).all(),
                repo_id@,
                |m: RepoModel| RepoModel { phase, progress: None, ..m },
            ),
    {
        let ghost s = self.all();
        match self.find(repo_id) {
            Some(i) => {
                let ghost now = self.states@;
                let mut st = self.states[i].clone();
                st.phase = phase;
                st.progress = None;
                let ghost m = st@;
                self.states.set(i, st);
                assert(self.all() =~= s.update(i as int, m));
                assert(m =~= RepoModel { phase, progress: None, ..s[i as int] });
            },
            None => {},
        }
    }

    /// Notes how far the present phase has come.
    pub fn set_progress(&mut self, repo_id: &str, progress: String)
        requires
            old(self).wf(),
        ensures
            final(self).wf(),
            final(self).repos_dir == old(self).repos_dir,
            final(self).platform == old(self).platform,
            final(self).all() == changed(
                old(self).all(),
                repo_id@,
                |m: RepoModel| RepoModel { progress: Some(progress@), ..m },
            ),
    {
        let ghost s = self.all();
        match self.find(repo_id) {
            Some(i) => {
                let mut st = self.states[i].clone();
                st.progress = Some(progress);
                let ghost m = st@;
                self.states.set(i, st);
                assert(self.all() =~= s.update(i as int, m));
                assert(m =~= RepoModel { progress: Some(progress@), ..s[i as int] });
            },
            None => {},
        }
    }

    /// The work on a repository has failed.
    pub fn fail(&mut self, repo_id: &str, error_code: &str, error: String)
        requires
            old(self).wf(),
        ensures
            final(self).wf(),
            final(self).repos_dir == old(self).repos_dir,
            final(self).platform == old(self).platform,
            final(self).all() == changed(
                old(self).all(),
                repo_id@,
                |m: RepoModel|
                    RepoModel {
                        phase: RepoPhase::Failed,
                        error_code: Some(error_code@),
                        error: Some(error@),
                        progress: None,
                        ..m
                    },
            ),
    {
        let ghost s = self.all();
        match self.find(repo_id) {
            Some(i) => {
                let mut st = self.states[i].clone();
                st.phase = RepoPhase::Failed;
                st.error_code = Some(text::owned(error_code));
                st.error = Some(error);
                st.progress = None;
                let ghost m = st@;
                self.states.set(i, st);
                assert(self.all() =~= s.update(i as int, m));
                assert(m =~= RepoModel {
                    phase: RepoPhase::Failed,
                    error_code: Some(error_code@),
                    error: Some(error@),
                    progress: None,
                    ..s[i as int]
                });
            },
            None => {},
        }
    }

    /// The files of a repository are ready.
    pub fn set_ready(
        &mut self,
        repo_id: &str,
        resolved_commit: String,
        worktree: String,
        stale_warning: Option<String>,
    )
        requires
            old(self).wf(),
        ensures
            final(self).wf(),
            final(self).repos_dir == old(self).repos_dir,
            final(self).platform == old(self).platform,
            final(self).all() == changed(
                old(self).all(),
                repo_id@,
                |m: RepoModel|
                    RepoModel {
                        phase: RepoPhase::Ready,
                        resolved_commit: Some(resolved_commit@),
                        worktree_path: Some(worktree@),
                        stale_warning: stale_warning.deep_view(),
                        progress: None,
                        error_code: None,
                        error: None,
                        ..m
                    },
            ),
    {
        let ghost s = self.all();
        match self.find(repo_id) {
            Some(i) => {
                let mut st = self.states[i].clone();
                st.phase = RepoPhase::Ready;
                st.resolved_commit = Some(resolved_commit);
                st.worktree_path = Some(worktree);
                st.stale_warning = stale_warning;
                st.progress = None;
                st.error_code = None;
                st.error = None;
                let ghost m = st@;
                self.states.set(i, st);
                assert(self.all() =~= s.update(i as int, m));
                assert(m =~= RepoModel {
                    phase: RepoPhase::Ready,
                    resolved_commit: Some(resolved_commit@),
                    worktree_path: Some(worktree@),
                    stale_warning: stale_warning.deep_view(),
                    progress: None,
                    error_code: None,
                    error: None,
                    ..s[i as int]
                });
            },
            None => {},
        }
    }
}

/// What a step of the work on a repository changes in its state; `worktree` is where its
/// files are put.
pub open spec fn noted(m: RepoModel, a: ActionModel, worktree: Seq<char>) -> RepoModel {
    match a {
        ActionModel::RunClone => RepoModel { phase: RepoPhase::Cloning, progress: None, ..m },
        ActionModel::RunFetch => RepoModel { phase: RepoPhase::Fetching, progress: None, ..m },
        ActionModel::Fail { code, error } => RepoModel {
            phase: RepoPhase::Failed,
            error_code: Some(code),
            error: Some(error),
            progress: None,
            ..m
        },
        ActionModel::Finish { commit, stale_warning } => RepoModel {
            phase: RepoPhase::Ready,
            resolved_commit: Some(commit),
            worktree_path: Some(worktree),
            stale_warning,
            progress: None,
            error_code: None,
            error: None,
            ..m
        },
        _ => m,
    }
}

impl CodeRepoManager {
    /// Notes the next step of the work on a repository.
    pub fn record(&mut self, repo_id: &str, action: &PipelineAction, worktree: &str)
        requires
            old(self).wf(),
        ensures
            final(self).wf(),
            final(self).repos_dir == old(self).repos_dir,
            final(self).platform == old(self).platform,
            final(self).all() == changed(
                old(self).all(),
                repo_id@,
                |m: RepoModel| noted(m, action@, worktree@),
            ),
    {
        let ghost s = self.all();
        match action {
            PipelineAction::RunClone => self.set_phase(repo_id, RepoPhase::Cloning),
            PipelineAction::RunFetch => self.set_phase(repo_id, RepoPhase::Fetching),
            PipelineAction::Fail { code, error } => {
                self.fail(repo_id, code, text::owned(error.as_str()))
            },
            PipelineAction::Finish { commit, stale_warning } => self.set_ready(
                repo_id,
                text::owned(commit.as_str()),
                text::owned(worktree),
                text::clone_opt(stale_warning),
            ),
            _ => {},
        }
        proof {
            lemma_state_of_in_range(s, repo_id@, 0);
        }
        assert(self.all() =~= changed(
            s,
            repo_id@,
            |m: RepoModel| noted(m, action@, worktree@),
        ));
    }
}

proof fn lemma_state_of_in_range(s: Seq<RepoModel>, id: Seq<char>, i: int)
    ensures
        state_of(s, id, i) matches Some(k) ==> 0 <= k < s.len(),
    decreases s.len() - i,
{
    if 0 <= i < s.len() && s[i].repo_id != id {
        lemma_state_of_in_range(s, id, i + 1);
    }
}

/// While the work on a repository goes on its state says so, and the step that ends the work
/// leaves the state ready, with the commit and without an error, or failed, with the error.
pub proof fn law_state_tells_how_the_work_ended(m: RepoModel, p: PipelineModel, e: PipelineEvent)
    requires
        !(p.stage is Over),
        !terminal(m.phase),
    ensures
        ({
            let (q, a) = pipeline::next(p, e);
            let n = noted(m, a, p.worktree);
            &&& terminal(n.phase) == q.stage is Over
            &&& n.phase == RepoPhase::Ready ==> {
                &&& a is Finish
                &&& n.resolved_commit == Some(a->commit)
                &&& n.worktree_path == Some(p.worktree)
                &&& n.stale_warning == p.stale_warning
                &&& n.error is None
                &&& n.error_code is None
            }
            &&& n.phase == RepoPhase::Failed ==> {
                &&& a is Fail
                &&& n.error_code == Some(a->code)
                &&& n.error == Some(a->error)
            }
            &&& n.repo_id == m.repo_id
        }),
{
}

proof fn lemma_filter_distinct(s: Seq<RepoModel>, keep: spec_fn(RepoModel) -> bool)
    requires
        distinct(s),
    ensures
        distinct(s.filter(keep)),
    decreases s.len(),
{
    reveal(Seq::filter);
    if s.len() > 0 {
        let front = s.drop_last();
        lemma_filter_distinct(front, keep);
        let f = front.filter(keep);
        assert forall|i: int| 0 <= i < f.len() implies (#[trigger] f[i]).repo_id
            != s.last().repo_id by {
            front.lemma_filter_contains_rev(keep, f[i]);
            let k = choose|k: int| 0 <= k < front.len() && front[k] == f[i];
            assert(s[k].repo_id != s[s.len() - 1].repo_id);
        }
    }
}

/// One cached repository.
#[derive(Debug)]
pub struct RepoCacheEntry {
    pub url_hash: String,
    pub repo_url: String,
    pub disk_bytes: u64,
    pub worktrees: usize,
}

pub open spec fn cache_key(disk_bytes: u64) -> OrderKeyModel {
    OrderKeyModel { rank: (u64::MAX - disk_bytes) as u64, text: Seq::empty() }
}

/// The cached repositories, by their numbers, the largest first.
pub fn list_cache(entries: &Vec<RepoCacheEntry>) -> (r: Vec<usize>)
    ensures
        order::is_order(
            Seq::new(entries@.len(), |i: int| cache_key(entries@[i].disk_bytes)),
            false,
            r@,
        ),
{
    let mut keys: Vec<OrderKey> = Vec::new();
    let mut i: usize = 0;
    while i < entries.len()
        invariant
            i <= entries@.len(),
            keys@.len() == i,
            forall|k: int| 0 <= k < i ==> (#[trigger] keys@[k])@ == cache_key(entries@[k].disk_bytes),
        decreases entries@.len() - i,
    {
        let key = OrderKey { rank: u64::MAX - entries[i].disk_bytes, text: String::new() };
        assert(key@ =~= cache_key(entries@[i as int].disk_bytes));
        keys.push(key);
        i = i + 1;
    }
    assert(order::key_models(keys@) =~= Seq::new(
        entries@.len(),
        |i: int| cache_key(entries@[i].disk_bytes),
    ));
    order::order(&keys, false)
}

/// The address of a cached repository: what its note says, or a stand-in.
pub fn cached_url(url_hash: &str, note: Option<&str>) -> (r: String)
    ensures
        r@ == (match note {
            Some(n) => chars::trim(n@),
            None => "<unknown "@ + url_hash@ + ">"@,
        }),
{
    match note {
        Some(n) => text::owned(text::trim(n)),
        None => {
            let mut m = text::owned("<unknown ");
            m.append(url_hash);
            m.append(">");
            m
        },
    }
}

/// While work on a repository at a ref is under way, asking for it again changes nothing.
pub proof fn law_open_is_idempotent_in_flight(
    s: Seq<RepoModel>,
    repo_url: Seq<char>,
    git_ref: Seq<char>,
    worktree: Option<Seq<char>>,
    now: Seq<char>,
)
    requires
        in_flight(s, git::repo_key(repo_url, git_ref)),
    ensures
        after_open(s, opened(repo_url, git_ref, worktree, now)) == s,
{
}

/// A cache whose repository has no work under way has no state left once it is deleted,
/// and the states of all other repositories are as they were.
pub proof fn law_delete_forgets_only_its_own(s: Seq<RepoModel>, url_hash: Seq<char>)
    ensures
        ({
            let left = s.filter(|m: RepoModel| m.url_hash != url_hash);
            &&& forall|i: int| 0 <= i < left.len() ==> (#[trigger] left[i]).url_hash != url_hash
            &&& forall|i: int|
                0 <= i < s.len() && (#[trigger] s[i]).url_hash != url_hash ==> left.contains(s[i])
        }),
{
    let keep = |m: RepoModel| m.url_hash != url_hash;
    let left = s.filter(keep);
    assert forall|i: int| 0 <= i < left.len() implies (#[trigger] left[i]).url_hash != url_hash by {
        s.lemma_filter_pred(keep, i);
        assert(keep(left[i]));
    }
    assert forall|i: int| 0 <= i < s.len() && (#[trigger] s[i]).url_hash != url_hash implies
        left.contains(s[i]) by {
        assert(keep(s[i]));
        s.lemma_filter_contains(keep, i);
    }
}

} // verus!
