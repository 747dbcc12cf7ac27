//! Bringing the files of a repository at a ref to the local machine, step by step.

use crate::chars;
use crate::code::git;
use crate::code::git::{GitCommand, GitCommandModel, GitResult};
use crate::outside;
use crate::text;
use vstd::prelude::*;

verus! {

/// The full id of a commit: 40 hexadecimal digits.
pub open spec fn is_full_sha(s: Seq<char>) -> bool {
    s.len() == 40 && chars::all_hex(s)
}

/// A repository is refreshed unless it was cloned just now, or the ref is the id of a
/// commit, which never changes.
pub open spec fn fetches(git_ref: Seq<char>, cloned_now: bool) -> bool {
    !cloned_now && !is_full_sha(git_ref)
}

pub fn should_fetch(git_ref: &str, cloned_now: bool) -> (r: bool)
    ensures
        r == fetches(git_ref@, cloned_now),
{
    if cloned_now {
        return false;
    }
    let full = git_ref.unicode_len() == 40 && text::all_hex(git_ref);
    !full
}

/// What the work waits for.
#[derive(Debug)]
pub enum Stage {
    /// Whether there is a clone.
    FindClone,
    Clone,
    Fetch,
    /// The commit that the ref stands for.
    Resolve,
    /// Whether there are files from an earlier time.
    FindWorktree { sha: String },
    Checkout { sha: String },
    /// The files being put there anew.
    Add { sha: String },
    Over,
}

pub enum StageModel {
    FindClone,
    Clone,
    Fetch,
    Resolve,
    FindWorktree { sha: Seq<char> },
    Checkout { sha: Seq<char> },
    Add { sha: Seq<char> },
    Over,
}

impl View for Stage {
    type V = StageModel;

    open spec fn view(&self) -> StageModel {
        match self {
            Stage::FindClone => StageModel::FindClone,
            Stage::Clone => StageModel::Clone,
            Stage::Fetch => StageModel::Fetch,
            Stage::Resolve => StageModel::Resolve,
            Stage::FindWorktree { sha } => StageModel::FindWorktree { sha: sha@ },
            Stage::Checkout { sha } => StageModel::Checkout { sha: sha@ },
            Stage::Add { sha } => StageModel::Add { sha: sha@ },
            Stage::Over => StageModel::Over,
        }
    }
}

/// The work on a repository at a ref.
#[derive(Debug)]
pub struct Pipeline {
    pub git_ref: String,
    pub worktree: String,
    pub cloned_now: bool,
    pub fetch_error: Option<String>,
    pub stale_warning: Option<String>,
    pub stage: Stage,
}

#[verifier::ext_equal]
pub struct PipelineModel {
    pub git_ref: Seq<char>,
    pub worktree: Seq<char>,
    pub cloned_now: bool,
    pub fetch_error: Option<Seq<char>>,
    pub stale_warning: Option<Seq<char>>,
    pub stage: StageModel,
}

impl View for Pipeline {
    type V = PipelineModel;

    open spec fn view(&self) -> PipelineModel {
        PipelineModel {
            git_ref: self.git_ref@,
            worktree: self.worktree@,
            cloned_now: self.cloned_now,
            fetch_error: self.fetch_error.deep_view(),
            stale_warning: self.stale_warning.deep_view(),
            stage: self.stage@,
        }
    }
}

/// What was found out or done.
#[derive(Debug)]
pub enum PipelineEvent {
    /// Something that was looked for is there, or not.
    Found(bool),
    /// A run of git came to this.
    Git(GitResult),
    /// The commit that the ref stands for, if any.
    Commit(Option<String>),
}

/// What to do next.
#[derive(Debug)]
pub enum PipelineAction {
    /// Clone the repository; the phase is cloning.
    RunClone,
    /// Refresh the clone; the phase is fetching.
    RunFetch,
    /// Ask git for the commit of the ref.
    ResolveRef,
    /// See whether there are files from an earlier time.
    LookForWorktree,
    /// Bring the files to the commit.
    Checkout { sha: String },
    /// Put the files there; with `remove_first`, after removing what is there.
    AddWorktree { sha: String, remove_first: bool },
    /// The work has failed.
    Fail { code: &'static str, error: String },
    /// The files are ready.
    Finish { commit: String, stale_warning: Option<String> },
    /// The event did not belong here.
    Ignore,
}

pub enum ActionModel {
    RunClone,
    RunFetch,
    ResolveRef,
    LookForWorktree,
    Checkout { sha: Seq<char> },
    AddWorktree { sha: Seq<char>, remove_first: bool },
    Fail { code: Seq<char>, error: Seq<char> },
    Finish { commit: Seq<char>, stale_warning: Option<Seq<char>> },
    Ignore,
}

impl View for PipelineAction {
    type V = ActionModel;

    open spec fn view(&self) -> ActionModel {
        match self {
            PipelineAction::RunClone => ActionModel::RunClone,
            PipelineAction::RunFetch => ActionModel::RunFetch,
            PipelineAction::ResolveRef => ActionModel::ResolveRef,
            PipelineAction::LookForWorktree => ActionModel::LookForWorktree,
            PipelineAction::Checkout { sha } => ActionModel::Checkout { sha: sha@ },
            PipelineAction::AddWorktree { sha, remove_first } => ActionModel::AddWorktree {
                sha: sha@,
                remove_first: *remove_first,
            },
            PipelineAction::Fail { code, error } => ActionModel::Fail {
                code: code@,
                error: error@,
            },
            PipelineAction::Finish { commit, stale_warning } => ActionModel::Finish {
                commit: commit@,
                stale_warning: stale_warning.deep_view(),
            },
            PipelineAction::Ignore => ActionModel::Ignore,
        }
    }
}

/// The last line of an error; a stand-in where there is none.
pub open spec fn last_line(error: Seq<char>) -> Seq<char> {
    let ls = chars::lines(error);
    if ls.len() == 0 {
        "network error"@
    } else {
        ls.last()
    }
}

pub open spec fn stale_note(error: Seq<char>) -> Seq<char> {
    "fetch failed ("@ + last_line(error) + "); using locally cached code which may be stale"@
}

/// The remote said that it does not have the ref; `lowered` is what it said, in lower case.
pub open spec fn absent_on_remote(lowered: Seq<char>) -> bool {
    chars::contains(lowered, "couldn't find remote ref"@)
}

pub fn is_absent_on_remote(lowered: &str) -> (r: bool)
    ensures
        r == absent_on_remote(lowered@),
{
    text::contains(lowered, "couldn't find remote ref")
}

/// The refresh failed for another reason than that the remote does not have the ref.
pub open spec fn unreachable_remote(fetch_error: Option<Seq<char>>) -> bool {
    fetch_error is Some && !absent_on_remote(outside::lowercase(fetch_error->0))
}

pub open spec fn unresolved_code(fetch_error: Option<Seq<char>>) -> Seq<char> {
    if unreachable_remote(fetch_error) {
        "fetch_failed"@
    } else {
        "invalid_ref"@
    }
}

pub open spec fn unresolved_error(git_ref: Seq<char>, fetch_error: Option<Seq<char>>) -> Seq<char> {
    let detail = if unreachable_remote(fetch_error) {
        "fetch error: "@ + fetch_error->0
    } else {
        "absent on remote"@
    };
    "ref '"@ + git_ref + "' not found ("@ + detail
        + "); confirm branch/tag/commitid with the user, or check network/credentials"@
}

/// Behind the clone: refresh it or go on to the commit.
pub open spec fn with_clone(p: PipelineModel, cloned_now: bool) -> (PipelineModel, ActionModel) {
    if fetches(p.git_ref, cloned_now) {
        (PipelineModel { cloned_now, stage: StageModel::Fetch, ..p }, ActionModel::RunFetch)
    } else {
        (PipelineModel { cloned_now, stage: StageModel::Resolve, ..p }, ActionModel::ResolveRef)
    }
}

pub open spec fn failed(p: PipelineModel, code: Seq<char>, error: Seq<char>) -> (
    PipelineModel,
    ActionModel,
) {
    (PipelineModel { stage: StageModel::Over, ..p }, ActionModel::Fail { code, error })
}

pub open spec fn finished(p: PipelineModel, sha: Seq<char>) -> (PipelineModel, ActionModel) {
    (
        PipelineModel { stage: StageModel::Over, ..p },
        ActionModel::Finish { commit: sha, stale_warning: p.stale_warning },
    )
}

/// The next state of the work and what to do in it.
pub open spec fn next(p: PipelineModel, e: PipelineEvent) -> (PipelineModel, ActionModel) {
    match (p.stage, e) {
        (StageModel::FindClone, PipelineEvent::Found(there)) => if there {
            with_clone(p, false)
        } else {
            (PipelineModel { stage: StageModel::Clone, ..p }, ActionModel::RunClone)
        },
        (StageModel::Clone, PipelineEvent::Git(g)) => if g.success {
            with_clone(p, true)
        } else {
            failed(p, "clone_failed"@, chars::trim(g.stderr@))
        },
        (StageModel::Fetch, PipelineEvent::Git(g)) => if g.success {
            (PipelineModel { stage: StageModel::Resolve, ..p }, ActionModel::ResolveRef)
        } else {
            (
                PipelineModel {
                    stage: StageModel::Resolve,
                    fetch_error: Some(chars::trim(g.stderr@)),
                    stale_warning: Some(stale_note(chars::trim(g.stderr@))),
                    ..p
                },
                ActionModel::ResolveRef,
            )
        },
        (StageModel::Resolve, PipelineEvent::Commit(c)) => match c {
            Some(sha) => (
                PipelineModel { stage: StageModel::FindWorktree { sha: sha@ }, ..p },
                ActionModel::LookForWorktree,
            ),
            None => failed(
                p,
                unresolved_code(p.fetch_error),
                unresolved_error(p.git_ref, p.fetch_error),
            ),
        },
        (StageModel::FindWorktree { sha }, PipelineEvent::Found(there)) => if there {
            (
                PipelineModel { stage: StageModel::Checkout { sha }, ..p },
                ActionModel::Checkout { sha },
            )
        } else {
            (
                PipelineModel { stage: StageModel::Add { sha }, ..p },
                ActionModel::AddWorktree { sha, remove_first: false },
            )
        },
        (StageModel::Checkout { sha }, PipelineEvent::Git(g)) => if g.success {
            finished(p, sha)
        } else {
            (
                PipelineModel { stage: StageModel::Add { sha }, ..p },
                ActionModel::AddWorktree { sha, remove_first: true },
            )
        },
        (StageModel::Add { sha }, PipelineEvent::Git(g)) => if g.success {
            finished(p, sha)
        } else {
            failed(p, "worktree_failed"@, "failed to prepare worktree at "@ + p.worktree)
        },
        _ => (p, ActionModel::Ignore),
    }
}

pub open spec fn started(git_ref: Seq<char>, worktree: Seq<char>) -> PipelineModel {
    PipelineModel {
        git_ref,
        worktree,
        cloned_now: false,
        fetch_error: None,
        stale_warning: None,
        stage: StageModel::FindClone,
    }
}

fn last_line_of(error: &str) -> (r: String)
    ensures
        r@ == last_line(error@),
{
    let ls = text::lines(error);
    let n: usize = ls.len();
    if n == 0 {
        text::owned("network error")
    } else {
        assert(ls.deep_view()[n - 1] == ls@[n - 1]@);
        ls[n - 1].clone()
    }
}

impl Pipeline {
    /// The work begins: the first thing to find out is whether there is a clone.
    pub fn start(git_ref: &str, worktree: &str) -> (r: Self)
        ensures
            r@ == started(git_ref@, worktree@),
    {
        Pipeline {
            git_ref: text::owned(git_ref),
            worktree: text::owned(worktree),
            cloned_now: false,
            fetch_error: None,
            stale_warning: None,
            stage: Stage::FindClone,
        }
    }

    fn go_on_with_clone(&mut self, cloned_now: bool) -> (r: PipelineAction)
        ensures
            (final(self)@, r@) == with_clone(old(self)@, cloned_now),
    {
        self.cloned_now = cloned_now;
        if should_fetch(self.git_ref.as_str(), cloned_now) {
            self.stage = Stage::Fetch;
            PipelineAction::RunFetch
        } else {
            self.stage = Stage::Resolve;
            PipelineAction::ResolveRef
        }
    }

    fn unresolved(&self) -> (r: (bool, String))
        ensures
            r.0 == unreachable_remote(self@.fetch_error),
            r.1@ == unresolved_error(self@.git_ref, self@.fetch_error),
    {
        let mut detail = text::owned("absent on remote");
        let mut unreachable = false;
        match &self.fetch_error {
            Some(e) => {
                let lowered = outside::to_lowercase(e.as_str());
                if !is_absent_on_remote(lowered.as_str()) {
                    unreachable = true;
                    detail = text::owned("fetch error: ");
                    detail.append(e.as_str());
                }
            },
            None => {},
        }
        let mut m = text::owned("ref '");
        m.append(self.git_ref.as_str());
        m.append("' not found (");
        m.append(detail.as_str());
        m.append("); confirm branch/tag/commitid with the user, or check network/credentials");
        (unreachable, m)
    }

    /// Takes in what was found out or done, and tells what to do next.
    pub fn step(&mut self, event: PipelineEvent) -> (r: PipelineAction)
        ensures
            (final(self)@, r@) == next(old(self)@, event),
    {
        let ghost was = self@;
        let mut stage = Stage::Over;
        core::mem::swap(&mut stage, &mut self.stage);
        match (stage, event) {
            (Stage::FindClone, PipelineEvent::Found(there)) => {
                if there {
                    self.stage = Stage::FindClone;
                    self.go_on_with_clone(false)
                } else {
                    self.stage = Stage::Clone;
                    PipelineAction::RunClone
                }
            },
            (Stage::Clone, PipelineEvent::Git(g)) => {
                if g.success {
                    self.stage = Stage::Clone;
                    self.go_on_with_clone(true)
                } else {
                    PipelineAction::Fail {
                        code: "clone_failed",
                        error: text::owned(text::trim(g.stderr.as_str())),
                    }
                }
            },
            (Stage::Fetch, PipelineEvent::Git(g)) => {
                if !g.success {
                    let e = text::trim(g.stderr.as_str());
                    let mut note = text::owned("fetch failed (");
                    note.append(last_line_of(e).as_str());
                    note.append("); using locally cached code which may be stale");
                    self.fetch_error = Some(text::owned(e));
                    self.stale_warning = Some(note);
                }
                self.stage = Stage::Resolve;
                PipelineAction::ResolveRef
            },
            (Stage::Resolve, PipelineEvent::Commit(c)) => match c {
                Some(sha) => {
                    self.stage = Stage::FindWorktree { sha };
                    PipelineAction::LookForWorktree
                },
                None => {
                    let (unreachable, error) = self.unresolved();
                    PipelineAction::Fail {
                        code: if unreachable {
                            "fetch_failed"
                        } else {
                            "invalid_ref"
                        },
                        error,
                    }
                },
            },
            (Stage::FindWorktree { sha }, PipelineEvent::Found(there)) => {
                if there {
                    self.stage = Stage::Checkout { sha: sha.clone() };
                    PipelineAction::Checkout { sha }
                } else {
                    self.stage = Stage::Add { sha: sha.clone() };
                    PipelineAction::AddWorktree { sha, remove_first: false }
                }
            },
            (Stage::Checkout { sha }, PipelineEvent::Git(g)) => {
                if g.success {
                    PipelineAction::Finish {
                        commit: sha,
                        stale_warning: text::clone_opt(&self.stale_warning),
                    }
                } else {
                    self.stage = Stage::Add { sha: sha.clone() };
                    PipelineAction::AddWorktree { sha, remove_first: true }
                }
            },
            (Stage::Add { sha }, PipelineEvent::Git(g)) => {
                if g.success {
                    PipelineAction::Finish {
                        commit: sha,
                        stale_warning: text::clone_opt(&self.stale_warning),
                    }
                } else {
                    let mut m = text::owned("failed to prepare worktree at ");
                    m.append(self.worktree.as_str());
                    PipelineAction::Fail { code: "worktree_failed", error: m }
                }
            },
            (stage, _) => {
                self.stage = stage;
                assert(self@ =~= was);
                PipelineAction::Ignore
            },
        }
    }
}

pub open spec fn command_models(s: Seq<GitCommand>) -> Seq<GitCommandModel> {
    s.map_values(|c: GitCommand| c@)
}

/// The commands of git that an action asks for, in their order. Of those that resolve a ref
/// the first that succeeds is the last to be run; of the others each is run, and the last
/// one decides.
pub open spec fn commands(
    p: PipelineModel,
    a: ActionModel,
    url: Seq<char>,
    clone_dir: Seq<char>,
) -> Seq<GitCommandModel> {
    match a {
        ActionModel::RunClone => seq![GitCommandModel::Clone { url, clone_dir }],
        ActionModel::RunFetch => seq![GitCommandModel::Fetch { clone_dir, git_ref: p.git_ref }],
        ActionModel::ResolveRef => git::ref_names(p.git_ref).map_values(
            |name: Seq<char>| GitCommandModel::Resolve { clone_dir, name },
        ),
        ActionModel::Checkout { sha } => seq![
            GitCommandModel::Checkout { worktree: p.worktree, sha },
        ],
        ActionModel::AddWorktree { sha, .. } => seq![
            GitCommandModel::Prune { clone_dir },
            GitCommandModel::Add { clone_dir, worktree: p.worktree, sha },
        ],
        _ => Seq::empty(),
    }
}

impl Pipeline {
    /// The commands of git that an action asks for.
    pub fn git_commands(&self, action: &PipelineAction, url: &str, clone_dir: &str) -> (r: Vec<
        GitCommand,
    >)
        ensures
            command_models(r@) == commands(self@, action@, url@, clone_dir@),
    {
        let mut out: Vec<GitCommand> = Vec::new();
        match action {
            PipelineAction::RunClone => {
                out.push(
                    GitCommand::Clone {
                        url: text::owned(url),
                        clone_dir: text::owned(clone_dir),
                    },
                );
            },
            PipelineAction::RunFetch => {
                out.push(
                    GitCommand::Fetch {
                        clone_dir: text::owned(clone_dir),
                        git_ref: text::owned(self.git_ref.as_str()),
                    },
                );
            },
            PipelineAction::ResolveRef => {
                let names = git::ref_candidates(self.git_ref.as_str());
                let ghost all = names.deep_view();
                let mut i: usize = 0;
                while i < names.len()
                    invariant
                        i <= names@.len(),
                        all == names.deep_view(),
                        out@.len() == i,
                        forall|k: int|
                            0 <= k < i ==> (#[trigger] out@[k])@ == (GitCommandModel::Resolve {
                                clone_dir: clone_dir@,
                                name: all[k],
                            }),
                    decreases names@.len() - i,
                {
                    assert(all[i as int] == names@[i as int]@);
                    out.push(
                        GitCommand::Resolve {
                            clone_dir: text::owned(clone_dir),
                            name: text::owned(names[i].as_str()),
                        },
                    );
                    i = i + 1;
                }
            },
            PipelineAction::Checkout { sha } => {
                out.push(
                    GitCommand::Checkout {
                        worktree: text::owned(self.worktree.as_str()),
                        sha: text::owned(sha.as_str()),
                    },
                );
            },
            PipelineAction::AddWorktree { sha, .. } => {
                out.push(GitCommand::Prune { clone_dir: text::owned(clone_dir) });
                out.push(
                    GitCommand::Add {
                        clone_dir: text::owned(clone_dir),
                        worktree: text::owned(self.worktree.as_str()),
                        sha: text::owned(sha.as_str()),
                    },
                );
            },
            _ => {},
        }
        assert(command_models(out@) =~= commands(self@, action@, url@, clone_dir@));
        out
    }
}

/// A warning stands for a refresh that failed; there is none for code that was cloned just
/// now or that is asked for by the id of its commit.
pub open spec fn warns_rightly(p: PipelineModel) -> bool {
    &&& p.stale_warning is Some == p.fetch_error is Some
    &&& p.fetch_error is Some ==> p.stale_warning == Some(stale_note(p.fetch_error->0))
    &&& p.fetch_error is Some ==> !is_full_sha(p.git_ref) && !p.cloned_now
    &&& p.stage is Fetch ==> !is_full_sha(p.git_ref) && !p.cloned_now && p.fetch_error is None
    &&& (p.stage is FindClone || p.stage is Clone) ==> p.fetch_error is None && !p.cloned_now
}

/// The work of getting a repository ready warns of stale code exactly where its refresh
/// failed, from the start to the end.
pub proof fn law_warning_means_failed_refresh(p: PipelineModel, e: PipelineEvent)
    requires
        warns_rightly(p),
    ensures
        warns_rightly(next(p, e).0),
        next(p, e).1 matches ActionModel::Finish { stale_warning, .. } ==> stale_warning is Some
            == p.fetch_error is Some,
        is_full_sha(p.git_ref) ==> (next(p, e).1 matches ActionModel::Finish {
            stale_warning,
            ..
        } ==> stale_warning is None),
{
}

/// How many steps are left at most.
pub open spec fn steps_left(s: StageModel) -> nat {
    match s {
        StageModel::FindClone => 7,
        StageModel::Clone => 6,
        StageModel::Fetch => 5,
        StageModel::Resolve => 4,
        StageModel::FindWorktree { .. } => 3,
        StageModel::Checkout { .. } => 2,
        StageModel::Add { .. } => 1,
        StageModel::Over => 0,
    }
}

/// Every event that belongs brings the work nearer to its end, and it ends by failing or
/// by being ready, never otherwise.
pub proof fn law_work_ends(p: PipelineModel, e: PipelineEvent)
    ensures
        next(p, e).1 is Ignore || steps_left(next(p, e).0.stage) < steps_left(p.stage),
        next(p, e).1 is Ignore ==> next(p, e).0 == p,
        next(p, e).0.stage is Over && !(p.stage is Over) ==> next(p, e).1 is Fail || next(
            p,
            e,
        ).1 is Finish,
        (next(p, e).1 is Fail || next(p, e).1 is Finish) ==> next(p, e).0.stage is Over,
{
}

} // verus!
