//! What asking git, and bringing a repository here with it, come to.

use crate::chars;
use crate::chars_laws::{law_longest_front_is_taken, law_text_is_cut_at_the_first};
use crate::code::git::{
    after_bytes, first_success, git_stderr, git_words, is_cache_name, is_progress_label,
    percent_char, progress, ref_names, repo_key, short_hash, url_error, without_remote,
    GitCommandModel, GitEnd, GitResult, ScanModel,
};
use crate::code::pipeline::{
    commands, is_full_sha, last_line, next, stale_note, started, unresolved_code, unresolved_error,
    ActionModel, PipelineEvent, PipelineModel, StageModel,
};
use crate::outside;
use vstd::prelude::*;

verus! {

/// The address of a repository is taken just where, without blanks around it, it starts with
/// `https://` or `file://` and holds neither white space nor a semicolon.
pub proof fn law_addresses_that_are_taken(repo_url: Seq<char>)
    ensures
        ({
            let url = chars::trim(repo_url);
            url_error(repo_url) is None <==> {
                &&& chars::starts_with(url, "https://"@) || chars::starts_with(url, "file://"@)
                &&& forall|i: int|
                    0 <= i < url.len() ==> !chars::is_white(#[trigger] url[i]) && url[i] != ';'
            }
        }),
{
    reveal_strlit("https://");
    reveal_strlit("file://");
    reveal_strlit("ssh://");
    reveal_strlit("git@");
    let url = chars::trim(repo_url);
    if chars::starts_with(url, "https://"@) {
        assert(url.subrange(0, 8)[0] == 'h');
        assert(url[0] == 'h');
    }
    if chars::starts_with(url, "file://"@) {
        assert(url.subrange(0, 7)[0] == 'f');
        assert(url[0] == 'f');
    }
    if chars::starts_with(url, "ssh://"@) {
        assert(url.subrange(0, 6)[0] == 's');
        assert(url[0] == 's');
    }
    if chars::starts_with(url, "git@"@) {
        assert(url.subrange(0, 4)[0] == 'g');
        assert(url[0] == 'g');
    }
}

/// A line that the remote passed on tells what it tells by itself.
pub proof fn law_remote_tells_the_same(line: Seq<char>)
    ensures
        progress("remote: "@ + line) == progress(line),
{
    reveal_strlit("remote: ");
    let p = "remote: "@;
    let s = p + line;
    assert(s.subrange(0, p.len() as int) =~= p);
    assert(s.subrange(p.len() as int, s.len() as int) =~= line);
}

/// The progress that is told names one of the six things that git works on, and how far it
/// has come: digits, and a percent sign at the end.
pub proof fn law_progress_is_a_label_and_a_percentage(line: Seq<char>)
    requires
        progress(line) is Some,
    ensures
        exists|label: Seq<char>, far: Seq<char>|
            is_progress_label(label) && progress(line)->0 == #[trigger] (label + ": "@ + far)
                && chars::starts_with(chars::trim(without_remote(line)), label.push(':'))
                && far.len() > 1 && far.last() == '%' && chars::is_digit(far[0]),
{
    let t = chars::trim(without_remote(line));
    law_text_is_cut_at_the_first(t, ':');
    let (label, rest) = chars::split_once(t, ':')->0;
    let f = |c: char| percent_char(c);
    let far = chars::take_while(chars::trim(rest), f);
    law_longest_front_is_taken(chars::trim(rest), f);
    assert(f(far[0]));
    assert(t.subrange(0, label.len() as int + 1) =~= label.push(':'));
    if far.len() == 1 {
        assert(far[0] == far.last());
    }
    assert(progress(line)->0 == label + ": "@ + far);
}

/// A line is told once, when it ends, be it with a carriage return or a line feed; up to
/// there nothing of it is told.
pub proof fn law_line_is_told_when_it_ends(s: ScanModel, line: Seq<u8>, end: u8)
    requires
        s.segment.len() == 0,
        end == 13 || end == 10,
        forall|i: int| 0 <= i < line.len() ==> #[trigger] line[i] != 13 && line[i] != 10,
    ensures
        after_bytes(s, line).told == s.told,
        after_bytes(s, line).segment == line,
        after_bytes(s, line.push(end)).segment.len() == 0,
        after_bytes(s, line.push(end)).told == (match progress(outside::lossy(line)) {
            Some(p) => s.told.push(p),
            None => s.told,
        }),
    decreases line.len(),
{
    if line.len() == 0 {
        assert(s.segment =~= line);
        assert(after_bytes(s, line) == s);
    } else {
        let t = line.drop_last();
        law_line_is_told_when_it_ends(s, t, end);
        assert(line[line.len() - 1] == line.last());
        assert(t.push(line.last()) =~= line);
    }
    assert(line.push(end).drop_last() =~= line);
}

/// The first name that git knows tells the commit; none does just where git knows none.
pub proof fn law_first_known_name_counts(answers: Seq<GitResult>, i: int)
    requires
        0 <= i,
    ensures
        match first_success(answers, i) {
            Some(sha) => exists|k: int|
                i <= k < answers.len() && (#[trigger] answers[k]).success && sha == chars::trim(
                    answers[k].stdout@,
                ) && forall|j: int| i <= j < k ==> !(#[trigger] answers[j]).success,
            None => forall|j: int| i <= j < answers.len() ==> !(#[trigger] answers[j]).success,
        },
    decreases answers.len() - i,
{
    if i < answers.len() {
        if answers[i].success {
            assert(answers[i].success);
        } else {
            law_first_known_name_counts(answers, i + 1);
            if first_success(answers, i + 1) is Some {
                let sha = first_success(answers, i + 1)->0;
                let k = choose|k: int|
                    i + 1 <= k < answers.len() && (#[trigger] answers[k]).success && sha
                        == chars::trim(answers[k].stdout@) && forall|j: int|
                        i + 1 <= j < k ==> !(#[trigger] answers[j]).success;
                assert(answers[k].success);
            }
        }
    }
}

/// A ref is looked for under its own name first, then as a branch of the remote; either has
/// to be a commit.
pub proof fn law_names_of_a_ref(git_ref: Seq<char>)
    ensures
        ref_names(git_ref).len() == 2,
        ref_names(git_ref)[0] == git_ref + "^{commit}"@,
        ref_names(git_ref)[1] == "origin/"@ + ref_names(git_ref)[0],
{
    assert(ref_names(git_ref)[1] =~= "origin/"@ + ref_names(git_ref)[0]);
}

/// Every command but the cloning one works in the directory that it is about; what it is to
/// bring comes last.
pub proof fn law_words_of_a_command(
    dir: Seq<char>,
    tree: Seq<char>,
    what: Seq<char>,
    url: Seq<char>,
)
    ensures
        ({
            let fetch = git_words(GitCommandModel::Fetch { clone_dir: dir, git_ref: what });
            let resolve = git_words(GitCommandModel::Resolve { clone_dir: dir, name: what });
            let checkout = git_words(GitCommandModel::Checkout { worktree: tree, sha: what });
            let prune = git_words(GitCommandModel::Prune { clone_dir: dir });
            let place = git_words(
                GitCommandModel::Add { clone_dir: dir, worktree: tree, sha: what },
            );
            let clone = git_words(GitCommandModel::Clone { url, clone_dir: dir });
            &&& clone[0] == "clone"@ && clone[1] == url && clone.last() == dir
            &&& fetch[0] == "-C"@ && fetch[1] == dir && fetch[2] == "fetch"@ && fetch.contains(
                "origin"@,
            ) && fetch.last() == what
            &&& resolve[0] == "-C"@ && resolve[1] == dir && resolve[2] == "rev-parse"@
                && resolve.last() == what
            &&& checkout[0] == "-C"@ && checkout[1] == tree && checkout[2] == "checkout"@
                && checkout.last() == what
            &&& prune[0] == "-C"@ && prune[1] == dir && prune[2] == "worktree"@ && prune.last()
                == "prune"@
            &&& place[0] == "-C"@ && place[1] == dir && place[2] == "worktree"@ && place[3]
                == "add"@ && place[place.len() - 2] == tree && place.last() == what
        }),
{
    let fetch = git_words(GitCommandModel::Fetch { clone_dir: dir, git_ref: what });
    assert(fetch[4] == "origin"@);
}

/// The commit that the work has come to know.
pub open spec fn commit_of(s: StageModel) -> Option<Seq<char>> {
    match s {
        StageModel::FindWorktree { sha } => Some(sha),
        StageModel::Checkout { sha } => Some(sha),
        StageModel::Add { sha } => Some(sha),
        _ => None,
    }
}

/// The commit that git named is the one whose files are put in place and that is reported in
/// the end.
pub proof fn law_commit_is_carried_through(p: PipelineModel, e: PipelineEvent)
    ensures
        ({
            let (q, a) = next(p, e);
            &&& p.stage is Resolve && e is Commit && e->Commit_0 is Some ==> commit_of(q.stage)
                == Some(e->Commit_0->0@)
            &&& commit_of(p.stage) is Some && !(q.stage is Over) ==> commit_of(q.stage)
                == commit_of(p.stage)
            &&& a matches ActionModel::Finish { commit, .. } ==> commit_of(p.stage) == Some(commit)
            &&& a matches ActionModel::Checkout { sha } ==> commit_of(p.stage) == Some(sha)
            &&& a matches ActionModel::AddWorktree { sha, .. } ==> commit_of(p.stage) == Some(sha)
            &&& q.git_ref == p.git_ref && q.worktree == p.worktree
        }),
{
}

/// Each step follows from what was found or done before it.
pub proof fn law_steps_follow_from_what_was_done(p: PipelineModel, there: bool, g: GitResult)
    ensures
        ({
            let (q, a) = next(p, PipelineEvent::Found(there));
            let (r, b) = next(p, PipelineEvent::Git(g));
            &&& p.stage is FindClone && !there ==> a is RunClone && q.stage is Clone
            &&& p.stage is FindClone && there ==> (a is RunFetch <==> !is_full_sha(p.git_ref)) && (a
                is ResolveRef <==> is_full_sha(p.git_ref)) && !q.cloned_now
            &&& p.stage is Clone && g.success ==> b is ResolveRef && r.cloned_now
            &&& p.stage is Clone && !g.success ==> b == (ActionModel::Fail {
                code: "clone_failed"@,
                error: chars::trim(g.stderr@),
            })
            &&& p.stage is Fetch ==> b is ResolveRef && (g.success ==> r.fetch_error
                == p.fetch_error && r.stale_warning == p.stale_warning) && (!g.success
                ==> r.fetch_error == Some(chars::trim(g.stderr@)) && r.stale_warning is Some)
            &&& p.stage is FindWorktree && there ==> a is Checkout && q.stage is Checkout
            &&& p.stage is FindWorktree && !there ==> a is AddWorktree && !a->remove_first
            &&& p.stage is Checkout && g.success ==> b is Finish
            &&& p.stage is Checkout && !g.success ==> b is AddWorktree && b->remove_first
            &&& p.stage is Add && g.success ==> b is Finish
            &&& p.stage is Add && !g.success ==> b is Fail && b->code == "worktree_failed"@
                && chars::ends_with(b->error, p.worktree)
            &&& b matches ActionModel::Finish { stale_warning, .. } ==> stale_warning
                == p.stale_warning
        }),
{
    let t = "failed to prepare worktree at "@ + p.worktree;
    assert(t.subrange(t.len() - p.worktree.len(), t.len() as int) =~= p.worktree);
}

/// A ref that git does not know ends the work. It is put down to the refresh where that
/// failed for another reason than that the remote does not have the ref.
pub proof fn law_unknown_ref_ends_the_work(p: PipelineModel)
    requires
        p.stage is Resolve,
    ensures
        ({
            let (q, a) = next(p, PipelineEvent::Commit(None));
            let missing = p.fetch_error is Some && chars::contains(
                outside::lowercase(p.fetch_error->0),
                "couldn't find remote ref"@,
            );
            &&& a is Fail && q.stage is Over
            &&& a->code == "fetch_failed"@ <==> p.fetch_error is Some && !missing
            &&& a->code == "invalid_ref"@ <==> p.fetch_error is None || missing
            &&& chars::starts_with(a->error, "ref '"@ + p.git_ref + "' not found ("@)
            &&& p.fetch_error is Some && !missing ==> chars::contains(
                a->error,
                "fetch error: "@ + p.fetch_error->0,
            )
        }),
{
    reveal_strlit("fetch_failed");
    reveal_strlit("invalid_ref");
    assert("fetch_failed"@.len() != "invalid_ref"@.len());
    let missing = p.fetch_error is Some && chars::contains(
        outside::lowercase(p.fetch_error->0),
        "couldn't find remote ref"@,
    );
    let head = "ref '"@ + p.git_ref + "' not found ("@;
    let e = unresolved_error(p.git_ref, p.fetch_error);
    assert(e.subrange(0, head.len() as int) =~= head);
    if p.fetch_error is Some && !missing {
        let d = "fetch error: "@ + p.fetch_error->0;
        assert(e.subrange(head.len() as int, (head.len() + d.len()) as int) =~= d);
        assert(chars::occurs_at(e, d, head.len() as int));
    }
}

/// The warning names the last line of what went wrong.
pub proof fn law_warning_names_the_last_line(error: Seq<char>, line: Seq<char>)
    ensures
        chars::contains(stale_note(error), last_line(error)),
        error.len() == 0 ==> last_line(error) == "network error"@,
        !line.contains('\n') && line.len() > 0 ==> last_line(line) == line,
        !line.contains('\n') && line.len() > 0 && !error.contains('\n') ==> last_line(
            error.push('\n') + line,
        ) == line,
{
    let l = last_line(error);
    let head = "fetch failed ("@;
    let n = stale_note(error);
    assert(n.subrange(head.len() as int, (head.len() + l.len()) as int) =~= l);
    assert(chars::occurs_at(n, l, head.len() as int));
    if error.len() == 0 {
        assert(error =~= Seq::<char>::empty());
        assert(!error.contains('\n'));
        crate::chars_laws::law_lines_end_with_line_feeds(error, error);
    }
    if !line.contains('\n') && line.len() > 0 {
        crate::chars_laws::law_lines_end_with_line_feeds(line, error);
        if !error.contains('\n') {
            crate::chars_laws::law_lines_end_with_line_feeds(error, line);
        }
    }
}

/// The work begins with nothing known, and asks of git just what its steps need.
pub proof fn law_commands_of_an_action(
    p: PipelineModel,
    url: Seq<char>,
    dir: Seq<char>,
    sha: Seq<char>,
    remove_first: bool,
)
    ensures
        commands(p, ActionModel::RunClone, url, dir) == seq![
            GitCommandModel::Clone { url, clone_dir: dir },
        ],
        commands(p, ActionModel::RunFetch, url, dir) == seq![
            GitCommandModel::Fetch { clone_dir: dir, git_ref: p.git_ref },
        ],
        commands(p, ActionModel::ResolveRef, url, dir) == seq![
            GitCommandModel::Resolve { clone_dir: dir, name: p.git_ref + "^{commit}"@ },
            GitCommandModel::Resolve { clone_dir: dir, name: "origin/"@ + p.git_ref + "^{commit}"@ },
        ],
        commands(p, ActionModel::Checkout { sha }, url, dir) == seq![
            GitCommandModel::Checkout { worktree: p.worktree, sha },
        ],
        commands(p, ActionModel::AddWorktree { sha, remove_first }, url, dir) == seq![
            GitCommandModel::Prune { clone_dir: dir },
            GitCommandModel::Add { clone_dir: dir, worktree: p.worktree, sha },
        ],
        commands(p, ActionModel::LookForWorktree, url, dir).len() == 0,
        commands(p, ActionModel::Ignore, url, dir).len() == 0,
        started(p.git_ref, p.worktree).stage is FindClone,
        started(p.git_ref, p.worktree).fetch_error is None,
        started(p.git_ref, p.worktree).stale_warning is None,
        !started(p.git_ref, p.worktree).cloned_now,
{
    assert(commands(p, ActionModel::ResolveRef, url, dir) =~= seq![
        GitCommandModel::Resolve { clone_dir: dir, name: p.git_ref + "^{commit}"@ },
        GitCommandModel::Resolve { clone_dir: dir, name: "origin/"@ + p.git_ref + "^{commit}"@ },
    ]);
}

/// What git wrote on its error stream is kept; why it did not run, or not to its end, is told
/// in front of that.
pub proof fn law_trouble_with_git_is_told(args: Seq<Seq<char>>, end: GitEnd)
    ensures
        end matches GitEnd::Exited { stderr, .. } ==> git_stderr(args, end) == outside::lossy(
            stderr@,
        ),
        end matches GitEnd::SpawnFailed(e) ==> chars::ends_with(git_stderr(args, end), e@),
        end matches GitEnd::WaitFailed(e) ==> chars::ends_with(git_stderr(args, end), e@),
        end matches GitEnd::TimedOut { secs, stderr } ==> chars::ends_with(
            git_stderr(args, end),
            outside::lossy(stderr@),
        ) && chars::starts_with(
            git_stderr(args, end),
            "git "@ + chars::join(args, " "@) + " timed out after "@ + chars::dec(secs as nat)
                + "s\n"@,
        ),
{
    let t = git_stderr(args, end);
    match end {
        GitEnd::SpawnFailed(e) => {
            assert(t.subrange(t.len() - e@.len(), t.len() as int) =~= e@);
        },
        GitEnd::WaitFailed(e) => {
            assert(t.subrange(t.len() - e@.len(), t.len() as int) =~= e@);
        },
        GitEnd::TimedOut { secs, stderr } => {
            let w = outside::lossy(stderr@);
            let head = "git "@ + chars::join(args, " "@) + " timed out after "@ + chars::dec(
                secs as nat,
            ) + "s\n"@;
            assert(t.subrange(t.len() - w.len(), t.len() as int) =~= w);
            assert(t.subrange(0, head.len() as int) =~= head);
        },
        GitEnd::Exited { .. } => {},
    }
}

/// The name of a cache is 16 hexadecimal digits; nothing with a separator or a dot is one.
pub proof fn law_names_of_caches(s: Seq<char>, i: int)
    requires
        is_cache_name(s),
        0 <= i < s.len(),
    ensures
        s.len() == 16,
        s[i] != '/' && s[i] != '\\' && s[i] != '.',
        ('0' <= s[i] && s[i] <= '9') || ('a' <= s[i] && s[i] <= 'f') || ('A' <= s[i] && s[i] <= 'F'),
{
    assert(chars::is_hex(s[i]));
}

/// The id of a repository at a ref is that of the two together; the line feed between them
/// keeps apart what is put together another way.
pub proof fn law_id_is_of_both(url: Seq<char>, git_ref: Seq<char>)
    ensures
        repo_key(url, git_ref) == short_hash(url.push('\n') + git_ref),
        short_hash(url) == outside::sha256_digits(url).subrange(0, 16),
{
    reveal_strlit("\n");
    assert(url + "\n"@ + git_ref =~= url.push('\n') + git_ref);
}

/// The note on code that may be stale holds the last line of what went wrong; `network error`
/// stands for an error that says nothing.
pub proof fn law_stale_note_tells_the_last_line(front: Seq<char>, line: Seq<char>)
    requires
        line.len() > 0,
        !line.contains('\n'),
    ensures
        stale_note(front.push('\n') + line) == "fetch failed ("@ + line
            + "); using locally cached code which may be stale"@,
        stale_note(line) == "fetch failed ("@ + line
            + "); using locally cached code which may be stale"@,
        stale_note(Seq::empty()) == "fetch failed ("@ + "network error"@
            + "); using locally cached code which may be stale"@,
{
    crate::chars_laws::law_lines_end_with_line_feeds(line, line);
    let e = Seq::<char>::empty();
    crate::chars_laws::law_lines_end_with_line_feeds(e, e);
    lemma_last_line(front, line);
}

proof fn lemma_last_line(front: Seq<char>, line: Seq<char>)
    requires
        line.len() > 0,
        !line.contains('\n'),
    ensures
        last_line(front.push('\n') + line) == line,
{
    crate::chars_laws::law_splitting_goes_from_left_to_right(front, line, '\n');
    crate::chars_laws::law_splitting_goes_from_left_to_right(line, line, '\n');
    let s = front.push('\n') + line;
    let p = chars::split(s, '\n');
    assert(p.last() == line);
    assert(chars::lines(s).last() == line);
}

/// The full id of a commit is of 40 characters, each a hexadecimal digit; no shorter text, no
/// longer one and none with another character is.
pub proof fn law_full_commit_id(s: Seq<char>, c: char)
    ensures
        is_full_sha(s) ==> s.len() == 40 && !is_full_sha(s.push(c)) && !is_full_sha(s.drop_last()),
        is_full_sha(s) ==> forall|i: int| 0 <= i < 40 ==> chars::is_hex(#[trigger] s[i]),
        s.len() == 40 && (forall|i: int| 0 <= i < 40 ==> chars::is_hex(#[trigger] s[i]))
            ==> is_full_sha(s),
{
}

/// A ref that is not found is told by its name, and why: the remote does not have it, or it
/// could not be asked.
pub proof fn law_missing_ref_in_words(git_ref: Seq<char>, why: Seq<char>)
    ensures
        ({
            let front = "ref '"@ + git_ref + "' not found ("@;
            let end = "); confirm branch/tag/commitid with the user, or check network/credentials"@;
            let said_absent = chars::contains(outside::lowercase(why), "couldn't find remote ref"@);
            &&& unresolved_code(None) == "invalid_ref"@
            &&& unresolved_error(git_ref, None) == front + "absent on remote"@ + end
            &&& said_absent ==> unresolved_code(Some(why)) == "invalid_ref"@ && unresolved_error(
                git_ref,
                Some(why),
            ) == front + "absent on remote"@ + end
            &&& !said_absent ==> unresolved_code(Some(why)) == "fetch_failed"@ && unresolved_error(
                git_ref,
                Some(why),
            ) == front + ("fetch error: "@ + why) + end
        }),
{
}

} // verus!
