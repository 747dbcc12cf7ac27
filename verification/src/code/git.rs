//! What is asked of git and what it answers.

use crate::chars;
use crate::code::manager::{CLONE_TIMEOUT_SECS, FETCH_TIMEOUT_SECS, GIT_TIMEOUT_SECS};
use crate::ids::is_lower_hex;
use crate::outside;
use crate::text;
use vstd::prelude::*;

verus! {

/// The first 16 digits of the SHA-256 digest of a text.
pub open spec fn short_hash(s: Seq<char>) -> Seq<char> {
    outside::sha256_digits(s).subrange(0, 16)
}

/// 16 hexadecimal digits: the form of the name of a cache.
pub open spec fn is_cache_name(s: Seq<char>) -> bool {
    s.len() == 16 && chars::all_hex(s)
}

fn hash16(s: &str) -> (r: String)
    ensures
        r@ == short_hash(s@),
        is_cache_name(r@),
{
    let h = outside::sha256_hex(s);
    let t = h.as_str();
    let r = text::owned(t.substring_char(0, 16));
    assert forall|i: int| 0 <= i < r@.len() implies chars::is_hex(#[trigger] r@[i]) by {
        assert(is_lower_hex(t@[i]));
    }
    r
}

/// The directory name of a repository.
pub fn url_hash(repo_url: &str) -> (r: String)
    ensures
        r@ == short_hash(repo_url@),
        is_cache_name(r@),
{
    hash16(repo_url)
}

/// The directory name of a checkout.
pub fn ref_hash(git_ref: &str) -> (r: String)
    ensures
        r@ == short_hash(git_ref@),
        is_cache_name(r@),
{
    hash16(git_ref)
}

pub open spec fn repo_key(repo_url: Seq<char>, git_ref: Seq<char>) -> Seq<char> {
    short_hash(repo_url + "\n"@ + git_ref)
}

/// The id of a repository at a ref: the same for the same two.
pub fn repo_id(repo_url: &str, git_ref: &str) -> (r: String)
    ensures
        r@ == repo_key(repo_url@, git_ref@),
        is_cache_name(r@),
{
    let mut s = text::owned(repo_url);
    s.append("\n");
    s.append(git_ref);
    hash16(s.as_str())
}

/// White space or a semicolon.
pub open spec fn refused_in_url(c: char) -> bool {
    chars::is_white(c) || c == ';'
}

pub open spec fn has_refused(s: Seq<char>) -> bool {
    exists|i: int| 0 <= i < s.len() && refused_in_url(#[trigger] s[i])
}

/// Why the address of a repository is refused: only https and file are allowed.
pub open spec fn url_error(repo_url: Seq<char>) -> Option<Seq<char>> {
    let url = chars::trim(repo_url);
    if url.len() == 0 {
        Some("repo_url cannot be empty"@)
    } else if chars::starts_with(url, "ssh://"@) || chars::starts_with(url, "git@"@) {
        Some(
            "SSH protocol is not allowed (company policy: HTTPS only); convert to an https:// URL"@,
        )
    } else if !(chars::starts_with(url, "https://"@) || chars::starts_with(url, "file://"@)) {
        Some("repo_url must start with https:// or file://"@)
    } else if has_refused(url) {
        Some("repo_url contains unsupported characters (whitespace / semicolon)"@)
    } else {
        None
    }
}

pub fn validate_repo_url(repo_url: &str) -> (r: Result<(), String>)
    ensures
        match url_error(repo_url@) {
            Some(why) => r is Err && r->Err_0@ == why,
            None => r is Ok,
        },
{
    let url = text::trim(repo_url);
    if url.is_empty() {
        return Err(text::owned("repo_url cannot be empty"));
    }
    if text::starts_with(url, "ssh://") || text::starts_with(url, "git@") {
        return Err(
            text::owned(
                "SSH protocol is not allowed (company policy: HTTPS only); convert to an https:// URL",
            ),
        );
    }
    if !(text::starts_with(url, "https://") || text::starts_with(url, "file://")) {
        return Err(text::owned("repo_url must start with https:// or file://"));
    }
    let v = text::to_chars(url);
    let mut i: usize = 0;
    let mut bad = false;
    while i < v.len() && !bad
        invariant
            i <= v@.len(),
            v@ == url@,
            bad ==> has_refused(url@),
            !bad ==> forall|k: int| 0 <= k < i ==> !refused_in_url(#[trigger] url@[k]),
        decreases v@.len() - i,
    {
        if text::is_white(v[i]) || v[i] == ';' {
            assert(refused_in_url(url@[i as int]));
            bad = true;
        }
        i = i + 1;
    }
    if bad {
        return Err(
            text::owned("repo_url contains unsupported characters (whitespace / semicolon)"),
        );
    }
    Ok(())
}

/// The address of a local directory.
pub fn file_url(path: &str) -> (r: String)
    ensures
        r@ == "file:///"@ + chars::replace_char(path@, '\\', "/"@),
{
    let mut out = text::owned("file:///");
    out.append(text::replace_char(path, '\\', "/").as_str());
    out
}

/// What a run of git came to.
#[derive(Debug)]
pub struct GitResult {
    pub success: bool,
    pub stdout: String,
    pub stderr: String,
}

/// How a run of git ended, with what it wrote on its streams up to then.
#[derive(Debug)]
pub enum GitEnd {
    SpawnFailed(String),
    Exited { success: bool, stdout: Vec<u8>, stderr: Vec<u8> },
    WaitFailed(String),
    TimedOut { secs: u64, stderr: Vec<u8> },
}

pub open spec fn git_stderr(args: Seq<Seq<char>>, end: GitEnd) -> Seq<char> {
    match end {
        GitEnd::SpawnFailed(e) => "failed to spawn git: "@ + e@,
        GitEnd::Exited { stderr, .. } => outside::lossy(stderr@),
        GitEnd::WaitFailed(e) => "git wait failed: "@ + e@,
        GitEnd::TimedOut { secs, stderr } => "git "@ + chars::join(args, " "@)
            + " timed out after "@ + chars::dec(secs as nat) + "s\n"@ + outside::lossy(stderr@),
    }
}

/// The result of a run of git: only one that exited can have succeeded, and only its
/// output counts. The streams are read as text whatever bytes are in them.
pub fn run_git(args: &Vec<String>, end: GitEnd) -> (r: GitResult)
    ensures
        r.success == (end matches GitEnd::Exited { success: true, .. }),
        r.stdout@ == (match end {
            GitEnd::Exited { stdout, .. } => outside::lossy(stdout@),
            _ => Seq::empty(),
        }),
        r.stderr@ == git_stderr(args.deep_view(), end),
{
    match end {
        GitEnd::SpawnFailed(e) => {
            let mut m = text::owned("failed to spawn git: ");
            m.append(e.as_str());
            GitResult { success: false, stdout: String::new(), stderr: m }
        },
        GitEnd::Exited { success, stdout, stderr } => GitResult {
            success,
            stdout: outside::from_utf8_lossy(&stdout),
            stderr: outside::from_utf8_lossy(&stderr),
        },
        GitEnd::WaitFailed(e) => {
            let mut m = text::owned("git wait failed: ");
            m.append(e.as_str());
            GitResult { success: false, stdout: String::new(), stderr: m }
        },
        GitEnd::TimedOut { secs, stderr } => {
            let mut m = text::owned("git ");
            m.append(text::join(args, " ").as_str());
            m.append(" timed out after ");
            m.append(text::dec(secs).as_str());
            m.append("s\n");
            m.append(outside::from_utf8_lossy(&stderr).as_str());
            GitResult { success: false, stdout: String::new(), stderr: m }
        },
    }
}

/// A line without the words `remote: ` at its front, however often they stand there.
pub open spec fn without_remote(s: Seq<char>) -> Seq<char>
    decreases s.len(),
{
    if chars::starts_with(s, "remote: "@) && "remote: "@.len() > 0 {
        without_remote(s.subrange("remote: "@.len() as int, s.len() as int))
    } else {
        s
    }
}

/// What git reports progress about.
pub open spec fn is_progress_label(s: Seq<char>) -> bool {
    ||| s == "Enumerating objects"@
    ||| s == "Counting objects"@
    ||| s == "Compressing objects"@
    ||| s == "Receiving objects"@
    ||| s == "Resolving deltas"@
    ||| s == "Updating files"@
}

pub open spec fn percent_char(c: char) -> bool {
    chars::is_digit(c) || c == '%'
}

/// A label and how far it has come, such as `Receiving objects: 45%`.
pub open spec fn progress(line: Seq<char>) -> Option<Seq<char>> {
    match chars::split_once(chars::trim(without_remote(line)), ':') {
        None => None,
        Some(p) => {
            let pct = chars::take_while(chars::trim(p.1), |c: char| percent_char(c));
            if is_progress_label(p.0) && pct.len() > 0 && pct.last() == '%' && pct[0] != '%' {
                Some(p.0 + ": "@ + pct)
            } else {
                None
            }
        },
    }
}

fn strip_remote<'a>(line: &'a str) -> (r: &'a str)
    ensures
        r@ == without_remote(line@),
    decreases line@.len(),
{
    proof {
        reveal_strlit("remote: ");
    }
    match text::strip_prefix(line, "remote: ") {
        Some(rest) => strip_remote(rest),
        None => line,
    }
}

/// The front part of the text made of digits and percent signs.
fn percentage(s: &str) -> (r: String)
    ensures
        r@ == chars::take_while(s@, |c: char| percent_char(c)),
{
    let ghost p = |c: char| percent_char(c);
    let v = text::to_chars(s);
    let mut n: usize = 0;
    assert(s@.skip(0) =~= s@);
    assert(s@.take(0) =~= Seq::<char>::empty());
    assert(Seq::<char>::empty() + chars::take_while(s@, p) =~= chars::take_while(s@, p));
    while n < v.len() && (text::is_digit(v[n]) || v[n] == '%')
        invariant
            n <= v@.len(),
            v@ == s@,
            p == |c: char| percent_char(c),
            chars::take_while(s@, p) == s@.take(n as int) + chars::take_while(
                s@.skip(n as int),
                p,
            ),
        decreases v@.len() - n,
    {
        proof {
            let rest = s@.skip(n as int);
            assert(p(rest[0]));
            assert(rest.drop_first() =~= s@.skip(n + 1));
            assert(s@.take(n + 1) =~= s@.take(n as int).push(s@[n as int]));
            assert(s@.take(n as int) + (seq![rest[0]] + chars::take_while(s@.skip(n + 1), p))
                =~= s@.take(n + 1) + chars::take_while(s@.skip(n + 1), p));
        }
        n = n + 1;
    }
    proof {
        let rest = s@.skip(n as int);
        if rest.len() > 0 {
            assert(!p(rest[0]));
        }
        assert(s@.take(n as int) + Seq::<char>::empty() =~= s@.take(n as int));
        assert(s@.take(n as int) =~= v@.subrange(0, n as int));
    }
    text::from_chars(&v, 0, n)
}

/// Reads a line in which git reports progress.
pub fn parse_progress(line: &str) -> (r: Option<String>)
    ensures
        r.deep_view() == progress(line@),
{
    let trimmed = text::trim(strip_remote(line));
    match text::split_once(trimmed, ':') {
        None => None,
        Some((label, rest)) => {
            let known = text::same(label, "Enumerating objects") || text::same(
                label,
                "Counting objects",
            ) || text::same(label, "Compressing objects") || text::same(label, "Receiving objects")
                || text::same(label, "Resolving deltas") || text::same(label, "Updating files");
            let pct = percentage(text::trim(rest));
            let v = text::to_chars(pct.as_str());
            let n: usize = v.len();
            if known && n > 0 && v[n - 1] == '%' && v[0] != '%' {
                let mut out = text::owned(label);
                out.append(": ");
                out.append(pct.as_str());
                Some(out)
            } else {
                None
            }
        },
    }
}

/// Reads the error stream of git as it comes: keeps all of it, and tells the progress at
/// the end of each line, which ends with `\r` or `\n`.
#[derive(Debug)]
pub struct ProgressScan {
    pub full: Vec<u8>,
    pub segment: Vec<u8>,
}

/// What was read so far, what of it stands behind the last line end, and what was told.
#[verifier::ext_equal]
pub struct ScanModel {
    pub full: Seq<u8>,
    pub segment: Seq<u8>,
    pub told: Seq<Seq<char>>,
}

pub open spec fn is_line_end(b: u8) -> bool {
    b == 13 || b == 10
}

pub open spec fn tell(told: Seq<Seq<char>>, segment: Seq<u8>) -> Seq<Seq<char>> {
    match progress(outside::lossy(segment)) {
        Some(p) => told.push(p),
        None => told,
    }
}

pub open spec fn after_byte(s: ScanModel, b: u8) -> ScanModel {
    if is_line_end(b) {
        ScanModel {
            full: s.full.push(b),
            segment: Seq::empty(),
            told: tell(s.told, s.segment),
        }
    } else {
        ScanModel { full: s.full.push(b), segment: s.segment.push(b), told: s.told }
    }
}

pub open spec fn after_bytes(s: ScanModel, bytes: Seq<u8>) -> ScanModel
    decreases bytes.len(),
{
    if bytes.len() == 0 {
        s
    } else {
        after_byte(after_bytes(s, bytes.drop_last()), bytes.last())
    }
}

impl ProgressScan {
    pub open spec fn with(&self, told: Seq<Seq<char>>) -> ScanModel {
        ScanModel { full: self.full@, segment: self.segment@, told }
    }

    pub fn new() -> (r: Self)
        ensures
            r.full@ == Seq::<u8>::empty(),
            r.segment@ == Seq::<u8>::empty(),
    {
        ProgressScan { full: Vec::new(), segment: Vec::new() }
    }

    /// Takes a piece of the stream in and hands out the progress that it tells.
    pub fn feed(&mut self, bytes: &[u8]) -> (r: Vec<String>)
        ensures
            final(self).with(r.deep_view()) == after_bytes(
                old(self).with(Seq::empty()),
                bytes@,
            ),
    {
        let ghost start = self.with(Seq::empty());
        let mut out: Vec<String> = Vec::new();
        let mut i: usize = 0;
        assert(out.deep_view() =~= Seq::<Seq<char>>::empty());
        assert(bytes@.take(0) =~= Seq::<u8>::empty());
        while i < bytes.len()
            invariant
                i <= bytes@.len(),
                self.with(out.deep_view()) == after_bytes(start, bytes@.take(i as int)),
            decreases bytes@.len() - i,
        {
            assert(bytes@.take(i + 1).drop_last() =~= bytes@.take(i as int));
            let b = bytes[i];
            let ghost told = out.deep_view();
            let ghost seg = self.segment@;
            self.full.push(b);
            if b == 13 || b == 10 {
                let line = outside::from_utf8_lossy(&self.segment);
                match parse_progress(line.as_str()) {
                    Some(p) => {
                        out.push(p);
                        assert(out.deep_view() =~= told.push(p@));
                    },
                    None => {},
                }
                self.segment = Vec::new();
                assert(out.deep_view() == tell(told, seg));
            } else {
                self.segment.push(b);
            }
            i = i + 1;
            assert(self.with(out.deep_view()) =~= after_bytes(start, bytes@.take(i as int)));
        }
        assert(bytes@.take(i as int) =~= bytes@);
        out
    }

    /// Ends the stream: the progress that the last line tells, where it has no line end,
    /// and the whole stream.
    pub fn finish(self) -> (r: (Option<String>, Vec<u8>))
        ensures
            r.0.deep_view() == (if self.segment@.len() > 0 {
                progress(outside::lossy(self.segment@))
            } else {
                None
            }),
            r.1@ == self.full@,
    {
        let rest = if self.segment.len() > 0 {
            let line = outside::from_utf8_lossy(&self.segment);
            parse_progress(line.as_str())
        } else {
            None
        };
        (rest, self.full)
    }
}

/// However the stream is cut into pieces, what is kept and what is told is the same.
pub proof fn law_pieces_do_not_matter(s: ScanModel, a: Seq<u8>, b: Seq<u8>)
    ensures
        after_bytes(after_bytes(s, a), b) == after_bytes(s, a + b),
    decreases b.len(),
{
    if b.len() == 0 {
        assert(a + b =~= a);
    } else {
        law_pieces_do_not_matter(s, a, b.drop_last());
        assert((a + b).drop_last() =~= a + b.drop_last());
    }
}

/// Nothing of the stream is lost.
pub proof fn law_stream_is_kept(s: ScanModel, bytes: Seq<u8>)
    ensures
        after_bytes(s, bytes).full == s.full + bytes,
    decreases bytes.len(),
{
    if bytes.len() == 0 {
        assert(s.full + bytes =~= s.full);
    } else {
        law_stream_is_kept(s, bytes.drop_last());
        assert(s.full + bytes =~= (s.full + bytes.drop_last()).push(bytes.last()));
    }
}

/// The commands of git that bring the files of a repository here. `clone_dir` is where the
/// repository itself is kept, `worktree` where its files stand.
#[derive(Debug)]
pub enum GitCommand {
    Clone { url: String, clone_dir: String },
    Fetch { clone_dir: String, git_ref: String },
    /// Asks for the commit that a name stands for.
    Resolve { clone_dir: String, name: String },
    Checkout { worktree: String, sha: String },
    /// Forgets the places of files that are gone.
    Prune { clone_dir: String },
    Add { clone_dir: String, worktree: String, sha: String },
}

pub enum GitCommandModel {
    Clone { url: Seq<char>, clone_dir: Seq<char> },
    Fetch { clone_dir: Seq<char>, git_ref: Seq<char> },
    Resolve { clone_dir: Seq<char>, name: Seq<char> },
    Checkout { worktree: Seq<char>, sha: Seq<char> },
    Prune { clone_dir: Seq<char> },
    Add { clone_dir: Seq<char>, worktree: Seq<char>, sha: Seq<char> },
}

impl View for GitCommand {
    type V = GitCommandModel;

    open spec fn view(&self) -> GitCommandModel {
        match self {
            GitCommand::Clone { url, clone_dir } => GitCommandModel::Clone {
                url: url@,
                clone_dir: clone_dir@,
            },
            GitCommand::Fetch { clone_dir, git_ref } => GitCommandModel::Fetch {
                clone_dir: clone_dir@,
                git_ref: git_ref@,
            },
            GitCommand::Resolve { clone_dir, name } => GitCommandModel::Resolve {
                clone_dir: clone_dir@,
                name: name@,
            },
            GitCommand::Checkout { worktree, sha } => GitCommandModel::Checkout {
                worktree: worktree@,
                sha: sha@,
            },
            GitCommand::Prune { clone_dir } => GitCommandModel::Prune { clone_dir: clone_dir@ },
            GitCommand::Add { clone_dir, worktree, sha } => GitCommandModel::Add {
                clone_dir: clone_dir@,
                worktree: worktree@,
                sha: sha@,
            },
        }
    }
}

/// The arguments with which git is called.
pub open spec fn git_words(c: GitCommandModel) -> Seq<Seq<char>> {
    match c {
        GitCommandModel::Clone { url, clone_dir } => seq!["clone"@, url, clone_dir],
        GitCommandModel::Fetch { clone_dir, git_ref } => seq![
            "-C"@,
            clone_dir,
            "fetch"@,
            "--force"@,
            "origin"@,
            git_ref,
        ],
        GitCommandModel::Resolve { clone_dir, name } => seq![
            "-C"@,
            clone_dir,
            "rev-parse"@,
            "--verify"@,
            name,
        ],
        GitCommandModel::Checkout { worktree, sha } => seq![
            "-C"@,
            worktree,
            "checkout"@,
            "--force"@,
            sha,
        ],
        GitCommandModel::Prune { clone_dir } => seq!["-C"@, clone_dir, "worktree"@, "prune"@],
        GitCommandModel::Add { clone_dir, worktree, sha } => seq![
            "-C"@,
            clone_dir,
            "worktree"@,
            "add"@,
            "--detach"@,
            worktree,
            sha,
        ],
    }
}

pub fn git_args(command: &GitCommand) -> (r: Vec<String>)
    ensures
        r.deep_view() == git_words(command@),
{
    let mut out: Vec<String> = Vec::new();
    match command {
        GitCommand::Clone { url, clone_dir } => {
            out.push(text::owned("clone"));
            out.push(text::owned(url.as_str()));
            out.push(text::owned(clone_dir.as_str()));
        },
        GitCommand::Fetch { clone_dir, git_ref } => {
            out.push(text::owned("-C"));
            out.push(text::owned(clone_dir.as_str()));
            out.push(text::owned("fetch"));
            out.push(text::owned("--force"));
            out.push(text::owned("origin"));
            out.push(text::owned(git_ref.as_str()));
        },
        GitCommand::Resolve { clone_dir, name } => {
            out.push(text::owned("-C"));
            out.push(text::owned(clone_dir.as_str()));
            out.push(text::owned("rev-parse"));
            out.push(text::owned("--verify"));
            out.push(text::owned(name.as_str()));
        },
        GitCommand::Checkout { worktree, sha } => {
            out.push(text::owned("-C"));
            out.push(text::owned(worktree.as_str()));
            out.push(text::owned("checkout"));
            out.push(text::owned("--force"));
            out.push(text::owned(sha.as_str()));
        },
        GitCommand::Prune { clone_dir } => {
            out.push(text::owned("-C"));
            out.push(text::owned(clone_dir.as_str()));
            out.push(text::owned("worktree"));
            out.push(text::owned("prune"));
        },
        GitCommand::Add { clone_dir, worktree, sha } => {
            out.push(text::owned("-C"));
            out.push(text::owned(clone_dir.as_str()));
            out.push(text::owned("worktree"));
            out.push(text::owned("add"));
            out.push(text::owned("--detach"));
            out.push(text::owned(worktree.as_str()));
            out.push(text::owned(sha.as_str()));
        },
    }
    assert(out.deep_view() =~= git_words(command@));
    out
}

/// How many seconds a command of git may take.
pub fn git_timeout(command: &GitCommand) -> (r: u64)
    ensures
        r == (match command@ {
            GitCommandModel::Clone { .. } => CLONE_TIMEOUT_SECS,
            GitCommandModel::Fetch { .. } => FETCH_TIMEOUT_SECS,
            _ => GIT_TIMEOUT_SECS,
        }),
{
    match command {
        GitCommand::Clone { .. } => CLONE_TIMEOUT_SECS,
        GitCommand::Fetch { .. } => FETCH_TIMEOUT_SECS,
        _ => GIT_TIMEOUT_SECS,
    }
}

/// The names under which a ref is looked for: its own, then that of the remote branch.
pub open spec fn ref_names(git_ref: Seq<char>) -> Seq<Seq<char>> {
    seq![git_ref + "^{commit}"@, "origin/"@ + git_ref + "^{commit}"@]
}

pub fn ref_candidates(git_ref: &str) -> (r: Vec<String>)
    ensures
        r.deep_view() == ref_names(git_ref@),
{
    let mut out: Vec<String> = Vec::new();
    let mut a = text::owned(git_ref);
    a.append("^{commit}");
    let mut b = text::owned("origin/");
    b.append(git_ref);
    b.append("^{commit}");
    out.push(a);
    out.push(b);
    assert(out.deep_view() =~= ref_names(git_ref@));
    out
}

/// The first answer, from `i` on, that succeeded.
pub open spec fn first_success(answers: Seq<GitResult>, i: int) -> Option<Seq<char>>
    decreases answers.len() - i,
{
    if i < 0 || i >= answers.len() {
        None
    } else if answers[i].success {
        Some(chars::trim(answers[i].stdout@))
    } else {
        first_success(answers, i + 1)
    }
}

/// The commit that a ref stands for: what git answered to the first name that it knows.
pub fn resolve_ref(answers: &Vec<GitResult>) -> (r: Option<String>)
    ensures
        r.deep_view() == first_success(answers@, 0),
{
    let mut i: usize = 0;
    while i < answers.len()
        invariant
            i <= answers@.len(),
            first_success(answers@, 0) == first_success(answers@, i as int),
        decreases answers@.len() - i,
    {
        if answers[i].success {
            return Some(text::owned(text::trim(answers[i].stdout.as_str())));
        }
        i = i + 1;
    }
    None
}

} // verus!
