//! Reading, searching and listing the files of a checkout.

use crate::chars;
use crate::infra::pathname;
use crate::infra::pathname::{is_sep, is_under, trim_seps, Platform};
use crate::order;
use crate::order::{OrderKey, OrderKeyModel};
use crate::outside;
use crate::regexes;
use crate::text;
use vstd::prelude::*;

verus! {

pub const DEFAULT_READ_LINES: usize = 2000;

pub const MAX_READ_LINES: usize = 5000;

/// Files above this size are neither read nor searched.
pub const MAX_FILE_BYTES: u64 = 5_242_880;

pub const DEFAULT_MAX_RESULTS: usize = 100;

pub const MAX_RESULTS_CAP: usize = 500;

pub const DEFAULT_CONTEXT_LINES: usize = 2;

pub const MAX_CONTEXT_LINES: usize = 10;

pub const LIST_MAX: usize = 500;

/// How many bytes tell whether a file is binary.
pub const BINARY_SNIFF_BYTES: usize = 8192;

/// What a path inside a checkout stands for. `worktree` and `target` are what the system
/// says the checkout and the path in it really are. A path that leads out of the checkout
/// is refused.
pub fn resolve_in_worktree(
    worktree: &Result<String, String>,
    rel: &str,
    target: &Result<String, String>,
    platform: Platform,
) -> (r: Result<String, String>)
    ensures
        if rel@.contains('\0') {
            r is Err && r->Err_0@ == "path contains NUL"@
        } else {
            match worktree {
                Err(e) => r is Err && r->Err_0@ == "worktree not accessible: "@ + e@,
                Ok(w) => match target {
                    Err(e) => r is Err && r->Err_0@ == "path not found in repo: "@ + rel@ + ": "@
                        + e@,
                    Ok(t) => if is_under(t@, w@, platform) {
                        r is Ok && r->Ok_0@ == t@
                    } else {
                        r is Err && r->Err_0@ == "path escapes repo worktree: "@ + rel@
                    },
                },
            }
        },
{
    if text::contains_char(rel, '\0') {
        return Err(text::owned("path contains NUL"));
    }
    match worktree {
        Err(e) => {
            let mut m = text::owned("worktree not accessible: ");
            m.append(e.as_str());
            Err(m)
        },
        Ok(w) => match target {
            Err(e) => {
                let mut m = text::owned("path not found in repo: ");
                m.append(rel);
                m.append(": ");
                m.append(e.as_str());
                Err(m)
            },
            Ok(t) => {
                if pathname::lies_under(t.as_str(), w.as_str(), platform) {
                    Ok(t.clone())
                } else {
                    let mut m = text::owned("path escapes repo worktree: ");
                    m.append(rel);
                    Err(m)
                }
            },
        },
    }
}

/// A zero among the first bytes makes a file binary.
pub open spec fn binary(bytes: Seq<u8>) -> bool {
    exists|i: int| 0 <= i < bytes.len() && i < BINARY_SNIFF_BYTES && #[trigger] bytes[i] == 0
}

pub fn is_binary(bytes: &[u8]) -> (r: bool)
    ensures
        r == binary(bytes@),
{
    let mut i: usize = 0;
    while i < bytes.len() && i < BINARY_SNIFF_BYTES
        invariant
            i <= bytes@.len(),
            i <= BINARY_SNIFF_BYTES,
            forall|k: int| 0 <= k < i ==> #[trigger] bytes@[k] != 0,
        decreases bytes@.len() - i,
    {
        if bytes[i] == 0 {
            return true;
        }
        i = i + 1;
    }
    false
}

/// The path without separators at its front.
pub open spec fn trim_front_seps(s: Seq<char>, p: Platform) -> Seq<char>
    decreases s.len(),
{
    if s.len() > 0 && is_sep(s[0], p) {
        trim_front_seps(s.drop_first(), p)
    } else {
        s
    }
}

/// The path is spelled as one below the checkout.
pub open spec fn below(path: Seq<char>, worktree: Seq<char>, p: Platform) -> bool {
    let w = trim_seps(worktree, p);
    chars::starts_with(path, w) && (worktree.len() == 0 || path.len() == w.len() || is_sep(
        path[w.len() as int],
        p,
    ))
}

/// A path as it is shown: seen from the checkout, with forward slashes. One outside the
/// checkout is shown as it is.
pub open spec fn shown(path: Seq<char>, worktree: Seq<char>, p: Platform) -> Seq<char> {
    let w = trim_seps(worktree, p);
    if below(path, worktree, p) {
        let rest = path.subrange(w.len() as int, path.len() as int);
        chars::replace_char(
            if worktree.len() == 0 {
                rest
            } else {
                trim_front_seps(rest, p)
            },
            '\\',
            "/"@,
        )
    } else {
        path
    }
}

fn without_front_seps<'a>(s: &'a str, p: Platform) -> (r: &'a str)
    ensures
        r@ == trim_front_seps(s@, p),
{
    let v = text::to_chars(s);
    let n: usize = v.len();
    let mut i: usize = 0;
    assert(s@.skip(0) =~= s@);
    while i < n && pathname::is_separator(v[i], p)
        invariant
            i <= n == v@.len(),
            v@ == s@,
            trim_front_seps(s@, p) == trim_front_seps(s@.skip(i as int), p),
        decreases n - i,
    {
        assert(s@.skip(i as int).drop_first() =~= s@.skip(i + 1));
        i = i + 1;
    }
    assert(s@.skip(i as int) =~= s@.subrange(i as int, n as int));
    s.substring_char(i, n)
}

fn without_end_seps<'a>(s: &'a str, p: Platform) -> (r: &'a str)
    ensures
        r@ == trim_seps(s@, p),
{
    let v = text::to_chars(s);
    let mut hi: usize = v.len();
    assert(v@.subrange(0, hi as int) =~= v@);
    while hi > 0 && pathname::is_separator(v[hi - 1], p)
        invariant
            hi <= v@.len(),
            v@ == s@,
            trim_seps(v@, p) == trim_seps(v@.subrange(0, hi as int), p),
        decreases hi,
    {
        assert(v@.subrange(0, hi as int).drop_last() =~= v@.subrange(0, hi - 1));
        hi = hi - 1;
    }
    s.substring_char(0, hi)
}

pub fn rel_display(path: &str, worktree: &str, platform: Platform) -> (r: String)
    ensures
        r@ == shown(path@, worktree@, platform),
{
    let w = without_end_seps(worktree, platform);
    let n: usize = w.unicode_len();
    match text::strip_prefix(path, w) {
        None => text::owned(path),
        Some(rest) => {
            let v = text::to_chars(rest);
            if worktree.is_empty() {
                return text::replace_char(rest, '\\', "/");
            }
            if v.len() == 0 || pathname::is_separator(v[0], platform) {
                proof {
                    if v@.len() > 0 {
                        assert(v@[0] == path@[w@.len() as int]);
                    }
                }
                text::replace_char(without_front_seps(rest, platform), '\\', "/")
            } else {
                assert(v@[0] == path@[w@.len() as int]);
                text::owned(path)
            }
        },
    }
}

/// Part of a file, line by line, with the number of each line.
#[derive(Debug)]
pub struct ReadFileOutput {
    pub total_lines: usize,
    pub offset: usize,
    pub limit: usize,
    pub lines: Vec<(usize, String)>,
    /// There is more behind the part.
    pub truncated: bool,
}

/// The line that a part starts with, counted from 0; one before the first counts as the first.
pub open spec fn first_shown(offset: int) -> int {
    if offset < 1 {
        0
    } else {
        offset - 1
    }
}

/// The lines from `from` up to `to`, each with its number counted from 1.
pub open spec fn numbered(lines: Seq<Seq<char>>, from: int, to: int) -> Seq<(usize, Seq<char>)> {
    Seq::new(
        if from < to { (to - from) as nat } else { 0 },
        |i: int| ((from + i + 1) as usize, lines[from + i]),
    )
}

pub open spec fn min(a: int, b: int) -> int {
    if a <= b {
        a
    } else {
        b
    }
}

pub open spec fn is_window(
    out: ReadFileOutput,
    lines: Seq<Seq<char>>,
    offset: int,
    limit: int,
) -> bool {
    let start = first_shown(offset);
    let end = min(start + limit, lines.len() as int);
    &&& out.total_lines == lines.len()
    &&& out.offset == start + 1
    &&& out.lines.deep_view() == numbered(lines, start, end)
    &&& out.limit == out.lines@.len()
    &&& out.truncated == (start + out.lines@.len() < lines.len())
}

fn number_lines(lines: &Vec<String>, from: usize, to: usize) -> (r: Vec<(usize, String)>)
    requires
        to <= lines@.len(),
    ensures
        r.deep_view() == numbered(lines.deep_view(), from as int, to as int),
{
    let ghost all = lines.deep_view();
    let n: usize = lines.len();
    let mut out: Vec<(usize, String)> = Vec::new();
    let mut i: usize = from;
    assert(out.deep_view() =~= numbered(all, from as int, from as int));
    while i < to
        invariant
            to <= n == lines@.len(),
            from <= i,
            from < to ==> i <= to,
            from >= to ==> i == from,
            all == lines.deep_view(),
            out.deep_view() == numbered(all, from as int, i as int),
        decreases to - i,
    {
        assert(all[i as int] == lines@[i as int]@);
        let ghost before = out.deep_view();
        let pair: (usize, String) = (i + 1, lines[i].clone());
        let ghost m: (usize, Seq<char>) = (pair.0, pair.1@);
        out.push(pair);
        assert(out.deep_view() =~= before.push(m));
        i = i + 1;
        assert(out.deep_view() =~= numbered(all, from as int, i as int));
    }
    assert(out.deep_view() =~= numbered(all, from as int, to as int));
    out
}

/// A part of a text: at most `limit` lines from line `offset` on, counted from 1.
pub fn read_window(content: &str, offset: usize, limit: usize) -> (r: ReadFileOutput)
    ensures
        is_window(r, chars::lines(content@), offset as int, limit as int),
{
    let lines = text::lines(content);
    let total: usize = lines.len();
    let start: usize = if offset < 1 { 0 } else { offset - 1 };
    let end: usize = if start >= total {
        total
    } else if limit >= total - start {
        total
    } else {
        start + limit
    };
    let shown = number_lines(&lines, start, end);
    assert(shown.deep_view().len() == shown@.len());
    assert(numbered(lines.deep_view(), start as int, end as int) =~= numbered(
        lines.deep_view(),
        start as int,
        min(start + limit, total as int),
    ));
    let count: usize = shown.len();
    let truncated = start < total && count < total - start;
    ReadFileOutput { total_lines: total, offset: start + 1, limit: count, lines: shown, truncated }
}

/// Why something is not read as a file, as far as its kind and size tell.
pub open spec fn unreadable(rel: Seq<char>, is_dir: bool, len: u64) -> Option<Seq<char>> {
    if is_dir {
        Some(rel + " is a directory; use code_list_files"@)
    } else if len > MAX_FILE_BYTES {
        Some(
            "file too large ("@ + chars::dec(len as nat) + " bytes > "@ + chars::dec(
                MAX_FILE_BYTES as nat,
            ) + "); use code_search with a pattern to locate content"@,
        )
    } else {
        None
    }
}

pub fn check_readable(rel: &str, is_dir: bool, len: u64) -> (r: Result<(), String>)
    ensures
        match unreadable(rel@, is_dir, len) {
            Some(why) => r is Err && r->Err_0@ == why,
            None => r is Ok,
        },
{
    if is_dir {
        let mut m = text::owned(rel);
        m.append(" is a directory; use code_list_files");
        return Err(m);
    }
    if len > MAX_FILE_BYTES {
        let mut m = text::owned("file too large (");
        m.append(text::dec(len).as_str());
        m.append(" bytes > ");
        m.append(text::dec(MAX_FILE_BYTES).as_str());
        m.append("); use code_search with a pattern to locate content");
        return Err(m);
    }
    Ok(())
}

/// A part of a file, from its bytes.
pub fn read_file(rel: &str, bytes: &Vec<u8>, offset: usize, limit: usize) -> (r: Result<
    ReadFileOutput,
    String,
>)
    ensures
        if binary(bytes@) {
            r is Err && r->Err_0@ == rel@ + " is a binary file"@
        } else {
            r is Ok && is_window(
                r->Ok_0,
                chars::lines(outside::lossy(bytes@)),
                offset as int,
                limit as int,
            )
        },
{
    if is_binary(bytes.as_slice()) {
        let mut m = text::owned(rel);
        m.append(" is a binary file");
        return Err(m);
    }
    let content = outside::from_utf8_lossy(bytes);
    Ok(read_window(content.as_str(), offset, limit))
}

/// A line that a pattern was found in, with the lines around it.
#[derive(Debug)]
pub struct SearchMatch {
    pub file: String,
    pub line: usize,
    pub text: String,
    pub context_before: Vec<(usize, String)>,
    pub context_after: Vec<(usize, String)>,
}

#[verifier::ext_equal]
pub struct MatchModel {
    pub file: Seq<char>,
    pub line: int,
    pub text: Seq<char>,
    pub context_before: Seq<(usize, Seq<char>)>,
    pub context_after: Seq<(usize, Seq<char>)>,
}

impl View for SearchMatch {
    type V = MatchModel;

    open spec fn view(&self) -> MatchModel {
        MatchModel {
            file: self.file@,
            line: self.line as int,
            text: self.text@,
            context_before: self.context_before.deep_view(),
            context_after: self.context_after.deep_view(),
        }
    }
}

pub open spec fn match_models(s: Seq<SearchMatch>) -> Seq<MatchModel> {
    s.map_values(|m: SearchMatch| m@)
}

#[derive(Debug)]
pub struct SearchOutput {
    pub matches: Vec<SearchMatch>,
    /// There are more than were asked for.
    pub truncated: bool,
}

/// Line `i` of a file as a find: at most `context` lines before it and behind it.
pub open spec fn find_at(
    file: Seq<char>,
    lines: Seq<Seq<char>>,
    i: int,
    context: int,
) -> MatchModel {
    MatchModel {
        file,
        line: i + 1,
        text: lines[i],
        context_before: numbered(lines, if i < context { 0 } else { i - context }, i),
        context_after: numbered(lines, i + 1, min(i + 1 + context, lines.len() as int)),
    }
}

/// The finds among the first `n` lines of a file.
pub open spec fn finds(
    file: Seq<char>,
    lines: Seq<Seq<char>>,
    hits: Seq<bool>,
    context: int,
    n: int,
) -> Seq<MatchModel>
    decreases n,
{
    if n <= 0 {
        Seq::empty()
    } else if hits[n - 1] {
        finds(file, lines, hits, context, n - 1).push(find_at(file, lines, n - 1, context))
    } else {
        finds(file, lines, hits, context, n - 1)
    }
}

/// The first `max` of all that was found.
pub open spec fn capped(all: Seq<MatchModel>, max: int) -> Seq<MatchModel> {
    if all.len() <= max {
        all
    } else {
        all.take(max)
    }
}

/// What a search has found: of all that there is, the first `max`, and whether there is more.
#[verifier::ext_equal]
pub struct FoundModel {
    pub matches: Seq<MatchModel>,
    pub truncated: bool,
}

/// What a search shows of all that there is.
pub open spec fn shown_of(all: Seq<MatchModel>, max: int) -> FoundModel {
    FoundModel { matches: capped(all, max), truncated: all.len() > max }
}

/// A search that has come so far finds more.
pub open spec fn found_more(f: FoundModel, more: Seq<MatchModel>, max: int) -> FoundModel {
    if f.truncated {
        f
    } else {
        shown_of(f.matches + more, max)
    }
}

/// A search through the files of a checkout.
#[derive(Debug)]
pub struct SearchRun {
    pub context: usize,
    pub max_results: usize,
    pub output: SearchOutput,
}

impl SearchRun {
    pub open spec fn found(&self) -> FoundModel {
        FoundModel {
            matches: match_models(self.output.matches@),
            truncated: self.output.truncated,
        }
    }

    pub open spec fn wf(&self) -> bool {
        &&& self.context <= MAX_CONTEXT_LINES
        &&& self.max_results <= MAX_RESULTS_CAP
        &&& self.output.matches@.len() <= self.max_results
    }

    /// Begins a search; what is asked for beyond the limits is cut down to them.
    pub fn new(context: usize, max_results: usize) -> (r: Self)
        ensures
            r.wf(),
            r.context == min(context as int, MAX_CONTEXT_LINES as int),
            r.max_results == min(max_results as int, MAX_RESULTS_CAP as int),
            r.found() == shown_of(Seq::empty(), r.max_results as int),
    {
        let r = SearchRun {
            context: if context <= MAX_CONTEXT_LINES {
                context
            } else {
                MAX_CONTEXT_LINES
            },
            max_results: if max_results <= MAX_RESULTS_CAP {
                max_results
            } else {
                MAX_RESULTS_CAP
            },
            output: SearchOutput { matches: Vec::new(), truncated: false },
        };
        assert(match_models(r.output.matches@) =~= Seq::<MatchModel>::empty());
        r
    }

    /// Takes the lines of a file in, `hits[i]` telling whether the pattern is in line `i`.
    /// The search is over once there are more finds than were asked for.
    pub fn take_lines(&mut self, file: &str, lines: &Vec<String>, hits: &Vec<bool>)
        requires
            old(self).wf(),
            hits@.len() == lines@.len(),
        ensures
            final(self).wf(),
            final(self).context == old(self).context,
            final(self).max_results == old(self).max_results,
            final(self).found() == found_more(
                old(self).found(),
                finds(
                    file@,
                    lines.deep_view(),
                    hits@,
                    old(self).context as int,
                    lines@.len() as int,
                ),
                old(self).max_results as int,
            ),
    {
        if self.output.truncated {
            return;
        }
        let ghost ls = lines.deep_view();
        let ghost ctx = self.context as int;
        let ghost all = match_models(self.output.matches@);
        let ghost max = self.max_results as int;
        let n: usize = lines.len();
        let mut i: usize = 0;
        assert(all + finds(file@, ls, hits@, ctx, 0) =~= all);
        while i < n
            invariant
                i <= n == lines@.len(),
                hits@.len() == n,
                ls == lines.deep_view(),
                ctx == self.context as int,
                max == self.max_results as int,
                self.context == old(self).context,
                self.max_results == old(self).max_results,
                self.wf(),
                self.found() == shown_of(all + finds(file@, ls, hits@, ctx, i as int), max),
            decreases n - i,
        {
            let ghost so_far = all + finds(file@, ls, hits@, ctx, i as int);
            if hits[i] {
                let ghost grown = so_far.push(find_at(file@, ls, i as int, ctx));
                assert(all + finds(file@, ls, hits@, ctx, i + 1) =~= grown);
                if self.output.truncated || self.output.matches.len() >= self.max_results {
                    self.output.truncated = true;
                    assert(capped(grown, max) =~= capped(so_far, max));
                } else {
                    let from: usize = if i < self.context { 0 } else { i - self.context };
                    let to: usize = if self.context >= n - (i + 1) {
                        n
                    } else {
                        i + 1 + self.context
                    };
                    assert(ls[i as int] == lines@[i as int]@);
                    let found = SearchMatch {
                        file: text::owned(file),
                        line: i + 1,
                        text: lines[i].clone(),
                        context_before: number_lines(lines, from, i),
                        context_after: number_lines(lines, i + 1, to),
                    };
                    assert(found@ =~= find_at(file@, ls, i as int, ctx));
                    let ghost before = match_models(self.output.matches@);
                    let ghost m = found@;
                    self.output.matches.push(found);
                    assert(match_models(self.output.matches@) =~= before.push(m));
                    assert(so_far.len() <= max);
                    assert(so_far.len() < max);
                }
            }
            i = i + 1;
        }
    }

    /// Takes a file in: one that is too large or binary is passed over. Says what is wrong
    /// with the pattern, where it is one that cannot be searched for.
    pub fn take_file(&mut self, file: &str, bytes: &Vec<u8>, pattern: &str) -> (r: Result<
        (),
        String,
    >)
        requires
            old(self).wf(),
        ensures
            final(self).wf(),
            final(self).context == old(self).context,
            final(self).max_results == old(self).max_results,
            match regexes::pattern_error(pattern@) {
                Some(e) => r is Err && r->Err_0@ == "invalid regex pattern: "@ + e
                    && final(self).found() == old(self).found(),
                None => {
                    let lines = chars::lines(outside::lossy(bytes@));
                    let hits = Seq::new(
                        lines.len(),
                        |i: int| regexes::matching(pattern@, lines[i]),
                    );
                    &&& r is Ok
                    &&& final(self).found() == (if bytes@.len() > MAX_FILE_BYTES || binary(bytes@) {
                        old(self).found()
                    } else {
                        found_more(
                            old(self).found(),
                            finds(
                                file@,
                                lines,
                                hits,
                                old(self).context as int,
                                lines.len() as int,
                            ),
                            old(self).max_results as int,
                        )
                    })
                },
            },
    {
        let content = outside::from_utf8_lossy(bytes);
        let lines = text::lines(content.as_str());
        match regexes::match_each(pattern, &lines) {
            Err(e) => {
                let mut m = text::owned("invalid regex pattern: ");
                m.append(e.as_str());
                Err(m)
            },
            Ok(hits) => {
                let ghost ls = chars::lines(outside::lossy(bytes@));
                proof {
                    assert forall|i: int| 0 <= i < hits@.len() implies hits@[i]
                        == regexes::matching(pattern@, ls[i]) by {
                        assert(ls[i] == lines@[i]@);
                    }
                    assert(hits@ =~= Seq::new(
                        ls.len(),
                        |i: int| regexes::matching(pattern@, ls[i]),
                    ));
                }
                if bytes.len() as u64 <= MAX_FILE_BYTES && !is_binary(bytes.as_slice()) {
                    self.take_lines(file, &lines, &hits);
                }
                Ok(())
            },
        }
    }
}

/// Whether a pattern is one that can be searched for; if not, what is wrong with it.
pub fn check_pattern(pattern: &str) -> (r: Result<(), String>)
    ensures
        match regexes::pattern_error(pattern@) {
            Some(e) => r is Err && r->Err_0@ == "invalid regex pattern: "@ + e,
            None => r is Ok,
        },
{
    let none: Vec<String> = Vec::new();
    match regexes::match_each(pattern, &none) {
        Err(e) => {
            let mut m = text::owned("invalid regex pattern: ");
            m.append(e.as_str());
            Err(m)
        },
        Ok(_) => Ok(()),
    }
}

/// File by file, a search shows the first finds of all files together, up to as many as
/// were asked for, and says whether there are more.
pub proof fn law_search_shows_the_first_finds(
    all: Seq<MatchModel>,
    more: Seq<MatchModel>,
    max: int,
)
    requires
        0 <= max,
    ensures
        found_more(shown_of(all, max), more, max) == shown_of(all + more, max),
{
    if all.len() > max {
        assert((all + more).take(max) =~= all.take(max));
    }
}

/// The names of the files that were come across, each seen from the checkout.
pub open spec fn names_of(paths: Seq<Seq<char>>, worktree: Seq<char>, p: Platform) -> Seq<
    Seq<char>,
> {
    paths.map_values(|path: Seq<char>| shown(path, worktree, p))
}

pub open spec fn name_keys(names: Seq<Seq<char>>) -> Seq<OrderKeyModel> {
    names.map_values(|n: Seq<char>| OrderKeyModel { rank: 0, text: n })
}

pub open spec fn in_order(names: Seq<Seq<char>>, o: Seq<usize>) -> Seq<Seq<char>> {
    Seq::new(o.len(), |i: int| names[o[i] as int])
}

/// The names, sorted, as far as a list shows them.
pub open spec fn first_of(names: Seq<Seq<char>>, o: Seq<usize>) -> Seq<Seq<char>> {
    in_order(names, o).take(min(names.len() as int, LIST_MAX as int))
}

/// `r` holds the first of the names, once they are sorted.
pub open spec fn is_list(r: Seq<Seq<char>>, names: Seq<Seq<char>>) -> bool {
    exists|o: Seq<usize>| #[trigger]
        order::is_order(name_keys(names), false, o) && r == first_of(names, o)
}

/// The files of a checkout, from all that were come across: each seen from the checkout,
/// sorted, and of these the first, as many as a list can show. Tells whether there are
/// more.
pub fn list_files(paths: &Vec<String>, worktree: &str, platform: Platform) -> (r: (
    Vec<String>,
    bool,
))
    ensures
        is_list(r.0.deep_view(), names_of(paths.deep_view(), worktree@, platform)),
        r.1 == (paths@.len() > LIST_MAX),
{
    let ghost ps = paths.deep_view();
    let ghost names = names_of(ps, worktree@, platform);
    let total: usize = paths.len();
    let n: usize = if total <= LIST_MAX { total } else { LIST_MAX };
    let mut keys: Vec<OrderKey> = Vec::new();
    let mut i: usize = 0;
    while i < total
        invariant
            i <= total == paths@.len(),
            ps == paths.deep_view(),
            names == names_of(ps, worktree@, platform),
            names.len() == total,
            keys@.len() == i,
            forall|k: int|
                0 <= k < i ==> (#[trigger] keys@[k]).rank == 0 && keys@[k].text@ == names[k],
        decreases total - i,
    {
        assert(ps[i as int] == paths@[i as int]@);
        keys.push(
            OrderKey { rank: 0, text: rel_display(paths[i].as_str(), worktree, platform) },
        );
        i = i + 1;
    }
    let ghost ks = name_keys(names);
    assert(order::key_models(keys@) =~= ks);
    let o = order::order(&keys, false);
    let mut out: Vec<String> = Vec::new();
    let mut j: usize = 0;
    while j < n
        invariant
            j <= n <= o@.len(),
            o@.len() == keys@.len() == names.len(),
            order::is_order(ks, false, o@),
            ks.len() == names.len(),
            forall|k: int| 0 <= k < keys@.len() ==> (#[trigger] keys@[k]).text@ == names[k],
            out@.len() == j,
            forall|k: int| 0 <= k < j ==> (#[trigger] out@[k])@ == names[o@[k] as int],
        decreases n - j,
    {
        assert(o@[j as int] < ks.len());
        out.push(keys[o[j]].text.clone());
        j = j + 1;
    }
    assert(out.deep_view() =~= first_of(names, o@));
    (out, total > LIST_MAX)
}

/// A list keeps the smallest names: it is in ascending order, and no name that was left
/// out is smaller than one that was kept. With names that are all different, so are those
/// of the list.
pub proof fn law_list_keeps_the_smallest(names: Seq<Seq<char>>, r: Seq<Seq<char>>)
    requires
        is_list(r, names),
    ensures
        r.len() == min(names.len() as int, LIST_MAX as int),
        forall|i: int, j: int| 0 <= i < j < r.len() ==> !chars::less(#[trigger] r[j], #[trigger] r[i]),
        forall|x: int, i: int|
            0 <= x < names.len() && 0 <= i < r.len() && chars::less(
                #[trigger] names[x],
                #[trigger] r[i],
            ) ==> r.contains(names[x]),
        names.no_duplicates() ==> r.no_duplicates(),
{
    let keys = name_keys(names);
    let o = choose|o: Seq<usize>| #[trigger]
        order::is_order(keys, false, o) && r == first_of(names, o);
    assert forall|i: int| 0 <= i < o.len() implies (#[trigger] o[i]) < names.len() by {
        assert(o[i] < keys.len());
    }
    assert forall|i: int, j: int| 0 <= i < j < o.len() implies !chars::less(
        names[#[trigger] o[j] as int],
        names[#[trigger] o[i] as int],
    ) by {
        assert(order::precedes(keys, false, o[i] as int, o[j] as int));
        chars::lemma_less_total(names[o[i] as int], names[o[j] as int]);
    }
    assert forall|i: int| 0 <= i < r.len() implies #[trigger] r[i] == names[o[i] as int] by {}
    assert forall|x: int, i: int|
        0 <= x < names.len() && 0 <= i < r.len() && chars::less(
            #[trigger] names[x],
            #[trigger] r[i],
        ) implies r.contains(names[x]) by {
        let at = order::lemma_order_is_complete(keys, false, o, x);
        if at > i {
            assert(!chars::less(names[o[at] as int], names[o[i] as int]));
        } else {
            assert(r[at] == names[x]);
        }
    }
    if names.no_duplicates() {
        assert forall|i: int, j: int| 0 <= i < j < r.len() implies r[i] != r[j] by {
            assert(order::precedes(keys, false, o[i] as int, o[j] as int));
            chars::lemma_less_total(names[o[i] as int], names[o[j] as int]);
            assert(o[i] != o[j]);
            assert(names[o[i] as int] != names[o[j] as int]);
        }
    }
}

} // verus!
