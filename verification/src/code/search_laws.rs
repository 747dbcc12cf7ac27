//! What a search, and the reading of a file, show.

use crate::chars;
use crate::code::search::{
    below, binary, capped, finds, found_more, is_window, shown, shown_of, trim_front_seps,
    unreadable, FoundModel, MatchModel, ReadFileOutput,
};
use crate::infra::pathname::{is_sep, trim_seps, Platform};
use vstd::prelude::*;

verus! {

/// How many of the first `n` lines the pattern is in.
pub open spec fn hit_count(hits: Seq<bool>, n: int) -> nat
    decreases n,
{
    if n <= 0 {
        0
    } else {
        hit_count(hits, n - 1) + if hits[n - 1] {
            1nat
        } else {
            0nat
        }
    }
}

/// Some find is line `i` of the file.
pub open spec fn is_found(found: Seq<MatchModel>, file: Seq<char>, line: int, text: Seq<char>) -> bool {
    exists|k: int|
        0 <= k < found.len() && (#[trigger] found[k]).file == file && found[k].line == line
            && found[k].text == text
}

proof fn lemma_finds(
    file: Seq<char>,
    lines: Seq<Seq<char>>,
    hits: Seq<bool>,
    context: int,
    n: int,
)
    requires
        0 <= n <= lines.len(),
        lines.len() == hits.len(),
    ensures
        ({
            let found = finds(file, lines, hits, context, n);
            &&& found.len() == hit_count(hits, n)
            &&& forall|i: int|
                #![trigger hits[i]]
                0 <= i < n && hits[i] ==> is_found(found, file, i + 1, lines[i])
            &&& forall|k: int|
                0 <= k < found.len() ==> {
                    let f = #[trigger] found[k];
                    1 <= f.line <= n && hits[f.line - 1] && f.file == file && f.text == lines[f.line
                        - 1]
                }
            &&& forall|a: int, b: int|
                0 <= a < b < found.len() ==> (#[trigger] found[a]).line < (#[trigger] found[b]).line
        }),
    decreases n,
{
    if n > 0 {
        lemma_finds(file, lines, hits, context, n - 1);
        let before = finds(file, lines, hits, context, n - 1);
        let found = finds(file, lines, hits, context, n);
        assert forall|i: int| #![trigger hits[i]] 0 <= i < n && hits[i] implies is_found(
            found,
            file,
            i + 1,
            lines[i],
        ) by {
            if i < n - 1 {
                assert(is_found(before, file, i + 1, lines[i]));
                let k = choose|k: int|
                    0 <= k < before.len() && (#[trigger] before[k]).file == file && before[k].line
                        == i + 1 && before[k].text == lines[i];
                assert(found[k] == before[k]);
            } else {
                assert(found[found.len() - 1].line == n);
            }
        }
    }
}

/// Every line that the pattern is in is found, with its number and its text, and no other
/// line is: there are as many finds as there are such lines, and they come in the order of
/// the lines.
pub proof fn law_every_hit_is_found(
    file: Seq<char>,
    lines: Seq<Seq<char>>,
    hits: Seq<bool>,
    context: int,
)
    requires
        lines.len() == hits.len(),
    ensures
        ({
            let found = finds(file, lines, hits, context, lines.len() as int);
            &&& found.len() == hit_count(hits, hits.len() as int)
            &&& forall|i: int|
                #![trigger hits[i]]
                0 <= i < hits.len() && hits[i] ==> is_found(found, file, i + 1, lines[i])
            &&& forall|k: int|
                0 <= k < found.len() ==> {
                    let f = #[trigger] found[k];
                    1 <= f.line <= lines.len() && hits[f.line - 1] && f.file == file && f.text
                        == lines[f.line - 1]
                }
            &&& forall|a: int, b: int|
                0 <= a < b < found.len() ==> (#[trigger] found[a]).line < (#[trigger] found[b]).line
        }),
{
    lemma_finds(file, lines, hits, context, lines.len() as int);
}

/// The lines around a find are those right before and right behind it, each with its number
/// and its text: as many as were asked for, fewer only where the file ends.
pub open spec fn has_context(f: MatchModel, lines: Seq<Seq<char>>, context: int) -> bool {
    let b = f.context_before;
    let a = f.context_after;
    &&& b.len() <= context && a.len() <= context
    &&& b.len() == context || b.len() == f.line - 1
    &&& a.len() == context || a.len() == lines.len() - f.line
    &&& forall|j: int|
        0 <= j < b.len() ==> (#[trigger] b[j]).0 == f.line - b.len() + j && b[j].1 == lines[b[j].0
            - 1]
    &&& forall|j: int|
        0 <= j < a.len() ==> (#[trigger] a[j]).0 == f.line + 1 + j && a[j].1 == lines[a[j].0 - 1]
}

proof fn lemma_context(
    file: Seq<char>,
    lines: Seq<Seq<char>>,
    hits: Seq<bool>,
    context: int,
    n: int,
    k: int,
)
    requires
        0 <= n <= lines.len() <= usize::MAX,
        lines.len() == hits.len(),
        0 <= context,
        0 <= k < finds(file, lines, hits, context, n).len(),
    ensures
        has_context(finds(file, lines, hits, context, n)[k], lines, context),
    decreases n,
{
    if n > 0 {
        let before = finds(file, lines, hits, context, n - 1);
        if k < before.len() {
            lemma_context(file, lines, hits, context, n - 1, k);
        }
    }
}

/// A find is shown with the lines around it.
pub proof fn law_find_has_its_context(
    file: Seq<char>,
    lines: Seq<Seq<char>>,
    hits: Seq<bool>,
    context: int,
    k: int,
)
    requires
        lines.len() <= usize::MAX,
        lines.len() == hits.len(),
        0 <= context,
        0 <= k < finds(file, lines, hits, context, lines.len() as int).len(),
    ensures
        has_context(finds(file, lines, hits, context, lines.len() as int)[k], lines, context),
{
    lemma_context(file, lines, hits, context, lines.len() as int, k);
}

/// Where a search is not cut short, every line of the file that the pattern is in is among
/// what it shows, and what it showed before still is, in front. It is cut short just where
/// there is more than was asked for; it then shows as much as was asked for, and from then
/// on it stays as it is.
pub proof fn law_search_that_is_not_cut_short_is_complete(
    f: FoundModel,
    file: Seq<char>,
    lines: Seq<Seq<char>>,
    hits: Seq<bool>,
    context: int,
    max: int,
)
    requires
        lines.len() == hits.len(),
        0 <= max,
        f.matches.len() <= max,
    ensures
        ({
            let more = finds(file, lines, hits, context, lines.len() as int);
            let r = found_more(f, more, max);
            &&& r.truncated <==> f.truncated || f.matches.len() + hit_count(
                hits,
                hits.len() as int,
            ) > max
            &&& f.truncated ==> r == f
            &&& !f.truncated && r.truncated ==> r.matches.len() == max
            &&& r.matches.len() <= max
            &&& f.matches.len() <= r.matches.len()
            &&& r.matches.take(f.matches.len() as int) == f.matches
            &&& !r.truncated ==> r.matches.len() == f.matches.len() + hit_count(
                hits,
                hits.len() as int,
            ) && forall|i: int|
                #![trigger hits[i]]
                0 <= i < hits.len() && hits[i] ==> is_found(r.matches, file, i + 1, lines[i])
        }),
{
    law_every_hit_is_found(file, lines, hits, context);
    let more = finds(file, lines, hits, context, lines.len() as int);
    let r = found_more(f, more, max);
    assert(r.matches.take(f.matches.len() as int) =~= f.matches);
    if !r.truncated {
        assert forall|i: int| #![trigger hits[i]] 0 <= i < hits.len() && hits[i] implies is_found(
            r.matches,
            file,
            i + 1,
            lines[i],
        ) by {
            assert(is_found(more, file, i + 1, lines[i]));
            let k = choose|k: int|
                0 <= k < more.len() && (#[trigger] more[k]).file == file && more[k].line == i + 1
                    && more[k].text == lines[i];
            assert(r.matches[f.matches.len() + k] == more[k]);
        }
    }
}

/// A part of a file holds the lines in a row, from the one asked for on, each with its number
/// and its text: as many as were asked for, fewer only where the file ends. It says that there
/// is more just where its last line is not the last of the file.
pub proof fn law_part_holds_lines_in_a_row(
    out: ReadFileOutput,
    lines: Seq<Seq<char>>,
    offset: int,
    limit: int,
)
    requires
        is_window(out, lines, offset, limit),
        0 <= offset,
        0 <= limit,
        lines.len() <= usize::MAX,
    ensures
        ({
            let first = if offset == 0 {
                1
            } else {
                offset
            };
            let shown = out.lines.deep_view();
            &&& out.total_lines == lines.len()
            &&& out.offset == first
            &&& shown.len() <= limit
            &&& out.limit == shown.len()
            &&& forall|k: int|
                0 <= k < shown.len() ==> (#[trigger] shown[k]).0 == first + k && shown[k].1
                    == lines[first + k - 1]
            &&& first + shown.len() - 1 <= lines.len() || shown.len() == 0
            &&& shown.len() < limit ==> first + shown.len() > lines.len()
            &&& out.truncated <==> first + shown.len() <= lines.len()
        }),
{
    let shown = out.lines.deep_view();
    assert(shown.len() == out.lines@.len());
}

/// A file is read just where it is no directory and has at most 5 MiB.
pub proof fn law_files_that_are_read(rel: Seq<char>, is_dir: bool, len: u64)
    ensures
        unreadable(rel, is_dir, len) is None <==> !is_dir && len <= 5 * 1024 * 1024,
        is_dir ==> chars::starts_with(unreadable(rel, is_dir, len)->0, rel),
{
    if is_dir {
        let t = rel + " is a directory; use code_list_files"@;
        assert(t.subrange(0, rel.len() as int) =~= rel);
    }
}

/// A zero behind the first 8 KiB does not make a file binary, and one among them does,
/// whatever stands behind them.
pub proof fn law_binary_is_told_by_the_front(front: Seq<u8>, behind: Seq<u8>, more: Seq<u8>)
    requires
        front.len() == 8192,
    ensures
        binary(front + behind) == binary(front + more),
        binary(front + behind) <==> front.contains(0),
        behind.len() <= 8192 ==> (binary(behind) <==> behind.contains(0)),
{
    if front.contains(0) {
        let i = choose|i: int| 0 <= i < front.len() && front[i] == 0;
        assert((front + behind)[i] == 0);
        assert((front + more)[i] == 0);
    }
    if binary(front + behind) {
        let i = choose|i: int|
            0 <= i < (front + behind).len() && i < 8192 && #[trigger] (front + behind)[i] == 0;
        assert(front[i] == 0);
    }
    if binary(front + more) {
        let i = choose|i: int|
            0 <= i < (front + more).len() && i < 8192 && #[trigger] (front + more)[i] == 0;
        assert(front[i] == 0);
    }
}

proof fn lemma_front_seps(rel: Seq<char>, p: Platform)
    requires
        rel.len() > 0,
        !is_sep(rel[0], p),
    ensures
        crate::code::search::trim_front_seps(seq!['/'] + rel, p) == rel,
{
    let s = seq!['/'] + rel;
    assert(s[0] == '/');
    assert(s.drop_first() =~= rel);
    assert(crate::code::search::trim_front_seps(rel, p) == rel);
}

/// A file of a checkout is shown by what stands behind the checkout, with forward slashes; a
/// path that is not below it is shown as it is.
pub proof fn law_file_is_shown_from_the_checkout(
    worktree: Seq<char>,
    rel: Seq<char>,
    path: Seq<char>,
    p: Platform,
)
    requires
        worktree.len() > 0,
        !is_sep(worktree.last(), p),
        rel.len() > 0,
        !is_sep(rel[0], p),
    ensures
        !rel.contains('\\') ==> shown(worktree + (seq!['/'] + rel), worktree, p) == rel,
        shown(worktree + (seq!['/'] + rel), worktree, p) == chars::replace_char(rel, '\\', "/"@),
        !chars::starts_with(path, worktree) ==> shown(path, worktree, p) == path,
{
    assert(trim_seps(worktree, p) == worktree);
    let s = worktree + (seq!['/'] + rel);
    assert(s.subrange(0, worktree.len() as int) =~= worktree);
    assert(s[worktree.len() as int] == '/');
    assert(s.subrange(worktree.len() as int, s.len() as int) =~= seq!['/'] + rel);
    lemma_front_seps(rel, p);
    crate::chars_laws::law_replacing_goes_through_the_text(rel, rel, '\\', '\\', "/"@);
}

/// Of all that was found the first so many are shown, in their order, and it is said that
/// there were more where there were.
pub proof fn law_first_finds_are_shown(all: Seq<MatchModel>, max: int)
    requires
        max >= 0,
    ensures
        shown_of(all, max).matches.len() == if all.len() < max {
            all.len() as int
        } else {
            max
        },
        shown_of(all, max).matches.is_prefix_of(all),
        shown_of(all, max).truncated <==> shown_of(all, max).matches.len() < all.len(),
        capped(all, max) == shown_of(all, max).matches,
{
    assert(capped(all, max) =~= all.subrange(0, capped(all, max).len() as int));
}

/// To search in parts comes to the same as to search at once: what is found later is shown
/// behind what was found before, and nothing is added to a search that was cut short.
pub proof fn law_searching_in_parts(a: Seq<MatchModel>, b: Seq<MatchModel>, max: int)
    requires
        max >= 0,
    ensures
        found_more(shown_of(a, max), b, max) == shown_of(a + b, max),
        found_more(shown_of(Seq::empty(), max), b, max) == shown_of(b, max),
{
    let e = Seq::<MatchModel>::empty();
    assert(e + b =~= b);
    if a.len() > max {
        assert(a.take(max) =~= (a + b).take(max));
    }
}

/// Separators at the front go, and nothing else: what is left starts with none.
pub proof fn law_front_separators_go(s: Seq<char>, p: Platform)
    ensures
        ({
            let r = trim_front_seps(s, p);
            let k = s.len() - r.len();
            &&& 0 <= k && r == s.subrange(k, s.len() as int)
            &&& forall|i: int| 0 <= i < k ==> is_sep(#[trigger] s[i], p)
            &&& r.len() > 0 ==> !is_sep(r[0], p)
        }),
    decreases s.len(),
{
    if s.len() > 0 && is_sep(s[0], p) {
        let t = s.drop_first();
        law_front_separators_go(t, p);
        let r = trim_front_seps(t, p);
        let k = t.len() - r.len();
        assert(r =~= s.subrange(k + 1, s.len() as int));
        assert(trim_front_seps(s, p) == r);
        assert forall|i: int| 0 <= i < k + 1 implies is_sep(#[trigger] s[i], p) by {
            if i > 0 {
                assert(t[i - 1] == s[i]);
            }
        }
    } else {
        assert(s =~= s.subrange(0, s.len() as int));
    }
}

/// What lies below a checkout is spelled with the checkout at its front and a separator behind
/// that: another directory whose name begins alike does not count.
pub proof fn law_below_the_checkout(dir: Seq<char>, c: char, rest: Seq<char>, p: Platform)
    requires
        dir.len() > 0,
        trim_seps(dir, p) == dir,
    ensures
        below(dir, dir, p),
        below(dir.push(c) + rest, dir, p) <==> is_sep(c, p),
        below(rest, dir, p) ==> chars::starts_with(rest, dir),
{
    let path = dir.push(c) + rest;
    assert(path.subrange(0, dir.len() as int) =~= dir);
    assert(dir.subrange(0, dir.len() as int) =~= dir);
    assert(path[dir.len() as int] == c);
}

/// Why something is not read is said: that it is a directory, or how large it is and may be.
pub proof fn law_unreadable_in_words(rel: Seq<char>, len: u64)
    ensures
        unreadable(rel, true, len) == Some(rel + " is a directory; use code_list_files"@),
        len > 5242880 ==> unreadable(rel, false, len) == Some(
            "file too large ("@ + chars::dec(len as nat) + " bytes > "@ + chars::dec(5242880)
                + "); use code_search with a pattern to locate content"@,
        ),
{
}

} // verus!
