//! What asking the analyzer, and finding a `java` for it, come to.

use crate::analyzer::client::{texts, CallOutcome, ContentBlock};
use crate::analyzer::java::{
    first_good, java_in, java_version, major_of, no_java, reason_against, version_line, JavaProbe,
};
use crate::analyzer::manager::{
    answer, dump_key, elapsed, gigabytes_wanted, key_of, manager_error_text, names_heap_dump,
    opened, phase_after, plain, settled, waited, CallResult, ManagerError, OpenResult, OpenSignal,
    OpenStep, Whereabouts, GB,
};
use crate::analyzer::session::{
    apart, capped, entered, entry_of, evicted, gone_inside, kept_outside, lemma_found, touched,
    DumpModel, EntryPhase,
};
use crate::chars;
use crate::chars_laws::{
    law_first_place_is_found, law_lines_end_with_line_feeds, law_notation_is_read_back,
    law_splitting_goes_from_left_to_right,
};
use crate::infra::path_laws::{law_extension_stands_behind_the_last_dot, no_seps};
use crate::infra::pathname::{is_sep, is_under, same, Platform};
use vstd::prelude::*;

verus! {

/// An answer that is not marked as an error is handed on as it came; one that is becomes an
/// error with the same text. That the call took too long, and that the analyzer was not
/// reached, is told as such. Each comes of nothing else.
pub proof fn law_answer_is_handed_on(result: CallResult, timeout_secs: u64)
    ensures
        result is Answered && !result->Answered_0.is_error ==> answer(result, timeout_secs) == Ok::<
            CallOutcome,
            ManagerError,
        >(result->Answered_0),
        answer(result, timeout_secs) matches Ok(o) ==> result == CallResult::Answered(o)
            && !o.is_error,
        answer(result, timeout_secs) is Ok <==> result is Answered && !result->Answered_0.is_error,
        answer(result, timeout_secs) matches Err(ManagerError::Upstream(t)) ==> result is Answered
            && result->Answered_0.is_error && result->Answered_0.text == t,
        answer(result, timeout_secs) matches Err(ManagerError::Timeout(s)) ==> result is TimedOut
            && s == timeout_secs,
        answer(result, timeout_secs) matches Err(ManagerError::Unavailable(e)) ==> result
            == CallResult::TransportFailed(e),
        answer(result, timeout_secs) matches Err(e) ==> e is Upstream || e is Timeout
            || e is Unavailable,
{
}

/// A dump is ready just where the analyzer answered, and not with an error; what it answered
/// is its summary. Else it failed, with what went wrong, and it is not waited for any more.
pub proof fn law_dump_is_ready_once_opened(result: OpenResult)
    ensures
        !(phase_after(result) is Warming),
        phase_after(result) is Ready <==> result is Call && result->Call_0 is Answered
            && !result->Call_0->Answered_0.is_error,
        phase_after(result) matches EntryPhase::Ready { summary } ==> summary
            == result->Call_0->Answered_0.text,
        forall|timeout: u64|
            #![trigger answer(result->Call_0, timeout)]
            result is Call && timeout == 30 * 60 ==> match answer(result->Call_0, timeout) {
                Ok(o) => phase_after(result) == (EntryPhase::Ready { summary: o.text }),
                Err(error) => phase_after(result) == (EntryPhase::Failed { error }),
            },
        result matches OpenResult::NoClient(e) ==> phase_after(result) == (EntryPhase::Failed {
            error: e,
        }),
{
}

/// Once opening a dump came to its end, the others are as they were. So is the dump itself
/// where it is being opened under another id by now.
pub proof fn law_others_are_not_settled(
    s: Seq<DumpModel>,
    key: Seq<char>,
    id: Seq<char>,
    result: OpenResult,
    now: u64,
    p: Platform,
    k: int,
)
    requires
        0 <= k < s.len(),
        !(result is Call && result->Call_0 is TransportFailed),
    ensures
        ({
            let after = settled(s, key, id, result, now, p);
            &&& after.len() == s.len()
            &&& after[k].path == s[k].path
            &&& after[k].id == s[k].id
            &&& !same(s[k].path, key, p) || s[k].id != id ==> after[k] == s[k]
            &&& apart(s, p) && entry_of(s, key, p, 0) == Some(k) && s[k].id == id
                ==> after[k].phase == phase_after(result) && after[k].last_touched == now
        }),
{
    lemma_found(s, key, p, 0);
}

/// Without the analyzer there are no dumps.
pub proof fn law_dumps_go_with_the_analyzer(
    s: Seq<DumpModel>,
    key: Seq<char>,
    id: Seq<char>,
    e: String,
    now: u64,
    p: Platform,
)
    ensures
        settled(
            s,
            key,
            id,
            OpenResult::Call(CallResult::TransportFailed(e)),
            now,
            p,
        ).len() == 0,
{
}

/// Using a dump changes when it was used last, and nothing else of it or of another.
pub proof fn law_use_is_noted(s: Seq<DumpModel>, path: Seq<char>, now: u64, p: Platform, k: int)
    requires
        0 <= k < s.len(),
    ensures
        touched(s, path, now, p).len() == s.len(),
        touched(s, path, now, p)[k].path == s[k].path,
        touched(s, path, now, p)[k].id == s[k].id,
        touched(s, path, now, p)[k].phase == s[k].phase,
        !same(s[k].path, path, p) ==> touched(s, path, now, p)[k] == s[k],
        entry_of(s, path, p, 0) == Some(k) ==> touched(s, path, now, p)[k].last_touched == now,
{
    lemma_found(s, path, p, 0);
}

/// Only one who is told that the dump is open uses it.
pub proof fn law_waiting_uses_what_is_open(
    s: Seq<DumpModel>,
    key: Seq<char>,
    signal: OpenSignal,
    now: u64,
    p: Platform,
)
    ensures
        signal is Phase && signal->Phase_0 is Ready ==> waited(s, key, signal, now, p) == touched(
            s,
            key,
            now,
            p,
        ),
        !(signal is Phase && signal->Phase_0 is Ready) ==> waited(s, key, signal, now, p) == s,
{
}

/// What opening a dump leads to is told by how far it is: one that is open is answered from
/// what is known and used, one that is being opened is waited for, any other is opened under
/// the fresh id and known as being opened. Nothing is closed in the first two cases.
pub proof fn law_opening_goes_by_how_far_it_is(
    before: Seq<DumpModel>,
    active_before: u64,
    key: Seq<char>,
    id: Seq<char>,
    now: u64,
    p: Platform,
    after: Seq<DumpModel>,
    active_after: u64,
    step: OpenStep,
)
    requires
        opened(before, active_before, key, id, now, p, after, active_after, step),
    ensures
        ({
            let at = entry_of(before, key, p, 0);
            let phase = before[at->0].phase;
            &&& step is Cached <==> at is Some && phase is Ready
            &&& step is Attach <==> at is Some && phase is Warming
            &&& step is Begin <==> at is None || phase is Failed
            &&& step matches OpenStep::Cached(t) ==> t == phase->summary && after.len()
                == before.len()
            &&& step is Attach ==> after == before
            &&& step matches OpenStep::Begin { analyzer_id, victims } ==> analyzer_id@ == id
            &&& step is Cached ==> active_after == now
            &&& !(step is Cached) ==> active_after == active_before
        }),
{
    lemma_found(before, key, p, 0);
}

/// A dump that is being opened takes the place of what was known of it, and of nothing else.
pub proof fn law_entering_leaves_the_others(
    s: Seq<DumpModel>,
    path: Seq<char>,
    id: Seq<char>,
    now: u64,
    p: Platform,
    k: int,
)
    requires
        0 <= k < s.len(),
        !same(s[k].path, path, p),
    ensures
        entered(s, path, id, now, p)[k] == s[k],
        s.len() <= entered(s, path, id, now, p).len() <= s.len() + 1,
        entry_of(s, path, p, 0) is Some ==> entered(s, path, id, now, p).len() == s.len(),
        entry_of(s, path, p, 0) is None ==> entered(s, path, id, now, p).last() == (DumpModel {
            path,
            id,
            phase: EntryPhase::Warming,
            last_touched: now,
        }),
{
    lemma_found(s, path, p, 0);
}

/// Three dumps are kept: no more go than have to, what goes was ready, what stays and what
/// goes are all that there was, and where there is room nothing goes.
pub proof fn law_three_dumps_are_kept(s: Seq<DumpModel>)
    ensures
        capped(s).len() + evicted(s).len() == s.len(),
        s.len() <= 3 ==> capped(s) == s,
        s.len() > 3 ==> capped(s).len() >= 3,
        forall|k: int| 0 <= k < capped(s).len() ==> s.contains(#[trigger] capped(s)[k]),
        forall|k: int|
            #![trigger evicted(s)[k]]
            0 <= k < evicted(s).len() ==> exists|i: int|
                0 <= i < s.len() && (#[trigger] s[i]).phase is Ready && evicted(s)[k] == (
                    s[i].path,
                    s[i].id,
                ),
    decreases s.len(),
{
    if s.len() > 3 {
        crate::analyzer::session::law_least_recent_dump_goes_first(s, s.len() as int);
        match crate::analyzer::session::victim(s) {
            Some(i) => {
                let t = s.remove(i);
                law_three_dumps_are_kept(t);
                assert forall|k: int| 0 <= k < capped(s).len() implies s.contains(
                    #[trigger] capped(s)[k],
                ) by {
                    assert(t.contains(capped(t)[k]));
                    let j = choose|j: int| 0 <= j < t.len() && t[j] == capped(t)[k];
                    if j < i {
                        assert(s[j] == t[j]);
                    } else {
                        assert(s[j + 1] == t[j]);
                    }
                }
                assert forall|k: int| #![trigger evicted(s)[k]] 0 <= k < evicted(
                    s,
                ).len() implies exists|i: int|
                    0 <= i < s.len() && (#[trigger] s[i]).phase is Ready && evicted(s)[k] == (
                        s[i].path,
                        s[i].id,
                    ) by {
                    if k > 0 {
                        assert(evicted(s)[k] == evicted(t)[k - 1]);
                        let j = choose|j: int|
                            0 <= j < t.len() && (#[trigger] t[j]).phase is Ready && evicted(t)[k
                                - 1] == (t[j].path, t[j].id);
                        if j < i {
                            assert(s[j] == t[j]);
                        } else {
                            assert(s[j + 1] == t[j]);
                        }
                    } else {
                        assert(s[i].phase is Ready);
                    }
                }
            },
            None => {
                assert forall|k: int| 0 <= k < capped(s).len() implies s.contains(
                    #[trigger] capped(s)[k],
                ) by {
                    assert(s[k] == capped(s)[k]);
                }
            },
        }
    } else {
        assert forall|k: int| 0 <= k < capped(s).len() implies s.contains(
            #[trigger] capped(s)[k],
        ) by {
            assert(s[k] == capped(s)[k]);
        }
    }
}

/// The dumps of a directory that are told of are those that lay in it, each with its id.
pub proof fn law_directory_tells_what_it_takes(s: Seq<DumpModel>, dir: Seq<char>, p: Platform)
    ensures
        forall|k: int|
            0 <= k < s.len() && is_under((#[trigger] s[k]).path, dir, p) ==> gone_inside(
                s,
                dir,
                p,
            ).contains((s[k].path, s[k].id)),
        forall|k: int|
            #![trigger gone_inside(s, dir, p)[k]]
            0 <= k < gone_inside(s, dir, p).len() ==> exists|i: int|
                0 <= i < s.len() && is_under((#[trigger] s[i]).path, dir, p) && gone_inside(
                    s,
                    dir,
                    p,
                )[k] == (s[i].path, s[i].id),
    decreases s.len(),
{
    if s.len() > 0 {
        let t = s.drop_last();
        law_directory_tells_what_it_takes(t, dir, p);
        let g = gone_inside(s, dir, p);
        let h = gone_inside(t, dir, p);
        assert forall|k: int| 0 <= k < s.len() && is_under(
            (#[trigger] s[k]).path,
            dir,
            p,
        ) implies g.contains((s[k].path, s[k].id)) by {
            if k < t.len() {
                assert(t[k] == s[k]);
                let j = choose|j: int| 0 <= j < h.len() && h[j] == (s[k].path, s[k].id);
                assert(g[j] == h[j]);
            } else {
                assert(g[g.len() - 1] == (s[k].path, s[k].id));
            }
        }
        assert forall|k: int| #![trigger g[k]] 0 <= k < g.len() implies exists|i: int|
            0 <= i < s.len() && is_under((#[trigger] s[i]).path, dir, p) && g[k] == (
                s[i].path,
                s[i].id,
            ) by {
            if k < h.len() {
                assert(g[k] == h[k]);
                let i = choose|i: int|
                    0 <= i < t.len() && is_under((#[trigger] t[i]).path, dir, p) && h[k] == (
                        t[i].path,
                        t[i].id,
                    );
                assert(s[i] == t[i]);
            } else {
                assert(is_under(s[s.len() - 1].path, dir, p));
            }
        }
    }
}

/// The gigabytes wanted for a dump are enough for one and a half times its size, and one
/// less would not be.
pub proof fn law_memory_is_just_enough(size: u64)
    ensures
        0x8000_0000 * gigabytes_wanted(size) >= 3 * size,
        size > 0 ==> 0x8000_0000 * (gigabytes_wanted(size) - 1) < 3 * size,
{
    assert(2 * GB == 2147483648int);
    let n = 3 * size + 2147483647int;
    assert(gigabytes_wanted(size) == n / 2147483648int);
}

/// Time passes from the one moment to the other; none does where the clock went back.
pub proof fn law_time_passes(since: u64, now: u64)
    ensures
        elapsed(since, now) >= 0,
        now >= since ==> since + elapsed(since, now) == now,
        now <= since ==> elapsed(since, now) == 0,
{
}

/// The prefix that keeps Windows from interpreting a path is taken off, and nothing else.
pub proof fn law_verbatim_prefix_is_taken_off(p: Seq<char>)
    ensures
        plain("\\\\?\\UNC\\"@ + p) == "\\\\"@ + p,
        !chars::starts_with(p, "UNC\\"@) ==> plain("\\\\?\\"@ + p) == p,
        p.len() == 0 || p[0] != '\\' ==> plain(p) == p,
{
    reveal_strlit("\\\\?\\UNC\\");
    reveal_strlit("\\\\?\\");
    reveal_strlit("UNC\\");
    let u = "\\\\?\\UNC\\"@;
    let v = "\\\\?\\"@;
    let s = u + p;
    assert(s.subrange(0, u.len() as int) =~= u);
    assert(s.subrange(u.len() as int, s.len() as int) =~= p);
    let t = v + p;
    assert(t.subrange(0, v.len() as int) =~= v);
    assert(t.subrange(v.len() as int, t.len() as int) =~= p);
    if chars::starts_with(t, u) {
        let w = t.subrange(0, u.len() as int);
        assert forall|i: int| 0 <= i < 4 implies p[i] == "UNC\\"@[i] by {
            assert(w[i + 4] == u[i + 4]);
            assert(t[i + 4] == p[i]);
        }
        assert(p.subrange(0, 4) =~= "UNC\\"@);
    }
    if p.len() == 0 || p[0] != '\\' {
        if chars::starts_with(p, u) {
            assert(p.subrange(0, u.len() as int)[0] == u[0]);
        }
        if chars::starts_with(p, v) {
            assert(p.subrange(0, v.len() as int)[0] == v[0]);
        }
    }
}

/// The texts of an answer come in their order; what is no text is left out.
pub proof fn law_texts_of_an_answer_in_order(a: Seq<ContentBlock>, b: Seq<ContentBlock>, t: String)
    ensures
        texts(a + b) == texts(a) + texts(b),
        texts(seq![ContentBlock::Text(t)]) == seq![t@],
        texts(seq![ContentBlock::Other]).len() == 0,
        texts(a).len() <= a.len(),
    decreases a.len() + b.len(),
{
    let none = Seq::<ContentBlock>::empty();
    assert(seq![ContentBlock::Text(t)].drop_last() =~= none);
    assert(seq![ContentBlock::Other].drop_last() =~= none);
    assert(texts(none) =~= Seq::<Seq<char>>::empty());
    assert(texts(seq![ContentBlock::Text(t)]) =~= seq![t@]);
    if b.len() == 0 {
        assert(a + b =~= a);
        assert(texts(a + b) =~= texts(a) + texts(b));
        if a.len() > 0 {
            law_texts_of_an_answer_in_order(a.drop_last(), none, t);
        }
    } else {
        law_texts_of_an_answer_in_order(a, b.drop_last(), t);
        assert((a + b).drop_last() =~= a + b.drop_last());
        assert((a + b).last() == b.last());
        assert(texts(a + b) =~= texts(a) + texts(b));
    }
}

/// A place will do just where `java` ran there and told a version of at least 21.
pub proof fn law_java_from_21_on_will_do(p: JavaProbe)
    ensures
        reason_against(p) is None <==> p.output is Ok && java_version(p.output->Ok_0@) is Some
            && java_version(p.output->Ok_0@)->0 >= 21,
{
}

/// The first place that will do is taken; none is just where none will do.
pub proof fn law_first_good_java_is_taken(probes: Seq<JavaProbe>, i: int)
    requires
        0 <= i,
    ensures
        match first_good(probes, i) {
            Some(k) => i <= k < probes.len() && reason_against(probes[k]) is None && forall|j: int|
                i <= j < k ==> #[trigger] reason_against(probes[j]) is Some,
            None => forall|j: int|
                i <= j < probes.len() ==> #[trigger] reason_against(probes[j]) is Some,
        },
    decreases probes.len() - i,
{
    if i < probes.len() && reason_against(probes[i]) is Some {
        law_first_good_java_is_taken(probes, i + 1);
    }
}

/// The number of a version is what stands before its first dot; in the old notation, which
/// starts with `1.`, what stands behind that.
pub proof fn law_number_of_a_version(n: u32, rest: Seq<char>)
    requires
        n > 1,
    ensures
        major_of(chars::dec(n as nat)) == Some(n),
        major_of(chars::dec(n as nat).push('.') + rest) == Some(n),
        rest.len() == 0 || !chars::is_digit(rest[0]) ==> major_of("1."@ + chars::dec(n as nat) + rest)
            == Some(n),
{
    reveal_strlit("1.");
    let d = chars::dec(n as nat);
    law_notation_is_read_back(n as nat, u32::MAX as nat);
    lemma_no_dot(d);
    law_splitting_goes_from_left_to_right(d, rest, '.');
    let a = d.push('.') + rest;
    assert(chars::split(a, '.')[0] == d);
    let one = seq!['1'];
    assert(chars::dec(1) =~= one);
    law_notation_is_read_back(1, u32::MAX as nat);
    lemma_no_dot(one);
    let b = d + rest;
    law_splitting_goes_from_left_to_right(one, b, '.');
    let s = "1."@ + d + rest;
    assert(s =~= one.push('.') + b);
    let parts = chars::split(s, '.');
    assert(parts[0] == one);
    assert(parts[1] == chars::split(b, '.')[0]);
    if rest.len() == 0 || !chars::is_digit(rest[0]) {
        lemma_leading_digits(d, rest);
    }
}

proof fn lemma_no_dot(d: Seq<char>)
    requires
        chars::all_digits(d),
    ensures
        !d.contains('.'),
{
    if d.contains('.') {
        let i = choose|i: int| 0 <= i < d.len() && d[i] == '.';
        assert(chars::is_digit(d[i]));
    }
}

proof fn lemma_leading_digits(d: Seq<char>, rest: Seq<char>)
    requires
        chars::all_digits(d),
        rest.len() == 0 || !chars::is_digit(rest[0]),
    ensures
        chars::take_while(chars::split(d + rest, '.')[0], |c: char| chars::is_digit(c)) == d,
{
    let f = |c: char| chars::is_digit(c);
    crate::chars_laws::law_text_is_cut_at_the_first(d + rest, '.');
    let s = d + rest;
    let head = chars::split(s, '.')[0];
    match chars::split_once(s, '.') {
        Some((a, b)) => {
            law_splitting_goes_from_left_to_right(a, b, '.');
            assert(head == a);
            if a.len() < d.len() {
                assert(s[a.len() as int] == '.');
                assert(d[a.len() as int] == s[a.len() as int]);
                assert(chars::is_digit(d[a.len() as int]));
            }
            assert forall|i: int| 0 <= i < d.len() implies head[i] == d[i] by {
                assert(s[i] == a[i]);
            }
            if head.len() > d.len() {
                assert(head[d.len() as int] == s[d.len() as int]);
                assert(head[d.len() as int] == rest[0]);
            }
        },
        None => {
            law_splitting_goes_from_left_to_right(s, Seq::empty(), '.');
            assert(head == s);
            if head.len() > d.len() {
                assert(head[d.len() as int] == rest[0]);
            }
        },
    }
    crate::chars_laws::law_longest_front_is_taken(head, f);
    let w = chars::take_while(head, f);
    if w.len() < d.len() {
        assert(head[w.len() as int] == d[w.len() as int]);
        assert(chars::is_digit(d[w.len() as int]));
    }
    if w.len() > d.len() {
        assert(f(w[d.len() as int]));
        assert(head.subrange(0, w.len() as int)[d.len() as int] == w[d.len() as int]);
    }
    assert forall|i: int| 0 <= i < d.len() implies w[i] == d[i] by {
        assert(head.subrange(0, w.len() as int)[i] == w[i]);
    }
    assert(w =~= d);
}

/// The first line that tells a version counts; none does just where none tells one.
pub proof fn law_first_version_counts(lines: Seq<Seq<char>>, i: int)
    requires
        0 <= i,
    ensures
        match version_line(lines, i) {
            Some(l) => exists|k: int|
                i <= k < lines.len() && #[trigger] lines[k] == l && chars::contains(
                    l,
                    "version \""@,
                ) && forall|j: int|
                    i <= j < k ==> !chars::contains(#[trigger] lines[j], "version \""@),
            None => forall|j: int|
                i <= j < lines.len() ==> !chars::contains(#[trigger] lines[j], "version \""@),
        },
    decreases lines.len() - i,
{
    if i < lines.len() {
        if chars::contains(lines[i], "version \""@) {
            assert(lines[i] == version_line(lines, i)->0);
        } else {
            law_first_version_counts(lines, i + 1);
            if version_line(lines, i + 1) is Some {
                let l = version_line(lines, i + 1)->0;
                let k = choose|k: int|
                    i + 1 <= k < lines.len() && #[trigger] lines[k] == l && chars::contains(
                        l,
                        "version \""@,
                    ) && forall|j: int|
                        i + 1 <= j < k ==> !chars::contains(#[trigger] lines[j], "version \""@);
                assert(lines[k] == l);
            }
        }
    }
}

/// The version is what stands between the first quotation marks behind the word `version`.
#[verifier::rlimit(80)]
#[verifier::spinoff_prover]
pub proof fn law_version_stands_in_quotes(pre: Seq<char>, v: Seq<char>, post: Seq<char>)
    requires
        !(pre + "version \""@ + v + seq!['"'] + post).contains('\n'),
        forall|j: int|
            0 <= j && j != pre.len() ==> !#[trigger] chars::occurs_at(
                pre + "version \""@ + v + seq!['"'] + post,
                "version"@,
                j,
            ),
        !v.contains('"'),
        v.len() > 0,
    ensures
        java_version(pre + "version \""@ + v + seq!['"'] + post) == major_of(v),
{
    reveal_strlit("version \"");
    reveal_strlit("version");
    let s = pre + "version \""@ + v + seq!['"'] + post;
    let n = pre.len() as int;
    law_lines_end_with_line_feeds(s, s);
    let ls = chars::lines(s);
    assert(ls[0] == s);
    assert(s.subrange(n, n + 9) =~= "version \""@);
    assert(chars::occurs_at(s, "version \""@, n));
    assert(version_line(ls, 0) == Some(s));
    assert(s.subrange(n, n + 7) =~= "version"@);
    assert(chars::occurs_at(s, "version"@, n));
    law_first_place_is_found(s, "version"@);
    assert(chars::find(s, "version"@) == Some(n)) by {
        let k = chars::find(s, "version"@)->0;
        assert(k == n);
    }
    let tail = s.subrange(n + 7, s.len() as int);
    law_first_place_is_found(tail, "version"@);
    assert(chars::find(tail, "version"@) is None) by {
        if chars::find(tail, "version"@) is Some {
            let k = chars::find(tail, "version"@)->0;
            assert(s.subrange(n + 7 + k, n + 14 + k) =~= tail.subrange(k, k + 7));
            assert(chars::occurs_at(s, "version"@, n + 7 + k));
        }
    }
    let blank = seq![' '];
    assert(tail =~= blank.push('"') + (v.push('"') + post));
    assert(!blank.contains('"'));
    law_splitting_goes_from_left_to_right(blank, v.push('"') + post, '"');
    law_splitting_goes_from_left_to_right(v, post, '"');
    let q = chars::split(tail, '"');
    assert(q[0] == blank);
    assert(q[1] == v);
}

/// The `java` of a directory stands below it under `bin`.
pub proof fn law_java_stands_under_bin(home: Seq<char>)
    requires
        home.len() > 0,
        home.last() != '/',
    ensures
        java_in(home, Platform::Unix) == home + "/bin/java"@,
        home.last() != '\\' && home.last() != ':' ==> java_in(home, Platform::Windows) == home
            + "\\bin\\java.exe"@,
{
    reveal_strlit("bin");
    reveal_strlit("java");
    reveal_strlit("java.exe");
    reveal_strlit("/");
    reveal_strlit("\\");
    reveal_strlit("/bin/java");
    reveal_strlit("\\bin\\java.exe");
    let a = home + "/"@ + "bin"@;
    assert(a.last() == 'n');
    assert(java_in(home, Platform::Unix) =~= home + "/bin/java"@);
    let b = home + "\\"@ + "bin"@;
    assert(b.last() == 'n');
    if home.last() != '\\' && home.last() != ':' {
        if crate::infra::pathname::has_drive(home) {
            assert(home.len() != 2);
        }
        assert(java_in(home, Platform::Windows) =~= home + "\\bin\\java.exe"@);
    }
}

/// A file is a heap dump just where its extension is `hprof`, in whatever letters.
pub proof fn law_heap_dumps_by_their_names(
    front: Seq<char>,
    stem: Seq<char>,
    ext: Seq<char>,
    p: Platform,
)
    requires
        front.len() > 0,
        is_sep(front.last(), p),
        stem.len() > 0,
        no_seps(stem, p),
        no_seps(ext, p),
        ext.len() > 0,
        !ext.contains('.'),
    ensures
        names_heap_dump(front + (stem.push('.') + ext), p) <==> chars::to_lower_ascii(ext)
            == "hprof"@,
{
    reveal_strlit("hprof");
    law_extension_stands_behind_the_last_dot(front, stem, ext, p);
    assert(chars::to_lower_ascii("hprof"@) =~= "hprof"@);
}

/// On Windows the full path that the machine gives counts.
pub proof fn law_full_path_counts_on_windows(path: Seq<char>, full: &str)
    ensures
        key_of(path, Whereabouts::Windows { full: Some(full) }) == dump_key(
            full@,
            Platform::Windows,
        ),
        key_of(path, Whereabouts::Windows { full: None }) == dump_key(plain(path), Platform::Windows),
{
}

/// An error says what went wrong, in the words that came with it; one that took too long says
/// how long.
pub proof fn law_error_says_what_went_wrong(m: String, secs: u64, warming: bool)
    ensures
        manager_error_text(ManagerError::JavaMissing(m)) == m@,
        manager_error_text(ManagerError::Unavailable(m)) == m@,
        manager_error_text(ManagerError::Upstream(m)) == m@,
        chars::contains(manager_error_text(ManagerError::Timeout(secs)), chars::dec(secs as nat)),
        manager_error_text(ManagerError::NotOpen { warming }) == manager_error_text(
            ManagerError::NotOpen { warming: !warming },
        ),
{
    let t = manager_error_text(ManagerError::Timeout(secs));
    let a = "分析调用超时（"@;
    let d = chars::dec(secs as nat);
    assert(t.subrange(a.len() as int, (a.len() + d.len()) as int) =~= d);
    assert(chars::occurs_at(t, d, a.len() as int));
}

/// The version ends where the word `version` comes again, should no quotation mark come first.
#[verifier::rlimit(80)]
#[verifier::spinoff_prover]
pub proof fn law_version_ends_at_the_next_word(pre: Seq<char>, v: Seq<char>, post: Seq<char>)
    requires
        !(pre + "version \""@ + v + "version"@ + post).contains('\n'),
        forall|j: int|
            0 <= j < pre.len() + 9 + v.len() && j != pre.len() ==> !#[trigger] chars::occurs_at(
                pre + "version \""@ + v + "version"@ + post,
                "version"@,
                j,
            ),
        !v.contains('"'),
    ensures
        v.len() > 0 ==> java_version(pre + "version \""@ + v + "version"@ + post) == major_of(v),
        v.len() == 0 ==> java_version(pre + "version \""@ + v + "version"@ + post) is None,
{
    reveal_strlit("version \"");
    reveal_strlit("version");
    let s = pre + "version \""@ + v + "version"@ + post;
    let n = pre.len() as int;
    let k = 2 + v.len() as int;
    law_lines_end_with_line_feeds(s, s);
    let ls = chars::lines(s);
    assert(ls[0] == s);
    assert(s.subrange(n, n + 9) =~= "version \""@);
    assert(chars::occurs_at(s, "version \""@, n));
    assert(version_line(ls, 0) == Some(s));
    assert(s.subrange(n, n + 7) =~= "version"@);
    assert(chars::occurs_at(s, "version"@, n));
    law_first_place_is_found(s, "version"@);
    assert(chars::find(s, "version"@) == Some(n)) by {
        assert(chars::find(s, "version"@)->0 == n);
    }
    let tail = s.subrange(n + 7, s.len() as int);
    assert(tail.subrange(k, k + 7) =~= "version"@);
    assert(chars::occurs_at(tail, "version"@, k));
    law_first_place_is_found(tail, "version"@);
    assert(chars::find(tail, "version"@) == Some(k)) by {
        let f = chars::find(tail, "version"@)->0;
        if f < k {
            assert(s.subrange(n + 7 + f, n + 14 + f) =~= tail.subrange(f, f + 7));
            assert(chars::occurs_at(s, "version"@, n + 7 + f));
        }
    }
    let blank = seq![' '];
    let rest = tail.subrange(0, k);
    assert(rest =~= blank.push('"') + v);
    assert(!blank.contains('"'));
    law_splitting_goes_from_left_to_right(blank, v, '"');
    law_splitting_goes_from_left_to_right(v, v, '"');
    let q = chars::split(rest, '"');
    assert(q[0] == blank);
    assert(q[1] == v);
}

proof fn lemma_dump_found(s: Seq<DumpModel>, path: Seq<char>, p: Platform, i: int)
    requires
        0 <= i <= s.len(),
    ensures
        match entry_of(s, path, p, i) {
            Some(k) => i <= k < s.len() && same(s[k].path, path, p) && forall|j: int|
                i <= j < k ==> !same((#[trigger] s[j]).path, path, p),
            None => forall|j: int| i <= j < s.len() ==> !same((#[trigger] s[j]).path, path, p),
        },
    decreases s.len() - i,
{
    if i < s.len() {
        lemma_dump_found(s, path, p, i + 1);
    }
}

/// The dump of a path is the first that stands at that path; there is none only where none
/// stands there.
pub proof fn law_dump_is_found_by_its_path(s: Seq<DumpModel>, path: Seq<char>, p: Platform)
    ensures
        match entry_of(s, path, p, 0) {
            Some(k) => 0 <= k < s.len() && same(s[k].path, path, p) && forall|j: int|
                0 <= j < k ==> !same((#[trigger] s[j]).path, path, p),
            None => forall|j: int| 0 <= j < s.len() ==> !same((#[trigger] s[j]).path, path, p),
        },
{
    lemma_dump_found(s, path, p, 0);
}

/// Why a `java` will not do is said with its path: it could not be started, its version could
/// not be read, or it is too old. One of version 21 or later will do.
pub proof fn law_reason_against_a_java(p: JavaProbe)
    ensures
        match p.output {
            Err(why) => reason_against(p) == Some(
                "执行 "@ + p.path@ + " -version 失败: "@ + why@,
            ),
            Ok(output) => match java_version(output@) {
                None => reason_against(p) == Some("无法解析 "@ + p.path@ + " 的版本输出"@),
                Some(v) => if v < 21 {
                    reason_against(p) == Some(
                        "找到 "@ + p.path@ + " 但为 Java "@ + chars::dec(v as nat) + "，需要 21+"@,
                    )
                } else {
                    reason_against(p) is None
                },
            },
        },
{
}

/// Of the dumps those stay that do not lie in the directory, in their order, and no others.
pub proof fn law_dumps_outside_stay(s: Seq<DumpModel>, d: DumpModel, dir: Seq<char>, p: Platform)
    ensures
        kept_outside(Seq::empty(), dir, p).len() == 0,
        is_under(d.path, dir, p) ==> kept_outside(s.push(d), dir, p) == kept_outside(s, dir, p),
        !is_under(d.path, dir, p) ==> kept_outside(s.push(d), dir, p) == kept_outside(
            s,
            dir,
            p,
        ).push(d),
{
    assert(s.push(d).drop_last() =~= s);
}

/// The words for what is wrong with an analysis.
pub proof fn law_analysis_errors_in_words(secs: u64, warming: bool)
    ensures
        manager_error_text(ManagerError::Timeout(secs)) == "分析调用超时（"@ + chars::dec(
            secs as nat,
        ) + "s），工人进程保留未受影响"@,
        manager_error_text(ManagerError::NotOpen { warming }) == "该 dump 尚未打开"@,
        no_java() == "未找到 java 可执行文件（已检查 JAVA_HOME 与 PATH）"@,
{
}

} // verus!
