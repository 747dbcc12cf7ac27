//! What holds of many opens of one dump.

use crate::analyzer::client::CallOutcome;
use crate::analyzer::manager::{
    opened, settled, waited, CallResult, OpenResult, OpenSignal, OpenStep,
};
use crate::analyzer::session::{
    apart, capped, entered, entry_of, law_dump_is_opened_once, lemma_found, DumpModel, EntryPhase,
    MAX_OPEN_DUMPS,
};
use crate::infra::pathname::{same, Platform};
use vstd::prelude::*;

verus! {

/// One of the things that happen to the dumps while one is opened again and again. `key`
/// is a name of the dump.
pub enum Deed {
    /// The dump is opened, under this id where the analyzer has to open it.
    Open { key: Seq<char>, id: Seq<char>, now: u64, step: OpenStep },
    /// Somebody who waits for it is told, or waits no longer.
    Wait { key: Seq<char>, signal: OpenSignal, now: u64 },
    /// The analyzer has opened it under this id, and said this of it.
    Opened { key: Seq<char>, id: Seq<char>, outcome: CallOutcome, now: u64 },
    /// Another dump is opened.
    OpenElsewhere { key: Seq<char>, id: Seq<char>, now: u64, step: OpenStep },
}

/// The dumps and when the analyzer was used last.
pub struct Dumps {
    pub all: Seq<DumpModel>,
    pub last_active: u64,
}

/// The deed leads from one to the other. Where another dump is opened there is room for
/// it, so that none has to go.
pub open spec fn leads(a: Dumps, d: Deed, b: Dumps, dump: Seq<char>, p: Platform) -> bool {
    match d {
        Deed::Open { key, id, now, step } => {
            &&& same(key, dump, p)
            &&& opened(a.all, a.last_active, key, id, now, p, b.all, b.last_active, step)
        },
        Deed::Wait { key, signal, now } => {
            &&& same(key, dump, p)
            &&& b.all == waited(a.all, key, signal, now, p)
        },
        Deed::Opened { key, id, outcome, now } => {
            &&& same(key, dump, p)
            &&& !outcome.is_error
            &&& b.all == settled(
                a.all,
                key,
                id,
                OpenResult::Call(CallResult::Answered(outcome)),
                now,
                p,
            )
        },
        Deed::OpenElsewhere { key, id, now, step } => {
            &&& !same(key, dump, p)
            &&& entered(a.all, key, id, now, p).len() <= MAX_OPEN_DUMPS
            &&& opened(a.all, a.last_active, key, id, now, p, b.all, b.last_active, step)
        },
    }
}

/// `states` are what the deeds lead through.
pub open spec fn is_story(
    states: Seq<Dumps>,
    deeds: Seq<Deed>,
    dump: Seq<char>,
    p: Platform,
) -> bool {
    &&& states.len() == deeds.len() + 1
    &&& forall|k: int| 0 <= k < states.len() ==> apart((#[trigger] states[k]).all, p)
    &&& forall|k: int|
        0 <= k < deeds.len() ==> leads(states[k], #[trigger] deeds[k], states[k + 1], dump, p)
}

/// The dump is open or being opened under this id.
pub open spec fn held_as(s: Seq<DumpModel>, dump: Seq<char>, p: Platform, id: Seq<char>) -> bool {
    match entry_of(s, dump, p, 0) {
        Some(i) => 0 <= i < s.len() && s[i].id == id && !(s[i].phase is Failed),
        None => false,
    }
}

/// What the analyzer said of the dump, where it is open.
pub open spec fn summary_of(s: Seq<DumpModel>, dump: Seq<char>, p: Platform) -> Option<String> {
    match entry_of(s, dump, p, 0) {
        Some(i) => match s[i].phase {
            EntryPhase::Ready { summary } => Some(summary),
            _ => None,
        },
        None => None,
    }
}

/// The dump is open or being opened.
pub open spec fn is_held(s: Seq<DumpModel>, dump: Seq<char>, p: Platform) -> bool {
    match entry_of(s, dump, p, 0) {
        Some(i) => 0 <= i < s.len() && !(s[i].phase is Failed),
        None => false,
    }
}

proof fn lemma_names(s: Seq<DumpModel>, key: Seq<char>, dump: Seq<char>, p: Platform, i: int)
    requires
        same(key, dump, p),
        0 <= i,
    ensures
        entry_of(s, key, p, i) == entry_of(s, dump, p, i),
    decreases s.len() - i,
{
    if i < s.len() {
        lemma_names(s, key, dump, p, i + 1);
    }
}

proof fn lemma_place(s: Seq<DumpModel>, dump: Seq<char>, p: Platform, i: int)
    requires
        apart(s, p),
        0 <= i < s.len(),
        same(s[i].path, dump, p),
    ensures
        entry_of(s, dump, p, 0) == Some(i),
{
    lemma_found(s, dump, p, 0);
    match entry_of(s, dump, p, 0) {
        Some(k) => {
            if k < i {
                assert(!same(s[k].path, s[i].path, p));
            } else if i < k {
                assert(!same(s[i].path, s[k].path, p));
            }
        },
        None => {},
    }
}

/// A deed keeps the dump; once it is open it stays so, with what was said of it.
proof fn lemma_deed_keeps(
    a: Dumps,
    d: Deed,
    b: Dumps,
    dump: Seq<char>,
    p: Platform,
    id: Seq<char>,
)
    requires
        apart(a.all, p),
        apart(b.all, p),
        held_as(a.all, dump, p, id),
        leads(a, d, b, dump, p),
    ensures
        held_as(b.all, dump, p, id),
        d matches Deed::Open { step, .. } ==> match summary_of(a.all, dump, p) {
            Some(s) => step == OpenStep::Cached(s),
            None => step is Attach,
        },
        d matches Deed::Opened { id: x, outcome, .. } ==> if x == id {
            summary_of(b.all, dump, p) == Some(outcome.text)
        } else {
            summary_of(b.all, dump, p) == summary_of(a.all, dump, p)
        },
        !(d is Opened) ==> summary_of(b.all, dump, p) == summary_of(a.all, dump, p),
{
    let i = entry_of(a.all, dump, p, 0)->0;
    lemma_found(a.all, dump, p, 0);
    match d {
        Deed::Open { key, .. } => {
            lemma_names(a.all, key, dump, p, 0);
            lemma_place(b.all, dump, p, i);
        },
        Deed::Wait { key, .. } => {
            lemma_names(a.all, key, dump, p, 0);
            lemma_place(b.all, dump, p, i);
        },
        Deed::Opened { key, .. } => {
            lemma_names(a.all, key, dump, p, 0);
            lemma_place(b.all, dump, p, i);
        },
        Deed::OpenElsewhere { key, id: other, now, step } => {
            lemma_found(a.all, key, p, 0);
            let with = entered(a.all, key, other, now, p);
            assert(capped(with) == with);
            assert(b.all[i] == a.all[i]);
            lemma_place(b.all, dump, p, i);
        },
    }
}

proof fn lemma_story(
    states: Seq<Dumps>,
    deeds: Seq<Deed>,
    dump: Seq<char>,
    p: Platform,
    id: Seq<char>,
    from: int,
    k: int,
)
    requires
        is_story(states, deeds, dump, p),
        0 <= from <= k <= deeds.len(),
        held_as(states[from].all, dump, p, id),
    ensures
        held_as(states[k].all, dump, p, id),
        summary_of(states[from].all, dump, p) is Some ==> summary_of(states[k].all, dump, p) is Some,
        (forall|j: int|
            from <= j < k && #[trigger] deeds[j] is Opened ==> deeds[j]->Opened_id != id)
            ==> summary_of(states[k].all, dump, p) == summary_of(states[from].all, dump, p),
    decreases k - from,
{
    if from < k {
        lemma_story(states, deeds, dump, p, id, from, k - 1);
        assert(leads(states[k - 1], deeds[k - 1], states[(k - 1) + 1], dump, p));
        lemma_deed_keeps(states[k - 1], deeds[k - 1], states[k], dump, p, id);
    }
}

/// However often a dump is opened, at once or one after the other and under whatever name,
/// the analyzer is asked once to open it: the first open begins that, and every later one
/// waits for it or is told what the analyzer said. Who waits no longer changes nothing of
/// that. Once the analyzer has opened the dump, every open is told what it said of it.
pub proof fn law_many_opens_ask_once(
    states: Seq<Dumps>,
    deeds: Seq<Deed>,
    dump: Seq<char>,
    p: Platform,
)
    requires
        is_story(states, deeds, dump, p),
        deeds.len() > 0,
        deeds[0] is Open,
        !is_held(states[0].all, dump, p),
    ensures
        deeds[0]->Open_step is Begin,
        deeds[0]->Open_step->analyzer_id@ == deeds[0]->Open_id,
        forall|k: int|
            0 < k < states.len() ==> held_as(
                (#[trigger] states[k]).all,
                dump,
                p,
                deeds[0]->Open_id,
            ),
        forall|k: int|
            0 < k < deeds.len() && #[trigger] deeds[k] is Open ==> deeds[k]->Open_step is Attach
                || deeds[k]->Open_step is Cached,
        forall|j: int, k: int|
            0 < j < k < deeds.len() && #[trigger] deeds[j] is Opened && deeds[j]->Opened_id
                == deeds[0]->Open_id && #[trigger] deeds[k] is Open && (forall|m: int|
                j < m < k && #[trigger] deeds[m] is Opened ==> deeds[m]->Opened_id
                    != deeds[0]->Open_id) ==> deeds[k]->Open_step == OpenStep::Cached(
                deeds[j]->outcome.text,
            ),
{
    let id = deeds[0]->Open_id;
    assert(leads(states[0], deeds[0], states[0int + 1], dump, p));
    match deeds[0] {
        Deed::Open { key, id: x, now, step } => {
            lemma_names(states[0].all, key, dump, p, 0);
            lemma_found(states[0].all, dump, p, 0);
            law_dump_is_opened_once(states[0].all, key, dump, x, now, p);
        },
        _ => {},
    }
    assert(held_as(states[1].all, dump, p, id));
    assert forall|k: int| 0 < k < states.len() implies held_as(
        (#[trigger] states[k]).all,
        dump,
        p,
        id,
    ) by {
        lemma_story(states, deeds, dump, p, id, 1, k);
    }
    assert forall|k: int| 0 < k < deeds.len() && #[trigger] deeds[k] is Open implies
        deeds[k]->Open_step is Attach || deeds[k]->Open_step is Cached by {
        assert(held_as(states[k].all, dump, p, id));
        assert(leads(states[k], deeds[k], states[k + 1], dump, p));
        lemma_deed_keeps(states[k], deeds[k], states[k + 1], dump, p, id);
    }
    assert forall|j: int, k: int|
        0 < j < k < deeds.len() && #[trigger] deeds[j] is Opened && deeds[j]->Opened_id == id
            && #[trigger] deeds[k] is Open && (forall|m: int|
            j < m < k && #[trigger] deeds[m] is Opened ==> deeds[m]->Opened_id != id) implies
        deeds[k]->Open_step == OpenStep::Cached(deeds[j]->outcome.text) by {
        assert(held_as(states[j].all, dump, p, id));
        assert(leads(states[j], deeds[j], states[j + 1], dump, p));
        lemma_deed_keeps(states[j], deeds[j], states[j + 1], dump, p, id);
        lemma_story(states, deeds, dump, p, id, j + 1, k);
        assert(leads(states[k], deeds[k], states[k + 1], dump, p));
        lemma_deed_keeps(states[k], deeds[k], states[k + 1], dump, p, id);
    }
}

} // verus!
