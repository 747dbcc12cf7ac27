//! What holds of many opens of one process.

use crate::arthas::manager::{
    cleared, entry_of, is_of, is_opened, is_settled, law_closing_is_final, lemma_found, proper,
    roomy, waited, ArthasEntry, AttachResult, AttachedSession, OpenSignal, OpenStep, MAX_SESSIONS,
};
use vstd::prelude::*;

verus! {

/// One of the things that happen to the sessions while a process is opened again and again.
pub enum Deed {
    /// The process is opened.
    Open { now: u64, step: OpenStep },
    /// Somebody who waits for it is told, or waits no longer.
    Wait { signal: OpenSignal },
    /// A task for it ends well.
    Attached { task_id: u64, session: AttachedSession, now: u64 },
    /// Another process is opened.
    OpenElsewhere { env_id: Seq<char>, pid: i64, now: u64, step: OpenStep },
}

/// The sessions and the last number of a task.
pub struct Sessions {
    pub entries: Seq<ArthasEntry>,
    pub next_task_id: u64,
}

/// The deed leads from one to the other. Where another process is opened there is room
/// for it, so that no session has to go.
pub open spec fn leads(a: Sessions, d: Deed, b: Sessions, env_id: Seq<char>, pid: i64) -> bool {
    match d {
        Deed::Open { now, step } => is_opened(
            a.entries,
            a.next_task_id,
            env_id,
            pid,
            now,
            step,
            b.entries,
            b.next_task_id,
        ),
        Deed::Wait { signal } => b.entries == waited(a.entries, env_id, pid, signal)
            && b.next_task_id == a.next_task_id,
        Deed::Attached { task_id, session, now } => is_settled(
            a.entries,
            env_id,
            pid,
            task_id,
            AttachResult::Attached(session),
            now,
            b.entries,
        ) && b.next_task_id == a.next_task_id,
        Deed::OpenElsewhere { env_id: e, pid: p, now, step } => {
            &&& e != env_id || p != pid
            &&& cleared(a.entries, e, p).len() < MAX_SESSIONS
            &&& is_opened(a.entries, a.next_task_id, e, p, now, step, b.entries, b.next_task_id)
        },
    }
}

/// `states` are what the deeds lead through.
pub open spec fn is_story(
    states: Seq<Sessions>,
    deeds: Seq<Deed>,
    env_id: Seq<char>,
    pid: i64,
) -> bool {
    &&& states.len() == deeds.len() + 1
    &&& forall|k: int|
        0 <= k < states.len() ==> proper(
            (#[trigger] states[k]).entries,
            states[k].next_task_id,
        )
    &&& forall|k: int|
        0 <= k < deeds.len() ==> leads(states[k], #[trigger] deeds[k], states[k + 1], env_id, pid)
}

/// The process has a session, ready or in the making, with this number.
pub open spec fn made_by(s: Seq<ArthasEntry>, env_id: Seq<char>, pid: i64, task_id: u64) -> bool {
    match entry_of(s, env_id, pid, 0) {
        Some(i) => 0 <= i < s.len() && s[i].task_id == task_id && !(s[i].phase is Failed),
        None => false,
    }
}

pub open spec fn is_ready(s: Seq<ArthasEntry>, env_id: Seq<char>, pid: i64) -> bool {
    match entry_of(s, env_id, pid, 0) {
        Some(i) => 0 <= i < s.len() && s[i].phase is Ready,
        None => false,
    }
}

/// The place of a session, from any row that is of the process.
proof fn lemma_place(s: Seq<ArthasEntry>, n: u64, env_id: Seq<char>, pid: i64, i: int)
    requires
        proper(s, n),
        0 <= i < s.len(),
        is_of(s[i], env_id, pid),
    ensures
        entry_of(s, env_id, pid, 0) == Some(i),
{
    lemma_found(s, env_id, pid, 0);
    match entry_of(s, env_id, pid, 0) {
        Some(k) => {
            if k < i {
                assert(!is_of(s[k], s[i].env_id@, s[i].pid));
            }
        },
        None => {
            lemma_absent_row(s, env_id, pid, 0, i);
        },
    }
}

proof fn lemma_absent_row(s: Seq<ArthasEntry>, env_id: Seq<char>, pid: i64, i: int, k: int)
    requires
        0 <= i <= k < s.len(),
        is_of(s[k], env_id, pid),
    ensures
        entry_of(s, env_id, pid, i) is Some,
    decreases k - i,
{
    if i < k {
        lemma_absent_row(s, env_id, pid, i + 1, k);
    }
}

/// The first open of a process enters its session.
proof fn lemma_first_open(
    a: Sessions,
    b: Sessions,
    env_id: Seq<char>,
    pid: i64,
    now: u64,
    step: OpenStep,
)
    requires
        proper(a.entries, a.next_task_id),
        proper(b.entries, b.next_task_id),
        !made_by_any(a.entries, env_id, pid),
        leads(a, Deed::Open { now, step }, b, env_id, pid),
    ensures
        step matches OpenStep::Start { task_id, .. } && task_id == b.next_task_id && made_by(
            b.entries,
            env_id,
            pid,
            task_id,
        ),
{
    let t = cleared(a.entries, env_id, pid);
    lemma_found(a.entries, env_id, pid, 0);
    if entry_of(a.entries, env_id, pid, 0) is Some {
        law_closing_is_final(
            a.entries,
            a.next_task_id,
            env_id,
            pid,
            entry_of(a.entries, env_id, pid, 0)->0,
        );
    }
    assert(entry_of(t, env_id, pid, 0) is None);
    let last = b.entries.len() - 1;
    assert(is_of(b.entries[last], env_id, pid));
    lemma_place(b.entries, b.next_task_id, env_id, pid, last);
}

/// The process has a session that is ready or in the making.
pub open spec fn made_by_any(s: Seq<ArthasEntry>, env_id: Seq<char>, pid: i64) -> bool {
    match entry_of(s, env_id, pid, 0) {
        Some(i) => 0 <= i < s.len() && !(s[i].phase is Failed),
        None => false,
    }
}

/// A deed keeps the session of the process; one that is ready stays so.
proof fn lemma_deed_keeps(
    a: Sessions,
    d: Deed,
    b: Sessions,
    env_id: Seq<char>,
    pid: i64,
    task_id: u64,
)
    requires
        proper(a.entries, a.next_task_id),
        proper(b.entries, b.next_task_id),
        made_by(a.entries, env_id, pid, task_id),
        leads(a, d, b, env_id, pid),
    ensures
        made_by(b.entries, env_id, pid, task_id),
        is_ready(a.entries, env_id, pid) ==> is_ready(b.entries, env_id, pid),
        d matches Deed::Open { step, .. } ==> if is_ready(a.entries, env_id, pid) {
            step matches OpenStep::Reused(o) && o.env_id@ == env_id && o.pid == pid
        } else {
            step is Wait
        },
        d matches Deed::Attached { task_id: t, .. } ==> (t == task_id ==> is_ready(
            b.entries,
            env_id,
            pid,
        )),
{
    let i = entry_of(a.entries, env_id, pid, 0)->0;
    lemma_found(a.entries, env_id, pid, 0);
    match d {
        Deed::OpenElsewhere { env_id: e, pid: p, now, step } => {
            lemma_elsewhere(a, b, env_id, pid, e, p, now, step, i);
        },
        _ => {
            assert(is_of(b.entries[i], env_id, pid));
            lemma_place(b.entries, b.next_task_id, env_id, pid, i);
        },
    }
}

/// Opening another process leaves the session of this one as it is, where there is room.
proof fn lemma_elsewhere(
    a: Sessions,
    b: Sessions,
    env_id: Seq<char>,
    pid: i64,
    e: Seq<char>,
    p: i64,
    now: u64,
    step: OpenStep,
    i: int,
)
    requires
        proper(b.entries, b.next_task_id),
        e != env_id || p != pid,
        cleared(a.entries, e, p).len() < MAX_SESSIONS,
        is_opened(a.entries, a.next_task_id, e, p, now, step, b.entries, b.next_task_id),
        0 <= i < a.entries.len(),
        is_of(a.entries[i], env_id, pid),
    ensures
        exists|k: int|
            0 <= k < b.entries.len() && #[trigger] b.entries[k] == a.entries[i] && entry_of(
                b.entries,
                env_id,
                pid,
                0,
            ) == Some(k),
{
    let t = cleared(a.entries, e, p);
    lemma_found(a.entries, e, p, 0);
    let k = match entry_of(a.entries, e, p, 0) {
        Some(x) => if a.entries[x].phase is Failed && x < i {
            i - 1
        } else {
            i
        },
        None => i,
    };
    assert(t[k] == a.entries[i]);
    assert(roomy(t) == t);
    lemma_found(t, e, p, 0);
    if entry_of(t, e, p, 0) is None {
        assert(b.entries.drop_last()[k] == b.entries[k]);
    }
    assert(b.entries[k] == t[k]);
    lemma_place(b.entries, b.next_task_id, env_id, pid, k);
}

proof fn lemma_story(
    states: Seq<Sessions>,
    deeds: Seq<Deed>,
    env_id: Seq<char>,
    pid: i64,
    task_id: u64,
    from: int,
    k: int,
)
    requires
        is_story(states, deeds, env_id, pid),
        0 <= from <= k <= deeds.len(),
        made_by(states[from].entries, env_id, pid, task_id),
    ensures
        made_by(states[k].entries, env_id, pid, task_id),
        is_ready(states[from].entries, env_id, pid) ==> is_ready(states[k].entries, env_id, pid),
    decreases k - from,
{
    if from < k {
        lemma_story(states, deeds, env_id, pid, task_id, from, k - 1);
        assert(leads(states[k - 1], deeds[k - 1], states[(k - 1) + 1], env_id, pid));
        lemma_deed_keeps(states[k - 1], deeds[k - 1], states[k], env_id, pid, task_id);
    }
}

/// However often a process is opened, at once or one after the other, it is attached to
/// once: the first open starts a task, and every later one waits for its session or uses
/// it. Once the task of that number has ended well, every open uses it. Opening another
/// process changes nothing of that.
pub proof fn law_many_opens_attach_once(
    states: Seq<Sessions>,
    deeds: Seq<Deed>,
    env_id: Seq<char>,
    pid: i64,
)
    requires
        is_story(states, deeds, env_id, pid),
        deeds.len() > 0,
        deeds[0] is Open,
        !made_by_any(states[0].entries, env_id, pid),
    ensures
        deeds[0]->Open_step is Start,
        forall|k: int|
            0 < k < deeds.len() ==> ((#[trigger] deeds[k]) matches Deed::Open { step, .. } ==> (
            step is Wait || (step matches OpenStep::Reused(o) && o.env_id@ == env_id && o.pid
                == pid))),
        forall|j: int, k: int|
            0 < j < k < deeds.len() && #[trigger] deeds[j] is Attached && deeds[j]->task_id
                == states[1].next_task_id && #[trigger] deeds[k] is Open
                ==> deeds[k]->Open_step is Reused,
        forall|k: int|
            0 < k < states.len() ==> made_by(
                (#[trigger] states[k]).entries,
                env_id,
                pid,
                states[1].next_task_id,
            ),
{
    let t = states[1].next_task_id;
    match deeds[0] {
        Deed::Open { now, step } => {
            assert(leads(states[0], deeds[0], states[0int + 1], env_id, pid));
            lemma_first_open(states[0], states[1], env_id, pid, now, step);
        },
        _ => {},
    }
    assert forall|k: int| 0 < k < states.len() implies made_by(
        (#[trigger] states[k]).entries,
        env_id,
        pid,
        t,
    ) by {
        lemma_story(states, deeds, env_id, pid, t, 1, k);
    }
    assert forall|k: int| 0 < k < deeds.len() implies ((#[trigger] deeds[k]) matches Deed::Open {
        step,
        ..
    } ==> (step is Wait || (step matches OpenStep::Reused(o) && o.env_id@ == env_id && o.pid
        == pid))) by {
        assert(made_by(states[k].entries, env_id, pid, t));
        assert(leads(states[k], deeds[k], states[k + 1], env_id, pid));
        lemma_deed_keeps(states[k], deeds[k], states[k + 1], env_id, pid, t);
    }
    assert forall|j: int, k: int|
        0 < j < k < deeds.len() && #[trigger] deeds[j] is Attached && deeds[j]->task_id == t
            && #[trigger] deeds[k] is Open implies deeds[k]->Open_step is Reused by {
        assert(made_by(states[j].entries, env_id, pid, t));
        assert(leads(states[j], deeds[j], states[j + 1], env_id, pid));
        lemma_deed_keeps(states[j], deeds[j], states[j + 1], env_id, pid, t);
        lemma_story(states, deeds, env_id, pid, t, j + 1, k);
        assert(leads(states[k], deeds[k], states[k + 1], env_id, pid));
        lemma_deed_keeps(states[k], deeds[k], states[k + 1], env_id, pid, t);
    }
}

/// A session that failed does not stand in the way: the next open attaches anew.
pub proof fn law_failure_does_not_block(
    a: Sessions,
    b: Sessions,
    env_id: Seq<char>,
    pid: i64,
    now: u64,
    step: OpenStep,
    i: int,
)
    requires
        proper(a.entries, a.next_task_id),
        proper(b.entries, b.next_task_id),
        entry_of(a.entries, env_id, pid, 0) == Some(i),
        a.entries[i].phase is Failed,
        leads(a, Deed::Open { now, step }, b, env_id, pid),
    ensures
        step is Start,
        made_by(b.entries, env_id, pid, b.next_task_id),
{
    lemma_first_open(a, b, env_id, pid, now, step);
}

} // verus!
