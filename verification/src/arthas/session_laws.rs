//! What becomes of the sessions with arthas.

use crate::arthas::manager::{
    answer, cleared, entry_of, evicted, fresh, handles_of, is_of, is_opened, is_settled,
    kept_elsewhere, kept_in_use, law_least_recent_goes_first, lemma_found, oldest_ready, port_of,
    ports, proper, reapable, reaped, released_here, roomy, waited, ArthasEntry, ArthasPhase,
    AttachResult, CallOutcome, ManagerError, OpenSignal, OpenStep, QueryResult, Released,
};
use vstd::prelude::*;

verus! {

/// What arthas answered is handed on as it came, marked as an error or not. That the call took
/// too long, and that arthas was not reached, is told as such.
pub proof fn law_answer_is_handed_on(result: QueryResult, timeout_secs: u64)
    ensures
        answer(result, timeout_secs) is Ok <==> result is Answered,
        result is Answered ==> answer(result, timeout_secs) == Ok::<CallOutcome, ManagerError>(
            result->Answered_0,
        ),
        answer(result, timeout_secs) matches Err(ManagerError::Timeout(s)) ==> result is TimedOut
            && s == timeout_secs,
        answer(result, timeout_secs) matches Err(ManagerError::Transport(m)) ==> result
            == QueryResult::TransportFailed(m),
        result is TimedOut ==> answer(result, timeout_secs) is Err && answer(
            result,
            timeout_secs,
        )->Err_0 is Timeout,
        result is TransportFailed ==> answer(result, timeout_secs) is Err && answer(
            result,
            timeout_secs,
        )->Err_0 is Transport,
{
}

/// There is room for one more among three: no more go than have to, what stays was there, and
/// where there is room nothing goes.
pub proof fn law_room_is_made_for_one(s: Seq<ArthasEntry>)
    ensures
        s.len() < 3 ==> roomy(s) == s && evicted(s).len() == 0,
        s.len() >= 3 ==> roomy(s).len() >= 2,
        roomy(s).len() <= s.len(),
        forall|k: int| 0 <= k < roomy(s).len() ==> s.contains(#[trigger] roomy(s)[k]),
        forall|k: int|
            #![trigger evicted(s)[k]]
            0 <= k < evicted(s).len() ==> exists|i: int|
                0 <= i < s.len() && (#[trigger] s[i]).phase is Ready && s[i].stop_handle == Some(
                    evicted(s)[k],
                ),
    decreases s.len(),
{
    if s.len() >= 3 {
        law_least_recent_goes_first(s, s.len() as int);
        match oldest_ready(s, s.len() as int) {
            Some(i) => {
                let t = s.remove(i);
                law_room_is_made_for_one(t);
                assert forall|k: int| 0 <= k < roomy(s).len() implies s.contains(
                    #[trigger] roomy(s)[k],
                ) by {
                    assert(t.contains(roomy(t)[k]));
                    let j = choose|j: int| 0 <= j < t.len() && t[j] == roomy(t)[k];
                    if j < i {
                        assert(s[j] == t[j]);
                    } else {
                        assert(s[j + 1] == t[j]);
                    }
                }
                let h = handles_of(s[i]);
                assert forall|k: int| #![trigger evicted(s)[k]] 0 <= k < evicted(
                    s,
                ).len() implies exists|i: int|
                    0 <= i < s.len() && (#[trigger] s[i]).phase is Ready && s[i].stop_handle
                        == Some(evicted(s)[k]) by {
                    if k < h.len() {
                        assert(s[i].phase is Ready);
                    } else {
                        assert(evicted(s)[k] == evicted(t)[k - h.len()]);
                        let j = choose|j: int|
                            0 <= j < t.len() && (#[trigger] t[j]).phase is Ready && t[j].stop_handle
                                == Some(evicted(t)[k - h.len()]);
                        if j < i {
                            assert(s[j] == t[j]);
                        } else {
                            assert(s[j + 1] == t[j]);
                        }
                    }
                }
            },
            None => {
                assert forall|k: int| 0 <= k < roomy(s).len() implies s.contains(
                    #[trigger] roomy(s)[k],
                ) by {
                    assert(s[k] == roomy(s)[k]);
                }
            },
        }
    } else {
        assert forall|k: int| 0 <= k < roomy(s).len() implies s.contains(#[trigger] roomy(s)[k]) by {
            assert(s[k] == roomy(s)[k]);
        }
    }
}

/// What opening a session leads to is told by how far it is: one that is ready is used, one in
/// the making is waited for, and otherwise, also where it failed, a new one is made.
pub proof fn law_opening_goes_by_how_far_it_is(
    s: Seq<ArthasEntry>,
    n: u64,
    env_id: Seq<char>,
    pid: i64,
    now: u64,
    r: OpenStep,
    s2: Seq<ArthasEntry>,
    n2: u64,
)
    requires
        proper(s, n),
        is_opened(s, n, env_id, pid, now, r, s2, n2),
    ensures
        ({
            let at = entry_of(s, env_id, pid, 0);
            let phase = s[at->0].phase;
            &&& r is Reused <==> at is Some && phase is Ready
            &&& r is Wait <==> at is Some && phase is Attaching
            &&& r is Start <==> at is None || phase is Failed
            &&& r is Wait ==> s2 == s && n2 == n
            &&& r is Reused ==> s2.len() == s.len() && s2[at->0] == (ArthasEntry {
                last_active: now,
                ..s[at->0]
            })
            &&& r is Start ==> s2.len() > 0 && fresh(s2.last(), env_id, pid, now, (n + 1) as u64)
                && n2 == n + 1 && r->task_id == n + 1
        }),
{
    lemma_found(s, env_id, pid, 0);
    let t = cleared(s, env_id, pid);
    lemma_found(t, env_id, pid, 0);
    match entry_of(s, env_id, pid, 0) {
        Some(i) => {
            if s[i].phase is Failed {
                crate::arthas::manager::law_closing_is_final(s, n, env_id, pid, i);
            }
        },
        None => {},
    }
}

/// Somebody who waited takes the session away just where it failed.
pub proof fn law_failed_session_is_taken_away(
    s: Seq<ArthasEntry>,
    env_id: Seq<char>,
    pid: i64,
    signal: OpenSignal,
    i: int,
)
    requires
        entry_of(s, env_id, pid, 0) == Some(i),
    ensures
        signal is Phase && signal->Phase_0 is Failed && s[i].phase is Failed ==> waited(
            s,
            env_id,
            pid,
            signal,
        ) == s.remove(i),
        !(signal is Phase && signal->Phase_0 is Failed) ==> waited(s, env_id, pid, signal) == s,
        !(s[i].phase is Failed) ==> waited(s, env_id, pid, signal) == s,
{
}

/// A task settles its own session, and no other. The session is ready, with all that the task
/// made, just where it made it; else it failed, with why.
pub proof fn law_task_settles_its_own(
    s: Seq<ArthasEntry>,
    env_id: Seq<char>,
    pid: i64,
    task_id: u64,
    result: AttachResult,
    now: u64,
    s2: Seq<ArthasEntry>,
    k: int,
)
    requires
        is_settled(s, env_id, pid, task_id, result, now, s2),
        0 <= k < s.len(),
    ensures
        s2.len() == s.len(),
        !is_of(s[k], env_id, pid) || s[k].task_id != task_id ==> s2[k] == s[k],
        entry_of(s, env_id, pid, 0) == Some(k) && s[k].task_id == task_id ==> {
            &&& s2[k].phase is Ready <==> result is Attached
            &&& s2[k].phase is Failed <==> !(result is Attached)
            &&& result matches AttachResult::Attached(a) ==> s2[k].client == Some(a.client)
                && s2[k].stop_handle == Some(a.stop_handle) && s2[k].remote_port == Some(
                a.remote_port,
            ) && s2[k].last_active == now
            &&& result matches AttachResult::Failed(e) ==> s2[k].phase == (ArthasPhase::Failed {
                error: e,
            })
            &&& s2[k].env_id == s[k].env_id && s2[k].pid == s[k].pid && s2[k].task_id
                == s[k].task_id && s2[k].inflight == s[k].inflight
        },
{
    lemma_found(s, env_id, pid, 0);
}

/// A session may go just where it was unused for longer than the limit, it is not in the
/// making, and, where it is ready, nothing is under way in it.
pub proof fn law_sessions_that_may_go(e: ArthasEntry, now: u64, idle_timeout: u64)
    ensures
        reapable(e, now, idle_timeout) <==> e.last_active + idle_timeout < now && !(e.phase
            is Attaching) && (e.phase is Ready ==> e.inflight == 0),
{
}

/// Some session that may go has to be stopped by this.
pub open spec fn goes_with_one(s: Seq<ArthasEntry>, handle: u64, now: u64, idle_timeout: u64) -> bool {
    exists|k: int|
        0 <= k < s.len() && reapable(#[trigger] s[k], now, idle_timeout) && s[k].stop_handle == Some(
            handle,
        )
}

/// Looking the sessions through takes all that may go, and tells what has to be stopped with
/// them, and nothing else.
pub proof fn law_reaping_takes_all_that_may_go(s: Seq<ArthasEntry>, now: u64, idle_timeout: u64)
    ensures
        forall|k: int|
            0 <= k < kept_in_use(s, now, idle_timeout).len() ==> !reapable(
                #[trigger] kept_in_use(s, now, idle_timeout)[k],
                now,
                idle_timeout,
            ),
        forall|k: int|
            0 <= k < s.len() && reapable(#[trigger] s[k], now, idle_timeout)
                && s[k].stop_handle is Some ==> reaped(s, now, idle_timeout).contains(
                s[k].stop_handle->0,
            ),
        forall|j: int|
            0 <= j < reaped(s, now, idle_timeout).len() ==> goes_with_one(
                s,
                #[trigger] reaped(s, now, idle_timeout)[j],
                now,
                idle_timeout,
            ),
    decreases s.len(),
{
    if s.len() > 0 {
        let t = s.drop_last();
        law_reaping_takes_all_that_may_go(t, now, idle_timeout);
        let a = reaped(t, now, idle_timeout);
        let b = reaped(s, now, idle_timeout);
        let last = s.last();
        let kept = kept_in_use(s, now, idle_timeout);
        let front = kept_in_use(t, now, idle_timeout);
        assert forall|k: int| 0 <= k < kept.len() implies !reapable(
            #[trigger] kept[k],
            now,
            idle_timeout,
        ) by {
            if k < front.len() {
                assert(kept[k] == front[k]);
            }
        }
        assert forall|k: int| 0 <= k < s.len() && reapable(#[trigger] s[k], now, idle_timeout)
            && s[k].stop_handle is Some implies b.contains(s[k].stop_handle->0) by {
            if k < t.len() {
                assert(t[k] == s[k]);
                let j = choose|j: int| 0 <= j < a.len() && a[j] == s[k].stop_handle->0;
                assert(b[j] == a[j]);
            } else {
                assert(b[a.len() as int] == last.stop_handle->0);
            }
        }
        assert forall|j: int| 0 <= j < b.len() implies goes_with_one(
            s,
            #[trigger] b[j],
            now,
            idle_timeout,
        ) by {
            if j < a.len() {
                assert(b[j] == a[j]);
                assert(goes_with_one(t, a[j], now, idle_timeout));
                let k = choose|k: int|
                    0 <= k < t.len() && reapable(#[trigger] t[k], now, idle_timeout)
                        && t[k].stop_handle == Some(a[j]);
                assert(s[k] == t[k]);
            } else {
                assert(reapable(s[s.len() - 1], now, idle_timeout));
            }
        }
    }
}

/// Closing an environment takes its sessions, tells what has to be ended with each of them,
/// and leaves the others.
pub proof fn law_environment_takes_only_its_own(s: Seq<ArthasEntry>, env_id: Seq<char>)
    ensures
        kept_elsewhere(s, env_id).len() + released_here(s, env_id).len() == s.len(),
        forall|k: int|
            0 <= k < kept_elsewhere(s, env_id).len() ==> (#[trigger] kept_elsewhere(
                s,
                env_id,
            )[k]).env_id@ != env_id,
        forall|k: int|
            0 <= k < s.len() && (#[trigger] s[k]).env_id@ != env_id ==> kept_elsewhere(
                s,
                env_id,
            ).contains(s[k]),
        forall|k: int|
            0 <= k < s.len() && (#[trigger] s[k]).env_id@ == env_id ==> released_here(
                s,
                env_id,
            ).contains(Released { stop_handle: s[k].stop_handle, client: s[k].client }),
    decreases s.len(),
{
    if s.len() > 0 {
        let t = s.drop_last();
        law_environment_takes_only_its_own(t, env_id);
        let a = kept_elsewhere(t, env_id);
        let b = kept_elsewhere(s, env_id);
        let c = released_here(t, env_id);
        let d = released_here(s, env_id);
        assert forall|k: int| 0 <= k < s.len() && (
        #[trigger] s[k]).env_id@ != env_id implies b.contains(s[k]) by {
            if k < t.len() {
                assert(t[k] == s[k]);
                let j = choose|j: int| 0 <= j < a.len() && a[j] == s[k];
                assert(b[j] == s[k]);
            } else {
                assert(b[b.len() - 1] == s[k]);
            }
        }
        assert forall|k: int| 0 <= k < s.len() && (
        #[trigger] s[k]).env_id@ == env_id implies d.contains(
            Released { stop_handle: s[k].stop_handle, client: s[k].client },
        ) by {
            let r = Released { stop_handle: s[k].stop_handle, client: s[k].client };
            if k < t.len() {
                assert(t[k] == s[k]);
                let j = choose|j: int| 0 <= j < c.len() && c[j] == r;
                assert(d[j] == r);
            } else {
                assert(d[d.len() - 1] == r);
            }
        }
    }
}

/// The ports of an environment are those of its sessions that are ready, and no others.
pub proof fn law_ports_of_an_environment(s: Seq<ArthasEntry>, env_id: Seq<char>)
    ensures
        forall|k: int|
            0 <= k < s.len() && (#[trigger] s[k]).env_id@ == env_id && s[k].phase is Ready
                && s[k].remote_port is Some ==> ports(s, env_id).contains(s[k].remote_port->0),
        forall|j: int|
            #![trigger ports(s, env_id)[j]]
            0 <= j < ports(s, env_id).len() ==> exists|k: int|
                0 <= k < s.len() && (#[trigger] s[k]).env_id@ == env_id && s[k].phase is Ready
                    && s[k].remote_port == Some(ports(s, env_id)[j]),
    decreases s.len(),
{
    if s.len() > 0 {
        let t = s.drop_last();
        law_ports_of_an_environment(t, env_id);
        let a = ports(t, env_id);
        let b = ports(s, env_id);
        assert forall|k: int| 0 <= k < s.len() && (#[trigger] s[k]).env_id@ == env_id
            && s[k].phase is Ready && s[k].remote_port is Some implies b.contains(
            s[k].remote_port->0,
        ) by {
            if k < t.len() {
                assert(t[k] == s[k]);
                let j = choose|j: int| 0 <= j < a.len() && a[j] == s[k].remote_port->0;
                assert(b[j] == a[j]);
            } else {
                assert(port_of(s.last()) is Some);
                assert(b[b.len() - 1] == s[k].remote_port->0);
            }
        }
        assert forall|j: int| #![trigger b[j]] 0 <= j < b.len() implies exists|k: int|
            0 <= k < s.len() && (#[trigger] s[k]).env_id@ == env_id && s[k].phase is Ready
                && s[k].remote_port == Some(b[j]) by {
            if j < a.len() {
                assert(b[j] == a[j]);
                let k = choose|k: int|
                    0 <= k < t.len() && (#[trigger] t[k]).env_id@ == env_id && t[k].phase is Ready
                        && t[k].remote_port == Some(a[j]);
                assert(s[k] == t[k]);
            } else {
                assert(s[s.len() - 1].env_id@ == env_id);
            }
        }
    }
}

proof fn lemma_session_found(s: Seq<ArthasEntry>, env_id: Seq<char>, pid: i64, i: int)
    requires
        0 <= i <= s.len(),
    ensures
        match entry_of(s, env_id, pid, i) {
            Some(k) => i <= k < s.len() && s[k].env_id@ == env_id && s[k].pid == pid && forall|j: int|
                i <= j < k ==> !((#[trigger] s[j]).env_id@ == env_id && s[j].pid == pid),
            None => forall|j: int|
                i <= j < s.len() ==> !((#[trigger] s[j]).env_id@ == env_id && s[j].pid == pid),
        },
    decreases s.len() - i,
{
    if i < s.len() {
        lemma_session_found(s, env_id, pid, i + 1);
    }
}

/// The session of a process is the first that is of that environment and that process; there
/// is none only where none is of both.
pub proof fn law_session_is_found(s: Seq<ArthasEntry>, env_id: Seq<char>, pid: i64)
    ensures
        match entry_of(s, env_id, pid, 0) {
            Some(k) => 0 <= k < s.len() && s[k].env_id@ == env_id && s[k].pid == pid && forall|j: int|
                0 <= j < k ==> !((#[trigger] s[j]).env_id@ == env_id && s[j].pid == pid),
            None => forall|j: int|
                0 <= j < s.len() ==> !((#[trigger] s[j]).env_id@ == env_id && s[j].pid == pid),
        },
{
    lemma_session_found(s, env_id, pid, 0);
}

/// A session in the making is of its process and of its task, was used just now, and has
/// nothing yet: no client, no port, nothing to stop, no question under way.
pub proof fn law_session_in_the_making_is_bare(
    e: ArthasEntry,
    env_id: Seq<char>,
    pid: i64,
    now: u64,
    task_id: u64,
)
    ensures
        fresh(e, env_id, pid, now, task_id) <==> {
            &&& e.phase == ArthasPhase::Attaching
            &&& e.client is None && e.stop_handle is None && e.remote_port is None
            &&& e.env_id@ == env_id && e.pid == pid && e.task_id == task_id
            &&& e.last_active == now && e.inflight == 0
        },
{
}

/// What a session has to stop is what it holds, if it holds anything.
pub proof fn law_session_stops_what_it_holds(e: ArthasEntry, h: u64)
    ensures
        handles_of(e).contains(h) <==> e.stop_handle == Some(h),
        handles_of(e).len() <= 1,
{
    if e.stop_handle == Some(h) {
        assert(handles_of(e)[0] == h);
    }
}

/// To open a session uses the one that is ready, waits for the one in the making, or enters a
/// new one behind all others; it says of which process it is, and a task gets the next number.
pub proof fn law_opening_does_one_of_three(
    s: Seq<ArthasEntry>,
    n: u64,
    env_id: Seq<char>,
    pid: i64,
    now: u64,
    r: OpenStep,
    s2: Seq<ArthasEntry>,
    n2: u64,
)
    requires
        is_opened(s, n, env_id, pid, now, r, s2, n2),
    ensures
        match r {
            OpenStep::Reused(o) => {
                &&& n2 == n && o.env_id@ == env_id && o.pid == pid
                &&& o.summary@ == "arthas 已就绪（复用现有 attach）"@
                &&& entry_of(cleared(s, env_id, pid), env_id, pid, 0) matches Some(i)
                    && cleared(s, env_id, pid)[i].phase is Ready && s2 == cleared(
                    s,
                    env_id,
                    pid,
                ).update(i, ArthasEntry { last_active: now, ..cleared(s, env_id, pid)[i] })
            },
            OpenStep::Start { task_id, stops } => {
                &&& n2 == n + 1 && task_id == n2 && stops@ == evicted(cleared(s, env_id, pid))
                &&& entry_of(cleared(s, env_id, pid), env_id, pid, 0) is None
                &&& s2.len() > 0 && s2.last().env_id@ == env_id && s2.last().pid == pid
                &&& s2.last().task_id == task_id && s2.last().last_active == now
                &&& s2.last().phase is Attaching && s2.last().inflight == 0
            },
            OpenStep::Wait => n2 == n && s2 == cleared(s, env_id, pid) && (entry_of(
                cleared(s, env_id, pid),
                env_id,
                pid,
                0,
            ) matches Some(i) && !(cleared(s, env_id, pid)[i].phase is Ready)),
        },
{
}

} // verus!
