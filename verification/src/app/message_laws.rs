//! What is told of sessions and their messages, and how secrets are changed.

use crate::app::env_save::{has_row, KeychainOpModel};
use crate::app::keychain_run::{
    after_event, deletions_of, is_next, is_rollback, prepared, proper, subject, undo_of,
    writes_first, writes_of, KeychainEvent, KeychainStep, RunModel, UndoModel,
};
use crate::app::lifecycle::{is_send_plan, send_refusal, SendPlan, SessionLookup};
use crate::app::messages::{
    conversation, count, messages_left, owned_left, part_place, parts_left, parts_of,
    sessions_left, with_status, OwnedModel, StoredModel, StoredPartModel,
};
use crate::app::session::{
    after, as_row, changed, found, is_list, keys_of, listed, listed_rows, opened, title_of,
    MessageModel, PartModel, RowModel, SessionChange, SessionModel,
};
use crate::chars;
use crate::order;
use vstd::prelude::*;

verus! {

proof fn lemma_kind_rows(ops: Seq<KeychainOpModel>)
    ensures
        writes_of(ops).len() + deletions_of(ops).len() == ops.len(),
        forall|i: int|
            0 <= i < ops.len() ==> (#[trigger] ops[i] is Write ==> writes_of(ops).contains(ops[i]))
                && (ops[i] is Delete ==> deletions_of(ops).contains(ops[i])),
        forall|k: int|
            0 <= k < writes_of(ops).len() ==> (#[trigger] writes_of(ops)[k]) is Write
                && ops.contains(writes_of(ops)[k]),
        forall|k: int|
            0 <= k < deletions_of(ops).len() ==> (#[trigger] deletions_of(ops)[k]) is Delete
                && ops.contains(deletions_of(ops)[k]),
    decreases ops.len(),
{
    if ops.len() > 0 {
        let t = ops.drop_last();
        lemma_kind_rows(t);
        let w = writes_of(ops);
        let d = deletions_of(ops);
        assert forall|i: int| 0 <= i < ops.len() implies (#[trigger] ops[i] is Write ==> w.contains(
            ops[i],
        )) && (ops[i] is Delete ==> d.contains(ops[i])) by {
            if i < t.len() {
                assert(t[i] == ops[i]);
                if ops[i] is Write {
                    let k = choose|k: int| 0 <= k < writes_of(t).len() && writes_of(t)[k] == ops[i];
                    assert(w[k] == ops[i]);
                } else {
                    let k = choose|k: int|
                        0 <= k < deletions_of(t).len() && deletions_of(t)[k] == ops[i];
                    assert(d[k] == ops[i]);
                }
            } else {
                if ops[i] is Write {
                    assert(w[w.len() - 1] == ops[i]);
                } else {
                    assert(d[d.len() - 1] == ops[i]);
                }
            }
        }
        assert forall|k: int| 0 <= k < w.len() implies (#[trigger] w[k]) is Write && ops.contains(
            w[k],
        ) by {
            if k < writes_of(t).len() {
                assert(w[k] == writes_of(t)[k]);
                let i = choose|i: int| 0 <= i < t.len() && t[i] == w[k];
                assert(ops[i] == w[k]);
            } else {
                assert(ops[ops.len() - 1] == w[k]);
            }
        }
        assert forall|k: int| 0 <= k < d.len() implies (#[trigger] d[k]) is Delete && ops.contains(
            d[k],
        ) by {
            if k < deletions_of(t).len() {
                assert(d[k] == deletions_of(t)[k]);
                let i = choose|i: int| 0 <= i < t.len() && t[i] == d[k];
                assert(ops[i] == d[k]);
            } else {
                assert(ops[ops.len() - 1] == d[k]);
            }
        }
    }
}

/// Putting the writes in front loses no change and adds none.
pub proof fn law_every_change_is_made(ops: Seq<KeychainOpModel>)
    ensures
        writes_first(ops).len() == ops.len(),
        forall|i: int| 0 <= i < ops.len() ==> writes_first(ops).contains(#[trigger] ops[i]),
        forall|k: int|
            0 <= k < writes_first(ops).len() ==> ops.contains(#[trigger] writes_first(ops)[k]),
{
    lemma_kind_rows(ops);
    let all = writes_first(ops);
    let w = writes_of(ops);
    let d = deletions_of(ops);
    assert forall|i: int| 0 <= i < ops.len() implies all.contains(#[trigger] ops[i]) by {
        if ops[i] is Write {
            let k = choose|k: int| 0 <= k < w.len() && w[k] == ops[i];
            assert(all[k] == ops[i]);
        } else {
            let k = choose|k: int| 0 <= k < d.len() && d[k] == ops[i];
            assert(all[w.len() + k] == ops[i]);
        }
    }
    assert forall|k: int| 0 <= k < all.len() implies ops.contains(#[trigger] all[k]) by {
        if k < w.len() {
            assert(all[k] == w[k]);
        } else {
            assert(all[k] == d[k - w.len()]);
        }
    }
}

/// The changes that were made are taken back one by one, the last one first, each to what was
/// there before it.
pub proof fn law_changes_are_taken_back_in_turn(m: RunModel, n: int, i: int)
    requires
        0 <= i < n <= m.ops.len(),
    ensures
        undo_of(m, n).len() == n,
        undo_of(m, n)[i] == (UndoModel {
            cred_id: subject(m.ops[n - 1 - i]),
            secret: m.former[n - 1 - i],
        }),
        undo_of(m, 0).len() == 0,
    decreases n,
{
    assert(undo_of(m, 0).len() == 0);
    if i > 0 {
        law_changes_are_taken_back_in_turn(m, n - 1, i - 1);
    } else if n > 1 {
        law_changes_are_taken_back_in_turn(m, n - 1, 0);
    }
}

/// A secret is changed only once it is known what was there; what is not there before is not
/// asked for. All is done once every change was made, and not before.
pub proof fn law_secret_is_known_before_it_is_changed(m: RunModel, r: KeychainStep)
    requires
        proper(m),
        is_next(m, r),
    ensures
        r is Finished <==> m.done == m.ops.len(),
        r is Run ==> m.former.len() == m.done + 1 && m.done < m.ops.len() && r->Run_0@
            == m.ops[m.done],
        r matches KeychainStep::Read { cred_id } ==> m.former.len() == m.done && m.done
            < m.ops.len() && cred_id@ == subject(m.ops[m.done]),
        !(r is RollBack),
        prepared(m) == m && r is Read ==> has_row(m.existing, subject(m.ops[m.done])),
{
}

/// What happened counts: a secret that was read is remembered, a change that was made is
/// counted, a failure changes nothing.
pub proof fn law_what_happened_counts(m: RunModel, secret: Option<String>, why: String)
    requires
        proper(m),
        m.done < m.ops.len(),
    ensures
        m.former.len() == m.done ==> after_event(m, KeychainEvent::Former(secret)).former
            == m.former.push(secret.deep_view()) && after_event(
            m,
            KeychainEvent::Former(secret),
        ).done == m.done,
        m.former.len() == m.done + 1 ==> after_event(m, KeychainEvent::Changed).done == m.done + 1
            && after_event(m, KeychainEvent::Changed).former.take(m.former.len() as int)
            == m.former,
        m.former.len() == m.done ==> after_event(m, KeychainEvent::Changed) == m,
        after_event(m, KeychainEvent::Failed(why)) == m,
        after_event(m, KeychainEvent::Started) == m,
        after_event(m, KeychainEvent::Changed).ops == m.ops,
        after_event(m, KeychainEvent::Former(secret)).ops == m.ops,
{
    let c = after_event(m, KeychainEvent::Changed);
    if m.former.len() == m.done + 1 {
        assert(c.former.take(m.former.len() as int) =~= m.former);
    }
}

/// Where a change fails, the error is reported with its reason, and as many secrets are
/// brought back as were changed.
pub proof fn law_failure_is_reported(m: RunModel, why: Seq<char>, r: KeychainStep)
    requires
        proper(m),
        is_rollback(m, why, r),
    ensures
        r is RollBack,
        r->undo@.len() == m.done,
        r->RollBack_error matches crate::app::env_save::SaveError::Keychain(e) && e@ == why,
{
    assert(r->undo@.map_values(|u: crate::app::keychain_run::SecretUndo| u@).len()
        == r->undo@.len());
    if m.done > 0 {
        law_changes_are_taken_back_in_turn(m, m.done, 0);
    }
}

/// A message is taken just where its session is there, neither closed nor archived, and no
/// agent is at work on it. Otherwise the first of these that fails is told.
pub proof fn law_messages_that_are_taken(l: SessionLookup)
    ensures
        send_refusal(l) is None <==> l.status is Some && l.status->0@ != "closed"@ && l.status->0@
            != "archived"@ && !l.agent_running,
        l.status is None ==> send_refusal(l) == Some("会话不存在"@),
        l.status is Some && l.status->0@ == "closed"@ ==> send_refusal(l) == Some("会话已关闭"@),
        l.status is Some && l.status->0@ == "archived"@ ==> send_refusal(l) == Some("会话已归档"@),
        l.status is Some && l.status->0@ != "closed"@ && l.status->0@ != "archived"@
            && l.agent_running ==> send_refusal(l) == Some("agent 正在运行"@),
{
    reveal_strlit("closed");
    reveal_strlit("archived");
    assert("closed"@.len() != "archived"@.len());
}

/// The message of the user is recorded word for word as done, and right behind it the one of
/// the agent, which is empty and still being written.
pub proof fn law_answer_follows_the_message(
    p: SendPlan,
    session_id: Seq<char>,
    new_title: Option<Seq<char>>,
    agent_session_id: Option<Seq<char>>,
    message: Seq<char>,
    count: int,
)
    requires
        is_send_plan(p, session_id, new_title, agent_session_id, message, count),
    ensures
        p.user_message.content is Some && p.user_message.content->0@ == message,
        p.agent_message.content is None,
        p.user_message.seq == count,
        p.agent_message.seq == p.user_message.seq + 1,
        p.user_message.role@ == "user"@ && p.user_message.status@ == "done"@,
        p.agent_message.role@ == "agent"@ && p.agent_message.status@ == "streaming"@,
        p.recall_experiences <==> p.new_session_title is Some,
        agent_session_id is None ==> p.agent_session_id is None,
{
}

/// The title of a session is the beginning of the message that opens it, without blanks
/// around it: all of it up to 40 characters.
pub proof fn law_title_is_the_beginning(message: Seq<char>)
    ensures
        title_of(message).len() <= 40,
        chars::starts_with(chars::trim(message), title_of(message)),
        chars::trim(message).len() <= 40 ==> title_of(message) == chars::trim(message),
        chars::trim(message).len() > 40 ==> title_of(message).len() == 40,
{
    let t = chars::trim(message);
    assert(t.subrange(0, title_of(message).len() as int) =~= title_of(message));
}

/// A session that was just opened is active, of that moment, titled by its message, and
/// nothing else is known of it.
pub proof fn law_session_opens_active(id: Seq<char>, message: Seq<char>, now: Seq<char>)
    ensures
        ({
            let s = opened(id, message, now);
            &&& s.id == id && s.status == "active"@ && s.created_at == now
            &&& s.title == Some(title_of(message))
            &&& s.closed_at is None && s.archived_at is None && s.agent_session_id is None
            &&& s.env.len() == 0 && s.service.len() == 0 && s.symptom.len() == 0
        }),
{
}

/// Each change sets what it is about, and nothing else of the session.
pub proof fn law_change_sets_what_it_is_about(s: SessionModel, t: &str)
    ensures
        after(s, SessionChange::Close(t)) == (SessionModel {
            status: "closed"@,
            closed_at: Some(t@),
            ..s
        }),
        after(s, SessionChange::Archive(t)) == (SessionModel {
            status: "archived"@,
            archived_at: Some(t@),
            ..s
        }),
        after(s, SessionChange::Unarchive) == (SessionModel {
            status: "closed"@,
            archived_at: None,
            ..s
        }),
        after(s, SessionChange::Agent(t)) == (SessionModel { agent_session_id: Some(t@), ..s }),
{
}

proof fn lemma_listed_rows(rows: Seq<SessionModel>, archived: bool, n: int)
    requires
        0 <= n <= rows.len(),
    ensures
        forall|i: int|
            0 <= i < n && listed((#[trigger] rows[i]).status, archived) ==> listed_rows(
                rows,
                archived,
                n,
            ).contains(i),
        forall|k: int|
            0 <= k < listed_rows(rows, archived, n).len() ==> {
                let i = #[trigger] listed_rows(rows, archived, n)[k];
                0 <= i < n && listed(rows[i].status, archived)
            },
        forall|a: int, b: int|
            0 <= a < b < listed_rows(rows, archived, n).len() ==> #[trigger] listed_rows(
                rows,
                archived,
                n,
            )[a] < #[trigger] listed_rows(rows, archived, n)[b],
    decreases n,
{
    if n > 0 {
        lemma_listed_rows(rows, archived, n - 1);
        let b = listed_rows(rows, archived, n - 1);
        let r = listed_rows(rows, archived, n);
        assert forall|i: int| 0 <= i < n && listed(
            (#[trigger] rows[i]).status,
            archived,
        ) implies r.contains(i) by {
            if i < n - 1 {
                let k = choose|k: int| 0 <= k < b.len() && b[k] == i;
                assert(r[k] == i);
            } else {
                assert(r[r.len() - 1] == i);
            }
        }
    }
}

/// A list shows every session that belongs in it: the archive those that are archived, the
/// other list those that are active or closed; and no others.
pub proof fn law_list_shows_what_belongs_in_it(
    rows: Seq<SessionModel>,
    archived: bool,
    r: Seq<RowModel>,
)
    requires
        is_list(rows, archived, r),
    ensures
        forall|i: int|
            0 <= i < rows.len() && (if archived {
                (#[trigger] rows[i]).status == "archived"@
            } else {
                rows[i].status == "active"@ || rows[i].status == "closed"@
            }) ==> r.contains(as_row(rows[i])),
        forall|k: int|
            0 <= k < r.len() ==> if archived {
                (#[trigger] r[k]).status == "archived"@
            } else {
                r[k].status == "active"@ || r[k].status == "closed"@
            },
        r.len() <= rows.len(),
{
    let n = rows.len() as int;
    let shown = listed_rows(rows, archived, n);
    lemma_listed_rows(rows, archived, n);
    lemma_shown_len(rows, archived, n);
    let keys = keys_of(rows, shown, archived);
    let o = choose|o: Seq<usize>| #[trigger]
        order::is_order(keys, true, o) && r.len() == shown.len() && forall|i: int|
            0 <= i < r.len() ==> #[trigger] r[i] == as_row(rows[shown[o[i] as int]]);
    assert forall|i: int| 0 <= i < rows.len() && (if archived {
        (#[trigger] rows[i]).status == "archived"@
    } else {
        rows[i].status == "active"@ || rows[i].status == "closed"@
    }) implies r.contains(as_row(rows[i])) by {
        assert(listed(rows[i].status, archived));
        let k = choose|k: int| 0 <= k < shown.len() && shown[k] == i;
        let at = order::lemma_order_is_complete(keys, true, o, k);
        assert(r[at] == as_row(rows[i]));
    }
    assert forall|k: int| 0 <= k < r.len() implies if archived {
        (#[trigger] r[k]).status == "archived"@
    } else {
        r[k].status == "active"@ || r[k].status == "closed"@
    } by {
        let j = o[k] as int;
        assert(0 <= j < shown.len());
        assert(listed(rows[shown[j]].status, archived));
    }
}

proof fn lemma_shown_len(rows: Seq<SessionModel>, archived: bool, n: int)
    ensures
        listed_rows(rows, archived, n).len() <= if n <= 0 {
            0
        } else {
            n
        },
    decreases n,
{
    if n > 0 {
        lemma_shown_len(rows, archived, n - 1);
    }
}

/// A list shows the latest first: by when they were created, in the archive by when they were
/// archived.
pub proof fn law_latest_is_listed_first(
    rows: Seq<SessionModel>,
    archived: bool,
    r: Seq<RowModel>,
    i: int,
    j: int,
)
    requires
        is_list(rows, archived, r),
        0 <= i < j < r.len(),
    ensures
        !archived ==> !chars::less(r[i].created_at, r[j].created_at),
        archived && r[i].archived_at is Some && r[j].archived_at is Some ==> !chars::less(
            r[i].archived_at->0,
            r[j].archived_at->0,
        ),
        archived && r[i].archived_at is None ==> r[j].archived_at is None,
{
    let shown = listed_rows(rows, archived, rows.len() as int);
    let keys = keys_of(rows, shown, archived);
    let o = choose|o: Seq<usize>| #[trigger]
        order::is_order(keys, true, o) && r.len() == shown.len() && forall|i: int|
            0 <= i < r.len() ==> #[trigger] r[i] == as_row(rows[shown[o[i] as int]]);
    let x = o[i] as int;
    let y = o[j] as int;
    assert(order::precedes(keys, true, x, y));
    assert(r[i] == as_row(rows[shown[x]]));
    assert(r[j] == as_row(rows[shown[y]]));
    chars::lemma_less_total(keys[x].text, keys[y].text);
}

proof fn lemma_part_place(s: Seq<PartModel>, seq: i64)
    requires
        forall|i: int, j: int|
            0 <= i < j < s.len() ==> (#[trigger] s[i]).seq <= (#[trigger] s[j]).seq,
    ensures
        0 <= part_place(s, seq) <= s.len(),
        forall|i: int| 0 <= i < part_place(s, seq) ==> (#[trigger] s[i]).seq <= seq,
        forall|i: int| part_place(s, seq) <= i < s.len() ==> (#[trigger] s[i]).seq > seq,
    decreases s.len(),
{
    if s.len() > 0 && s.last().seq > seq {
        let t = s.drop_last();
        assert forall|i: int, j: int| 0 <= i < j < t.len() implies (#[trigger] t[i]).seq <= (
        #[trigger] t[j]).seq by {
            assert(s[i].seq <= s[j].seq);
        }
        lemma_part_place(t, seq);
        let p = part_place(s, seq);
        assert forall|i: int| 0 <= i < p implies (#[trigger] s[i]).seq <= seq by {
            assert(t[i] == s[i]);
        }
        assert forall|i: int| p <= i < s.len() implies (#[trigger] s[i]).seq > seq by {
            if i < t.len() {
                assert(t[i] == s[i]);
            }
        }
    } else if s.len() > 0 {
        assert forall|i: int| 0 <= i < s.len() implies (#[trigger] s[i]).seq <= seq by {
            if i < s.len() - 1 {
                assert(s[i].seq <= s[s.len() - 1].seq);
            }
        }
    }
}

/// The parts of a message are those that were stored for it, each of them, in the order of
/// their numbers.
pub proof fn law_parts_are_read_in_order(parts: Seq<StoredPartModel>, message_id: Seq<char>)
    ensures
        ({
            let r = parts_of(parts, message_id);
            &&& forall|i: int, j: int|
                0 <= i < j < r.len() ==> (#[trigger] r[i]).seq <= (#[trigger] r[j]).seq
            &&& forall|k: int|
                0 <= k < parts.len() && (#[trigger] parts[k]).message_id == message_id
                    ==> r.contains(parts[k].part)
            &&& forall|i: int|
                #![trigger r[i]]
                0 <= i < r.len() ==> exists|k: int|
                    0 <= k < parts.len() && (#[trigger] parts[k]).message_id == message_id
                        && parts[k].part == r[i]
        }),
    decreases parts.len(),
{
    if parts.len() > 0 {
        let t = parts.drop_last();
        law_parts_are_read_in_order(t, message_id);
        let front = parts_of(t, message_id);
        let p = parts.last();
        let r = parts_of(parts, message_id);
        if p.message_id == message_id {
            lemma_part_place(front, p.part.seq);
            let at = part_place(front, p.part.seq);
            assert(r[at] == p.part);
            assert forall|i: int, j: int| 0 <= i < j < r.len() implies (#[trigger] r[i]).seq <= (
            #[trigger] r[j]).seq by {
                let a = if i < at {
                    i
                } else {
                    i - 1
                };
                let b = if j < at {
                    j
                } else {
                    j - 1
                };
                if i != at && j != at {
                    assert(r[i] == front[a] && r[j] == front[b]);
                    assert(a < b);
                } else if i == at {
                    assert(r[j] == front[b]);
                } else {
                    assert(r[i] == front[a]);
                }
            }
        }
        assert forall|k: int| 0 <= k < parts.len() && (
        #[trigger] parts[k]).message_id == message_id implies r.contains(parts[k].part) by {
            if k < t.len() {
                assert(t[k] == parts[k]);
                let i = choose|i: int| 0 <= i < front.len() && front[i] == parts[k].part;
                if p.message_id == message_id {
                    let at = part_place(front, p.part.seq);
                    if i < at {
                        assert(r[i] == front[i]);
                    } else {
                        assert(r[i + 1] == front[i]);
                    }
                }
            }
        }
        assert forall|i: int| #![trigger r[i]] 0 <= i < r.len() implies exists|k: int|
            0 <= k < parts.len() && (#[trigger] parts[k]).message_id == message_id && parts[k].part
                == r[i] by {
            let at = part_place(front, p.part.seq);
            if p.message_id == message_id && i == at {
                assert(parts[parts.len() - 1].part == r[i]);
            } else {
                let j = if p.message_id == message_id && i > at {
                    i - 1
                } else {
                    i
                };
                assert(front[j] == r[i]);
                let k = choose|k: int|
                    0 <= k < t.len() && (#[trigger] t[k]).message_id == message_id && t[k].part
                        == front[j];
                assert(parts[k] == t[k]);
            }
        }
    }
}

/// A conversation holds messages of its session only, each as it was stored.
pub proof fn law_conversation_holds_its_own(
    messages: Seq<StoredModel>,
    parts: Seq<StoredPartModel>,
    session_id: Seq<char>,
)
    ensures
        ({
            let r = conversation(messages, parts, session_id);
            forall|i: int|
                #![trigger r[i]]
                0 <= i < r.len() ==> exists|k: int|
                    0 <= k < messages.len() && (#[trigger] messages[k]).session_id == session_id
                        && r[i].id == messages[k].id && r[i].role == messages[k].role
                        && r[i].content == messages[k].content && r[i].status
                        == messages[k].status && r[i].seq == messages[k].seq && r[i].parts
                        == parts_of(parts, messages[k].id)
        }),
    decreases messages.len(),
{
    if messages.len() > 0 {
        let t = messages.drop_last();
        law_conversation_holds_its_own(t, parts, session_id);
        let front = conversation(t, parts, session_id);
        let m = messages.last();
        let r = conversation(messages, parts, session_id);
        let at = crate::app::messages::message_place(front, m.seq);
        lemma_message_place(front, m.seq);
        assert forall|i: int| #![trigger r[i]] 0 <= i < r.len() implies exists|k: int|
            0 <= k < messages.len() && (#[trigger] messages[k]).session_id == session_id
                && r[i].id == messages[k].id && r[i].role == messages[k].role && r[i].content
                == messages[k].content && r[i].status == messages[k].status && r[i].seq
                == messages[k].seq && r[i].parts == parts_of(parts, messages[k].id) by {
            if m.session_id == session_id && i == at {
                assert(messages[messages.len() - 1] == m);
            } else {
                let j = if m.session_id == session_id && i > at {
                    i - 1
                } else {
                    i
                };
                assert(front[j] == r[i]);
                let k = choose|k: int|
                    0 <= k < t.len() && (#[trigger] t[k]).session_id == session_id && front[j].id
                        == t[k].id && front[j].role == t[k].role && front[j].content
                        == t[k].content && front[j].status == t[k].status && front[j].seq
                        == t[k].seq && front[j].parts == parts_of(parts, t[k].id);
                assert(messages[k] == t[k]);
            }
        }
    }
}

proof fn lemma_message_place(s: Seq<MessageModel>, seq: i64)
    ensures
        0 <= crate::app::messages::message_place(s, seq) <= s.len(),
    decreases s.len(),
{
    if s.len() > 0 && s.last().seq > seq {
        lemma_message_place(s.drop_last(), seq);
    }
}

/// The number of the next message is that of the messages there are: one more after each that
/// is stored for the session, the same after one for another.
pub proof fn law_next_number_counts_messages(
    messages: Seq<StoredModel>,
    m: StoredModel,
    session_id: Seq<char>,
)
    ensures
        count(Seq::empty(), session_id) == 0,
        m.session_id == session_id ==> count(messages.push(m), session_id) == count(
            messages,
            session_id,
        ) + 1,
        m.session_id != session_id ==> count(messages.push(m), session_id) == count(
            messages,
            session_id,
        ),
{
    assert(messages.push(m).drop_last() =~= messages);
}

/// Deleting a session takes away what is its own and nothing else, table by table, and leaves
/// the rest in its order.
pub proof fn law_only_its_own_goes(
    a: Seq<OwnedModel>,
    b: Seq<OwnedModel>,
    x: OwnedModel,
    ms: Seq<StoredModel>,
    m: StoredModel,
    ps: Seq<StoredPartModel>,
    p: StoredPartModel,
    session_id: Seq<char>,
)
    ensures
        owned_left(a.push(x), session_id) == (if x.session_id == session_id {
            owned_left(a, session_id)
        } else {
            owned_left(a, session_id).push(x)
        }),
        owned_left(Seq::empty(), session_id).len() == 0,
        messages_left(ms.push(m), session_id) == (if m.session_id == session_id {
            messages_left(ms, session_id)
        } else {
            messages_left(ms, session_id).push(m)
        }),
        messages_left(Seq::empty(), session_id).len() == 0,
        parts_left(ps.push(p), ms, session_id) == (if exists|k: int|
            0 <= k < ms.len() && (#[trigger] ms[k]).session_id == session_id && ms[k].id
                == p.message_id {
            parts_left(ps, ms, session_id)
        } else {
            parts_left(ps, ms, session_id).push(p)
        }),
        parts_left(Seq::empty(), ms, session_id).len() == 0,
{
    assert(a.push(x).drop_last() =~= a);
    assert(ms.push(m).drop_last() =~= ms);
    assert(ps.push(p).drop_last() =~= ps);
    lemma_owns(ms, session_id, p.message_id, 0);
}

proof fn lemma_owns(ms: Seq<StoredModel>, session_id: Seq<char>, id: Seq<char>, i: int)
    requires
        0 <= i,
    ensures
        crate::app::messages::owns(ms, session_id, id, i) <==> exists|k: int|
            i <= k < ms.len() && (#[trigger] ms[k]).session_id == session_id && ms[k].id == id,
    decreases ms.len() - i,
{
    if i < ms.len() {
        lemma_owns(ms, session_id, id, i + 1);
    }
}

/// A status is set on the message of that id, on nothing else of it, and on no other.
pub proof fn law_status_is_set_on_one(messages: Seq<StoredModel>, id: Seq<char>, status: Seq<char>, i: int)
    requires
        0 <= i < messages.len(),
    ensures
        with_status(messages, id, status).len() == messages.len(),
        messages[i].id != id ==> with_status(messages, id, status)[i] == messages[i],
        messages[i].id == id ==> with_status(messages, id, status)[i].status == Some(status),
        with_status(messages, id, status)[i] == (StoredModel {
            status: with_status(messages, id, status)[i].status,
            ..messages[i]
        }),
{
}

/// A change goes to the session of that id and to no other, and it leaves the rest of that
/// session as it was.
pub proof fn law_change_goes_to_its_session(rows: Seq<SessionModel>, id: Seq<char>, now: &str, i: int)
    requires
        0 <= i < rows.len(),
    ensures
        ({
            let closed = changed(rows, id, SessionChange::Close(now));
            let archived = changed(rows, id, SessionChange::Archive(now));
            let back = changed(rows, id, SessionChange::Unarchive);
            let agent = changed(rows, id, SessionChange::Agent(now));
            &&& closed.len() == rows.len() && archived.len() == rows.len() && back.len()
                == rows.len() && agent.len() == rows.len()
            &&& rows[i].id != id ==> closed[i] == rows[i] && archived[i] == rows[i] && back[i]
                == rows[i] && agent[i] == rows[i]
            &&& rows[i].id == id ==> {
                &&& closed[i] == SessionModel {
                    status: "closed"@,
                    closed_at: Some(now@),
                    ..rows[i]
                }
                &&& archived[i] == SessionModel {
                    status: "archived"@,
                    archived_at: Some(now@),
                    ..rows[i]
                }
                &&& back[i] == SessionModel { status: "closed"@, archived_at: None, ..rows[i] }
                &&& agent[i] == SessionModel { agent_session_id: Some(now@), ..rows[i] }
            }
        }),
{
}

proof fn lemma_session_found(rows: Seq<SessionModel>, id: Seq<char>, i: int, k: int)
    requires
        0 <= i <= k < rows.len(),
        forall|j: int| 0 <= j < k ==> (#[trigger] rows[j]).id != id,
    ensures
        rows[k].id == id ==> found(rows, id, i) == Some(rows[k]),
        rows[k].id != id && k + 1 == rows.len() ==> found(rows, id, i) is None,
    decreases k - i,
{
    if i < k {
        lemma_session_found(rows, id, i + 1, k);
    } else if k + 1 == rows.len() && rows[k].id != id {
        assert(found(rows, id, k + 1) is None);
    }
}

/// The session that is found by an id is the first that has it; none is found only where none
/// has it.
pub proof fn law_session_is_found_by_its_id(rows: Seq<SessionModel>, id: Seq<char>, k: int)
    requires
        0 <= k < rows.len(),
        forall|j: int| 0 <= j < k ==> (#[trigger] rows[j]).id != id,
    ensures
        rows[k].id == id ==> found(rows, id, 0) == Some(rows[k]),
        rows[k].id != id && k + 1 == rows.len() ==> found(rows, id, 0) is None,
        found(Seq::empty(), id, 0) is None,
{
    lemma_session_found(rows, id, 0, k);
}

/// Of the sessions those stay that have another id, in their order.
pub proof fn law_sessions_of_another_id_stay(rows: Seq<SessionModel>, s: SessionModel, id: Seq<char>)
    ensures
        sessions_left(Seq::empty(), id).len() == 0,
        s.id == id ==> sessions_left(rows.push(s), id) == sessions_left(rows, id),
        s.id != id ==> sessions_left(rows.push(s), id) == sessions_left(rows, id).push(s),
{
    assert(rows.push(s).drop_last() =~= rows);
}

} // verus!
