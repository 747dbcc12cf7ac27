//! The messages of sessions, as they are stored and as they are read.

use crate::app::session::{
    found, sessions, MessageModel, MessagePartRow, MessageRow, PartModel, SessionModel, StoredSession,
};
use crate::ids;
use crate::text;
use vstd::prelude::*;

verus! {

/// A row of the table of messages.
#[derive(Debug)]
pub struct StoredMessage {
    pub id: String,
    pub session_id: String,
    pub role: String,
    pub content: Option<String>,
    pub status: Option<String>,
    pub seq: i64,
}

#[verifier::ext_equal]
pub struct StoredModel {
    pub id: Seq<char>,
    pub session_id: Seq<char>,
    pub role: Seq<char>,
    pub content: Option<Seq<char>>,
    pub status: Option<Seq<char>>,
    pub seq: i64,
}

impl View for StoredMessage {
    type V = StoredModel;

    open spec fn view(&self) -> StoredModel {
        StoredModel {
            id: self.id@,
            session_id: self.session_id@,
            role: self.role@,
            content: self.content.deep_view(),
            status: self.status.deep_view(),
            seq: self.seq,
        }
    }
}

/// A row of the table of parts.
#[derive(Debug)]
pub struct StoredPart {
    pub message_id: String,
    pub part: MessagePartRow,
}

#[verifier::ext_equal]
pub struct StoredPartModel {
    pub message_id: Seq<char>,
    pub part: PartModel,
}

impl View for StoredPart {
    type V = StoredPartModel;

    open spec fn view(&self) -> StoredPartModel {
        StoredPartModel { message_id: self.message_id@, part: self.part@ }
    }
}

pub open spec fn stored(s: Seq<StoredMessage>) -> Seq<StoredModel> {
    s.map_values(|m: StoredMessage| m@)
}

pub open spec fn stored_parts(s: Seq<StoredPart>) -> Seq<StoredPartModel> {
    s.map_values(|p: StoredPart| p@)
}

pub open spec fn read_rows(s: Seq<MessageRow>) -> Seq<MessageModel> {
    s.map_values(|m: MessageRow| m@)
}

pub open spec fn read_parts(s: Seq<MessagePartRow>) -> Seq<PartModel> {
    s.map_values(|p: MessagePartRow| p@)
}

/// How many parts at the front have at most this number.
pub open spec fn part_place(s: Seq<PartModel>, seq: i64) -> int
    decreases s.len(),
{
    if s.len() > 0 && s.last().seq > seq {
        part_place(s.drop_last(), seq)
    } else {
        s.len() as int
    }
}

/// How many messages at the front have at most this number.
pub open spec fn message_place(s: Seq<MessageModel>, seq: i64) -> int
    decreases s.len(),
{
    if s.len() > 0 && s.last().seq > seq {
        message_place(s.drop_last(), seq)
    } else {
        s.len() as int
    }
}

/// The parts of a message, by their numbers; those with the same number as they are stored.
pub open spec fn parts_of(parts: Seq<StoredPartModel>, message_id: Seq<char>) -> Seq<PartModel>
    decreases parts.len(),
{
    if parts.len() == 0 {
        Seq::empty()
    } else {
        let front = parts_of(parts.drop_last(), message_id);
        let p = parts.last();
        if p.message_id == message_id {
            front.insert(part_place(front, p.part.seq), p.part)
        } else {
            front
        }
    }
}

pub open spec fn as_read(m: StoredModel, parts: Seq<StoredPartModel>) -> MessageModel {
    MessageModel {
        id: m.id,
        role: m.role,
        content: m.content,
        status: m.status,
        seq: m.seq,
        parts: parts_of(parts, m.id),
    }
}

/// The messages of a session with their parts, by their numbers.
pub open spec fn conversation(
    messages: Seq<StoredModel>,
    parts: Seq<StoredPartModel>,
    session_id: Seq<char>,
) -> Seq<MessageModel>
    decreases messages.len(),
{
    if messages.len() == 0 {
        Seq::empty()
    } else {
        let front = conversation(messages.drop_last(), parts, session_id);
        let m = messages.last();
        if m.session_id == session_id {
            front.insert(message_place(front, m.seq), as_read(m, parts))
        } else {
            front
        }
    }
}

/// How many messages a session has.
pub open spec fn count(messages: Seq<StoredModel>, session_id: Seq<char>) -> nat
    decreases messages.len(),
{
    if messages.len() == 0 {
        0
    } else if messages.last().session_id == session_id {
        count(messages.drop_last(), session_id) + 1
    } else {
        count(messages.drop_last(), session_id)
    }
}

proof fn lemma_message_place(s: Seq<MessageModel>, seq: i64)
    ensures
        0 <= message_place(s, seq) <= s.len(),
    decreases s.len(),
{
    if s.len() > 0 && s.last().seq > seq {
        lemma_message_place(s.drop_last(), seq);
    }
}

fn copy_part(p: &MessagePartRow) -> (r: MessagePartRow)
    ensures
        r@ == p@,
{
    MessagePartRow {
        part_type: p.part_type.clone(),
        seq: p.seq,
        text: text::clone_opt(&p.text),
        tool_name: text::clone_opt(&p.tool_name),
        tool_args: text::clone_opt(&p.tool_args),
        tool_status: text::clone_opt(&p.tool_status),
        tool_output: text::clone_opt(&p.tool_output),
        tool_elapsed_ms: p.tool_elapsed_ms,
    }
}

fn collect_parts(parts: &Vec<StoredPart>, message_id: &str) -> (r: Vec<MessagePartRow>)
    ensures
        read_parts(r@) == parts_of(stored_parts(parts@), message_id@),
{
    let ghost all = stored_parts(parts@);
    let mut out: Vec<MessagePartRow> = Vec::new();
    let mut i: usize = 0;
    assert(read_parts(out@) =~= parts_of(all.take(0), message_id@));
    while i < parts.len()
        invariant
            i <= parts@.len(),
            all == stored_parts(parts@),
            read_parts(out@) == parts_of(all.take(i as int), message_id@),
        decreases parts@.len() - i,
    {
        proof {
            assert(all.take(i + 1).drop_last() =~= all.take(i as int));
            assert(all.take(i + 1).last() == parts@[i as int]@);
        }
        if text::same(parts[i].message_id.as_str(), message_id) {
            let ghost front = read_parts(out@);
            let seq = parts[i].part.seq;
            let mut at: usize = out.len();
            assert(front.take(at as int) =~= front);
            while at > 0 && out[at - 1].seq > seq
                invariant
                    at <= out@.len(),
                    front == read_parts(out@),
                    part_place(front, seq) == part_place(front.take(at as int), seq),
                decreases at,
            {
                proof {
                    assert(front[at - 1] == out@[at - 1]@);
                    assert(front.take(at as int).last() == front[at - 1]);
                    assert(front.take(at as int).drop_last() =~= front.take(at - 1));
                }
                at = at - 1;
            }
            proof {
                if at > 0 {
                    assert(front[at - 1] == out@[at - 1]@);
                    assert(front.take(at as int).last() == front[at - 1]);
                }
            }
            let p = copy_part(&parts[i].part);
            let ghost m = p@;
            out.insert(at, p);
            assert(read_parts(out@) =~= front.insert(at as int, m));
        }
        i = i + 1;
    }
    assert(all.take(i as int) =~= all);
    out
}

/// The messages of a session with their parts, by their numbers.
pub fn get_session_messages(
    messages: &Vec<StoredMessage>,
    parts: &Vec<StoredPart>,
    session_id: &str,
) -> (r: Vec<MessageRow>)
    ensures
        read_rows(r@) == conversation(stored(messages@), stored_parts(parts@), session_id@),
{
    let ghost all = stored(messages@);
    let ghost ps = stored_parts(parts@);
    let mut out: Vec<MessageRow> = Vec::new();
    let mut i: usize = 0;
    assert(read_rows(out@) =~= conversation(all.take(0), ps, session_id@));
    while i < messages.len()
        invariant
            i <= messages@.len(),
            all == stored(messages@),
            ps == stored_parts(parts@),
            read_rows(out@) == conversation(all.take(i as int), ps, session_id@),
        decreases messages@.len() - i,
    {
        proof {
            assert(all.take(i + 1).drop_last() =~= all.take(i as int));
            assert(all.take(i + 1).last() == messages@[i as int]@);
        }
        let m = &messages[i];
        if text::same(m.session_id.as_str(), session_id) {
            let ghost front = read_rows(out@);
            let seq = m.seq;
            let mut at: usize = out.len();
            assert(front.take(at as int) =~= front);
            while at > 0 && out[at - 1].seq > seq
                invariant
                    at <= out@.len(),
                    front == read_rows(out@),
                    message_place(front, seq) == message_place(front.take(at as int), seq),
                decreases at,
            {
                proof {
                    assert(front[at - 1] == out@[at - 1]@);
                    assert(front.take(at as int).last() == front[at - 1]);
                    assert(front.take(at as int).drop_last() =~= front.take(at - 1));
                }
                at = at - 1;
            }
            proof {
                if at > 0 {
                    assert(front[at - 1] == out@[at - 1]@);
                    assert(front.take(at as int).last() == front[at - 1]);
                }
            }
            let row = MessageRow {
                id: m.id.clone(),
                role: m.role.clone(),
                content: text::clone_opt(&m.content),
                status: text::clone_opt(&m.status),
                seq,
                parts: collect_parts(parts, m.id.as_str()),
            };
            let ghost model = row@;
            assert(model =~= as_read(messages@[i as int]@, ps));
            out.insert(at, row);
            assert(read_rows(out@) =~= front.insert(at as int, model));
        }
        i = i + 1;
    }
    assert(all.take(i as int) =~= all);
    out
}

/// The number of the next message of a session.
pub fn next_message_seq(messages: &Vec<StoredMessage>, session_id: &str) -> (r: i64)
    requires
        messages@.len() <= i64::MAX,
    ensures
        r == count(stored(messages@), session_id@),
{
    let ghost all = stored(messages@);
    let mut n: i64 = 0;
    let mut i: usize = 0;
    while i < messages.len()
        invariant
            i <= messages@.len() <= i64::MAX,
            all == stored(messages@),
            0 <= n <= i,
            n == count(all.take(i as int), session_id@),
        decreases messages@.len() - i,
    {
        proof {
            assert(all.take(i + 1).drop_last() =~= all.take(i as int));
            assert(all.take(i + 1).last() == messages@[i as int]@);
        }
        if text::same(messages[i].session_id.as_str(), session_id) {
            n = n + 1;
        }
        i = i + 1;
    }
    assert(all.take(i as int) =~= all);
    n
}

/// Stores a message under a fresh id.
pub fn insert_message(
    messages: &mut Vec<StoredMessage>,
    session_id: &str,
    role: &str,
    content: Option<&str>,
    status: Option<&str>,
    seq: i64,
) -> (id: String)
    ensures
        ids::is_uuid(id@),
        stored(final(messages)@) == stored(old(messages)@).push(
            StoredModel {
                id: id@,
                session_id: session_id@,
                role: role@,
                content: content.deep_view(),
                status: status.deep_view(),
                seq,
            },
        ),
{
    let id = ids::new_uuid();
    let ghost before = stored(messages@);
    let m = StoredMessage {
        id: id.clone(),
        session_id: text::owned(session_id),
        role: text::owned(role),
        content: text::to_owned_opt(content),
        status: text::to_owned_opt(status),
        seq,
    };
    let ghost model = m@;
    messages.push(m);
    assert(stored(messages@) =~= before.push(model));
    id
}

/// Stores a piece of text as a part of a message.
pub fn insert_text_part(parts: &mut Vec<StoredPart>, message_id: &str, seq: i64, content: &str)
    ensures
        stored_parts(final(parts)@) == stored_parts(old(parts)@).push(
            StoredPartModel {
                message_id: message_id@,
                part: PartModel {
                    part_type: "text"@,
                    seq,
                    text: Some(content@),
                    tool_name: None,
                    tool_args: None,
                    tool_status: None,
                    tool_output: None,
                    tool_elapsed_ms: None,
                },
            },
        ),
{
    let ghost before = stored_parts(parts@);
    let p = StoredPart {
        message_id: text::owned(message_id),
        part: MessagePartRow {
            part_type: text::owned("text"),
            seq,
            text: Some(text::owned(content)),
            tool_name: None,
            tool_args: None,
            tool_status: None,
            tool_output: None,
            tool_elapsed_ms: None,
        },
    };
    let ghost model = p@;
    parts.push(p);
    assert(stored_parts(parts@) =~= before.push(model));
}

/// Stores the use of a tool as a part of a message.
pub fn insert_tool_part(
    parts: &mut Vec<StoredPart>,
    message_id: &str,
    seq: i64,
    tool_name: &str,
    tool_args: &str,
    tool_status: &str,
    tool_output: &str,
    tool_elapsed_ms: i64,
)
    ensures
        stored_parts(final(parts)@) == stored_parts(old(parts)@).push(
            StoredPartModel {
                message_id: message_id@,
                part: PartModel {
                    part_type: "tool"@,
                    seq,
                    text: None,
                    tool_name: Some(tool_name@),
                    tool_args: Some(tool_args@),
                    tool_status: Some(tool_status@),
                    tool_output: Some(tool_output@),
                    tool_elapsed_ms: Some(tool_elapsed_ms),
                },
            },
        ),
{
    let ghost before = stored_parts(parts@);
    let p = StoredPart {
        message_id: text::owned(message_id),
        part: MessagePartRow {
            part_type: text::owned("tool"),
            seq,
            text: None,
            tool_name: Some(text::owned(tool_name)),
            tool_args: Some(text::owned(tool_args)),
            tool_status: Some(text::owned(tool_status)),
            tool_output: Some(text::owned(tool_output)),
            tool_elapsed_ms: Some(tool_elapsed_ms),
        },
    };
    let ghost model = p@;
    parts.push(p);
    assert(stored_parts(parts@) =~= before.push(model));
}

/// Some message, from `i` on, is of this session and has this id.
pub open spec fn owns(
    messages: Seq<StoredModel>,
    session_id: Seq<char>,
    message_id: Seq<char>,
    i: int,
) -> bool
    decreases messages.len() - i,
{
    if i < 0 || i >= messages.len() {
        false
    } else {
        (messages[i].session_id == session_id && messages[i].id == message_id) || owns(
            messages,
            session_id,
            message_id,
            i + 1,
        )
    }
}

/// The messages that are not of a session.
pub open spec fn messages_left(messages: Seq<StoredModel>, session_id: Seq<char>) -> Seq<
    StoredModel,
>
    decreases messages.len(),
{
    if messages.len() == 0 {
        messages
    } else if messages.last().session_id == session_id {
        messages_left(messages.drop_last(), session_id)
    } else {
        messages_left(messages.drop_last(), session_id).push(messages.last())
    }
}

/// The parts that are not of a message of a session.
pub open spec fn parts_left(
    parts: Seq<StoredPartModel>,
    messages: Seq<StoredModel>,
    session_id: Seq<char>,
) -> Seq<StoredPartModel>
    decreases parts.len(),
{
    if parts.len() == 0 {
        parts
    } else if owns(messages, session_id, parts.last().message_id, 0) {
        parts_left(parts.drop_last(), messages, session_id)
    } else {
        parts_left(parts.drop_last(), messages, session_id).push(parts.last())
    }
}

fn is_owner(messages: &Vec<StoredMessage>, session_id: &str, message_id: &str) -> (r: bool)
    ensures
        r == owns(stored(messages@), session_id@, message_id@, 0),
{
    let ghost all = stored(messages@);
    let mut i: usize = 0;
    while i < messages.len()
        invariant
            i <= messages@.len(),
            all == stored(messages@),
            owns(all, session_id@, message_id@, 0) == owns(
                all,
                session_id@,
                message_id@,
                i as int,
            ),
        decreases messages@.len() - i,
    {
        assert(all[i as int] == messages@[i as int]@);
        if text::same(messages[i].session_id.as_str(), session_id) && text::same(
            messages[i].id.as_str(),
            message_id,
        ) {
            return true;
        }
        i = i + 1;
    }
    false
}

fn delete_messages(
    messages: &mut Vec<StoredMessage>,
    parts: &mut Vec<StoredPart>,
    session_id: &str,
)
    ensures
        stored(final(messages)@) == messages_left(stored(old(messages)@), session_id@),
        stored_parts(final(parts)@) == parts_left(
            stored_parts(old(parts)@),
            stored(old(messages)@),
            session_id@,
        ),
{
    let ghost ms = stored(messages@);
    let ghost ps = stored_parts(parts@);
    let mut i: usize = 0;
    let ghost mut seen: int = 0;
    proof {
        assert(ps.take(0) =~= Seq::<StoredPartModel>::empty());
        assert(stored_parts(parts@) =~= parts_left(ps.take(0), ms, session_id@) + ps.skip(0));
    }
    while i < parts.len()
        invariant
            ms == stored(messages@),
            0 <= seen <= ps.len(),
            i == parts_left(ps.take(seen), ms, session_id@).len(),
            stored_parts(parts@) == parts_left(ps.take(seen), ms, session_id@) + ps.skip(seen),
            stored_parts(parts@).len() == parts@.len(),
        decreases parts@.len() - i,
    {
        let ghost cur = stored_parts(parts@);
        proof {
            assert(cur[i as int] == ps[seen]);
            assert(cur[i as int] == parts@[i as int]@);
            assert(ps.take(seen + 1).drop_last() =~= ps.take(seen));
            assert(ps.take(seen + 1).last() == ps[seen]);
        }
        if is_owner(messages, session_id, parts[i].message_id.as_str()) {
            let _gone = parts.remove(i);
            assert(stored_parts(parts@) =~= cur.remove(i as int));
        } else {
            i = i + 1;
        }
        proof {
            assert(stored_parts(parts@) =~= parts_left(ps.take(seen + 1), ms, session_id@)
                + ps.skip(seen + 1));
            seen = seen + 1;
        }
    }
    proof {
        assert(seen == ps.len());
        assert(ps.take(seen) =~= ps);
        assert(stored_parts(parts@) =~= parts_left(ps, ms, session_id@));
    }
    let mut k: usize = 0;
    let ghost mut past: int = 0;
    proof {
        assert(ms.take(0) =~= Seq::<StoredModel>::empty());
        assert(stored(messages@) =~= messages_left(ms.take(0), session_id@) + ms.skip(0));
    }
    while k < messages.len()
        invariant
            0 <= past <= ms.len(),
            k == messages_left(ms.take(past), session_id@).len(),
            stored(messages@) == messages_left(ms.take(past), session_id@) + ms.skip(past),
            stored(messages@).len() == messages@.len(),
        decreases messages@.len() - k,
    {
        let ghost cur = stored(messages@);
        proof {
            assert(cur[k as int] == ms[past]);
            assert(cur[k as int] == messages@[k as int]@);
            assert(ms.take(past + 1).drop_last() =~= ms.take(past));
            assert(ms.take(past + 1).last() == ms[past]);
        }
        if text::same(messages[k].session_id.as_str(), session_id) {
            let _gone = messages.remove(k);
            assert(stored(messages@) =~= cur.remove(k as int));
        } else {
            k = k + 1;
        }
        proof {
            assert(stored(messages@) =~= messages_left(ms.take(past + 1), session_id@) + ms.skip(
                past + 1,
            ));
            past = past + 1;
        }
    }
    proof {
        assert(past == ms.len());
        assert(ms.take(past) =~= ms);
        assert(stored(messages@) =~= messages_left(ms, session_id@));
    }
}

/// A row of another table that belongs to a session.
#[derive(Debug)]
pub struct OwnedRow {
    pub id: String,
    pub session_id: String,
}

#[verifier::ext_equal]
pub struct OwnedModel {
    pub id: Seq<char>,
    pub session_id: Seq<char>,
}

impl View for OwnedRow {
    type V = OwnedModel;

    open spec fn view(&self) -> OwnedModel {
        OwnedModel { id: self.id@, session_id: self.session_id@ }
    }
}

pub open spec fn owned_rows(s: Seq<OwnedRow>) -> Seq<OwnedModel> {
    s.map_values(|r: OwnedRow| r@)
}

/// The rows that are not of a session.
pub open spec fn owned_left(rows: Seq<OwnedModel>, session_id: Seq<char>) -> Seq<OwnedModel>
    decreases rows.len(),
{
    if rows.len() == 0 {
        rows
    } else if rows.last().session_id == session_id {
        owned_left(rows.drop_last(), session_id)
    } else {
        owned_left(rows.drop_last(), session_id).push(rows.last())
    }
}

/// The sessions but the one with this id.
pub open spec fn sessions_left(rows: Seq<SessionModel>, id: Seq<char>) -> Seq<SessionModel>
    decreases rows.len(),
{
    if rows.len() == 0 {
        rows
    } else if rows.last().id == id {
        sessions_left(rows.drop_last(), id)
    } else {
        sessions_left(rows.drop_last(), id).push(rows.last())
    }
}

fn delete_owned(rows: &mut Vec<OwnedRow>, session_id: &str)
    ensures
        owned_rows(final(rows)@) == owned_left(owned_rows(old(rows)@), session_id@),
{
    let ghost all = owned_rows(rows@);
    let mut i: usize = 0;
    let ghost mut seen: int = 0;
    proof {
        assert(all.take(0) =~= Seq::<OwnedModel>::empty());
        assert(owned_rows(rows@) =~= owned_left(all.take(0), session_id@) + all.skip(0));
    }
    while i < rows.len()
        invariant
            0 <= seen <= all.len(),
            i == owned_left(all.take(seen), session_id@).len(),
            owned_rows(rows@) == owned_left(all.take(seen), session_id@) + all.skip(seen),
            owned_rows(rows@).len() == rows@.len(),
        decreases rows@.len() - i,
    {
        let ghost cur = owned_rows(rows@);
        proof {
            assert(cur[i as int] == all[seen]);
            assert(cur[i as int] == rows@[i as int]@);
            assert(all.take(seen + 1).drop_last() =~= all.take(seen));
            assert(all.take(seen + 1).last() == all[seen]);
        }
        if text::same(rows[i].session_id.as_str(), session_id) {
            let _gone = rows.remove(i);
            assert(owned_rows(rows@) =~= cur.remove(i as int));
        } else {
            i = i + 1;
        }
        proof {
            assert(owned_rows(rows@) =~= owned_left(all.take(seen + 1), session_id@) + all.skip(
                seen + 1,
            ));
            seen = seen + 1;
        }
    }
    proof {
        assert(seen == all.len());
        assert(all.take(seen) =~= all);
        assert(owned_rows(rows@) =~= owned_left(all, session_id@));
    }
}

fn delete_row(rows: &mut Vec<StoredSession>, id: &str)
    ensures
        sessions(final(rows)@) == sessions_left(sessions(old(rows)@), id@),
{
    let ghost all = sessions(rows@);
    let mut i: usize = 0;
    let ghost mut seen: int = 0;
    proof {
        assert(all.take(0) =~= Seq::<SessionModel>::empty());
        assert(sessions(rows@) =~= sessions_left(all.take(0), id@) + all.skip(0));
    }
    while i < rows.len()
        invariant
            0 <= seen <= all.len(),
            i == sessions_left(all.take(seen), id@).len(),
            sessions(rows@) == sessions_left(all.take(seen), id@) + all.skip(seen),
            sessions(rows@).len() == rows@.len(),
        decreases rows@.len() - i,
    {
        let ghost cur = sessions(rows@);
        proof {
            assert(cur[i as int] == all[seen]);
            assert(cur[i as int] == rows@[i as int]@);
            assert(all.take(seen + 1).drop_last() =~= all.take(seen));
            assert(all.take(seen + 1).last() == all[seen]);
        }
        if text::same(rows[i].id.as_str(), id) {
            let _gone = rows.remove(i);
            assert(sessions(rows@) =~= cur.remove(i as int));
        } else {
            i = i + 1;
        }
        proof {
            assert(sessions(rows@) =~= sessions_left(all.take(seen + 1), id@) + all.skip(
                seen + 1,
            ));
            seen = seen + 1;
        }
    }
    proof {
        assert(seen == all.len());
        assert(all.take(seen) =~= all);
        assert(sessions(rows@) =~= sessions_left(all, id@));
    }
}

/// Deletes a session with all that belongs to it: its messages and their parts, the steps
/// of its diagnosis and the calls of tools.
pub fn delete_session(
    rows: &mut Vec<StoredSession>,
    messages: &mut Vec<StoredMessage>,
    parts: &mut Vec<StoredPart>,
    steps: &mut Vec<OwnedRow>,
    calls: &mut Vec<OwnedRow>,
    id: &str,
)
    ensures
        sessions(final(rows)@) == sessions_left(sessions(old(rows)@), id@),
        stored(final(messages)@) == messages_left(stored(old(messages)@), id@),
        stored_parts(final(parts)@) == parts_left(
            stored_parts(old(parts)@),
            stored(old(messages)@),
            id@,
        ),
        owned_rows(final(steps)@) == owned_left(owned_rows(old(steps)@), id@),
        owned_rows(final(calls)@) == owned_left(owned_rows(old(calls)@), id@),
{
    delete_messages(messages, parts, id);
    delete_owned(steps, id);
    delete_owned(calls, id);
    delete_row(rows, id);
}

/// The messages with the status of one of them set.
pub open spec fn with_status(
    messages: Seq<StoredModel>,
    message_id: Seq<char>,
    status: Seq<char>,
) -> Seq<StoredModel> {
    Seq::new(
        messages.len(),
        |i: int|
            if messages[i].id == message_id {
                StoredModel { status: Some(status), ..messages[i] }
            } else {
                messages[i]
            },
    )
}

/// Sets the status of a message.
pub fn update_message_status(messages: &mut Vec<StoredMessage>, message_id: &str, status: &str)
    ensures
        stored(final(messages)@) == with_status(stored(old(messages)@), message_id@, status@),
{
    let ghost before = stored(messages@);
    let ghost goal = with_status(before, message_id@, status@);
    let mut i: usize = 0;
    while i < messages.len()
        invariant
            i <= messages@.len(),
            messages@.len() == before.len(),
            goal == with_status(before, message_id@, status@),
            forall|k: int| 0 <= k < i ==> (#[trigger] messages@[k])@ == goal[k],
            forall|k: int| i <= k < messages@.len() ==> (#[trigger] messages@[k])@ == before[k],
        decreases messages@.len() - i,
    {
        assert(messages@[i as int]@ == before[i as int]);
        if text::same(messages[i].id.as_str(), message_id) {
            messages[i].status = Some(text::owned(status));
            assert(messages@[i as int]@ =~= goal[i as int]);
        }
        i = i + 1;
    }
    assert(stored(messages@) =~= goal);
}

/// The messages come in the order of their numbers.
pub proof fn law_conversation_is_in_order(
    messages: Seq<StoredModel>,
    parts: Seq<StoredPartModel>,
    session_id: Seq<char>,
)
    ensures
        forall|i: int, j: int|
            0 <= i < j < conversation(messages, parts, session_id).len() ==> (
            #[trigger] conversation(messages, parts, session_id)[i]).seq <= (
            #[trigger] conversation(messages, parts, session_id)[j]).seq,
        conversation(messages, parts, session_id).len() == count(messages, session_id),
    decreases messages.len(),
{
    if messages.len() > 0 {
        law_conversation_is_in_order(messages.drop_last(), parts, session_id);
        let front = conversation(messages.drop_last(), parts, session_id);
        let m = messages.last();
        if m.session_id == session_id {
            lemma_place_is_right(front, m.seq);
            let at = message_place(front, m.seq);
            let row = as_read(m, parts);
            let whole = front.insert(at, row);
            assert forall|i: int, j: int| 0 <= i < j < whole.len() implies (
            #[trigger] whole[i]).seq <= (#[trigger] whole[j]).seq by {
                let a = if i < at { i } else { i - 1 };
                let b = if j < at { j } else { j - 1 };
                if i != at {
                    assert(whole[i] == front[a]);
                }
                if j != at {
                    assert(whole[j] == front[b]);
                }
            }
        }
    }
}

proof fn lemma_place_is_right(s: Seq<MessageModel>, seq: i64)
    requires
        forall|i: int, j: int|
            0 <= i < j < s.len() ==> (#[trigger] s[i]).seq <= (#[trigger] s[j]).seq,
    ensures
        0 <= message_place(s, seq) <= s.len(),
        forall|i: int| 0 <= i < message_place(s, seq) ==> (#[trigger] s[i]).seq <= seq,
        forall|i: int| message_place(s, seq) <= i < s.len() ==> (#[trigger] s[i]).seq > seq,
    decreases s.len(),
{
    if s.len() > 0 && s.last().seq > seq {
        let front = s.drop_last();
        lemma_place_is_right(front, seq);
        assert forall|i: int| 0 <= i < message_place(s, seq) implies (#[trigger] s[i]).seq
            <= seq by {
            assert(front[i] == s[i]);
        }
        assert forall|i: int| message_place(s, seq) <= i < s.len() implies (#[trigger] s[i]).seq
            > seq by {
            if i < front.len() {
                assert(front[i] == s[i]);
            }
        }
    } else if s.len() > 0 {
        assert forall|i: int| 0 <= i < s.len() implies (#[trigger] s[i]).seq <= seq by {
            if i < s.len() - 1 {
                assert(s[i].seq <= s[s.len() - 1].seq);
            }
        }
    }
}

/// A message that is stored is read back, with the parts that were stored for it.
pub proof fn law_stored_message_is_read(
    messages: Seq<StoredModel>,
    parts: Seq<StoredPartModel>,
    session_id: Seq<char>,
    k: int,
)
    requires
        0 <= k < messages.len(),
        messages[k].session_id == session_id,
    ensures
        conversation(messages, parts, session_id).contains(as_read(messages[k], parts)),
    decreases messages.len(),
{
    let front = conversation(messages.drop_last(), parts, session_id);
    let m = messages.last();
    let whole = conversation(messages, parts, session_id);
    if m.session_id == session_id {
        lemma_message_place(front, m.seq);
    }
    let at = message_place(front, m.seq);
    if k < messages.len() - 1 {
        law_stored_message_is_read(messages.drop_last(), parts, session_id, k);
        assert(messages.drop_last()[k] == messages[k]);
        let j = choose|j: int| 0 <= j < front.len() && front[j] == as_read(messages[k], parts);
        if m.session_id == session_id {
            if j < at {
                assert(whole[j] == front[j]);
            } else {
                assert(whole[j + 1] == front[j]);
            }
        }
    } else {
        assert(whole[at] == as_read(m, parts));
    }
}

/// A session that is deleted is found no more; every other one is found as before.
pub proof fn law_deleted_row_is_gone(rows: Seq<SessionModel>, id: Seq<char>, other: Seq<char>)
    requires
        other != id,
    ensures
        found(sessions_left(rows, id), id, 0) is None,
        found(sessions_left(rows, id), other, 0) == found(rows, other, 0),
    decreases rows.len(),
{
    if rows.len() > 0 {
        let front = rows.drop_last();
        law_deleted_row_is_gone(front, id, other);
        assert(front.push(rows.last()) =~= rows);
        lemma_found_in_front(front, rows.last(), other, 0);
        if rows.last().id != id {
            lemma_found_in_front(sessions_left(front, id), rows.last(), id, 0);
            lemma_found_in_front(sessions_left(front, id), rows.last(), other, 0);
        }
    }
}

proof fn lemma_found_in_front(rows: Seq<SessionModel>, s: SessionModel, id: Seq<char>, i: int)
    requires
        0 <= i <= rows.len(),
    ensures
        found(rows.push(s), id, i) == match found(rows, id, i) {
            Some(r) => Some(r),
            None => if s.id == id {
                Some(s)
            } else {
                None
            },
        },
    decreases rows.len() - i,
{
    reveal_with_fuel(found, 2);
    if i < rows.len() {
        lemma_found_in_front(rows, s, id, i + 1);
    }
}

/// A status that is set is read back; nothing else of the message changes, and no other
/// message does.
pub proof fn law_status_is_read(
    messages: Seq<StoredModel>,
    message_id: Seq<char>,
    status: Seq<char>,
    k: int,
)
    requires
        0 <= k < messages.len(),
    ensures
        ({
            let after = with_status(messages, message_id, status)[k];
            &&& after == StoredModel { status: after.status, ..messages[k] }
            &&& after.status == if messages[k].id == message_id {
                Some(status)
            } else {
                messages[k].status
            }
        }),
{
}

/// Of a session that is deleted nothing is left to read.
pub proof fn law_deleted_session_is_gone(
    messages: Seq<StoredModel>,
    parts: Seq<StoredPartModel>,
    session_id: Seq<char>,
)
    ensures
        conversation(messages_left(messages, session_id), parts, session_id).len() == 0,
    decreases messages.len(),
{
    if messages.len() > 0 {
        law_deleted_session_is_gone(messages.drop_last(), parts, session_id);
        if messages.last().session_id != session_id {
            let left = messages_left(messages, session_id);
            assert(left.drop_last() =~= messages_left(messages.drop_last(), session_id));
        }
    }
}

proof fn lemma_not_owned(
    messages: Seq<StoredModel>,
    session_id: Seq<char>,
    message_id: Seq<char>,
    i: int,
)
    requires
        0 <= i,
        forall|k: int|
            i <= k < messages.len() && (#[trigger] messages[k]).session_id == session_id
                ==> messages[k].id != message_id,
    ensures
        !owns(messages, session_id, message_id, i),
    decreases messages.len() - i,
{
    if i < messages.len() {
        lemma_not_owned(messages, session_id, message_id, i + 1);
    }
}

proof fn lemma_parts_stay(
    parts: Seq<StoredPartModel>,
    messages: Seq<StoredModel>,
    session_id: Seq<char>,
    message_id: Seq<char>,
)
    requires
        !owns(messages, session_id, message_id, 0),
    ensures
        parts_of(parts_left(parts, messages, session_id), message_id) == parts_of(
            parts,
            message_id,
        ),
    decreases parts.len(),
{
    if parts.len() > 0 {
        lemma_parts_stay(parts.drop_last(), messages, session_id, message_id);
        if !owns(messages, session_id, parts.last().message_id, 0) {
            let left = parts_left(parts, messages, session_id);
            assert(left.drop_last() =~= parts_left(parts.drop_last(), messages, session_id));
        }
    }
}

/// Deleting a session leaves every other one as it was: its messages and their parts. No
/// two messages may have the same id.
pub proof fn law_other_sessions_stay(
    messages: Seq<StoredModel>,
    parts: Seq<StoredPartModel>,
    session_id: Seq<char>,
    other: Seq<char>,
)
    requires
        other != session_id,
        forall|i: int, j: int|
            0 <= i < j < messages.len() ==> (#[trigger] messages[i]).id != (
            #[trigger] messages[j]).id,
    ensures
        conversation(
            messages_left(messages, session_id),
            parts_left(parts, messages, session_id),
            other,
        ) == conversation(messages, parts, other),
{
    lemma_others(messages, parts, session_id, other, messages.len() as int);
    assert(messages.take(messages.len() as int) =~= messages);
}

proof fn lemma_others(
    messages: Seq<StoredModel>,
    parts: Seq<StoredPartModel>,
    session_id: Seq<char>,
    other: Seq<char>,
    n: int,
)
    requires
        0 <= n <= messages.len(),
        other != session_id,
        forall|i: int, j: int|
            0 <= i < j < messages.len() ==> (#[trigger] messages[i]).id != (
            #[trigger] messages[j]).id,
    ensures
        conversation(
            messages_left(messages.take(n), session_id),
            parts_left(parts, messages, session_id),
            other,
        ) == conversation(messages.take(n), parts, other),
    decreases n,
{
    if n > 0 {
        lemma_others(messages, parts, session_id, other, n - 1);
        let front = messages.take(n);
        let m = messages[n - 1];
        assert(front.drop_last() =~= messages.take(n - 1));
        assert(front.last() == m);
        if m.session_id != session_id {
            let left = messages_left(front, session_id);
            assert(left.drop_last() =~= messages_left(front.drop_last(), session_id));
            assert forall|k: int|
                0 <= k < messages.len() && (#[trigger] messages[k]).session_id
                    == session_id implies messages[k].id != m.id by {
                if k < n - 1 {
                    assert(messages[k].id != messages[n - 1].id);
                } else if k > n - 1 {
                    assert(messages[n - 1].id != messages[k].id);
                }
            }
            lemma_not_owned(messages, session_id, m.id, 0);
            lemma_parts_stay(parts, messages, session_id, m.id);
        }
    }
}

} // verus!
