//! Diagnosis sessions and their messages.

use crate::chars;
use crate::ids;
use crate::order;
use crate::order::{OrderKey, OrderKeyModel};
use crate::text;
use vstd::prelude::*;

verus! {

#[derive(Clone, Debug)]
pub struct SessionId(pub String);

#[derive(Clone, Debug)]
pub struct Session {
    pub id: SessionId,
    pub env: String,
    pub service: String,
    pub symptom: String,
    pub status: SessionStatus,
}

#[derive(Clone, Copy, Debug, PartialEq, Eq, Structural)]
pub enum SessionStatus {
    Active,
    Closed,
}

/// One row of the table of sessions.
#[derive(Clone, Debug)]
pub struct SessionRow {
    pub id: String,
    pub title: Option<String>,
    pub status: String,
    pub created_at: String,
    pub archived_at: Option<String>,
}

/// One part of a message: a piece of text or the use of a tool.
#[derive(Debug)]
pub struct MessagePartRow {
    pub part_type: String,
    pub seq: i64,
    pub text: Option<String>,
    pub tool_name: Option<String>,
    pub tool_args: Option<String>,
    pub tool_status: Option<String>,
    pub tool_output: Option<String>,
    pub tool_elapsed_ms: Option<i64>,
}

/// One message of a session.
#[derive(Debug)]
pub struct MessageRow {
    pub id: String,
    pub role: String,
    pub content: Option<String>,
    pub status: Option<String>,
    pub seq: i64,
    pub parts: Vec<MessagePartRow>,
}

#[verifier::ext_equal]
pub struct PartModel {
    pub part_type: Seq<char>,
    pub seq: i64,
    pub text: Option<Seq<char>>,
    pub tool_name: Option<Seq<char>>,
    pub tool_args: Option<Seq<char>>,
    pub tool_status: Option<Seq<char>>,
    pub tool_output: Option<Seq<char>>,
    pub tool_elapsed_ms: Option<i64>,
}

impl View for MessagePartRow {
    type V = PartModel;

    open spec fn view(&self) -> PartModel {
        PartModel {
            part_type: self.part_type@,
            seq: self.seq,
            text: self.text.deep_view(),
            tool_name: self.tool_name.deep_view(),
            tool_args: self.tool_args.deep_view(),
            tool_status: self.tool_status.deep_view(),
            tool_output: self.tool_output.deep_view(),
            tool_elapsed_ms: self.tool_elapsed_ms,
        }
    }
}

#[verifier::ext_equal]
pub struct MessageModel {
    pub id: Seq<char>,
    pub role: Seq<char>,
    pub content: Option<Seq<char>>,
    pub status: Option<Seq<char>>,
    pub seq: i64,
    pub parts: Seq<PartModel>,
}

impl View for MessageRow {
    type V = MessageModel;

    open spec fn view(&self) -> MessageModel {
        MessageModel {
            id: self.id@,
            role: self.role@,
            content: self.content.deep_view(),
            status: self.status.deep_view(),
            seq: self.seq,
            parts: self.parts@.map_values(|p: MessagePartRow| p@),
        }
    }
}

pub open spec fn messages(s: Seq<MessageRow>) -> Seq<MessageModel> {
    s.map_values(|m: MessageRow| m@)
}

/// The title of a session: the first characters of the message that opens it.
pub fn truncate_title(message: &str) -> (r: String)
    ensures
        r@ == title_of(message@),
{
    text::owned(text::first(text::trim(message), 40))
}

/// A session as it is stored.
#[derive(Debug)]
pub struct StoredSession {
    pub id: String,
    pub env: String,
    pub service: String,
    pub symptom: String,
    pub status: String,
    pub created_at: String,
    pub closed_at: Option<String>,
    pub title: Option<String>,
    pub archived_at: Option<String>,
    /// The id under which the agent knows the conversation.
    pub agent_session_id: Option<String>,
}

#[verifier::ext_equal]
pub struct SessionModel {
    pub id: Seq<char>,
    pub env: Seq<char>,
    pub service: Seq<char>,
    pub symptom: Seq<char>,
    pub status: Seq<char>,
    pub created_at: Seq<char>,
    pub closed_at: Option<Seq<char>>,
    pub title: Option<Seq<char>>,
    pub archived_at: Option<Seq<char>>,
    pub agent_session_id: Option<Seq<char>>,
}

impl View for StoredSession {
    type V = SessionModel;

    open spec fn view(&self) -> SessionModel {
        SessionModel {
            id: self.id@,
            env: self.env@,
            service: self.service@,
            symptom: self.symptom@,
            status: self.status@,
            created_at: self.created_at@,
            closed_at: self.closed_at.deep_view(),
            title: self.title.deep_view(),
            archived_at: self.archived_at.deep_view(),
            agent_session_id: self.agent_session_id.deep_view(),
        }
    }
}

pub open spec fn sessions(s: Seq<StoredSession>) -> Seq<SessionModel> {
    s.map_values(|r: StoredSession| r@)
}

#[verifier::ext_equal]
pub struct RowModel {
    pub id: Seq<char>,
    pub title: Option<Seq<char>>,
    pub status: Seq<char>,
    pub created_at: Seq<char>,
    pub archived_at: Option<Seq<char>>,
}

impl View for SessionRow {
    type V = RowModel;

    open spec fn view(&self) -> RowModel {
        RowModel {
            id: self.id@,
            title: self.title.deep_view(),
            status: self.status@,
            created_at: self.created_at@,
            archived_at: self.archived_at.deep_view(),
        }
    }
}

/// What is read of a session.
pub open spec fn as_row(s: SessionModel) -> RowModel {
    RowModel {
        id: s.id,
        title: s.title,
        status: s.status,
        created_at: s.created_at,
        archived_at: s.archived_at,
    }
}

fn to_row(s: &StoredSession) -> (r: SessionRow)
    ensures
        r@ == as_row(s@),
{
    SessionRow {
        id: s.id.clone(),
        title: text::clone_opt(&s.title),
        status: s.status.clone(),
        created_at: s.created_at.clone(),
        archived_at: text::clone_opt(&s.archived_at),
    }
}

/// The title of a session that is opened by a message.
pub open spec fn title_of(message: Seq<char>) -> Seq<char> {
    chars::first(chars::trim(message), 40)
}

/// A session that was just opened: active, and not yet known to an agent.
pub open spec fn opened(id: Seq<char>, message: Seq<char>, now: Seq<char>) -> SessionModel {
    SessionModel {
        id,
        env: Seq::empty(),
        service: Seq::empty(),
        symptom: Seq::empty(),
        status: "active"@,
        created_at: now,
        closed_at: None,
        title: Some(title_of(message)),
        archived_at: None,
        agent_session_id: None,
    }
}

/// Stores a session that is opened by a message, under a fresh id.
pub fn create_session(rows: &mut Vec<StoredSession>, message: &str, now: &str) -> (r: Session)
    ensures
        ids::is_uuid(r.id.0@),
        r.env@.len() == 0,
        r.service@.len() == 0,
        r.symptom@.len() == 0,
        r.status == SessionStatus::Active,
        sessions(final(rows)@) == sessions(old(rows)@).push(opened(r.id.0@, message@, now@)),
{
    let session = Session {
        id: SessionId(ids::new_uuid()),
        env: String::new(),
        service: String::new(),
        symptom: String::new(),
        status: SessionStatus::Active,
    };
    let row = StoredSession {
        id: session.id.0.clone(),
        env: String::new(),
        service: String::new(),
        symptom: String::new(),
        status: text::owned("active"),
        created_at: text::owned(now),
        closed_at: None,
        title: Some(truncate_title(message)),
        archived_at: None,
        agent_session_id: None,
    };
    assert(row@ =~= opened(session.id.0@, message@, now@));
    rows.push(row);
    assert(sessions(rows@) =~= sessions(old(rows)@).push(opened(session.id.0@, message@, now@)));
    session
}

/// What can happen to a stored session. The text is the time, or the agent's id for it.
#[derive(Clone, Copy, Debug)]
pub enum SessionChange<'a> {
    Close(&'a str),
    Archive(&'a str),
    Unarchive,
    Agent(&'a str),
}

pub open spec fn after(s: SessionModel, c: SessionChange) -> SessionModel {
    match c {
        SessionChange::Close(now) => SessionModel {
            status: "closed"@,
            closed_at: Some(now@),
            ..s
        },
        SessionChange::Archive(now) => SessionModel {
            status: "archived"@,
            archived_at: Some(now@),
            ..s
        },
        SessionChange::Unarchive => SessionModel { status: "closed"@, archived_at: None, ..s },
        SessionChange::Agent(id) => SessionModel { agent_session_id: Some(id@), ..s },
    }
}

/// The table with the session of this id changed. Without such a session nothing changes.
pub open spec fn changed(rows: Seq<SessionModel>, id: Seq<char>, c: SessionChange) -> Seq<
    SessionModel,
> {
    Seq::new(
        rows.len(),
        |i: int|
            if rows[i].id == id {
                after(rows[i], c)
            } else {
                rows[i]
            },
    )
}

fn change(rows: &mut Vec<StoredSession>, id: &str, c: SessionChange)
    ensures
        sessions(final(rows)@) == changed(sessions(old(rows)@), id@, c),
{
    let ghost before = sessions(rows@);
    let ghost goal = changed(before, id@, c);
    let mut i: usize = 0;
    while i < rows.len()
        invariant
            i <= rows@.len(),
            rows@.len() == before.len(),
            goal == changed(before, id@, c),
            forall|k: int| 0 <= k < i ==> (#[trigger] rows@[k])@ == goal[k],
            forall|k: int| i <= k < rows@.len() ==> (#[trigger] rows@[k])@ == before[k],
        decreases rows@.len() - i,
    {
        assert(rows@[i as int]@ == before[i as int]);
        if text::same(rows[i].id.as_str(), id) {
            match c {
                SessionChange::Close(now) => {
                    rows[i].status = text::owned("closed");
                    rows[i].closed_at = Some(text::owned(now));
                },
                SessionChange::Archive(now) => {
                    rows[i].status = text::owned("archived");
                    rows[i].archived_at = Some(text::owned(now));
                },
                SessionChange::Unarchive => {
                    rows[i].status = text::owned("closed");
                    rows[i].archived_at = None;
                },
                SessionChange::Agent(agent_id) => {
                    rows[i].agent_session_id = Some(text::owned(agent_id));
                },
            }
            assert(rows@[i as int]@ =~= goal[i as int]);
        }
        i = i + 1;
    }
    assert(sessions(rows@) =~= goal);
}

/// Closes a session.
pub fn close_session(rows: &mut Vec<StoredSession>, id: &str, now: &str)
    ensures
        sessions(final(rows)@) == changed(sessions(old(rows)@), id@, SessionChange::Close(now)),
{
    change(rows, id, SessionChange::Close(now))
}

/// Puts a session into the archive.
pub fn archive_session(rows: &mut Vec<StoredSession>, id: &str, now: &str)
    ensures
        sessions(final(rows)@) == changed(sessions(old(rows)@), id@, SessionChange::Archive(now)),
{
    change(rows, id, SessionChange::Archive(now))
}

/// Takes a session out of the archive. It is closed then, not active.
pub fn unarchive_session(rows: &mut Vec<StoredSession>, id: &str)
    ensures
        sessions(final(rows)@) == changed(sessions(old(rows)@), id@, SessionChange::Unarchive),
{
    change(rows, id, SessionChange::Unarchive)
}

/// Records the id under which the agent knows a session.
pub fn update_agent_session_id(rows: &mut Vec<StoredSession>, id: &str, agent_id: &str)
    ensures
        sessions(final(rows)@) == changed(
            sessions(old(rows)@),
            id@,
            SessionChange::Agent(agent_id),
        ),
{
    change(rows, id, SessionChange::Agent(agent_id))
}

/// The first session with this id, from row `i` on.
pub open spec fn found(rows: Seq<SessionModel>, id: Seq<char>, i: int) -> Option<SessionModel>
    decreases rows.len() - i,
{
    if i < 0 || i >= rows.len() {
        None
    } else if rows[i].id == id {
        Some(rows[i])
    } else {
        found(rows, id, i + 1)
    }
}

fn find(rows: &Vec<StoredSession>, id: &str) -> (r: Option<usize>)
    ensures
        match r {
            Some(i) => i < rows@.len() && found(sessions(rows@), id@, 0) == Some(rows@[i as int]@),
            None => found(sessions(rows@), id@, 0) is None,
        },
{
    let ghost all = sessions(rows@);
    let mut i: usize = 0;
    while i < rows.len()
        invariant
            i <= rows@.len(),
            all == sessions(rows@),
            found(all, id@, 0) == found(all, id@, i as int),
        decreases rows@.len() - i,
    {
        assert(all[i as int] == rows@[i as int]@);
        if text::same(rows[i].id.as_str(), id) {
            return Some(i);
        }
        i = i + 1;
    }
    None
}

/// What is stored of a session.
pub fn get_session(rows: &Vec<StoredSession>, id: &str) -> (r: Option<SessionRow>)
    ensures
        match found(sessions(rows@), id@, 0) {
            Some(s) => r is Some && r->0@ == as_row(s),
            None => r is None,
        },
{
    match find(rows, id) {
        Some(i) => Some(to_row(&rows[i])),
        None => None,
    }
}

/// The id under which the agent knows a session, once it does.
pub fn get_agent_session_id(rows: &Vec<StoredSession>, id: &str) -> (r: Option<String>)
    ensures
        r.deep_view() == match found(sessions(rows@), id@, 0) {
            Some(s) => s.agent_session_id,
            None => None,
        },
{
    match find(rows, id) {
        Some(i) => text::clone_opt(&rows[i].agent_session_id),
        None => None,
    }
}

/// The list of the archive shows what is archived; the other one what is active or closed.
pub open spec fn listed(status: Seq<char>, archived: bool) -> bool {
    if archived {
        status == "archived"@
    } else {
        status == "active"@ || status == "closed"@
    }
}

pub fn is_listed(status: &str, archived: bool) -> (r: bool)
    ensures
        r == listed(status@, archived),
{
    if archived {
        text::same(status, "archived")
    } else {
        text::same(status, "active") || text::same(status, "closed")
    }
}

/// The rows that are listed, among the first `n`.
pub open spec fn listed_rows(rows: Seq<SessionModel>, archived: bool, n: int) -> Seq<int>
    decreases n,
{
    if n <= 0 {
        Seq::empty()
    } else if listed(rows[n - 1].status, archived) {
        listed_rows(rows, archived, n - 1).push(n - 1)
    } else {
        listed_rows(rows, archived, n - 1)
    }
}

/// By what a row is ordered: when it was archived, or created. One that does not say
/// comes last.
pub open spec fn session_key(s: SessionModel, archived: bool) -> OrderKeyModel {
    if !archived {
        OrderKeyModel { rank: 0, text: s.created_at }
    } else {
        match s.archived_at {
            Some(t) => OrderKeyModel { rank: 0, text: t },
            None => OrderKeyModel { rank: 1, text: Seq::empty() },
        }
    }
}

/// `r` holds the rows that a list shows, the latest first.
pub open spec fn is_list(rows: Seq<SessionModel>, archived: bool, r: Seq<RowModel>) -> bool {
    let shown = listed_rows(rows, archived, rows.len() as int);
    exists|o: Seq<usize>| #[trigger]
        order::is_order(keys_of(rows, shown, archived), true, o) && r.len() == shown.len()
            && forall|i: int|
            0 <= i < r.len() ==> #[trigger] r[i] == as_row(rows[shown[o[i] as int]])
}

pub open spec fn keys_of(rows: Seq<SessionModel>, shown: Seq<int>, archived: bool) -> Seq<
    OrderKeyModel,
> {
    Seq::new(shown.len(), |i: int| session_key(rows[shown[i]], archived))
}

pub open spec fn rows_read(s: Seq<SessionRow>) -> Seq<RowModel> {
    s.map_values(|r: SessionRow| r@)
}

/// The sessions of a list, the latest first.
pub fn list_sessions(rows: &Vec<StoredSession>, include_archived: bool) -> (r: Vec<SessionRow>)
    ensures
        is_list(sessions(rows@), include_archived, rows_read(r@)),
{
    let ghost all = sessions(rows@);
    let mut shown: Vec<usize> = Vec::new();
    let mut keys: Vec<OrderKey> = Vec::new();
    let mut i: usize = 0;
    let ghost mut model: Seq<int> = Seq::empty();
    while i < rows.len()
        invariant
            i <= rows@.len(),
            all == sessions(rows@),
            model == listed_rows(all, include_archived, i as int),
            shown@.len() == model.len(),
            keys@.len() == model.len(),
            forall|k: int|
                0 <= k < model.len() ==> 0 <= #[trigger] model[k] < i && shown@[k] == model[k]
                    && keys@[k]@ == session_key(all[model[k]], include_archived),
        decreases rows@.len() - i,
    {
        assert(all[i as int] == rows@[i as int]@);
        if is_listed(rows[i].status.as_str(), include_archived) {
            shown.push(i);
            let key = if include_archived {
                match &rows[i].archived_at {
                    Some(t) => OrderKey { rank: 0, text: t.clone() },
                    None => OrderKey { rank: 1, text: String::new() },
                }
            } else {
                OrderKey { rank: 0, text: rows[i].created_at.clone() }
            };
            keys.push(key);
            proof {
                model = model.push(i as int);
            }
        }
        i = i + 1;
    }
    let o = order::order(&keys, true);
    let ghost ks = keys_of(all, model, include_archived);
    proof {
        assert forall|k: int| 0 <= k < model.len() implies order::key_models(keys@)[k] == ks[k] by {
            assert(0 <= model[k]);
        }
        assert(order::key_models(keys@) =~= ks);
    }
    let mut out: Vec<SessionRow> = Vec::new();
    let mut j: usize = 0;
    while j < o.len()
        invariant
            j <= o@.len(),
            all == sessions(rows@),
            o@.len() == shown@.len() == model.len(),
            order::is_order(ks, true, o@),
            ks.len() == model.len(),
            out@.len() == j,
            forall|k: int|
                0 <= k < model.len() ==> 0 <= #[trigger] model[k] < rows@.len() && shown@[k]
                    == model[k],
            forall|k: int|
                0 <= k < j ==> (#[trigger] out@[k])@ == as_row(all[model[o@[k] as int]]),
        decreases o@.len() - j,
    {
        assert(o@[j as int] < ks.len());
        let at = o[j];
        assert(shown@[at as int] == model[at as int]);
        let n = shown[at];
        assert(all[n as int] == rows@[n as int]@);
        out.push(to_row(&rows[n]));
        j = j + 1;
    }
    proof {
        let read = rows_read(out@);
        assert forall|k: int| 0 <= k < read.len() implies #[trigger] read[k] == as_row(
            all[model[o@[k] as int]],
        ) by {
            assert(read[k] == out@[k]@);
        }
        assert(model == listed_rows(all, include_archived, all.len() as int));
        assert(read.len() == model.len());
        assert(order::is_order(keys_of(all, model, include_archived), true, o@));
        assert(is_list(all, include_archived, read));
    }
    out
}

/// A session is read back as it was opened, unless another one has its id.
pub proof fn law_opened_session_is_read(
    rows: Seq<SessionModel>,
    id: Seq<char>,
    message: Seq<char>,
    now: Seq<char>,
)
    requires
        found(rows, id, 0) is None,
    ensures
        found(rows.push(opened(id, message, now)), id, 0) == Some(opened(id, message, now)),
{
    lemma_found_behind(rows, opened(id, message, now), 0);
}

proof fn lemma_found_behind(rows: Seq<SessionModel>, s: SessionModel, i: int)
    requires
        0 <= i <= rows.len(),
        found(rows, s.id, i) is None,
    ensures
        found(rows.push(s), s.id, i) == Some(s),
    decreases rows.len() - i,
{
    if i < rows.len() {
        lemma_found_behind(rows, s, i + 1);
    }
}

/// A change is read back: what is found of the session is what the change makes of it.
pub proof fn law_change_is_read(rows: Seq<SessionModel>, id: Seq<char>, c: SessionChange)
    ensures
        found(changed(rows, id, c), id, 0) == match found(rows, id, 0) {
            Some(s) => Some(after(s, c)),
            None => None,
        },
{
    lemma_change_is_read(rows, id, c, 0);
}

proof fn lemma_change_is_read(rows: Seq<SessionModel>, id: Seq<char>, c: SessionChange, i: int)
    requires
        0 <= i,
    ensures
        found(changed(rows, id, c), id, i) == match found(rows, id, i) {
            Some(s) => Some(after(s, c)),
            None => None,
        },
    decreases rows.len() - i,
{
    if i < rows.len() {
        lemma_change_is_read(rows, id, c, i + 1);
    }
}

/// A change of one session leaves every other one as it is.
pub proof fn law_change_leaves_the_others(
    rows: Seq<SessionModel>,
    id: Seq<char>,
    other: Seq<char>,
    c: SessionChange,
)
    requires
        other != id,
    ensures
        found(changed(rows, id, c), other, 0) == found(rows, other, 0),
{
    lemma_others_stay(rows, id, other, c, 0);
}

proof fn lemma_others_stay(
    rows: Seq<SessionModel>,
    id: Seq<char>,
    other: Seq<char>,
    c: SessionChange,
    i: int,
)
    requires
        0 <= i,
        other != id,
    ensures
        found(changed(rows, id, c), other, i) == found(rows, other, i),
    decreases rows.len() - i,
{
    if i < rows.len() {
        lemma_others_stay(rows, id, other, c, i + 1);
    }
}

/// A session that is archived is listed in the archive alone. One that leaves it is
/// closed, no longer says when it was archived, and is listed with the others.
pub proof fn law_archive_moves_a_session(s: SessionModel, now: &str)
    ensures
        ({
            let there = after(s, SessionChange::Archive(now));
            let back = after(there, SessionChange::Unarchive);
            &&& listed(there.status, true) && !listed(there.status, false)
            &&& listed(back.status, false) && !listed(back.status, true)
            &&& back.status == "closed"@
            &&& back.archived_at is None
        }),
{
    law_lists_are_apart("archived"@);
    law_lists_are_apart("closed"@);
}

/// No session is in both lists.
pub proof fn law_lists_are_apart(status: Seq<char>)
    ensures
        !(listed(status, true) && listed(status, false)),
{
    reveal_strlit("archived");
    reveal_strlit("active");
    reveal_strlit("closed");
    assert("archived"@.len() == 8 && "active"@.len() == 6 && "closed"@.len() == 6);
}

} // verus!
