//! Reading what an agent writes: its events, its session, how it ended.

use crate::app::events::{events, AppEvent, EventModel};
use crate::app::session::{messages, MessageModel, MessagePartRow, MessageRow, PartModel};
use crate::chars;
use crate::json;
use crate::json::{Json, JsonModel};
use crate::text;
use vstd::prelude::*;

verus! {

/// The agent refuses to resume a session that it holds to be in use.
pub open spec fn session_in_use(line: Seq<char>) -> bool {
    chars::contains(line, "Session ID"@) && chars::contains(line, "already in use"@)
}

pub fn is_session_in_use_error(line: &str) -> (r: bool)
    ensures
        r == session_in_use(line@),
{
    text::contains(line, "Session ID") && text::contains(line, "already in use")
}

/// How many characters of one message of the user go into the history.
pub const HISTORY_USER_MAX_CHARS: usize = 2000;

/// How many characters of one text of the agent go into the history.
pub const HISTORY_AGENT_TEXT_MAX_CHARS: usize = 1000;

/// How many characters the history has at most; the latest are kept.
pub const HISTORY_TOTAL_MAX_CHARS: usize = 8000;

/// At most `max` characters; a mark shows that there were more.
pub open spec fn truncated(s: Seq<char>, max: int) -> Seq<char> {
    if s.len() <= max {
        s
    } else {
        s.subrange(0, max) + "…（已截断）"@
    }
}

pub fn truncate_chars(s: &str, max: usize) -> (r: String)
    ensures
        r@ == truncated(s@, max as int),
{
    let len: usize = s.unicode_len();
    if len <= max {
        text::owned(s)
    } else {
        let mut out = text::owned(s.substring_char(0, max));
        out.append("…（已截断）");
        out
    }
}

/// A line of the history for a text, none for a blank one.
pub open spec fn history_line(label: Seq<char>, content: Option<Seq<char>>, max: int) -> Seq<char> {
    match content {
        Some(c) => if chars::is_blank(c) {
            Seq::empty()
        } else {
            label + truncated(c, max) + "\n"@
        },
        None => Seq::empty(),
    }
}

pub open spec fn or_else(o: Option<Seq<char>>, default: Seq<char>) -> Seq<char> {
    match o {
        Some(s) => s,
        None => default,
    }
}

/// What one part of an agent's message adds to the history: a text is cut
/// short, of a tool only its name and how it ended are kept.
pub open spec fn part_history(p: PartModel) -> Seq<char> {
    if p.part_type == "text"@ {
        history_line("[助手] "@, p.text, HISTORY_AGENT_TEXT_MAX_CHARS as int)
    } else if p.part_type == "tool"@ {
        "[工具] "@ + or_else(p.tool_name, "tool"@) + "（"@ + or_else(p.tool_status, "unknown"@)
            + "）"@ + "\n"@
    } else {
        Seq::empty()
    }
}

pub open spec fn parts_history(parts: Seq<PartModel>, n: int) -> Seq<char>
    decreases n,
{
    if n <= 0 {
        Seq::empty()
    } else {
        parts_history(parts, n - 1) + part_history(parts[n - 1])
    }
}

/// What one message adds to the history.
pub open spec fn message_history(m: MessageModel) -> Seq<char> {
    if m.role == "user"@ {
        history_line("[用户] "@, m.content, HISTORY_USER_MAX_CHARS as int)
    } else if m.role == "agent"@ {
        if m.parts.len() == 0 {
            history_line("[助手] "@, m.content, HISTORY_AGENT_TEXT_MAX_CHARS as int)
        } else {
            parts_history(m.parts, m.parts.len() as int)
        }
    } else {
        Seq::empty()
    }
}

/// What the first `n` messages add to the history.
pub open spec fn full_history(ms: Seq<MessageModel>, n: int) -> Seq<char>
    decreases n,
{
    if n <= 0 {
        Seq::empty()
    } else {
        full_history(ms, n - 1) + message_history(ms[n - 1])
    }
}

/// The first message, from `i` on, with this id.
pub open spec fn position(ms: Seq<MessageModel>, id: Seq<char>, i: int) -> Option<int>
    decreases ms.len() - i,
{
    if i < 0 || i >= ms.len() {
        None
    } else if ms[i].id == id {
        Some(i)
    } else {
        position(ms, id, i + 1)
    }
}

/// The history that a fresh agent session is told: all before the exchange in
/// flight, which is the agent's message and the user's message before it. The
/// latest part is kept where it is too long. `None` where there is nothing to tell.
pub open spec fn recent_history(ms: Seq<MessageModel>, agent_message_id: Seq<char>) -> Option<
    Seq<char>,
> {
    match position(ms, agent_message_id, 0) {
        None => None,
        Some(p) => {
            let all = full_history(ms, p - 1);
            if all.len() == 0 {
                None
            } else if all.len() > HISTORY_TOTAL_MAX_CHARS {
                Some("（更早的对话已省略）\n"@ + chars::last(all, HISTORY_TOTAL_MAX_CHARS as int))
            } else {
                Some(all)
            }
        },
    }
}

fn append_line(out: &mut String, label: &str, content: &Option<String>, max: usize)
    ensures
        final(out)@ == old(out)@ + history_line(label@, content.deep_view(), max as int),
{
    let ghost before = out@;
    match content {
        Some(c) => {
            if !text::is_blank(c.as_str()) {
                out.append(label);
                out.append(truncate_chars(c.as_str(), max).as_str());
                out.append("\n");
                assert(out@ =~= before + (label@ + truncated(c@, max as int) + "\n"@));
            } else {
                assert(out@ =~= before + Seq::<char>::empty());
            }
        },
        None => {
            assert(out@ =~= before + Seq::<char>::empty());
        },
    }
}

fn append_part(out: &mut String, p: &MessagePartRow)
    ensures
        final(out)@ == old(out)@ + part_history(p@),
{
    let ghost before = out@;
    if text::same(p.part_type.as_str(), "text") {
        append_line(out, "[助手] ", &p.text, HISTORY_AGENT_TEXT_MAX_CHARS);
    } else if text::same(p.part_type.as_str(), "tool") {
        let name = match &p.tool_name {
            Some(n) => n.as_str(),
            None => "tool",
        };
        let status = match &p.tool_status {
            Some(s) => s.as_str(),
            None => "unknown",
        };
        out.append("[工具] ");
        out.append(name);
        out.append("（");
        out.append(status);
        out.append("）");
        out.append("\n");
        assert(out@ =~= before + ("[工具] "@ + name@ + "（"@ + status@ + "）"@ + "\n"@));
    } else {
        assert(out@ =~= before + Seq::<char>::empty());
    }
}

fn append_message(out: &mut String, m: &MessageRow)
    ensures
        final(out)@ == old(out)@ + message_history(m@),
{
    let ghost before = out@;
    if text::same(m.role.as_str(), "user") {
        append_line(out, "[用户] ", &m.content, HISTORY_USER_MAX_CHARS);
    } else if text::same(m.role.as_str(), "agent") {
        if m.parts.len() == 0 {
            append_line(out, "[助手] ", &m.content, HISTORY_AGENT_TEXT_MAX_CHARS);
        } else {
            let ghost parts = m@.parts;
            let mut i: usize = 0;
            assert(out@ =~= before + parts_history(parts, 0));
            while i < m.parts.len()
                invariant
                    i <= m.parts@.len(),
                    parts == m@.parts,
                    out@ == before + parts_history(parts, i as int),
                decreases m.parts@.len() - i,
            {
                assert(parts[i as int] == m.parts@[i as int]@);
                append_part(out, &m.parts[i]);
                i = i + 1;
                assert(out@ =~= before + parts_history(parts, i as int));
            }
        }
    } else {
        assert(out@ =~= before + Seq::<char>::empty());
    }
}

/// The history of a conversation for an agent that starts afresh.
pub fn format_recent_history(msgs: &[MessageRow], agent_message_id: &str) -> (r: Option<String>)
    ensures
        r.deep_view() == recent_history(messages(msgs@), agent_message_id@),
{
    let ghost ms = messages(msgs@);
    let n: usize = msgs.len();
    let mut p: usize = 0;
    while p < n && !text::same(msgs[p].id.as_str(), agent_message_id)
        invariant
            p <= n == msgs@.len(),
            ms == messages(msgs@),
            position(ms, agent_message_id@, 0) == position(ms, agent_message_id@, p as int),
        decreases n - p,
    {
        assert(ms[p as int] == msgs@[p as int]@);
        p = p + 1;
    }
    if p == n {
        return None;
    }
    assert(ms[p as int] == msgs@[p as int]@);
    assert(position(ms, agent_message_id@, 0) == Some(p as int));
    if p == 0 {
        return None;
    }
    let end: usize = p - 1;
    let mut out = String::new();
    let mut i: usize = 0;
    while i < end
        invariant
            i <= end <= msgs@.len(),
            ms == messages(msgs@),
            out@ == full_history(ms, i as int),
        decreases end - i,
    {
        assert(ms[i as int] == msgs@[i as int]@);
        append_message(&mut out, &msgs[i]);
        i = i + 1;
    }
    let total: usize = out.as_str().unicode_len();
    if total == 0 {
        return None;
    }
    if total > HISTORY_TOTAL_MAX_CHARS {
        let mut kept = text::owned("（更早的对话已省略）\n");
        kept.append(text::last(out.as_str(), HISTORY_TOTAL_MAX_CHARS));
        return Some(kept);
    }
    Some(out)
}

/// What a line is about.
pub open spec fn kind(j: JsonModel) -> Seq<char> {
    or_else(json::string(json::field(j, "type"@)), Seq::empty())
}

/// The value that carries the content: `part`, or the line itself.
pub open spec fn part_of(j: JsonModel) -> JsonModel {
    match json::field(j, "part"@) {
        Some(p) => p,
        None => j,
    }
}

/// The event of a text that is not empty.
pub open spec fn thinking(text: Option<Seq<char>>, session_id: Seq<char>) -> Seq<EventModel> {
    match text {
        Some(t) => if t.len() > 0 {
            seq![EventModel::LlmThinking { session_id, token: t }]
        } else {
            Seq::empty()
        },
        None => Seq::empty(),
    }
}

/// The events of the first `n` items of an assistant's message: those that are text.
pub open spec fn items_events(
    items: Seq<JsonModel>,
    session_id: Seq<char>,
    n: int,
) -> Seq<EventModel>
    decreases n,
{
    if n <= 0 {
        Seq::empty()
    } else if kind(items[n - 1]) == "text"@ {
        items_events(items, session_id, n - 1) + thinking(
            json::string(json::field(items[n - 1], "text"@)),
            session_id,
        )
    } else {
        items_events(items, session_id, n - 1)
    }
}

pub open spec fn assistant_events(j: JsonModel, session_id: Seq<char>) -> Seq<EventModel> {
    match json::items(json::inner(json::field(j, "message"@), "content"@)) {
        Some(items) => items_events(items, session_id, items.len() as int),
        None => Seq::empty(),
    }
}

/// The milliseconds that a tool ran; none where the times are not in order.
pub open spec fn elapsed(state: JsonModel) -> u64 {
    let time = json::field(state, "time"@);
    let start = match json::natural(json::inner(time, "start"@)) {
        Some(n) => n,
        None => 0,
    };
    let end = match json::natural(json::inner(time, "end"@)) {
        Some(n) => n,
        None => start,
    };
    if end >= start {
        (end - start) as u64
    } else {
        0
    }
}

/// The event of a tool that runs, has ended or has failed.
pub open spec fn tool_events(part: JsonModel, session_id: Seq<char>) -> Seq<EventModel> {
    let tool = or_else(json::string(json::field(part, "tool"@)), "unknown"@);
    match json::field(part, "state"@) {
        None => Seq::empty(),
        Some(state) => {
            let status = or_else(json::string(json::field(state, "status"@)), Seq::empty());
            if status == "running"@ {
                seq![
                    EventModel::ToolExecuting {
                        session_id,
                        tool,
                        args: match json::field(state, "input"@) {
                            Some(v) => v,
                            None => JsonModel::Null,
                        },
                    },
                ]
            } else if status == "completed"@ {
                seq![
                    EventModel::ToolResult {
                        session_id,
                        tool,
                        output: JsonModel::Str(
                            or_else(json::string(json::field(state, "output"@)), Seq::empty()),
                        ),
                        elapsed_ms: elapsed(state),
                    },
                ]
            } else if status == "error"@ {
                seq![
                    EventModel::ToolResult {
                        session_id,
                        tool,
                        output: JsonModel::Str(
                            or_else(json::string(json::field(state, "error"@)), "unknown error"@),
                        ),
                        elapsed_ms: elapsed(state),
                    },
                ]
            } else {
                Seq::empty()
            }
        },
    }
}

/// The events that a line of the agent's output tells.
pub open spec fn line_events(j: JsonModel, session_id: Seq<char>) -> Seq<EventModel> {
    if kind(j) == "text"@ || kind(j) == "reasoning"@ {
        thinking(json::string(json::field(part_of(j), "text"@)), session_id)
    } else if kind(j) == "assistant"@ {
        assistant_events(j, session_id)
    } else if kind(j) == "tool_use"@ {
        tool_events(part_of(j), session_id)
    } else if kind(j) == "error"@ {
        seq![
            EventModel::AgentCrashed {
                session_id,
                reason: or_else(
                    json::string(
                        json::inner(json::inner(json::field(j, "error"@), "data"@), "message"@),
                    ),
                    "unknown error"@,
                ),
            },
        ]
    } else {
        Seq::empty()
    }
}

/// The agent's own session id that a line tells, in any of its three places.
pub open spec fn told_session_id(j: JsonModel) -> Option<Seq<char>> {
    let created = json::string(
        json::inner(json::inner(json::field(j, "properties"@), "info"@), "id"@),
    );
    if json::string(json::field(j, "type"@)) == Some("session.created"@) && created is Some {
        created
    } else if json::string(json::field(j, "sessionID"@)) is Some {
        json::string(json::field(j, "sessionID"@))
    } else {
        json::string(json::field(j, "session_id"@))
    }
}

fn or_empty<'a>(o: Option<&'a str>) -> (r: &'a str)
    ensures
        r@ == or_else(o.deep_view(), Seq::empty()),
{
    match o {
        Some(s) => s,
        None => {
            proof {
                reveal_strlit("");
            }
            assert(""@ =~= Seq::<char>::empty());
            ""
        },
    }
}

fn push_thinking(out: &mut Vec<AppEvent>, t: Option<&str>, session_id: &str)
    ensures
        events(final(out)@) == events(old(out)@) + thinking(t.deep_view(), session_id@),
{
    let ghost before = events(out@);
    match t {
        Some(s) => {
            if !s.is_empty() {
                let e = AppEvent::LlmThinking {
                    session_id: text::owned(session_id),
                    token: text::owned(s),
                };
                let ghost m = e@;
                out.push(e);
                assert(events(out@) =~= before + seq![m]);
            } else {
                assert(events(out@) =~= before + Seq::<EventModel>::empty());
            }
        },
        None => {
            assert(events(out@) =~= before + Seq::<EventModel>::empty());
        },
    }
}

/// The events of an assistant's message: its items of text.
pub fn parse_assistant_event(j: &Json, session_id: &str) -> (r: Vec<AppEvent>)
    ensures
        events(r@) == assistant_events(j@, session_id@),
{
    let mut out: Vec<AppEvent> = Vec::new();
    match json::as_array(json::get_in(j.get("message"), "content")) {
        Some(content) => {
            let ghost items = json::models(content@);
            proof {
                json::lemma_models(content@);
            }
            let mut i: usize = 0;
            assert(events(out@) =~= items_events(items, session_id@, 0));
            while i < content.len()
                invariant
                    i <= content@.len(),
                    items.len() == content@.len(),
                    forall|k: int|
                        0 <= k < items.len() ==> #[trigger] items[k] == json::model(content@[k]),
                    events(out@) == items_events(items, session_id@, i as int),
                decreases content@.len() - i,
            {
                let item = &content[i];
                assert(items[i as int] == item@);
                if text::same(or_empty(json::as_str(item.get("type"))), "text") {
                    push_thinking(&mut out, json::as_str(item.get("text")), session_id);
                }
                i = i + 1;
            }
        },
        None => {
            assert(events(out@) =~= Seq::<EventModel>::empty());
        },
    }
    out
}

pub fn compute_elapsed_ms(state: &Json) -> (r: u64)
    ensures
        r == elapsed(state@),
{
    let time = state.get("time");
    let start: u64 = match json::as_u64(json::get_in(time, "start")) {
        Some(n) => n,
        None => 0,
    };
    let end: u64 = match json::as_u64(json::get_in(time, "end")) {
        Some(n) => n,
        None => start,
    };
    if end >= start {
        end - start
    } else {
        0
    }
}

/// The event of a tool that runs, has ended or has failed.
pub fn parse_tool_event(part: &Json, session_id: &str) -> (r: Vec<AppEvent>)
    ensures
        events(r@) == tool_events(part@, session_id@),
{
    let mut out: Vec<AppEvent> = Vec::new();
    let tool = match json::as_str(part.get("tool")) {
        Some(t) => text::owned(t),
        None => text::owned("unknown"),
    };
    match part.get("state") {
        None => {},
        Some(state) => {
            let status = or_empty(json::as_str(state.get("status")));
            if text::same(status, "running") {
                let args = match state.get("input") {
                    Some(v) => v.clone(),
                    None => Json::Null,
                };
                out.push(
                    AppEvent::ToolExecuting { session_id: text::owned(session_id), tool, args },
                );
            } else if text::same(status, "completed") {
                let output = text::owned(or_empty(json::as_str(state.get("output"))));
                out.push(
                    AppEvent::ToolResult {
                        session_id: text::owned(session_id),
                        tool,
                        output: Json::Str(output),
                        elapsed_ms: compute_elapsed_ms(state),
                    },
                );
            } else if text::same(status, "error") {
                let error = match json::as_str(state.get("error")) {
                    Some(e) => text::owned(e),
                    None => text::owned("unknown error"),
                };
                out.push(
                    AppEvent::ToolResult {
                        session_id: text::owned(session_id),
                        tool,
                        output: Json::Str(error),
                        elapsed_ms: compute_elapsed_ms(state),
                    },
                );
            }
        },
    }
    assert(events(out@) =~= tool_events(part@, session_id@));
    out
}

/// The events that a line of the agent's output tells, once it is read as JSON.
pub fn parse_event_value(j: &Json, session_id: &str) -> (r: Vec<AppEvent>)
    ensures
        events(r@) == line_events(j@, session_id@),
{
    let kind = or_empty(json::as_str(j.get("type")));
    let part = match j.get("part") {
        Some(p) => p,
        None => j,
    };
    let mut out: Vec<AppEvent> = Vec::new();
    if text::same(kind, "text") || text::same(kind, "reasoning") {
        push_thinking(&mut out, json::as_str(part.get("text")), session_id);
    } else if text::same(kind, "assistant") {
        return parse_assistant_event(j, session_id);
    } else if text::same(kind, "tool_use") {
        return parse_tool_event(part, session_id);
    } else if text::same(kind, "error") {
        let message = json::get_in(json::get_in(j.get("error"), "data"), "message");
        let reason = match json::as_str(message) {
            Some(m) => text::owned(m),
            None => text::owned("unknown error"),
        };
        out.push(AppEvent::AgentCrashed { session_id: text::owned(session_id), reason });
    }
    assert(events(out@) =~= line_events(j@, session_id@));
    out
}

/// The events that a line of the agent's output tells; none where it is not JSON.
pub fn parse_event(line: &str, session_id: &str) -> (r: Vec<AppEvent>)
    ensures
        events(r@) == match json::parsed(line@) {
            Some(j) => line_events(j, session_id@),
            None => Seq::empty(),
        },
{
    match json::parse(line) {
        Some(j) => parse_event_value(&j, session_id),
        None => {
            let none: Vec<AppEvent> = Vec::new();
            assert(events(none@) =~= Seq::<EventModel>::empty());
            none
        },
    }
}

/// The agent's own session id that a line tells, once it is read as JSON.
pub fn session_id_of(j: &Json) -> (r: Option<String>)
    ensures
        r.deep_view() == told_session_id(j@),
{
    match json::as_str(j.get("type")) {
        Some(t) => {
            if text::same(t, "session.created") {
                let id = json::get_in(json::get_in(j.get("properties"), "info"), "id");
                match json::as_str(id) {
                    Some(s) => return Some(text::owned(s)),
                    None => {},
                }
            }
        },
        None => {},
    }
    match json::as_str(j.get("sessionID")) {
        Some(s) => Some(text::owned(s)),
        None => text::to_owned_opt(json::as_str(j.get("session_id"))),
    }
}

/// The agent's own session id that a line tells.
pub fn extract_session_id(line: &str) -> (r: Option<String>)
    ensures
        r.deep_view() == match json::parsed(line@) {
            Some(j) => told_session_id(j),
            None => None,
        },
{
    match json::parse(line) {
        Some(j) => session_id_of(&j),
        None => None,
    }
}

} // verus!
