//! What the lines of an agent's output tell, and what becomes of that.

use crate::agent::attempt::{
    after_event, after_events, crash_reason, ending, line_taken, output_text, AccumulatedModel,
    AccumulatorModel, Attempt, EndingModel, ExitReason, ExitStatus, LineEffect, RetryState,
};
use crate::agent::detect::{dotted, found, Probe};
use crate::agent::spawn::{block_texts, one_shot_answer, one_shot_text};
use crate::agent::stream::{
    elapsed, items_events, kind, line_events, session_in_use, told_session_id, tool_events,
};
use crate::app::events::EventModel;
use crate::chars;
use crate::json;
use crate::json::JsonModel;
use crate::knowledge::Outcome;
use vstd::prelude::*;

verus! {

/// The session that an event belongs to.
pub open spec fn session_of(e: EventModel) -> Option<Seq<char>> {
    match e {
        EventModel::ToolExecuting { session_id, .. } => Some(session_id),
        EventModel::ToolResult { session_id, .. } => Some(session_id),
        EventModel::LlmThinking { session_id, .. } => Some(session_id),
        EventModel::AgentStopped { session_id } => Some(session_id),
        EventModel::AgentCrashed { session_id, .. } => Some(session_id),
        EventModel::DiagnosisDone { session_id, .. } => Some(session_id),
        EventModel::Other => None,
    }
}

/// The item is a text that is not empty: this one.
pub open spec fn says(item: JsonModel, t: Seq<char>) -> bool {
    &&& json::field(item, "type"@) == Some(JsonModel::Str("text"@))
    &&& json::field(item, "text"@) == Some(JsonModel::Str(t))
    &&& t.len() > 0
}

/// The texts of an assistant's message are told in their order, each once; what is no text,
/// or is empty, is not told.
pub proof fn law_items_are_told_in_order(
    items: Seq<JsonModel>,
    session_id: Seq<char>,
    n: int,
    t: Seq<char>,
)
    requires
        0 <= n < items.len(),
    ensures
        says(items[n], t) ==> items_events(items, session_id, n + 1) == items_events(
            items,
            session_id,
            n,
        ).push(EventModel::LlmThinking { session_id, token: t }),
        (forall|u: Seq<char>| !says(items[n], u)) ==> items_events(items, session_id, n + 1)
            == items_events(items, session_id, n),
        items_events(items, session_id, 0).len() == 0,
{
    let a = items_events(items, session_id, n);
    let b = items_events(items, session_id, n + 1);
    if says(items[n], t) {
        assert(b =~= a.push(EventModel::LlmThinking { session_id, token: t }));
    } else if forall|u: Seq<char>| !says(items[n], u) {
        reveal_strlit("text");
        assert("text"@.len() == 4);
        match json::string(json::field(items[n], "text"@)) {
            Some(u) => {
                assert(!says(items[n], u));
            },
            None => {},
        }
        assert(b =~= a);
    }
}

proof fn lemma_items_sessions(items: Seq<JsonModel>, session_id: Seq<char>, n: int)
    ensures
        forall|k: int|
            0 <= k < items_events(items, session_id, n).len() ==> session_of(
                #[trigger] items_events(items, session_id, n)[k],
            ) == Some(session_id),
    decreases n,
{
    if n > 0 {
        lemma_items_sessions(items, session_id, n - 1);
    }
}

/// Every event that a line tells belongs to the session of the run.
pub proof fn law_events_belong_to_the_session(j: JsonModel, session_id: Seq<char>)
    ensures
        forall|k: int|
            0 <= k < line_events(j, session_id).len() ==> session_of(
                #[trigger] line_events(j, session_id)[k],
            ) == Some(session_id),
{
    match json::items(json::inner(json::field(j, "message"@), "content"@)) {
        Some(items) => lemma_items_sessions(items, session_id, items.len() as int),
        None => {},
    }
}

/// A line of text, or of reasoning, tells that text, be it in the line or in its part; a line
/// whose text is empty or missing tells nothing, and neither does one of an unknown kind.
pub proof fn law_text_line_tells_its_text(j: JsonModel, session_id: Seq<char>, t: Seq<char>)
    ensures
        (kind(j) == "text"@ || kind(j) == "reasoning"@) && t.len() > 0 && (json::inner(
            json::field(j, "part"@),
            "text"@,
        ) == Some(JsonModel::Str(t)) || (json::field(j, "part"@) is None && json::field(j, "text"@)
            == Some(JsonModel::Str(t)))) ==> line_events(j, session_id) == seq![
            EventModel::LlmThinking { session_id, token: t },
        ],
        kind(j) != "text"@ && kind(j) != "reasoning"@ && kind(j) != "assistant"@ && kind(j)
            != "tool_use"@ && kind(j) != "error"@ ==> line_events(j, session_id).len() == 0,
        (kind(j) == "text"@ || kind(j) == "reasoning"@) && json::inner(
            json::field(j, "part"@),
            "text"@,
        ) is None && json::field(j, "part"@) is Some ==> line_events(j, session_id).len() == 0,
{
}

/// A tool that runs is told with what it was given, one that ended with what it gave back,
/// one that failed with what went wrong; any other state tells nothing.
pub proof fn law_tool_is_told_by_its_state(
    part: JsonModel,
    session_id: Seq<char>,
    name: Seq<char>,
    state: JsonModel,
    text: Seq<char>,
    v: JsonModel,
)
    requires
        json::field(part, "tool"@) == Some(JsonModel::Str(name)),
        json::field(part, "state"@) == Some(state),
    ensures
        ({
            let status = json::field(state, "status"@);
            let es = tool_events(part, session_id);
            &&& status == Some(JsonModel::Str("running"@)) && json::field(state, "input"@) == Some(v)
                ==> es == seq![EventModel::ToolExecuting { session_id, tool: name, args: v }]
            &&& status == Some(JsonModel::Str("completed"@)) && json::field(state, "output"@)
                == Some(JsonModel::Str(text)) ==> es == seq![
                EventModel::ToolResult {
                    session_id,
                    tool: name,
                    output: JsonModel::Str(text),
                    elapsed_ms: elapsed(state),
                },
            ]
            &&& status == Some(JsonModel::Str("error"@)) && json::field(state, "error"@) == Some(
                JsonModel::Str(text),
            ) ==> es == seq![
                EventModel::ToolResult {
                    session_id,
                    tool: name,
                    output: JsonModel::Str(text),
                    elapsed_ms: elapsed(state),
                },
            ]
            &&& status == Some(JsonModel::Str(text)) && text != "running"@ && text != "completed"@
                && text != "error"@ ==> es.len() == 0
            &&& status is None ==> es.len() == 0
        }),
{
    reveal_strlit("running");
    reveal_strlit("completed");
    reveal_strlit("error");
    assert("running"@.len() == 7);
    assert("completed"@.len() == 9);
    assert("error"@.len() == 5);
}

/// A tool ran from its start to its end; where one of the two is not known, or the end lies
/// before the start, it took no time.
pub proof fn law_tool_ran_from_start_to_end(state: JsonModel)
    ensures
        ({
            let time = json::field(state, "time"@);
            let start = json::natural(json::inner(time, "start"@));
            let end = json::natural(json::inner(time, "end"@));
            &&& start is Some && end is Some && start->0 <= end->0 ==> start->0 + elapsed(state)
                == end->0
            &&& start is Some && end is Some && start->0 >= end->0 ==> elapsed(state) == 0
            &&& end is None ==> elapsed(state) == 0
            &&& start is None && end is Some ==> elapsed(state) == end->0
        }),
{
}

/// The agent's own session is told by any of the three places, a session that was created
/// before the others; no other place tells it.
pub proof fn law_agent_session_is_told(j: JsonModel, id: Seq<char>, other: Seq<char>)
    ensures
        json::field(j, "type"@) == Some(JsonModel::Str("session.created"@)) && json::inner(
            json::inner(json::field(j, "properties"@), "info"@),
            "id"@,
        ) == Some(JsonModel::Str(id)) ==> told_session_id(j) == Some(id),
        json::field(j, "type"@) != Some(JsonModel::Str("session.created"@)) && json::field(
            j,
            "sessionID"@,
        ) == Some(JsonModel::Str(id)) ==> told_session_id(j) == Some(id),
        json::field(j, "type"@) != Some(JsonModel::Str("session.created"@)) && json::field(
            j,
            "sessionID"@,
        ) is None && json::field(j, "session_id"@) == Some(JsonModel::Str(id)) ==> told_session_id(
            j,
        ) == Some(id),
        json::field(j, "type"@) != Some(JsonModel::Str("session.created"@)) && json::field(
            j,
            "sessionID"@,
        ) is None && json::field(j, "session_id"@) is None ==> told_session_id(j) is None,
{
}

/// The agent's own session is handed on once per run: by the first line that tells it.
pub proof fn law_agent_session_is_handed_on_once(
    before: Attempt,
    after: Attempt,
    effect: LineEffect,
    j: Option<JsonModel>,
)
    requires
        line_taken(before, after, effect, j),
    ensures
        effect.agent_session_id is Some ==> !before.agent_session_captured
            && after.agent_session_captured,
        before.agent_session_captured ==> effect.agent_session_id is None
            && after.agent_session_captured,
        !before.agent_session_captured && j is Some && told_session_id(j->0) is Some
            ==> effect.agent_session_id.deep_view() == told_session_id(j->0),
        !before.agent_session_captured && effect.agent_session_id is None
            ==> !after.agent_session_captured,
        after.line_count == before.line_count + 1,
        j is None ==> effect.events@.len() == 0 && after.accumulator@ == before.accumulator@,
{
    assert(effect.agent_session_id is Some == effect.agent_session_id.deep_view() is Some);
    if j is None {
        assert(crate::app::events::events(effect.events@).len() == effect.events@.len());
    }
}

/// The part of a tool holds its name, what it was given when it was started, what it gave
/// back and how long it took; text that came before stands in front of it.
pub proof fn law_tool_part_holds_its_use(
    a: AccumulatorModel,
    s: Seq<char>,
    tool: Seq<char>,
    args: JsonModel,
    words: Seq<char>,
    name: Seq<char>,
    out: Seq<char>,
    elapsed_ms: u64,
)
    ensures
        ({
            let started = after_event(a, EventModel::ToolExecuting { session_id: s, tool, args });
            let spoke = after_event(started, EventModel::LlmThinking { session_id: s, token: words });
            let ended = after_event(
                spoke,
                EventModel::ToolResult {
                    session_id: s,
                    tool: name,
                    output: JsonModel::Str(out),
                    elapsed_ms,
                },
            );
            let before = if a.current_text.len() > 0 {
                a.parts.push(AccumulatedModel::Text(a.current_text))
            } else {
                a.parts
            };
            let meanwhile = if words.len() > 0 {
                before.push(AccumulatedModel::Text(words))
            } else {
                before
            };
            &&& ended.parts == meanwhile.push(
                AccumulatedModel::Tool {
                    name,
                    args: json::rendered(args),
                    status: "completed"@,
                    output: out,
                    elapsed_ms: elapsed_ms as i64,
                },
            )
            &&& ended.current_text.len() == 0
            &&& ended.pending_tool_args is None
            &&& ended.message_id == a.message_id
        }),
{
    let started = after_event(a, EventModel::ToolExecuting { session_id: s, tool, args });
    assert(started.current_text.len() == 0);
    assert(started.current_text + words =~= words);
}

/// What a tool was given is not taken for that of the next one.
pub proof fn law_arguments_are_used_once(
    a: AccumulatorModel,
    s: Seq<char>,
    name: Seq<char>,
    out: JsonModel,
    elapsed_ms: u64,
)
    requires
        a.pending_tool_args is None,
    ensures
        ({
            let r = after_event(
                a,
                EventModel::ToolResult { session_id: s, tool: name, output: out, elapsed_ms },
            );
            &&& r.pending_tool_args is None
            &&& r.parts.last() matches AccumulatedModel::Tool { args, .. } && args.len() == 0
        }),
{
}

/// Events that come one after the other are taken in one after the other.
pub proof fn law_events_are_taken_in_order(
    a: AccumulatorModel,
    es: Seq<EventModel>,
    fs: Seq<EventModel>,
)
    ensures
        after_events(a, es + fs, (es.len() + fs.len()) as int) == after_events(
            after_events(a, es, es.len() as int),
            fs,
            fs.len() as int,
        ),
        es.len() == 1 ==> after_events(a, es, 1) == after_event(a, es[0]),
    decreases fs.len(),
{
    if es.len() == 1 {
        assert(after_events(a, es, 0) == a);
    }
    if fs.len() == 0 {
        lemma_same_events(a, es + fs, es, es.len() as int);
    } else {
        let gs = fs.drop_last();
        law_events_are_taken_in_order(a, es, gs);
        let n = (es.len() + gs.len()) as int;
        lemma_same_events(a, es + fs, es + gs, n);
        lemma_same_events(after_events(a, es, es.len() as int), fs, gs, gs.len() as int);
        assert((es + fs)[n] == fs.last());
    }
}

proof fn lemma_same_events(a: AccumulatorModel, es: Seq<EventModel>, fs: Seq<EventModel>, n: int)
    requires
        n <= es.len(),
        n <= fs.len(),
        forall|k: int| 0 <= k < n ==> es[k] == fs[k],
    ensures
        after_events(a, es, n) == after_events(a, fs, n),
    decreases n,
{
    if n > 0 {
        lemma_same_events(a, es, fs, n - 1);
    }
}

/// A run is repeated just where the agent refused its session before it wrote a line, nobody
/// stopped it, and it can be started afresh.
pub proof fn law_runs_that_are_repeated(
    session_id: Seq<char>,
    lines: nat,
    reason: ExitReason,
    exit: ExitStatus,
    session_conflict: bool,
    retry: RetryState,
)
    ensures
        ending(session_id, lines, reason, exit, session_conflict, retry) is Retry <==> reason
            == ExitReason::Normal && session_conflict && lines == 0 && retry == RetryState::Ready,
        ending(session_id, lines, reason, exit, session_conflict, retry) matches EndingModel::Finished {
            event,
            status,
            outcome,
        } ==> session_of(event) == Some(session_id) && (outcome == Outcome::Uncertain <==> event
            is DiagnosisDone) && (outcome == Outcome::Negative <==> !(event is DiagnosisDone)),
{
}

/// What an agent answers to a single question is what its lines add, one after the other.
pub proof fn law_answer_grows_line_by_line(
    provider: Seq<char>,
    lines: Seq<Seq<char>>,
    n: int,
    m: int,
)
    requires
        0 <= n <= m <= lines.len(),
    ensures
        chars::starts_with(one_shot_answer(provider, lines, m), one_shot_answer(provider, lines, n)),
        n < m && json::parsed(lines[n]) is Some ==> chars::occurs_at(
            one_shot_answer(provider, lines, m),
            one_shot_text(provider, json::parsed(lines[n])->0),
            one_shot_answer(provider, lines, n).len() as int,
        ),
        n == 0 ==> one_shot_answer(provider, lines, n).len() == 0,
    decreases m - n,
{
    let a = one_shot_answer(provider, lines, n);
    if n == m {
        assert(a.subrange(0, a.len() as int) =~= a);
    } else {
        law_answer_grows_line_by_line(provider, lines, n, m - 1);
        let b = one_shot_answer(provider, lines, m - 1);
        let c = one_shot_answer(provider, lines, m);
        assert(c.subrange(0, a.len() as int) =~= b.subrange(0, a.len() as int));
        if json::parsed(lines[n]) is Some {
            let t = one_shot_text(provider, json::parsed(lines[n])->0);
            let z = (a.len() + t.len()) as int;
            if n == m - 1 {
                assert(c.subrange(a.len() as int, z) =~= t);
            } else {
                assert(c.subrange(a.len() as int, z) =~= b.subrange(a.len() as int, z));
            }
        }
    }
}

/// The blocks of text of an assistant's message are put one behind the other.
pub proof fn law_blocks_in_order(items: Seq<JsonModel>, n: int, t: Seq<char>)
    requires
        0 <= n < items.len(),
    ensures
        json::field(items[n], "type"@) == Some(JsonModel::Str("text"@)) && json::field(
            items[n],
            "text"@,
        ) == Some(JsonModel::Str(t)) ==> block_texts(items, n + 1) == block_texts(items, n) + t,
        json::field(items[n], "type"@) != Some(JsonModel::Str("text"@)) ==> block_texts(
            items,
            n + 1,
        ) == block_texts(items, n),
        block_texts(items, 0).len() == 0,
{
    let s = json::string(json::field(items[n], "type"@));
    if json::field(items[n], "type"@) != Some(JsonModel::Str("text"@)) {
        assert(s != Some("text"@));
    }
}

/// What a line adds to an answer: with opencode the text of its part; else the result, or
/// the text blocks of the assistant's message.
pub proof fn law_line_adds_its_text(provider: Seq<char>, j: JsonModel, t: Seq<char>)
    ensures
        ({
            let kind = json::field(j, "type"@);
            let added = one_shot_text(provider, j);
            &&& provider == "opencode"@ && kind == Some(JsonModel::Str("text"@)) && json::inner(
                json::field(j, "part"@),
                "text"@,
            ) == Some(JsonModel::Str(t)) ==> added == t
            &&& provider == "opencode"@ && kind != Some(JsonModel::Str("text"@)) ==> added.len() == 0
            &&& provider != "opencode"@ && kind == Some(JsonModel::Str("result"@)) && json::field(
                j,
                "result"@,
            ) == Some(JsonModel::Str(t)) ==> added == t
            &&& provider != "opencode"@ && kind != Some(JsonModel::Str("result"@)) && kind != Some(
                JsonModel::Str("assistant"@),
            ) ==> added.len() == 0
        }),
{
    let kind = json::string(json::field(j, "type"@));
    if json::field(j, "type"@) != Some(JsonModel::Str("text"@)) {
        assert(kind != Some("text"@));
    }
    if json::field(j, "type"@) != Some(JsonModel::Str("result"@)) {
        assert(kind != Some("result"@));
    }
    if json::field(j, "type"@) != Some(JsonModel::Str("assistant"@)) {
        assert(kind != Some("assistant"@));
    }
}

/// A session is in use just where the line says so of a session.
pub proof fn law_refused_session_is_seen(line: Seq<char>)
    ensures
        session_in_use(line) <==> (exists|i: int| #[trigger]
            chars::occurs_at(line, "Session ID"@, i)) && (exists|i: int| #[trigger]
            chars::occurs_at(line, "already in use"@, i)),
{
}

/// What failed in the agent is told with its message, where there is one.
pub proof fn law_error_line_tells_its_message(j: JsonModel, session_id: Seq<char>, m: Seq<char>)
    ensures
        kind(j) == "error"@ && json::inner(
            json::inner(json::field(j, "error"@), "data"@),
            "message"@,
        ) == Some(JsonModel::Str(m)) ==> line_events(j, session_id) == seq![
            EventModel::AgentCrashed { session_id, reason: m },
        ],
        kind(j) == "error"@ ==> line_events(j, session_id).len() == 1 && line_events(
            j,
            session_id,
        )[0] is AgentCrashed,
        kind(j) == "tool_use"@ && json::field(j, "part"@) is Some ==> line_events(j, session_id)
            == tool_events(json::field(j, "part"@)->0, session_id),
        json::field(j, "type"@) == Some(JsonModel::Str(m)) ==> kind(j) == m,
{
    reveal_strlit("text");
    reveal_strlit("reasoning");
    reveal_strlit("assistant");
    reveal_strlit("tool_use");
    reveal_strlit("error");
    assert("text"@.len() == 4);
    assert("reasoning"@.len() == 9 && "assistant"@.len() == 9);
    assert("tool_use"@.len() == 8);
    assert("error"@.len() == 5);
    assert("reasoning"@[0] != "assistant"@[0]);
}

/// An assistant's message tells its items of text.
pub proof fn law_assistant_tells_its_items(
    j: JsonModel,
    session_id: Seq<char>,
    content: Seq<JsonModel>,
)
    ensures
        kind(j) == "assistant"@ && json::inner(json::field(j, "message"@), "content"@) == Some(
            JsonModel::Array(content),
        ) ==> line_events(j, session_id) == items_events(
            content,
            session_id,
            content.len() as int,
        ),
{
    reveal_strlit("text");
    reveal_strlit("reasoning");
    reveal_strlit("assistant");
    assert("text"@.len() == 4);
    assert("reasoning"@.len() == 9 && "assistant"@.len() == 9);
    assert("reasoning"@[0] != "assistant"@[0]);
}

/// What a tool gave back is kept word for word where it is text.
pub proof fn law_output_is_kept_as_text(s: Seq<char>, v: JsonModel)
    ensures
        output_text(JsonModel::Str(s)) == s,
        !(v is Str) ==> output_text(v) == json::rendered(v),
{
}

/// A version is its three numbers with dots between them; there is none where one of them is
/// missing.
pub proof fn law_version_has_three_numbers(
    whole: Option<Seq<char>>,
    a: Seq<char>,
    b: Seq<char>,
    c: Seq<char>,
    groups: Seq<Option<Seq<char>>>,
)
    ensures
        dotted(seq![whole, Some(a), Some(b), Some(c)]) == Some(chars::join(seq![a, b, c], "."@)),
        groups.len() < 4 ==> dotted(groups) is None,
        groups.len() >= 4 && (groups[1] is None || groups[2] is None || groups[3] is None)
            ==> dotted(groups) is None,
{
    let r = seq![a, b, c];
    assert(r.drop_last() =~= seq![a, b]);
    assert(seq![a, b].drop_last() =~= seq![a]);
    assert(chars::join(seq![a], "."@) == a);
    assert(chars::join(seq![a, b], "."@) =~= a + "."@ + b);
    assert(chars::join(r, "."@) =~= a + "."@ + b + "."@ + c);
}

/// As many agents are reported as were found.
pub proof fn law_found_agents_are_counted(probes: Seq<Probe>, n: int)
    requires
        0 <= n < probes.len(),
    ensures
        found(probes, n) <= n,
        probes[n].path is Some ==> found(probes, n + 1) == found(probes, n) + 1,
        probes[n].path is None ==> found(probes, n + 1) == found(probes, n),
        found(probes, 0) == 0,
    decreases n,
{
    if n > 0 {
        law_found_agents_are_counted(probes, n - 1);
    }
}

/// A crash is told by the code that the process ended with, -1 where it had none, or by why
/// nothing is known of its end.
pub proof fn law_crash_in_words(exit: ExitStatus)
    ensures
        crash_reason(exit) == match exit {
            ExitStatus::WaitFailed(e) => "wait error: "@ + e@,
            ExitStatus::Exited { code, .. } => "exit code: "@ + (if code is Some {
                chars::dec_signed(code->0 as int)
            } else {
                chars::dec_signed(-1)
            }),
        },
{
}

} // verus!
