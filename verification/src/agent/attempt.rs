//! One run of an agent, from its first line to the state that is recorded.

use crate::agent::stream::{
    is_session_in_use_error, line_events, or_else, parse_event_value, session_id_of,
    session_in_use, told_session_id,
};
use crate::app::events::{events, AppEvent, EventModel};
use crate::chars;
use crate::json;
use crate::json::{Json, JsonModel};
use crate::knowledge::Outcome;
use crate::text;
use vstd::prelude::*;

verus! {

/// One part of the message that is being put together.
#[derive(Debug)]
pub enum AccumulatedPart {
    Text(String),
    Tool { name: String, args: String, status: String, output: String, elapsed_ms: i64 },
}

pub enum AccumulatedModel {
    Text(Seq<char>),
    Tool {
        name: Seq<char>,
        args: Seq<char>,
        status: Seq<char>,
        output: Seq<char>,
        elapsed_ms: i64,
    },
}

impl View for AccumulatedPart {
    type V = AccumulatedModel;

    open spec fn view(&self) -> AccumulatedModel {
        match self {
            AccumulatedPart::Text(t) => AccumulatedModel::Text(t@),
            AccumulatedPart::Tool { name, args, status, output, elapsed_ms } => {
                AccumulatedModel::Tool {
                    name: name@,
                    args: args@,
                    status: status@,
                    output: output@,
                    elapsed_ms: *elapsed_ms,
                }
            },
        }
    }
}

pub open spec fn part_models(s: Seq<AccumulatedPart>) -> Seq<AccumulatedModel> {
    s.map_values(|p: AccumulatedPart| p@)
}

/// Puts the message of an agent together from its events.
#[derive(Debug)]
pub struct MessageAccumulator {
    pub message_id: String,
    pub parts: Vec<AccumulatedPart>,
    pub current_text: String,
    pub pending_tool_args: Option<String>,
}

#[verifier::ext_equal]
pub struct AccumulatorModel {
    pub message_id: Seq<char>,
    pub parts: Seq<AccumulatedModel>,
    pub current_text: Seq<char>,
    pub pending_tool_args: Option<Seq<char>>,
}

impl View for MessageAccumulator {
    type V = AccumulatorModel;

    open spec fn view(&self) -> AccumulatorModel {
        AccumulatorModel {
            message_id: self.message_id@,
            parts: part_models(self.parts@),
            current_text: self.current_text@,
            pending_tool_args: self.pending_tool_args.deep_view(),
        }
    }
}

/// The text gathered so far becomes a part of its own, unless there is none.
pub open spec fn flushed(a: AccumulatorModel) -> AccumulatorModel {
    if a.current_text.len() == 0 {
        a
    } else {
        AccumulatorModel {
            parts: a.parts.push(AccumulatedModel::Text(a.current_text)),
            current_text: Seq::empty(),
            ..a
        }
    }
}

/// What a tool gave back, as text.
pub open spec fn output_text(output: JsonModel) -> Seq<char> {
    match output {
        JsonModel::Str(s) => s,
        other => json::rendered(other),
    }
}

/// The message after one more event.
pub open spec fn after_event(a: AccumulatorModel, e: EventModel) -> AccumulatorModel {
    match e {
        EventModel::LlmThinking { token, .. } => AccumulatorModel {
            current_text: a.current_text + token,
            ..a
        },
        EventModel::ToolExecuting { args, .. } => AccumulatorModel {
            pending_tool_args: Some(json::rendered(args)),
            ..flushed(a)
        },
        EventModel::ToolResult { tool, output, elapsed_ms, .. } => AccumulatorModel {
            parts: flushed(a).parts.push(
                AccumulatedModel::Tool {
                    name: tool,
                    args: or_else(a.pending_tool_args, Seq::empty()),
                    status: "completed"@,
                    output: output_text(output),
                    elapsed_ms: elapsed_ms as i64,
                },
            ),
            pending_tool_args: None,
            ..flushed(a)
        },
        _ => a,
    }
}

/// The message after the first `n` events.
pub open spec fn after_events(a: AccumulatorModel, es: Seq<EventModel>, n: int) -> AccumulatorModel
    decreases n,
{
    if n <= 0 {
        a
    } else {
        after_event(after_events(a, es, n - 1), es[n - 1])
    }
}

impl MessageAccumulator {
    pub fn new(message_id: String) -> (r: Self)
        ensures
            r@ == (AccumulatorModel {
                message_id: message_id@,
                parts: Seq::empty(),
                current_text: Seq::empty(),
                pending_tool_args: None,
            }),
    {
        let r = MessageAccumulator {
            message_id,
            parts: Vec::new(),
            current_text: String::new(),
            pending_tool_args: None,
        };
        assert(r@.parts =~= Seq::empty());
        r
    }

    /// The text gathered so far becomes a part of its own.
    pub fn flush_current_text(&mut self)
        ensures
            final(self)@ == flushed(old(self)@),
    {
        let ghost before = self@;
        if !self.current_text.as_str().is_empty() {
            let mut t = String::new();
            core::mem::swap(&mut t, &mut self.current_text);
            self.parts.push(AccumulatedPart::Text(t));
        }
        assert(self@ =~= flushed(before));
    }

    /// Takes one event in.
    pub fn handle_event(&mut self, event: &AppEvent)
        ensures
            final(self)@ == after_event(old(self)@, event@),
    {
        let ghost before = self@;
        match event {
            AppEvent::LlmThinking { token, .. } => {
                self.current_text.append(token.as_str());
                assert(self@ =~= after_event(before, event@));
            },
            AppEvent::ToolExecuting { args, .. } => {
                self.flush_current_text();
                self.pending_tool_args = Some(json::render(args));
                assert(self@ =~= after_event(before, event@));
            },
            AppEvent::ToolResult { tool, output, elapsed_ms, .. } => {
                self.flush_current_text();
                let mut pending: Option<String> = None;
                core::mem::swap(&mut pending, &mut self.pending_tool_args);
                let args = match pending {
                    Some(a) => a,
                    None => String::new(),
                };
                let output = match output {
                    Json::Str(s) => s.clone(),
                    other => json::render(other),
                };
                let part = AccumulatedPart::Tool {
                    name: tool.clone(),
                    args,
                    status: text::owned("completed"),
                    output,
                    elapsed_ms: *elapsed_ms as i64,
                };
                self.parts.push(part);
                assert(self@ =~= after_event(before, event@));
            },
            _ => {},
        }
    }

    /// Ends the message: hands its parts out, in order.
    pub fn take_parts(&mut self) -> (r: Vec<AccumulatedPart>)
        ensures
            part_models(r@) == flushed(old(self)@).parts,
            final(self)@ == (AccumulatorModel { parts: Seq::empty(), ..flushed(old(self)@) }),
    {
        self.flush_current_text();
        let mut out: Vec<AccumulatedPart> = Vec::new();
        core::mem::swap(&mut out, &mut self.parts);
        assert(part_models(self.parts@) =~= Seq::empty());
        out
    }
}

/// What an agent wrote to its error stream.
#[derive(Clone, Copy, Debug, PartialEq, Eq, Structural)]
pub struct StderrScan {
    pub lines: u64,
    pub session_conflict: bool,
}

impl StderrScan {
    pub fn new() -> (r: Self)
        ensures
            r == (StderrScan { lines: 0, session_conflict: false }),
    {
        StderrScan { lines: 0, session_conflict: false }
    }

    /// Takes one line in.
    pub fn see(&mut self, line: &str)
        requires
            old(self).lines < u64::MAX,
        ensures
            final(self).lines == old(self).lines + 1,
            final(self).session_conflict == (old(self).session_conflict || session_in_use(line@)),
    {
        if is_session_in_use_error(line) {
            self.session_conflict = true;
        }
        self.lines = self.lines + 1;
    }
}

/// Counts the lines of an error stream and finds out whether one of them says
/// that the session is in use.
pub fn read_stderr_lines(lines: &Vec<String>) -> (r: StderrScan)
    ensures
        r.lines == lines@.len(),
        r.session_conflict == exists|i: int|
            0 <= i < lines@.len() && session_in_use((#[trigger] lines@[i])@),
{
    let mut scan = StderrScan::new();
    let mut i: usize = 0;
    while i < lines.len()
        invariant
            i <= lines@.len(),
            scan.lines == i,
            scan.session_conflict == exists|k: int|
                0 <= k < i && session_in_use((#[trigger] lines@[k])@),
        decreases lines@.len() - i,
    {
        scan.see(lines[i].as_str());
        i = i + 1;
    }
    scan
}

/// How the process of an agent ended.
#[derive(Debug)]
pub enum ExitStatus {
    Exited { success: bool, code: Option<i32> },
    WaitFailed(String),
}

/// Why reading stopped.
#[derive(Clone, Copy, Debug, PartialEq, Eq, Structural)]
pub enum ExitReason {
    Normal,
    Cancelled,
}

/// What is known about starting the agent afresh.
#[derive(Clone, Copy, Debug, PartialEq, Eq, Structural)]
pub enum RetryState {
    /// Nothing to start it with.
    NotConfigured,
    /// It can be started afresh.
    Ready,
    /// It was tried, and failed.
    Failed,
}

/// What becomes of a run.
#[derive(Debug)]
pub enum AttemptOutcome {
    /// Start the agent afresh, without its former session.
    RetryWithFreshSession,
    /// Tell the event, after all others, and record how the message ended.
    Finished { event: AppEvent, status: String, outcome: Outcome },
}

pub enum EndingModel {
    Retry,
    Finished { event: EventModel, status: Seq<char>, outcome: Outcome },
}

impl View for AttemptOutcome {
    type V = EndingModel;

    open spec fn view(&self) -> EndingModel {
        match self {
            AttemptOutcome::RetryWithFreshSession => EndingModel::Retry,
            AttemptOutcome::Finished { event, status, outcome } => EndingModel::Finished {
                event: event@,
                status: status@,
                outcome: *outcome,
            },
        }
    }
}

/// Why a process that did not end well is said to have crashed.
pub open spec fn crash_reason(exit: ExitStatus) -> Seq<char> {
    match exit {
        ExitStatus::Exited { code, .. } => "exit code: "@ + chars::dec_signed(
            match code {
                Some(c) => c as int,
                None => -1,
            },
        ),
        ExitStatus::WaitFailed(e) => "wait error: "@ + e@,
    }
}

/// What becomes of a run. It is started afresh only where the agent refused its
/// session before it wrote a single line, and nobody stopped it.
pub open spec fn ending(
    session_id: Seq<char>,
    lines: nat,
    reason: ExitReason,
    exit: ExitStatus,
    session_conflict: bool,
    retry: RetryState,
) -> EndingModel {
    if reason == ExitReason::Normal && session_conflict && lines == 0 && retry == RetryState::Ready {
        EndingModel::Retry
    } else if reason == ExitReason::Cancelled {
        EndingModel::Finished {
            event: EventModel::AgentStopped { session_id },
            status: "stopped"@,
            outcome: Outcome::Negative,
        }
    } else if exit matches ExitStatus::Exited { success: true, .. } {
        EndingModel::Finished {
            event: EventModel::DiagnosisDone { session_id, conclusion: Seq::empty() },
            status: "done"@,
            outcome: Outcome::Uncertain,
        }
    } else {
        EndingModel::Finished {
            event: EventModel::AgentCrashed { session_id, reason: crash_reason(exit) },
            status: "error"@,
            outcome: Outcome::Negative,
        }
    }
}

/// One run of an agent.
#[derive(Debug)]
pub struct Attempt {
    pub session_id: String,
    pub line_count: u64,
    pub agent_session_captured: bool,
    pub accumulator: MessageAccumulator,
}

/// What a line of the agent's output leads to.
#[derive(Debug)]
pub struct LineEffect {
    /// The agent's own session id, to be kept; told once per run.
    pub agent_session_id: Option<String>,
    /// To be handed to the user interface.
    pub events: Vec<AppEvent>,
}

/// The agent's own session id, should this line be the first to tell it.
pub open spec fn newly_told(captured: bool, j: Option<JsonModel>) -> Option<Seq<char>> {
    match j {
        Some(v) => if captured {
            None
        } else {
            told_session_id(v)
        },
        None => None,
    }
}

pub open spec fn told_events(j: Option<JsonModel>, session_id: Seq<char>) -> Seq<EventModel> {
    match j {
        Some(v) => line_events(v, session_id),
        None => Seq::empty(),
    }
}

/// What a line does to a run.
pub open spec fn line_taken(
    before: Attempt,
    after: Attempt,
    effect: LineEffect,
    j: Option<JsonModel>,
) -> bool {
    let es = told_events(j, before.session_id@);
    let told = newly_told(before.agent_session_captured, j);
    &&& effect.agent_session_id.deep_view() == told
    &&& events(effect.events@) == es
    &&& after.session_id == before.session_id
    &&& after.line_count == before.line_count + 1
    &&& after.agent_session_captured == (before.agent_session_captured || told is Some)
    &&& after.accumulator@ == after_events(before.accumulator@, es, es.len() as int)
}

impl Attempt {
    pub fn new(session_id: &str, agent_message_id: &str) -> (r: Self)
        ensures
            r.session_id@ == session_id@,
            r.line_count == 0,
            !r.agent_session_captured,
            r.accumulator@ == (AccumulatorModel {
                message_id: agent_message_id@,
                parts: Seq::empty(),
                current_text: Seq::empty(),
                pending_tool_args: None,
            }),
    {
        Attempt {
            session_id: text::owned(session_id),
            line_count: 0,
            agent_session_captured: false,
            accumulator: MessageAccumulator::new(text::owned(agent_message_id)),
        }
    }

    /// Takes one line in, read as JSON where it is JSON.
    pub fn take_value(&mut self, value: Option<Json>) -> (r: LineEffect)
        requires
            old(self).line_count < u64::MAX,
        ensures
            line_taken(
                *old(self),
                *final(self),
                r,
                match value {
                    Some(j) => Some(j@),
                    None => None,
                },
            ),
    {
        let ghost before = self.accumulator@;
        let ghost sid = self.session_id@;
        self.line_count = self.line_count + 1;
        match value {
            None => {
                let r = LineEffect { agent_session_id: None, events: Vec::new() };
                assert(events(r.events@) =~= Seq::<EventModel>::empty());
                r
            },
            Some(j) => {
                let mut told: Option<String> = None;
                if !self.agent_session_captured {
                    told = session_id_of(&j);
                    if told.is_some() {
                        self.agent_session_captured = true;
                    }
                }
                let es = parse_event_value(&j, self.session_id.as_str());
                let ghost models = events(es@);
                let ghost kept = *self;
                let mut i: usize = 0;
                while i < es.len()
                    invariant
                        i <= es@.len(),
                        models == events(es@),
                        self.session_id == kept.session_id,
                        self.line_count == kept.line_count,
                        self.agent_session_captured == kept.agent_session_captured,
                        self.accumulator@ == after_events(before, models, i as int),
                    decreases es@.len() - i,
                {
                    assert(models[i as int] == es@[i as int]@);
                    self.accumulator.handle_event(&es[i]);
                    i = i + 1;
                }
                LineEffect { agent_session_id: told, events: es }
            },
        }
    }

    /// Takes one line of the agent's output in.
    pub fn take_line(&mut self, line: &str) -> (r: LineEffect)
        requires
            old(self).line_count < u64::MAX,
        ensures
            line_taken(*old(self), *final(self), r, json::parsed(line@)),
    {
        let value = json::parse(line);
        self.take_value(value)
    }

    /// Decides what becomes of the run.
    pub fn consume_attempt(
        &self,
        reason: ExitReason,
        exit: &ExitStatus,
        session_conflict: bool,
        retry: RetryState,
    ) -> (r: AttemptOutcome)
        ensures
            r@ == ending(
                self.session_id@,
                self.line_count as nat,
                reason,
                *exit,
                session_conflict,
                retry,
            ),
    {
        if reason == ExitReason::Normal && session_conflict && self.line_count == 0 && retry
            == RetryState::Ready {
            return AttemptOutcome::RetryWithFreshSession;
        }
        if reason == ExitReason::Cancelled {
            return AttemptOutcome::Finished {
                event: AppEvent::AgentStopped { session_id: self.session_id.clone() },
                status: text::owned("stopped"),
                outcome: Outcome::Negative,
            };
        }
        let crash = match exit {
            ExitStatus::Exited { success, code } => {
                if *success {
                    return AttemptOutcome::Finished {
                        event: AppEvent::DiagnosisDone {
                            session_id: self.session_id.clone(),
                            conclusion: String::new(),
                        },
                        status: text::owned("done"),
                        outcome: Outcome::Uncertain,
                    };
                }
                let shown: i64 = match code {
                    Some(c) => *c as i64,
                    None => -1,
                };
                let mut m = text::owned("exit code: ");
                m.append(text::dec_signed(shown).as_str());
                m
            },
            ExitStatus::WaitFailed(e) => {
                let mut m = text::owned("wait error: ");
                m.append(e.as_str());
                m
            },
        };
        AttemptOutcome::Finished {
            event: AppEvent::AgentCrashed { session_id: self.session_id.clone(), reason: crash },
            status: text::owned("error"),
            outcome: Outcome::Negative,
        }
    }
}

/// With what the agent is started afresh where it refuses its session.
#[derive(Debug)]
pub struct ResumeRetry {
    pub user_message: String,
    pub prompt_override_path: Option<String>,
}

/// The runs of an agent that answer one message of the user.
#[derive(Debug)]
pub struct StreamRun {
    pub resume_retry: Option<ResumeRetry>,
}

impl StreamRun {
    /// Begins a run and hands over what it may be started afresh with: the first
    /// run gets it, no later one does.
    pub fn begin_attempt(&mut self) -> (r: Option<ResumeRetry>)
        ensures
            r == old(self).resume_retry,
            final(self).resume_retry is None,
    {
        let mut taken: Option<ResumeRetry> = None;
        core::mem::swap(&mut taken, &mut self.resume_retry);
        taken
    }
}

/// Whether a run can be followed by a fresh one.
pub fn retry_state(retry: &Option<ResumeRetry>) -> (r: RetryState)
    ensures
        r == (if retry is Some {
            RetryState::Ready
        } else {
            RetryState::NotConfigured
        }),
{
    match retry {
        Some(_) => RetryState::Ready,
        None => RetryState::NotConfigured,
    }
}

/// A run that has nothing to start afresh with, or has failed to, is final: the
/// agent is started afresh at most once for one message.
pub proof fn law_started_afresh_at_most_once(
    session_id: Seq<char>,
    lines: nat,
    reason: ExitReason,
    exit: ExitStatus,
    session_conflict: bool,
    retry: RetryState,
)
    requires
        retry != RetryState::Ready,
    ensures
        ending(session_id, lines, reason, exit, session_conflict, retry) is Finished,
{
}

/// A run that wrote a line, or that was stopped, is never repeated: nothing that
/// the agent has said is asked for twice.
pub proof fn law_output_is_never_repeated(
    session_id: Seq<char>,
    lines: nat,
    reason: ExitReason,
    exit: ExitStatus,
    session_conflict: bool,
    retry: RetryState,
)
    requires
        lines > 0 || reason == ExitReason::Cancelled,
    ensures
        ending(session_id, lines, reason, exit, session_conflict, retry) is Finished,
{
}

/// A run that is final tells last how it ended: stopped where it was cancelled, else done
/// where its process ended well, else crashed. The message is marked accordingly.
pub proof fn law_run_tells_how_it_ended(
    session_id: Seq<char>,
    lines: nat,
    reason: ExitReason,
    exit: ExitStatus,
    session_conflict: bool,
    retry: RetryState,
)
    ensures
        ending(session_id, lines, reason, exit, session_conflict, retry) matches EndingModel::Finished {
            event,
            status,
            ..
        } ==> if reason == ExitReason::Cancelled {
            event == (EventModel::AgentStopped { session_id }) && status == "stopped"@
        } else if exit matches ExitStatus::Exited { success: true, .. } {
            event == (EventModel::DiagnosisDone { session_id, conclusion: Seq::empty() })
                && status == "done"@
        } else {
            event == (EventModel::AgentCrashed { session_id, reason: crash_reason(exit) })
                && status == "error"@
        },
{
}

/// The text in the parts of a message, in order.
pub open spec fn text_in(parts: Seq<AccumulatedModel>) -> Seq<char>
    decreases parts.len(),
{
    if parts.len() == 0 {
        Seq::empty()
    } else {
        text_in(parts.drop_last()) + match parts.last() {
            AccumulatedModel::Text(t) => t,
            AccumulatedModel::Tool { .. } => Seq::empty(),
        }
    }
}

/// How many parts of a message are uses of a tool.
pub open spec fn tools_in(parts: Seq<AccumulatedModel>) -> nat
    decreases parts.len(),
{
    if parts.len() == 0 {
        0
    } else {
        tools_in(parts.drop_last()) + (if parts.last() is Tool { 1nat } else { 0nat })
    }
}

/// The tokens that the first `n` events tell, in order.
pub open spec fn tokens(es: Seq<EventModel>, n: int) -> Seq<char>
    decreases n,
{
    if n <= 0 {
        Seq::empty()
    } else {
        tokens(es, n - 1) + match es[n - 1] {
            EventModel::LlmThinking { token, .. } => token,
            _ => Seq::empty(),
        }
    }
}

/// How many of the first `n` events tell what a tool gave back.
pub open spec fn results(es: Seq<EventModel>, n: int) -> nat
    decreases n,
{
    if n <= 0 {
        0
    } else {
        results(es, n - 1) + (if es[n - 1] is ToolResult { 1nat } else { 0nat })
    }
}

proof fn lemma_push_part(parts: Seq<AccumulatedModel>, p: AccumulatedModel)
    ensures
        text_in(parts.push(p)) == text_in(parts) + (match p {
            AccumulatedModel::Text(t) => t,
            AccumulatedModel::Tool { .. } => Seq::<char>::empty(),
        }),
        tools_in(parts.push(p)) == tools_in(parts) + (if p is Tool { 1nat } else { 0nat }),
{
    assert(parts.push(p).drop_last() =~= parts);
}

proof fn lemma_flushed_text(a: AccumulatorModel)
    ensures
        text_in(flushed(a).parts) == text_in(a.parts) + a.current_text,
        tools_in(flushed(a).parts) == tools_in(a.parts),
        flushed(a).current_text.len() == 0,
{
    lemma_push_part(a.parts, AccumulatedModel::Text(a.current_text));
    if a.current_text.len() == 0 {
        assert(text_in(a.parts) + a.current_text =~= text_in(a.parts));
    }
}

/// The message that is recorded holds every token that was told, each once and
/// in order, and one part for every result of a tool.
pub proof fn law_message_holds_all_that_was_told(
    a: AccumulatorModel,
    es: Seq<EventModel>,
    n: int,
)
    requires
        0 <= n <= es.len(),
    ensures
        ({
            let parts = flushed(after_events(a, es, n)).parts;
            &&& text_in(parts) == text_in(a.parts) + a.current_text + tokens(es, n)
            &&& tools_in(parts) == tools_in(a.parts) + results(es, n)
        }),
    decreases n,
{
    let b = after_events(a, es, n);
    lemma_flushed_text(b);
    if n > 0 {
        law_message_holds_all_that_was_told(a, es, n - 1);
        let p = after_events(a, es, n - 1);
        lemma_flushed_text(p);
        match es[n - 1] {
            EventModel::LlmThinking { token, .. } => {
                assert(text_in(p.parts) + (p.current_text + token) =~= text_in(p.parts)
                    + p.current_text + token);
            },
            EventModel::ToolResult { .. } => {
                lemma_push_part(flushed(p).parts, b.parts.last());
                assert(b.parts.drop_last() =~= flushed(p).parts);
            },
            _ => {},
        }
        assert(text_in(b.parts) + b.current_text =~= text_in(a.parts) + a.current_text + tokens(
            es,
            n,
        ));
    } else {
        assert(text_in(a.parts) + a.current_text + tokens(es, 0) =~= text_in(a.parts)
            + a.current_text);
    }
}

} // verus!
