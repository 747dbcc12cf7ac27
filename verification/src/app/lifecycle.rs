//! A message of the user, from its arrival to the agent that answers it.

use crate::agent::spawn::SpawnError;
use crate::app::events::AppEvent;
use crate::app::session::truncate_title;
use crate::chars;
use crate::ids;
use crate::text;
use vstd::prelude::*;

verus! {

#[derive(Debug)]
pub struct LifecycleManager;

impl LifecycleManager {
    pub fn new() -> (r: Self)
        ensures
            r == LifecycleManager,
    {
        LifecycleManager
    }
}

impl Default for LifecycleManager {
    fn default() -> (r: Self)
        ensures
            r == LifecycleManager,
    {
        LifecycleManager::new()
    }
}

#[derive(Clone, Debug)]
pub struct StartDiagnosisParams {
    pub env: String,
    pub service: String,
    pub symptom: String,
}

/// What is known about a session when a message for it arrives.
#[derive(Debug)]
pub struct SessionLookup {
    /// The status of its row; `None` where there is no such row.
    pub status: Option<String>,
    /// The agent's own session.
    pub agent_session_id: Option<String>,
    /// An agent is at work on it.
    pub agent_running: bool,
    /// How many messages it has.
    pub message_count: i64,
}

/// A message to be recorded.
#[derive(Debug)]
pub struct NewMessage {
    pub id: String,
    pub role: &'static str,
    pub content: Option<String>,
    pub status: &'static str,
    pub seq: i64,
}

/// What a message of the user leads to, before the agent is started.
#[derive(Debug)]
pub struct SendPlan {
    pub session_id: String,
    /// The title of a session that is new; `None` for one that is there.
    pub new_session_title: Option<String>,
    /// The agent's own session that is resumed.
    pub agent_session_id: Option<String>,
    pub user_message: NewMessage,
    pub agent_message: NewMessage,
    /// Earlier experiences are looked up: only for a session that is new.
    pub recall_experiences: bool,
}

/// Why a message for a session that should be there is refused.
pub open spec fn send_refusal(l: SessionLookup) -> Option<Seq<char>> {
    match l.status {
        None => Some("会话不存在"@),
        Some(s) => if s@ == "closed"@ {
            Some("会话已关闭"@)
        } else if s@ == "archived"@ {
            Some("会话已归档"@)
        } else if l.agent_running {
            Some("agent 正在运行"@)
        } else {
            None
        },
    }
}

/// The plan for a message: the user's message as it came, and behind it the agent's,
/// which is still to be filled.
pub open spec fn is_send_plan(
    p: SendPlan,
    session_id: Seq<char>,
    new_title: Option<Seq<char>>,
    agent_session_id: Option<Seq<char>>,
    message: Seq<char>,
    count: int,
) -> bool {
    &&& p.session_id@ == session_id
    &&& p.new_session_title.deep_view() == new_title
    &&& p.agent_session_id.deep_view() == agent_session_id
    &&& p.recall_experiences == (new_title is Some)
    &&& p.user_message.role@ == "user"@
    &&& p.user_message.content.deep_view() == Some(message)
    &&& p.user_message.status@ == "done"@
    &&& p.user_message.seq == count
    &&& p.agent_message.role@ == "agent"@
    &&& p.agent_message.content is None
    &&& p.agent_message.status@ == "streaming"@
    &&& p.agent_message.seq == count + 1
    &&& ids::is_uuid(p.user_message.id@)
    &&& ids::is_uuid(p.agent_message.id@)
}

/// Works out what a message of the user leads to, or why it is refused. Without a
/// session id a session is opened for it.
pub fn send_message(session_id: Option<&str>, message: &str, lookup: &SessionLookup) -> (r: Result<
    SendPlan,
    String,
>)
    requires
        session_id is Some ==> 0 <= lookup.message_count < i64::MAX,
    ensures
        match session_id {
            None => r is Ok && ids::is_uuid(r->Ok_0.session_id@) && is_send_plan(
                r->Ok_0,
                r->Ok_0.session_id@,
                Some(chars::first(chars::trim(message@), 40)),
                None,
                message@,
                0,
            ),
            Some(id) => match send_refusal(*lookup) {
                Some(why) => r is Err && r->Err_0@ == why,
                None => r is Ok && is_send_plan(
                    r->Ok_0,
                    id@,
                    None,
                    lookup.agent_session_id.deep_view(),
                    message@,
                    lookup.message_count as int,
                ),
            },
        },
{
    let mut title: Option<String> = None;
    let mut agent_session_id: Option<String> = None;
    let mut count: i64 = 0;
    let sid = match session_id {
        None => {
            title = Some(truncate_title(message));
            ids::new_uuid()
        },
        Some(id) => {
            match &lookup.status {
                None => return Err(text::owned("会话不存在")),
                Some(s) => {
                    if text::same(s.as_str(), "closed") {
                        return Err(text::owned("会话已关闭"));
                    }
                    if text::same(s.as_str(), "archived") {
                        return Err(text::owned("会话已归档"));
                    }
                },
            }
            if lookup.agent_running {
                return Err(text::owned("agent 正在运行"));
            }
            agent_session_id = text::clone_opt(&lookup.agent_session_id);
            count = lookup.message_count;
            text::owned(id)
        },
    };
    let recall = title.is_some();
    Ok(
        SendPlan {
            session_id: sid,
            new_session_title: title,
            agent_session_id,
            user_message: NewMessage {
                id: ids::new_uuid(),
                role: "user",
                content: Some(text::owned(message)),
                status: "done",
                seq: count,
            },
            agent_message: NewMessage {
                id: ids::new_uuid(),
                role: "agent",
                content: None,
                status: "streaming",
                seq: count + 1,
            },
            recall_experiences: recall,
        },
    )
}

/// What follows the attempt to start the agent.
#[derive(Debug)]
pub enum SendEnd {
    /// The agent works: tell the event and read what it writes.
    Started(AppEvent),
    /// It does not: the agent's message gets this status, the user this error.
    Failed { status: &'static str, error: String },
}

/// Decides after the agent was started, under its process id, or failed to start.
pub fn after_spawn(session_id: &str, started: &Result<u32, SpawnError>) -> (r: SendEnd)
    ensures
        match started {
            Ok(pid) => r matches SendEnd::Started(e) && e matches AppEvent::AgentStarted {
                session_id: s,
                agent_pid,
            } && s@ == session_id@ && agent_pid == *pid,
            Err(SpawnError::NoActiveAgent) => r matches SendEnd::Failed { status, error } && status@
                == "error"@ && error@ == "无可用 agent，请先检测或手动添加"@,
            Err(SpawnError::BinaryMissing { path }) => r matches SendEnd::Failed { status, error }
                && status@ == "error"@ && error@ == "agent 二进制不存在："@ + path@,
            Err(SpawnError::SpawnFailed(m)) => r matches SendEnd::Failed { status, error }
                && status@ == "error"@ && error@ == "启动 agent 失败："@ + m@,
            Err(SpawnError::Db(m)) => r matches SendEnd::Failed { status, error } && status@
                == "error"@ && error@ == "DB 查询失败："@ + m@,
        },
{
    match started {
        Ok(pid) => SendEnd::Started(
            AppEvent::AgentStarted { session_id: text::owned(session_id), agent_pid: *pid },
        ),
        Err(e) => SendEnd::Failed { status: "error", error: e.message() },
    }
}

/// A session that is closed, archived or missing takes no message, whether or not an
/// agent is at work on it.
pub proof fn law_only_open_sessions_take_messages(l: SessionLookup)
    requires
        send_refusal(l) is None,
    ensures
        l.status is Some,
        l.status->0@ != "closed"@,
        l.status->0@ != "archived"@,
        !l.agent_running,
{
}

} // verus!
