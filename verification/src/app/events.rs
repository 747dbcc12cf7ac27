//! What the assistant tells the user interface.

use crate::json::{Json, JsonModel};
use vstd::prelude::*;

verus! {

#[derive(Debug)]
pub enum AppEvent {
    AgentStarted { session_id: String, agent_pid: u32 },
    ToolExecuting { session_id: String, tool: String, args: Json },
    ToolResult { session_id: String, tool: String, output: Json, elapsed_ms: u64 },
    LlmThinking { session_id: String, token: String },
    ConfirmRequired {
        session_id: String,
        confirm_id: String,
        tool: String,
        args: Json,
        risk_level: String,
    },
    AgentStopped { session_id: String },
    AgentCrashed { session_id: String, reason: String },
    DiagnosisDone { session_id: String, conclusion: String },
    SessionClosed { session_id: String },
    ProvisionProgress { session_id: String, tool: String, stage: String, detail: String },
    TransferProgress {
        session_id: String,
        transfer_id: String,
        direction: String,
        status: String,
        transferred_bytes: u64,
        total_bytes: u64,
        speed_bps: u64,
        attempt: u32,
    },
    TransferFinished {
        session_id: String,
        transfer_id: String,
        direction: String,
        status: String,
        transferred_bytes: u64,
        total_bytes: u64,
        error: Option<String>,
        local_path: Option<String>,
        remote_path: String,
    },
    SessionDeleted { session_id: String },
}

/// What an event tells, as far as the agent's own stream goes.
pub enum EventModel {
    ToolExecuting { session_id: Seq<char>, tool: Seq<char>, args: JsonModel },
    ToolResult { session_id: Seq<char>, tool: Seq<char>, output: JsonModel, elapsed_ms: u64 },
    LlmThinking { session_id: Seq<char>, token: Seq<char> },
    AgentStopped { session_id: Seq<char> },
    AgentCrashed { session_id: Seq<char>, reason: Seq<char> },
    DiagnosisDone { session_id: Seq<char>, conclusion: Seq<char> },
    Other,
}

impl View for AppEvent {
    type V = EventModel;

    open spec fn view(&self) -> EventModel {
        match self {
            AppEvent::ToolExecuting { session_id, tool, args } => EventModel::ToolExecuting {
                session_id: session_id@,
                tool: tool@,
                args: args@,
            },
            AppEvent::ToolResult { session_id, tool, output, elapsed_ms } => EventModel::ToolResult {
                session_id: session_id@,
                tool: tool@,
                output: output@,
                elapsed_ms: *elapsed_ms,
            },
            AppEvent::LlmThinking { session_id, token } => EventModel::LlmThinking {
                session_id: session_id@,
                token: token@,
            },
            AppEvent::AgentStopped { session_id } => EventModel::AgentStopped {
                session_id: session_id@,
            },
            AppEvent::AgentCrashed { session_id, reason } => EventModel::AgentCrashed {
                session_id: session_id@,
                reason: reason@,
            },
            AppEvent::DiagnosisDone { session_id, conclusion } => EventModel::DiagnosisDone {
                session_id: session_id@,
                conclusion: conclusion@,
            },
            _ => EventModel::Other,
        }
    }
}

pub open spec fn events(s: Seq<AppEvent>) -> Seq<EventModel> {
    s.map_values(|e: AppEvent| e@)
}

} // verus!
