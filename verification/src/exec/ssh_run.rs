//! Running a command by SSH, over a connection that may break.

use crate::exec::channel::{ExecOutput, NO_EXIT_CODE};
use crate::exec::ssh;
use crate::exec::ssh::{RunStep, SshAuth, SshTransport, NOT_CONNECTED};
use crate::text;
use vstd::prelude::*;

verus! {

/// What a command waits for.
#[derive(Clone, Copy, Debug, PartialEq, Eq, Structural)]
pub enum RunStage {
    Executing,
    Reconnecting,
    Over,
}

/// A command on its way.
#[derive(Debug)]
pub struct SshRun {
    /// The command as the shell of the machine gets it.
    pub command: String,
    /// There is a connection.
    pub connected: bool,
    /// It was already connected anew for this command.
    pub retried: bool,
    pub stage: RunStage,
}

#[verifier::ext_equal]
pub struct RunModel {
    pub command: Seq<char>,
    pub connected: bool,
    pub retried: bool,
    pub stage: RunStage,
}

impl RunModel {
    /// It is connected anew only where that is noted.
    pub open spec fn wf(self) -> bool {
        self.stage == RunStage::Reconnecting ==> self.retried
    }
}

impl View for SshRun {
    type V = RunModel;

    open spec fn view(&self) -> RunModel {
        RunModel {
            command: self.command@,
            connected: self.connected,
            retried: self.retried,
            stage: self.stage,
        }
    }
}

/// What happened to a command.
#[derive(Debug)]
pub enum RunEvent {
    /// It was run over the connection.
    Executed(Result<ExecOutput, String>),
    /// There was no connection to run it over.
    Unconnected,
    /// It was tried to connect anew.
    Reconnected(Result<(), String>),
}

/// What to do about a command next.
#[derive(Debug)]
pub enum RunAction {
    /// Run this over the connection.
    Exec(String),
    /// Try once to connect; the new connection takes the place of the old one.
    Reconnect,
    /// It is done.
    Return(ExecOutput),
    /// It failed.
    Fail(String),
    /// Nothing: the event does not fit.
    Ignore,
}

pub enum RunActionModel {
    Exec(Seq<char>),
    Reconnect,
    Return(ExecOutput),
    Fail(Seq<char>),
    Ignore,
}

impl View for RunAction {
    type V = RunActionModel;

    open spec fn view(&self) -> RunActionModel {
        match self {
            RunAction::Exec(c) => RunActionModel::Exec(c@),
            RunAction::Reconnect => RunActionModel::Reconnect,
            RunAction::Return(o) => RunActionModel::Return(*o),
            RunAction::Fail(e) => RunActionModel::Fail(e@),
            RunAction::Ignore => RunActionModel::Ignore,
        }
    }
}

/// How a command begins: without a connection it fails at once.
pub open spec fn begun(command: Seq<char>, connected: bool) -> (RunModel, RunActionModel) {
    let wrapped = "bash -lc "@ + ssh::quoted(command);
    if connected {
        (
            RunModel { command: wrapped, connected, retried: false, stage: RunStage::Executing },
            RunActionModel::Exec(wrapped),
        )
    } else {
        (
            RunModel { command: wrapped, connected, retried: false, stage: RunStage::Over },
            RunActionModel::Fail(NOT_CONNECTED@),
        )
    }
}

/// Why a command failed that did not complete the second time either.
pub open spec fn failure(result: Result<ExecOutput, String>) -> Seq<char> {
    match result {
        Ok(_) => "ssh channel closed without exit status (connection dropped)"@,
        Err(e) => "ssh command failed after reconnect: "@ + e@,
    }
}

/// How a command goes on: what came to an exit code is returned; what did not leads to one
/// new connection and one more try.
pub open spec fn next(m: RunModel, e: RunEvent) -> (RunModel, RunActionModel) {
    let over = RunModel { stage: RunStage::Over, ..m };
    match (m.stage, e) {
        (RunStage::Executing, RunEvent::Executed(result)) => if ssh::completed(result) {
            (over, RunActionModel::Return(result->Ok_0))
        } else if m.retried {
            (over, RunActionModel::Fail(failure(result)))
        } else {
            (
                RunModel { retried: true, stage: RunStage::Reconnecting, ..m },
                RunActionModel::Reconnect,
            )
        },
        (RunStage::Executing, RunEvent::Unconnected) => (
            RunModel { connected: false, ..over },
            RunActionModel::Fail(NOT_CONNECTED@),
        ),
        (RunStage::Reconnecting, RunEvent::Reconnected(Ok(_))) => (
            RunModel { connected: true, stage: RunStage::Executing, ..m },
            RunActionModel::Exec(m.command),
        ),
        (RunStage::Reconnecting, RunEvent::Reconnected(Err(why))) => (
            RunModel { connected: false, ..over },
            RunActionModel::Fail("ssh reconnect failed: "@ + why@),
        ),
        _ => (m, RunActionModel::Ignore),
    }
}

impl SshTransport {
    /// Begins to run a command, in a login shell.
    pub fn run(&self, cmd: &str, connected: bool) -> (r: (SshRun, RunAction))
        ensures
            (r.0@, r.1@) == begun(cmd@, connected),
            r.0@.wf(),
    {
        let command = SshAuth::wrap_login_shell(cmd);
        if connected {
            let action = RunAction::Exec(text::owned(command.as_str()));
            (SshRun { command, connected, retried: false, stage: RunStage::Executing }, action)
        } else {
            (
                SshRun { command, connected, retried: false, stage: RunStage::Over },
                RunAction::Fail(text::owned(NOT_CONNECTED)),
            )
        }
    }
}

impl SshRun {
    /// Takes an event in and tells what to do next.
    pub fn step(&mut self, event: RunEvent) -> (r: RunAction)
        ensures
            (final(self)@, r@) == next(old(self)@, event),
            old(self)@.wf() ==> final(self)@.wf(),
    {
        match self.stage {
            RunStage::Executing => match event {
                RunEvent::Executed(result) => match ssh::after_exec(result, self.retried) {
                    RunStep::Return(output) => {
                        self.stage = RunStage::Over;
                        RunAction::Return(output)
                    },
                    RunStep::Reconnect => {
                        self.retried = true;
                        self.stage = RunStage::Reconnecting;
                        RunAction::Reconnect
                    },
                    RunStep::Fail(e) => {
                        self.stage = RunStage::Over;
                        RunAction::Fail(e)
                    },
                },
                RunEvent::Unconnected => {
                    self.connected = false;
                    self.stage = RunStage::Over;
                    RunAction::Fail(text::owned(NOT_CONNECTED))
                },
                RunEvent::Reconnected(_) => RunAction::Ignore,
            },
            RunStage::Reconnecting => match event {
                RunEvent::Reconnected(Ok(())) => {
                    self.connected = true;
                    self.stage = RunStage::Executing;
                    RunAction::Exec(text::owned(self.command.as_str()))
                },
                RunEvent::Reconnected(Err(e)) => {
                    self.connected = false;
                    self.stage = RunStage::Over;
                    RunAction::Fail(ssh::reconnect_error(e.as_str()))
                },
                _ => RunAction::Ignore,
            },
            RunStage::Over => RunAction::Ignore,
        }
    }
}

/// The command after a number of events.
pub open spec fn after(m: RunModel, events: Seq<RunEvent>) -> RunModel
    decreases events.len(),
{
    if events.len() == 0 {
        m
    } else {
        next(after(m, events.drop_last()), events.last()).0
    }
}

/// How often it is connected anew in the course of these events.
pub open spec fn reconnects(m: RunModel, events: Seq<RunEvent>) -> nat
    decreases events.len(),
{
    if events.len() == 0 {
        0
    } else {
        let before = events.drop_last();
        reconnects(m, before) + if next(after(m, before), events.last()).1 is Reconnect {
            1nat
        } else {
            0nat
        }
    }
}

/// How many events a command can still take.
pub open spec fn events_left(m: RunModel) -> nat {
    match m.stage {
        RunStage::Over => 0,
        RunStage::Reconnecting => 2,
        RunStage::Executing => if m.retried {
            1
        } else {
            3
        },
    }
}

/// Whatever happens, a command connects anew at most once.
pub proof fn law_reconnects_at_most_once(
    command: Seq<char>,
    connected: bool,
    events: Seq<RunEvent>,
)
    ensures
        reconnects(begun(command, connected).0, events) == (if after(
            begun(command, connected).0,
            events,
        ).retried {
            1nat
        } else {
            0nat
        }),
    decreases events.len(),
{
    if events.len() > 0 {
        law_reconnects_at_most_once(command, connected, events.drop_last());
    }
}

/// Every event that fits brings a command nearer to its end, and where it has ended
/// nothing more is done.
pub proof fn law_command_ends(m: RunModel, e: RunEvent)
    requires
        m.wf(),
    ensures
        next(m, e).0.wf(),
        !(next(m, e).1 is Ignore) ==> events_left(next(m, e).0) < events_left(m),
        events_left(m) == 0 ==> next(m, e) == (m, RunActionModel::Ignore),
        (next(m, e).1 is Return || next(m, e).1 is Fail) ==> events_left(next(m, e).0) == 0,
{
}

/// What is returned is the output of the last run of the command, and it has an exit code.
pub proof fn law_output_has_an_exit_code(m: RunModel, e: RunEvent)
    ensures
        next(m, e).1 matches RunActionModel::Return(o) ==> {
            &&& e == RunEvent::Executed(Ok(o))
            &&& o.exit_code != NO_EXIT_CODE
        },
{
}

/// A command that completes, whatever its exit code, is returned without a new connection.
/// One that does not is run once more over a new connection, or fails where there is none;
/// then the machine is not connected. The second try decides.
pub proof fn law_second_try_decides(
    command: Seq<char>,
    first: Result<ExecOutput, String>,
    again: Result<(), String>,
    second: Result<ExecOutput, String>,
)
    ensures
        ({
            let m0 = begun(command, true).0;
            let (m1, a1) = next(m0, RunEvent::Executed(first));
            let (m2, a2) = next(m1, RunEvent::Reconnected(again));
            let (m3, a3) = next(m2, RunEvent::Executed(second));
            if ssh::completed(first) {
                a1 == RunActionModel::Return(first->Ok_0) && m1.connected
            } else {
                &&& a1 is Reconnect
                &&& match again {
                    Err(e) => {
                        &&& a2 == RunActionModel::Fail("ssh reconnect failed: "@ + e@)
                        &&& !m2.connected
                        &&& m2.stage == RunStage::Over
                    },
                    Ok(_) => {
                        &&& a2 == RunActionModel::Exec(m0.command)
                        &&& m3.connected
                        &&& m3.stage == RunStage::Over
                        &&& a3 == if ssh::completed(second) {
                            RunActionModel::Return(second->Ok_0)
                        } else {
                            RunActionModel::Fail(failure(second))
                        }
                    },
                }
            }
        }),
{
}

} // verus!
