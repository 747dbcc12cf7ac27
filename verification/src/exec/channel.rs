//! What a command on another machine came to.

use crate::outside;
use vstd::prelude::*;

verus! {

#[derive(Debug)]
pub struct ExecOutput {
    pub stdout: String,
    pub stderr: String,
    pub exit_code: i32,
}

/// What came of running a command within some time.
#[derive(Debug)]
pub enum RunOutcome {
    TimedOut,
    Failed(String),
    Output(ExecOutput),
}

/// What a channel says that cannot upload files.
pub const UPLOAD_NOT_IMPLEMENTED: &'static str = "upload not implemented for this channel";

/// What a channel says that cannot download files.
pub const DOWNLOAD_NOT_IMPLEMENTED: &'static str = "download not implemented for this channel";

/// The exit code of a command that did not tell one.
pub const NO_EXIT_CODE: i32 = -1;

/// What arrives on a channel on which a command runs.
#[derive(Debug)]
pub enum ChannelMessage {
    Data(Vec<u8>),
    ErrorData(Vec<u8>),
    ExitStatus(u32),
    ExitSignal,
    /// The end of a stream, and all else that does not matter.
    Other,
}

/// A command that runs: what it has written so far.
#[derive(Debug)]
pub struct CommandRun {
    pub stdout: Vec<u8>,
    pub stderr: Vec<u8>,
    pub exit_code: i32,
    /// Killed by a signal: nothing more is waited for.
    pub ended: bool,
}

#[verifier::ext_equal]
pub struct CommandModel {
    pub stdout: Seq<u8>,
    pub stderr: Seq<u8>,
    pub exit_code: i32,
    pub ended: bool,
}

impl View for CommandRun {
    type V = CommandModel;

    open spec fn view(&self) -> CommandModel {
        CommandModel {
            stdout: self.stdout@,
            stderr: self.stderr@,
            exit_code: self.exit_code,
            ended: self.ended,
        }
    }
}

pub open spec fn after_message(c: CommandModel, m: ChannelMessage) -> CommandModel {
    if c.ended {
        c
    } else {
        match m {
            ChannelMessage::Data(d) => CommandModel { stdout: c.stdout + d@, ..c },
            ChannelMessage::ErrorData(d) => CommandModel { stderr: c.stderr + d@, ..c },
            ChannelMessage::ExitStatus(s) => CommandModel { exit_code: s as i32, ..c },
            ChannelMessage::ExitSignal => CommandModel { ended: true, ..c },
            ChannelMessage::Other => c,
        }
    }
}

fn append_bytes(out: &mut Vec<u8>, d: &Vec<u8>)
    ensures
        final(out)@ == old(out)@ + d@,
{
    let ghost before = out@;
    let mut i: usize = 0;
    assert(out@ =~= before + d@.take(0));
    while i < d.len()
        invariant
            i <= d@.len(),
            out@ == before + d@.take(i as int),
        decreases d@.len() - i,
    {
        out.push(d[i]);
        i = i + 1;
        assert(out@ =~= before + d@.take(i as int));
    }
    assert(d@.take(i as int) =~= d@);
}

impl CommandRun {
    pub fn new() -> (r: Self)
        ensures
            r@ == (CommandModel {
                stdout: Seq::empty(),
                stderr: Seq::empty(),
                exit_code: NO_EXIT_CODE,
                ended: false,
            }),
    {
        CommandRun { stdout: Vec::new(), stderr: Vec::new(), exit_code: NO_EXIT_CODE, ended: false }
    }

    /// Takes in what arrives.
    pub fn take(&mut self, message: ChannelMessage)
        ensures
            final(self)@ == after_message(old(self)@, message),
    {
        if self.ended {
            return;
        }
        match message {
            ChannelMessage::Data(d) => append_bytes(&mut self.stdout, &d),
            ChannelMessage::ErrorData(d) => append_bytes(&mut self.stderr, &d),
            ChannelMessage::ExitStatus(s) => {
                self.exit_code = s as i32;
            },
            ChannelMessage::ExitSignal => {
                self.ended = true;
            },
            ChannelMessage::Other => {},
        }
    }

    /// What the command came to.
    pub fn output(&self) -> (r: ExecOutput)
        ensures
            r.stdout@ == outside::lossy(self@.stdout),
            r.stderr@ == outside::lossy(self@.stderr),
            r.exit_code == self@.exit_code,
    {
        ExecOutput {
            stdout: outside::from_utf8_lossy(&self.stdout),
            stderr: outside::from_utf8_lossy(&self.stderr),
            exit_code: self.exit_code,
        }
    }
}

} // verus!
