//! Reaching a machine by SSH.

use crate::chars;
use crate::exec::channel::{ExecOutput, NO_EXIT_CODE};
use crate::text;
use vstd::prelude::*;

verus! {

/// How a user authenticates. What was chosen is used; there is no falling back.
#[derive(Debug)]
pub enum SshAuth {
    /// By a private key; its passphrase is in the key chain.
    PrivateKey { key_path: String },
    /// By a password, which is in the key chain.
    Password,
}

pub enum AuthModel {
    PrivateKey { key_path: Seq<char> },
    Password,
}

impl View for SshAuth {
    type V = AuthModel;

    open spec fn view(&self) -> AuthModel {
        match self {
            SshAuth::PrivateKey { key_path } => AuthModel::PrivateKey { key_path: key_path@ },
            SshAuth::Password => AuthModel::Password,
        }
    }
}

/// The way to authenticate that a row names; `None` where it is unknown, or a private key
/// without a path.
pub open spec fn auth_of_row(auth_type: Seq<char>, path: Option<Seq<char>>) -> Option<AuthModel> {
    if auth_type == "private_key"@ {
        match path {
            Some(p) => Some(AuthModel::PrivateKey { key_path: p }),
            None => None,
        }
    } else if auth_type == "password"@ {
        Some(AuthModel::Password)
    } else {
        None
    }
}

/// A command inside single quotes for a shell.
pub open spec fn quoted(s: Seq<char>) -> Seq<char> {
    "'"@ + chars::replace_char(s, '\'', "'\\''"@) + "'"@
}

impl SshAuth {
    pub fn from_row(auth_type: &str, private_key_path: Option<&str>) -> (r: Option<Self>)
        ensures
            match r {
                Some(a) => auth_of_row(auth_type@, private_key_path.deep_view()) == Some(a@),
                None => auth_of_row(auth_type@, private_key_path.deep_view()) is None,
            },
    {
        if text::same(auth_type, "private_key") {
            match private_key_path {
                Some(p) => Some(SshAuth::PrivateKey { key_path: text::owned(p) }),
                None => None,
            }
        } else if text::same(auth_type, "password") {
            Some(SshAuth::Password)
        } else {
            None
        }
    }

    /// The command as a login shell runs it.
    pub fn wrap_login_shell(command: &str) -> (r: String)
        ensures
            r@ == "bash -lc "@ + quoted(command@),
    {
        let mut out = text::owned("bash -lc ");
        out.append(shell_quote_single(command).as_str());
        out
    }
}

/// The text inside single quotes, so that a POSIX shell reads it as it is.
pub fn shell_quote_single(s: &str) -> (r: String)
    ensures
        r@ == quoted(s@),
{
    let mut out = text::owned("'");
    out.append(text::replace_char(s, '\'', "'\\''").as_str());
    out.append("'");
    out
}

/// How a POSIX shell reads a word made of parts in single quotes and of characters behind
/// a backslash. `inside` tells whether a quote is open. `None` for a word that is not made
/// so, or whose last quote is not closed.
pub open spec fn shell_word(s: Seq<char>, inside: bool) -> Option<Seq<char>>
    decreases s.len(),
{
    if s.len() == 0 {
        if inside {
            None
        } else {
            Some(Seq::empty())
        }
    } else if inside {
        if s[0] == '\'' {
            shell_word(s.drop_first(), false)
        } else {
            match shell_word(s.drop_first(), true) {
                Some(rest) => Some(seq![s[0]] + rest),
                None => None,
            }
        }
    } else if s[0] == '\'' {
        shell_word(s.drop_first(), true)
    } else if s[0] == '\\' && s.len() > 1 {
        match shell_word(s.skip(2), false) {
            Some(rest) => Some(seq![s[1]] + rest),
            None => None,
        }
    } else {
        None
    }
}

proof fn lemma_replace_front(s: Seq<char>, c: char, with: Seq<char>)
    requires
        s.len() > 0,
    ensures
        chars::replace_char(s, c, with) == (if s[0] == c {
            with
        } else {
            seq![s[0]]
        }) + chars::replace_char(s.drop_first(), c, with),
    decreases s.len(),
{
    let head = if s[0] == c {
        with
    } else {
        seq![s[0]]
    };
    if s.len() == 1 {
        assert(s.drop_last() =~= Seq::<char>::empty());
        assert(s.drop_first() =~= Seq::<char>::empty());
        assert(Seq::<char>::empty() + with =~= with);
        assert(Seq::<char>::empty().push(s[0]) =~= seq![s[0]]);
        assert(head + Seq::<char>::empty() =~= head);
    } else {
        let front = s.drop_last();
        lemma_replace_front(front, c, with);
        assert(front.drop_first() =~= s.drop_first().drop_last());
        let mid = chars::replace_char(s.drop_first().drop_last(), c, with);
        assert(s.drop_first().last() == s.last());
        if s.last() == c {
            assert(head + mid + with =~= head + (mid + with));
        } else {
            assert((head + mid).push(s.last()) =~= head + mid.push(s.last()));
        }
    }
}

proof fn lemma_quoted_body(s: Seq<char>)
    ensures
        shell_word(chars::replace_char(s, '\'', "'\\''"@) + "'"@, true) == Some(s),
    decreases s.len(),
{
    reveal_strlit("'\\''");
    reveal_strlit("'");
    let close = "'"@;
    let esc = "'\\''"@;
    if s.len() == 0 {
        assert(chars::replace_char(s, '\'', esc) + close =~= close);
        assert(close.drop_first() =~= Seq::<char>::empty());
        assert(s =~= Seq::<char>::empty());
        assert(shell_word(close.drop_first(), false) == Some(Seq::<char>::empty()));
    } else {
        lemma_replace_front(s, '\'', esc);
        lemma_quoted_body(s.drop_first());
        let body = chars::replace_char(s.drop_first(), '\'', esc);
        assert(s =~= seq![s[0]] + s.drop_first());
        if s[0] == '\'' {
            let t0 = esc + body + close;
            assert(chars::replace_char(s, '\'', esc) + close =~= t0);
            let t1 = t0.drop_first();
            assert(t1.len() > 1 && t1[0] == '\\' && t1[1] == '\'');
            let t2 = t1.skip(2);
            assert(t2[0] == '\'');
            let t3 = t2.drop_first();
            assert(t3 =~= body + close);
            assert(shell_word(t2, false) == Some(s.drop_first()));
            assert(shell_word(t1, false) == Some(seq!['\''] + s.drop_first()));
            assert(shell_word(t0, true) == shell_word(t1, false));
        } else {
            let t0 = seq![s[0]] + body + close;
            assert(chars::replace_char(s, '\'', esc) + close =~= t0);
            assert(t0.drop_first() =~= body + close);
        }
    }
}

/// A shell reads what is quoted as the one word that was to be said, whatever it holds.
pub proof fn law_quoting_is_read_back(s: Seq<char>)
    ensures
        shell_word(quoted(s), false) == Some(s),
{
    reveal_strlit("'");
    lemma_quoted_body(s);
    let body = chars::replace_char(s, '\'', "'\\''"@) + "'"@;
    assert(quoted(s) =~= "'"@ + body);
    assert(quoted(s).drop_first() =~= body);
}

/// A machine and how it is reached.
#[derive(Debug)]
pub struct SshTransport {
    pub env_id: String,
    pub host: String,
    pub port: u16,
    pub user: String,
    pub auth: SshAuth,
    /// The secret itself, for a machine that is not saved yet.
    pub secret_override: Option<String>,
    /// The credential whose secret is used; without it, the secret of the environment.
    pub cred_id: Option<String>,
}

impl SshTransport {
    pub open spec fn reaches(
        &self,
        env_id: Seq<char>,
        host: Seq<char>,
        port: u16,
        user: Seq<char>,
        auth: AuthModel,
    ) -> bool {
        &&& self.env_id@ == env_id
        &&& self.host@ == host
        &&& self.port == port
        &&& self.user@ == user
        &&& self.auth@ == auth
    }

    pub fn new(env_id: &str, host: &str, port: u16, user: &str, auth: SshAuth) -> (r: Self)
        ensures
            r.reaches(env_id@, host@, port, user@, auth@),
            r.secret_override is None,
            r.cred_id is None,
    {
        SshTransport {
            env_id: text::owned(env_id),
            host: text::owned(host),
            port,
            user: text::owned(user),
            auth,
            secret_override: None,
            cred_id: None,
        }
    }

    pub fn with_secret(
        env_id: &str,
        host: &str,
        port: u16,
        user: &str,
        auth: SshAuth,
        secret: Option<String>,
    ) -> (r: Self)
        ensures
            r.reaches(env_id@, host@, port, user@, auth@),
            r.secret_override == secret,
            r.cred_id is None,
    {
        let mut t = SshTransport::new(env_id, host, port, user, auth);
        t.secret_override = secret;
        t
    }

    pub fn with_cred(
        env_id: &str,
        host: &str,
        port: u16,
        user: &str,
        auth: SshAuth,
        cred_id: &str,
    ) -> (r: Self)
        ensures
            r.reaches(env_id@, host@, port, user@, auth@),
            r.secret_override is None,
            r.cred_id.deep_view() == Some(cred_id@),
    {
        let mut t = SshTransport::new(env_id, host, port, user, auth);
        t.cred_id = Some(text::owned(cred_id));
        t
    }

    pub fn cred_id_as_ref(&self) -> (r: Option<&str>)
        ensures
            r.deep_view() == self.cred_id.deep_view(),
    {
        text::as_deref(&self.cred_id)
    }

    /// What is said where the machine cannot be reached.
    pub fn connect_error(&self, e: &str) -> (r: String)
        ensures
            r@ == "ssh connect to "@ + self.host@ + ":"@ + chars::dec(self.port as nat)
                + " failed: "@ + e@,
    {
        let mut m = text::owned("ssh connect to ");
        m.append(self.host.as_str());
        m.append(":");
        m.append(text::dec(self.port as u64).as_str());
        m.append(" failed: ");
        m.append(e);
        m
    }

    /// What is said where the machine refuses the user.
    pub fn auth_error(&self) -> (r: String)
        ensures
            r@ == "SSH authentication failed for "@ + self.user@ + "@"@ + self.host@,
    {
        let mut m = text::owned("SSH authentication failed for ");
        m.append(self.user.as_str());
        m.append("@");
        m.append(self.host.as_str());
        m
    }

    /// Whether the key chain has to be read: only where no secret is at hand.
    pub fn needs_keychain(&self) -> (r: bool)
        ensures
            r == !has_secret_at_hand(self.secret_override.deep_view()),
    {
        match &self.secret_override {
            Some(s) => s.as_str().is_empty(),
            None => true,
        }
    }

    /// The secret to authenticate with, out of the one at hand and the one in the key
    /// chain. A password has to be there; a key may do without a passphrase.
    pub fn auth_secret(&self, keychain: Option<String>) -> (r: Result<Option<String>, String>)
        ensures
            ({
                let s = chosen_secret(self.secret_override.deep_view(), keychain.deep_view());
                if self.auth is Password && s is None {
                    r is Err && r->Err_0@ == "password not found in keychain"@
                } else {
                    r is Ok && r->Ok_0.deep_view() == s
                }
            }),
    {
        let secret = effective_secret(&self.secret_override, keychain);
        match &self.auth {
            SshAuth::Password => match secret {
                Some(s) => Ok(Some(s)),
                None => Err(text::owned("password not found in keychain")),
            },
            SshAuth::PrivateKey { .. } => Ok(secret),
        }
    }
}

/// There is a secret at hand, and it is not empty.
pub open spec fn has_secret_at_hand(at_hand: Option<Seq<char>>) -> bool {
    at_hand is Some && at_hand->0.len() > 0
}

/// The secret at hand, unless it is empty; else the one in the key chain.
pub open spec fn chosen_secret(
    at_hand: Option<Seq<char>>,
    keychain: Option<Seq<char>>,
) -> Option<Seq<char>> {
    if has_secret_at_hand(at_hand) {
        at_hand
    } else {
        keychain
    }
}

pub fn effective_secret(secret_override: &Option<String>, keychain: Option<String>) -> (r: Option<
    String,
>)
    ensures
        r.deep_view() == chosen_secret(secret_override.deep_view(), keychain.deep_view()),
{
    match secret_override {
        Some(s) if !s.as_str().is_empty() => Some(s.clone()),
        _ => keychain,
    }
}

/// Where a secret is at hand, what the key chain holds makes no difference: it need not be
/// read.
pub proof fn law_secret_at_hand_suffices(
    at_hand: Option<Seq<char>>,
    a: Option<Seq<char>>,
    b: Option<Seq<char>>,
)
    requires
        has_secret_at_hand(at_hand),
    ensures
        chosen_secret(at_hand, a) == at_hand,
        chosen_secret(at_hand, a) == chosen_secret(at_hand, b),
{
}

/// The passphrase of a key; an empty one is none.
pub fn key_passphrase<'a>(passphrase: Option<&'a str>) -> (r: Option<&'a str>)
    ensures
        r.deep_view() == (if passphrase is Some && passphrase->0@.len() > 0 {
            passphrase.deep_view()
        } else {
            None
        }),
{
    match passphrase {
        Some(p) if !p.is_empty() => Some(p),
        _ => None,
    }
}

/// What is said where a key is missing or cannot be read.
pub fn load_key_pair(path: &str, present: bool, failure: Option<&str>) -> (r: Result<(), String>)
    ensures
        if !present {
            r is Err && r->Err_0@ == "private key not found: "@ + path@
        } else {
            match failure {
                Some(e) => r is Err && r->Err_0@ == "failed to load private key "@ + path@ + ": "@
                    + e@,
                None => r is Ok,
            }
        },
{
    if !present {
        let mut m = text::owned("private key not found: ");
        m.append(path);
        return Err(m);
    }
    match failure {
        Some(e) => {
            let mut m = text::owned("failed to load private key ");
            m.append(path);
            m.append(": ");
            m.append(e);
            Err(m)
        },
        None => Ok(()),
    }
}

/// Whether a command is to be run again over a new connection: it failed, or the channel
/// closed without telling an exit code.
pub fn should_reconnect(exit_code: i32, exec_err: Option<&str>) -> (r: bool)
    ensures
        r == (exec_err is Some || exit_code == NO_EXIT_CODE),
{
    exec_err.is_some() || exit_code == NO_EXIT_CODE
}

/// Whether a download can go on where it stopped: the local file has to be as long as what
/// was transferred.
pub fn verify_resume_offset(actual_len: u64, offset: u64) -> (r: Result<(), String>)
    ensures
        if actual_len == offset {
            r is Ok
        } else {
            r is Err && r->Err_0@ == "resume offset mismatch: local file has "@ + chars::dec(
                actual_len as nat,
            ) + " bytes but offset is "@ + chars::dec(offset as nat)
        },
{
    if actual_len == offset {
        return Ok(());
    }
    let mut m = text::owned("resume offset mismatch: local file has ");
    m.append(text::dec(actual_len).as_str());
    m.append(" bytes but offset is ");
    m.append(text::dec(offset).as_str());
    Err(m)
}

/// What is said where reading or writing on the other machine fails.
pub fn remote_io_err(op: &str, e: &str) -> (r: String)
    ensures
        r@ == "远端 I/O 失败（"@ + op@ + "）: "@ + e@,
{
    let mut m = text::owned("远端 I/O 失败（");
    m.append(op);
    m.append("）: ");
    m.append(e);
    m
}

/// What to do about a command next.
#[derive(Debug)]
pub enum RunStep {
    /// It is done.
    Return(ExecOutput),
    /// Connect anew and run it again.
    Reconnect,
    /// It failed.
    Fail(String),
}

/// The command came to an exit code.
pub open spec fn completed(result: Result<ExecOutput, String>) -> bool {
    result is Ok && result->Ok_0.exit_code != NO_EXIT_CODE
}

/// Decides after a command was run, for the first time or again.
pub fn after_exec(result: Result<ExecOutput, String>, retried: bool) -> (r: RunStep)
    ensures
        if completed(result) {
            r matches RunStep::Return(o) && o == result->Ok_0
        } else if !retried {
            r is Reconnect
        } else {
            match result {
                Ok(_) => r matches RunStep::Fail(m) && m@
                    == "ssh channel closed without exit status (connection dropped)"@,
                Err(e) => r matches RunStep::Fail(m) && m@
                    == "ssh command failed after reconnect: "@ + e@,
            }
        },
{
    match result {
        Ok(output) => {
            if !should_reconnect(output.exit_code, None) {
                RunStep::Return(output)
            } else if retried {
                RunStep::Fail(
                    text::owned("ssh channel closed without exit status (connection dropped)"),
                )
            } else {
                RunStep::Reconnect
            }
        },
        Err(e) => {
            if retried {
                let mut m = text::owned("ssh command failed after reconnect: ");
                m.append(e.as_str());
                RunStep::Fail(m)
            } else {
                RunStep::Reconnect
            }
        },
    }
}

/// What is said where a command is to run without a connection.
pub const NOT_CONNECTED: &'static str = "ssh not connected (call connect first)";

/// What is said where connecting anew fails.
pub fn reconnect_error(e: &str) -> (r: String)
    ensures
        r@ == "ssh reconnect failed: "@ + e@,
{
    let mut m = text::owned("ssh reconnect failed: ");
    m.append(e);
    m
}

/// How many seconds a request of a file transfer may take: over a slow line a single write
/// takes long.
pub const SFTP_REQUEST_TIMEOUT_SECS: u64 = 600;

/// How many writes of a file transfer are on their way at once.
pub const SFTP_CONCURRENT_WRITES: usize = 16;

/// How often it is tried to connect.
pub const CONNECT_ATTEMPTS: u32 = 3;

/// What to do about connecting next.
#[derive(Debug)]
pub enum ConnectStep {
    Connected,
    /// Try again after so many seconds.
    RetryAfter(u64),
    Fail(String),
}

/// Decides after attempt number `attempt`, counted from 0: each pause is a second longer
/// than the one before.
pub fn after_connect(attempt: u32, result: Result<(), String>) -> (r: ConnectStep)
    requires
        attempt < CONNECT_ATTEMPTS,
    ensures
        match result {
            Ok(_) => r is Connected,
            Err(e) => if attempt + 1 < CONNECT_ATTEMPTS {
                r == ConnectStep::RetryAfter((attempt + 1) as u64)
            } else {
                r == ConnectStep::Fail(e)
            },
        },
{
    match result {
        Ok(()) => ConnectStep::Connected,
        Err(e) => {
            if attempt + 1 < CONNECT_ATTEMPTS {
                ConnectStep::RetryAfter((attempt + 1) as u64)
            } else {
                ConnectStep::Fail(e)
            }
        },
    }
}

/// A download: how much was transferred, and how much when that was last told.
#[derive(Clone, Copy, Debug, PartialEq, Eq, Structural)]
pub struct Download {
    pub offset: u64,
    pub transferred: u64,
    pub last_told: u64,
}

impl Download {
    pub open spec fn wf(&self) -> bool {
        self.offset <= self.last_told <= self.transferred
    }

    /// Begins at the offset; behind one that is not the start, the local file has to be
    /// exactly as long. `local_len` is 0 for a file that is not there.
    pub fn begin(offset: u64, local_len: u64) -> (r: Result<Self, String>)
        ensures
            if offset == 0 || local_len == offset {
                r is Ok && r->Ok_0.wf() && r->Ok_0 == (Download {
                    offset,
                    transferred: offset,
                    last_told: offset,
                })
            } else {
                r is Err && r->Err_0@ == "resume offset mismatch: local file has "@ + chars::dec(
                    local_len as nat,
                ) + " bytes but offset is "@ + chars::dec(offset as nat)
            },
    {
        if offset > 0 {
            match verify_resume_offset(local_len, offset) {
                Ok(()) => {},
                Err(m) => return Err(m),
            }
        }
        Ok(Download { offset, transferred: offset, last_told: offset })
    }

    /// The download appends to the local file instead of making a new one.
    pub fn appends(&self) -> (r: bool)
        ensures
            r == (self.offset > 0),
    {
        self.offset > 0
    }

    /// Takes `n` bytes in. Where a second has passed since progress was last told, tells how
    /// much was transferred in all and since then.
    pub fn take(&mut self, n: u64, second_passed: bool) -> (r: Option<(u64, u64)>)
        requires
            old(self).wf(),
            old(self).transferred + n <= u64::MAX,
        ensures
            final(self).wf(),
            final(self).offset == old(self).offset,
            final(self).transferred == old(self).transferred + n,
            if second_passed {
                &&& r == Some(
                    (
                        final(self).transferred,
                        (final(self).transferred - old(self).last_told) as u64,
                    ),
                )
                &&& final(self).last_told == final(self).transferred
            } else {
                r is None && final(self).last_told == old(self).last_told
            },
    {
        self.transferred = self.transferred + n;
        if second_passed {
            let since: u64 = self.transferred - self.last_told;
            self.last_told = self.transferred;
            Some((self.transferred, since))
        } else {
            None
        }
    }

    /// How many bytes this download has brought.
    pub fn brought(&self) -> (r: u64)
        requires
            self.wf(),
        ensures
            r == self.transferred - self.offset,
    {
        self.transferred - self.offset
    }
}

} // verus!
