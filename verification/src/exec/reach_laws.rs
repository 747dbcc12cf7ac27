//! What commands, connections and tunnels come to.

use crate::chars;
use crate::exec::channel::{after_message, ChannelMessage, CommandModel, ExecOutput};
use crate::exec::pool::{
    channel_of, connection_of, first_of, is_idle, is_transport, one_each, pool_error_text,
    transport_error, used, with_connection, ConnectionModel, EnvironmentInfo, PoolError,
};
use crate::exec::reaching::{
    channel_begins, channel_goes_on, is_lookup_error, tunnel_begins, tunnel_goes_on, ChannelAction,
    ChannelOpening, ReachEvent, ReachStage, TunnelAction, TunnelOpening,
};
use crate::exec::ssh::{
    auth_of_row, chosen_secret, completed, law_quoting_is_read_back, quoted, shell_word, AuthModel,
    SshTransport,
};
use crate::exec::ssh_run::{begun, failure, next, RunActionModel, RunEvent, RunModel, RunStage};
use crate::exec::tunnel::{
    entry_of, key_of, proper, released, settled, tunnel_error_text, EntryModel, TunnelError,
};
use vstd::prelude::*;

verus! {

/// What arrives is kept on the stream that it belongs to, behind what was there; the exit
/// status is the one told last. After a signal nothing counts any more.
pub proof fn law_message_goes_to_its_stream(c: CommandModel, d: Vec<u8>, s: u32)
    requires
        !c.ended,
    ensures
        after_message(c, ChannelMessage::Data(d)) == (CommandModel { stdout: c.stdout + d@, ..c }),
        after_message(c, ChannelMessage::ErrorData(d)) == (CommandModel {
            stderr: c.stderr + d@,
            ..c
        }),
        s <= i32::MAX ==> after_message(c, ChannelMessage::ExitStatus(s)).exit_code == s,
        after_message(c, ChannelMessage::ExitStatus(s)).stdout == c.stdout,
        after_message(c, ChannelMessage::ExitStatus(s)).stderr == c.stderr,
        !after_message(c, ChannelMessage::ExitStatus(s)).ended,
        after_message(c, ChannelMessage::Other) == c,
        after_message(c, ChannelMessage::ExitSignal) == (CommandModel { ended: true, ..c }),
        forall|m: ChannelMessage|
            #![trigger after_message(after_message(c, ChannelMessage::ExitSignal), m)]
            after_message(after_message(c, ChannelMessage::ExitSignal), m) == after_message(
                c,
                ChannelMessage::ExitSignal,
            ),
{
}

/// A row names a way to authenticate just where it is a password, or a private key with a
/// path.
pub proof fn law_ways_to_authenticate(auth_type: Seq<char>, path: Option<Seq<char>>)
    ensures
        auth_of_row(auth_type, path) is Some <==> auth_type == "password"@ || (auth_type
            == "private_key"@ && path is Some),
        auth_of_row("password"@, path) == Some(AuthModel::Password),
        path is Some ==> auth_of_row("private_key"@, path) == Some(
            AuthModel::PrivateKey { key_path: path->0 },
        ),
{
    reveal_strlit("password");
    reveal_strlit("private_key");
    assert("password"@.len() != "private_key"@.len());
}

/// Without a secret at hand, or with an empty one, the one in the key chain counts.
pub proof fn law_key_chain_is_second(s: Seq<char>, keychain: Option<Seq<char>>)
    ensures
        chosen_secret(None, keychain) == keychain,
        s.len() == 0 ==> chosen_secret(Some(s), keychain) == keychain,
        s.len() > 0 ==> chosen_secret(Some(s), keychain) == Some(s),
{
}

/// A command is run in a login shell, which reads it as the one word that it is; without a
/// connection it is not run.
pub proof fn law_command_reaches_the_shell(command: Seq<char>)
    ensures
        ({
            let (m, a) = begun(command, true);
            &&& a matches RunActionModel::Exec(w) && w == m.command && chars::starts_with(
                w,
                "bash -lc "@,
            ) && shell_word(w.subrange("bash -lc "@.len() as int, w.len() as int), false) == Some(
                command,
            )
            &&& m.stage == RunStage::Executing
            &&& !m.retried
        }),
        begun(command, false).1 is Fail,
        begun(command, false).0.stage == RunStage::Over,
{
    let w = "bash -lc "@ + quoted(command);
    law_quoting_is_read_back(command);
    assert(w.subrange(0, "bash -lc "@.len() as int) =~= "bash -lc "@);
    assert(w.subrange("bash -lc "@.len() as int, w.len() as int) =~= quoted(command));
}

/// A command completed just where it told an exit code, whatever that is.
pub proof fn law_exit_code_completes(o: ExecOutput, e: String)
    ensures
        completed(Ok(o)) <==> o.exit_code != -1,
        !completed(Err(e)),
        chars::ends_with(failure(Err(e)), e@),
{
    let t = "ssh command failed after reconnect: "@ + e@;
    assert(t.subrange(t.len() - e@.len(), t.len() as int) =~= e@);
}

proof fn lemma_connection_of(s: Seq<ConnectionModel>, id: Seq<char>, i: int)
    requires
        0 <= i,
    ensures
        match connection_of(s, id, i) {
            Some(k) => i <= k < s.len() && s[k].environment_id == id,
            None => forall|k: int| i <= k < s.len() ==> (#[trigger] s[k]).environment_id != id,
        },
    decreases s.len() - i,
{
    if i < s.len() && s[i].environment_id != id {
        lemma_connection_of(s, id, i + 1);
    }
}

/// A connection is idle once it was not used for longer than the timeout.
pub proof fn law_idle_is_longer_than_the_timeout(c: ConnectionModel, now_ms: u64, timeout: u64)
    ensures
        is_idle(c, now_ms, timeout) <==> c.last_used_ms + timeout < now_ms,
        used(c, now_ms).last_used_ms == now_ms,
        used(c, now_ms).channel == c.channel,
        used(c, now_ms).environment_id == c.environment_id,
{
}

/// A new connection takes the place of the former one of its environment, and of no other.
pub proof fn law_connection_takes_its_place(
    s: Seq<ConnectionModel>,
    c: ConnectionModel,
    k: int,
)
    requires
        0 <= k < s.len(),
        one_each(s),
    ensures
        one_each(with_connection(s, c)),
        s[k].environment_id != c.environment_id ==> with_connection(s, c)[k] == s[k],
        s[k].environment_id == c.environment_id ==> with_connection(s, c)[k] == c
            && with_connection(s, c).len() == s.len(),
        (forall|j: int| 0 <= j < s.len() ==> (#[trigger] s[j]).environment_id != c.environment_id)
            ==> with_connection(s, c) == s.push(c),
{
    lemma_connection_of(s, c.environment_id, 0);
    let t = with_connection(s, c);
    assert forall|i: int, j: int| 0 <= i < j < t.len() implies (#[trigger] t[i]).environment_id != (
    #[trigger] t[j]).environment_id by {
        if j < s.len() {
            assert(s[i].environment_id != s[j].environment_id);
        }
    }
}

/// An environment is reached just where it is one for SSH and names a way to authenticate; it
/// is a private key where it does not say.
pub proof fn law_environments_that_are_reached(id: Seq<char>, env: EnvironmentInfo)
    ensures
        transport_error(id, env) is None <==> env.transport_type@ == "ssh"@ && (match env.auth_type {
            Some(a) => a@ == "password"@ || (a@ == "private_key"@ && env.private_key_path is Some),
            None => env.private_key_path is Some,
        }),
        env.transport_type@ != "ssh"@ ==> transport_error(id, env) == Some(env.transport_type@),
{
    reveal_strlit("password");
    reveal_strlit("private_key");
    assert("password"@.len() != "private_key"@.len());
}

/// An environment is reached as its tables say, at port 22 where they do not say which, with
/// the secret of its default credential.
pub proof fn law_environment_is_reached_as_known(
    t: SshTransport,
    id: Seq<char>,
    env: EnvironmentInfo,
)
    requires
        is_transport(t, id, env),
        transport_error(id, env) is None,
    ensures
        t.env_id@ == id,
        env.host is Some ==> t.host@ == env.host->0@,
        env.user is Some ==> t.user@ == env.user->0@,
        env.port is Some ==> t.port == env.port->0,
        env.port is None ==> t.port == 22,
        env.auth_type is Some && env.auth_type->0@ == "password"@ ==> t.auth@ is Password,
        (env.auth_type is None || env.auth_type->0@ == "private_key"@) ==> t.auth@ == (
        AuthModel::PrivateKey { key_path: env.private_key_path->0@ }),
        t.secret_override is None,
        t.cred_id.deep_view() == env.default_cred_id.deep_view(),
{
    reveal_strlit("password");
    reveal_strlit("private_key");
    assert("password"@.len() != "private_key"@.len());
}

/// The first of two that is there.
pub proof fn law_first_that_is_there(a: Seq<char>, b: Option<Seq<char>>)
    ensures
        first_of(Some(a), b) == Some(a),
        first_of(None, b) == b,
{
}

/// Getting a connection goes on by what was found out: an environment that is known and can
/// be reached is connected to, a connection that was made is kept, and all that fails ends
/// it with why it failed.
pub proof fn law_connection_is_made_step_by_step(
    env_id: Seq<char>,
    stage: ReachStage,
    s: Seq<ConnectionModel>,
    e: ReachEvent,
    channel: u64,
    now_ms: u64,
    next: ReachStage,
    t: Seq<ConnectionModel>,
    a: ChannelAction,
)
    requires
        channel_goes_on(env_id, stage, s, e, channel, now_ms, next, t, a),
    ensures
        a is Connect <==> stage == ReachStage::LookUp && e is Environment && e->Environment_0 is Ok
            && transport_error(env_id, e->Environment_0->Ok_0) is None,
        a is Opened <==> stage == ReachStage::Connect && e is Connected && e->Connected_0 is Ok,
        a is Connect ==> next == ReachStage::Connect,
        a is Opened || a is Fail ==> next == ReachStage::Over,
        stage == ReachStage::Connect && e is Connected && e->Connected_0 is Err ==> a
            == ChannelAction::Fail(PoolError::Connection(e->Connected_0->Err_0)),
        stage == ReachStage::LookUp && e is Environment && e->Environment_0 is Err ==> a
            == ChannelAction::Fail(e->Environment_0->Err_0),
        stage == ReachStage::Over ==> a is Ignore && next == ReachStage::Over,
{
}

/// So does opening a tunnel; it listens once it is connected, and is open once it listens.
pub proof fn law_tunnel_is_made_step_by_step(
    o: TunnelOpening,
    s: Seq<EntryModel>,
    e: ReachEvent,
    transport: u64,
    next: ReachStage,
    t: Seq<EntryModel>,
    a: TunnelAction,
)
    requires
        tunnel_goes_on(o, s, e, transport, next, t, a),
    ensures
        a is Connect <==> o.stage == ReachStage::LookUp && e is Environment && e->Environment_0
            is Ok && transport_error(o.env_id@, e->Environment_0->Ok_0) is None,
        a is Listen <==> o.stage == ReachStage::Connect && e is Connected && e->Connected_0 is Ok,
        a is Opened <==> o.stage == ReachStage::Listen && e is Listening && e->Listening_0 is Ok,
        a is Listen ==> next == ReachStage::Listen,
        a matches TunnelAction::Opened { lease, discard } ==> lease.env_id@ == o.env_id@
            && lease.remote_host@ == o.remote_host@ && lease.remote_port == o.remote_port && (
        discard <==> entry_of(s, o.key(), 0) is Some) && (!discard ==> lease.local_port
            == e->Listening_0->Ok_0),
        o.stage == ReachStage::Connect && e is Connected && e->Connected_0 is Err ==> a
            == TunnelAction::Fail(TunnelError::Connection(e->Connected_0->Err_0)),
        o.stage == ReachStage::Listen && e is Listening && e->Listening_0 is Err ==> a
            == TunnelAction::Fail(TunnelError::Listen(e->Listening_0->Err_0)),
        o.stage == ReachStage::Over ==> a is Ignore,
{
}

proof fn lemma_entry(s: Seq<EntryModel>, key: Seq<char>, i: int)
    requires
        0 <= i,
    ensures
        match entry_of(s, key, i) {
            Some(k) => i <= k < s.len() && s[k].key == key,
            None => forall|k: int| i <= k < s.len() ==> (#[trigger] s[k]).key != key,
        },
    decreases s.len() - i,
{
    if i < s.len() && s[i].key != key {
        lemma_entry(s, key, i + 1);
    }
}

/// One user more, or less, changes the count of the tunnel and nothing else; the last one who
/// leaves takes it away. A tunnel that is made has one user.
pub proof fn law_users_are_counted(
    s: Seq<EntryModel>,
    key: Seq<char>,
    port: u16,
    transport: u64,
    k: int,
)
    requires
        proper(s),
        0 <= k < s.len(),
    ensures
        s[k].key == key && s[k].refs < u32::MAX ==> settled(s, key, port, transport) == s.update(
            k,
            EntryModel { refs: (s[k].refs + 1) as u32, ..s[k] },
        ),
        s[k].key == key && s[k].refs > 1 ==> released(s, key) == s.update(
            k,
            EntryModel { refs: (s[k].refs - 1) as u32, ..s[k] },
        ),
        s[k].key == key && s[k].refs == 1 ==> released(s, key) == s.remove(k),
        (forall|j: int| 0 <= j < s.len() ==> (#[trigger] s[j]).key != key) ==> released(s, key) == s
            && settled(s, key, port, transport) == s.push(
            EntryModel { key, local_port: port, transport, refs: 1 },
        ),
        s[k].key != key ==> settled(s, key, port, transport)[k] == s[k],
{
    lemma_entry(s, key, 0);
    match entry_of(s, key, 0) {
        Some(i) => {
            if s[k].key == key && i != k {
                if i < k {
                    assert(s[i].key != s[k].key);
                } else {
                    assert(s[k].key != s[i].key);
                }
            }
        },
        None => {},
    }
}

/// Tunnels of different environments, hosts or ports have different names.
pub proof fn law_names_of_tunnels(
    a: Seq<char>,
    h: Seq<char>,
    p: u16,
    b: Seq<char>,
    g: Seq<char>,
    q: u16,
)
    requires
        !a.contains('/') && !b.contains('/'),
        !h.contains('/') && !g.contains('/'),
        key_of(a, h, p) == key_of(b, g, q),
    ensures
        a == b,
        h == g,
        p == q,
{
    reveal_strlit("/");
    let dp = chars::dec(p as nat);
    let dq = chars::dec(q as nat);
    let x = key_of(a, h, p);
    let y = key_of(b, g, q);
    assert(x =~= a.push('/') + (h.push('/') + dp));
    assert(y =~= b.push('/') + (g.push('/') + dq));
    lemma_first_cut(a, h.push('/') + dp, b, g.push('/') + dq);
    lemma_first_cut(h, dp, g, dq);
    crate::chars_laws::law_notation_is_read_back(p as nat, u16::MAX as nat);
    crate::chars_laws::law_notation_is_read_back(q as nat, u16::MAX as nat);
}

proof fn lemma_first_cut(a: Seq<char>, x: Seq<char>, b: Seq<char>, y: Seq<char>)
    requires
        !a.contains('/'),
        !b.contains('/'),
        a.push('/') + x == b.push('/') + y,
    ensures
        a == b,
        x == y,
{
    let s = a.push('/') + x;
    let t = b.push('/') + y;
    if a.len() < b.len() {
        assert(t[a.len() as int] == b[a.len() as int]);
        assert(s[a.len() as int] == '/');
        assert(b.contains('/'));
    }
    if b.len() < a.len() {
        assert(s[b.len() as int] == a[b.len() as int]);
        assert(t[b.len() as int] == '/');
        assert(a.contains('/'));
    }
    assert forall|i: int| 0 <= i < a.len() implies a[i] == b[i] by {
        assert(s[i] == a[i]);
        assert(t[i] == b[i]);
    }
    assert(a =~= b);
    assert(s.len() == a.len() + 1 + x.len());
    assert(t.len() == b.len() + 1 + y.len());
    assert forall|i: int| 0 <= i < x.len() implies x[i] == y[i] by {
        assert(s[a.len() + 1 + i] == x[i]);
        assert(t[a.len() + 1 + i] == y[i]);
    }
    assert(x =~= y);
}

/// A connection that is there is used, and noted as used; where there is none, the environment
/// is looked up first.
pub proof fn law_connection_that_is_there_is_used(
    s: Seq<ConnectionModel>,
    env_id: Seq<char>,
    now_ms: u64,
    o: ChannelOpening,
    t: Seq<ConnectionModel>,
    a: ChannelAction,
)
    requires
        channel_begins(s, env_id, now_ms, o, t, a),
        one_each(s),
    ensures
        a is LookUp <==> forall|k: int|
            0 <= k < s.len() ==> (#[trigger] s[k]).environment_id != env_id,
        a is LookUp ==> t == s && o.stage == ReachStage::LookUp,
        forall|k: int|
            #![trigger s[k]]
            0 <= k < s.len() && s[k].environment_id == env_id ==> a == ChannelAction::Reuse(
                s[k].channel,
            ) && t == s.update(k, ConnectionModel { last_used_ms: now_ms, ..s[k] }) && o.stage
                == ReachStage::Over,
{
    lemma_connection_of(s, env_id, 0);
    match connection_of(s, env_id, 0) {
        Some(i) => {
            assert forall|k: int| #![trigger s[k]] 0 <= k < s.len() && s[k].environment_id
                == env_id implies a == ChannelAction::Reuse(s[k].channel) && t == s.update(
                k,
                ConnectionModel { last_used_ms: now_ms, ..s[k] },
            ) && o.stage == ReachStage::Over by {
                if i < k {
                    assert(s[i].environment_id != s[k].environment_id);
                }
                if k < i {
                    assert(s[k].environment_id != s[i].environment_id);
                }
            }
            assert(s[i].environment_id == env_id);
        },
        None => {},
    }
}

/// A tunnel that is there is used once more, at its own port; where there is none, the
/// environment is looked up first.
pub proof fn law_tunnel_that_is_there_is_used(
    s: Seq<EntryModel>,
    o: TunnelOpening,
    t: Seq<EntryModel>,
    a: TunnelAction,
)
    requires
        tunnel_begins(s, o, t, a),
    ensures
        a is LookUp <==> forall|k: int| 0 <= k < s.len() ==> (#[trigger] s[k]).key != o.key(),
        a is LookUp ==> t == s && o.stage == ReachStage::LookUp,
        a is Opened <==> !(a is LookUp),
        a matches TunnelAction::Opened { lease, discard } ==> {
            &&& !discard
            &&& o.stage == ReachStage::Over
            &&& lease.env_id@ == o.env_id@
            &&& lease.remote_host@ == o.remote_host@
            &&& lease.remote_port == o.remote_port
            &&& entry_of(s, o.key(), 0) is Some
            &&& lease.local_port == s[entry_of(s, o.key(), 0)->0].local_port
            &&& t == settled(s, o.key(), lease.local_port, 0)
        },
{
    lemma_entry(s, o.key(), 0);
    match entry_of(s, o.key(), 0) {
        Some(i) => {
            assert(s[i].key == o.key());
        },
        None => {},
    }
}

/// An environment that is not there is told as such, all else as trouble with the tables; the
/// words are those of the pool.
pub proof fn law_lookup_error_keeps_the_words(err: TunnelError, e: PoolError)
    requires
        is_lookup_error(err, e),
    ensures
        err is EnvironmentNotFound <==> e is EnvironmentNotFound,
        err is Db <==> !(e is EnvironmentNotFound),
        chars::ends_with(tunnel_error_text(err), pool_error_text(e)),
{
    let m = pool_error_text(e);
    let a = "environment not found: "@ + m;
    let b = "database error: "@ + m;
    assert(a.subrange(a.len() - m.len(), a.len() as int) =~= m);
    assert(b.subrange(b.len() - m.len(), b.len() as int) =~= m);
}

/// An error ends with the words that came with it.
pub proof fn law_error_keeps_its_words(m: String)
    ensures
        chars::ends_with(pool_error_text(PoolError::Connection(m)), m@),
        chars::ends_with(pool_error_text(PoolError::TransportNotImplemented(m)), m@),
        pool_error_text(PoolError::EnvironmentNotFound { env_id: m }) == "environment "@ + m@
            + " not found"@,
        chars::ends_with(tunnel_error_text(TunnelError::Connection(m)), m@),
        chars::ends_with(tunnel_error_text(TunnelError::Config(m)), m@),
        chars::ends_with(tunnel_error_text(TunnelError::Listen(m)), m@),
{
    let w = m@;
    let a = "connection error: "@ + w;
    let b = "transport not implemented: "@ + w;
    let c = "ssh connection failed: "@ + w;
    let d = "invalid transport config: "@ + w;
    let e = "local listen failed: "@ + w;
    assert(a.subrange(a.len() - w.len(), a.len() as int) =~= w);
    assert(b.subrange(b.len() - w.len(), b.len() as int) =~= w);
    assert(c.subrange(c.len() - w.len(), c.len() as int) =~= w);
    assert(d.subrange(d.len() - w.len(), d.len() as int) =~= w);
    assert(e.subrange(e.len() - w.len(), e.len() as int) =~= w);
}

/// A command that was carried out ends the run with what it came to. One that was not is tried
/// once more over a new connection; the second time it fails. The same command is run again.
pub proof fn law_command_is_tried_once_more(m: RunModel, e: RunEvent)
    ensures
        ({
            let (n, action) = next(m, e);
            &&& n.command == m.command
            &&& m.stage == RunStage::Executing ==> match e {
                RunEvent::Executed(r) => if completed(r) {
                    action == RunActionModel::Return(r->Ok_0) && n.stage == RunStage::Over
                } else if m.retried {
                    action == RunActionModel::Fail(failure(r)) && n.stage == RunStage::Over
                } else {
                    action == RunActionModel::Reconnect && n.stage == RunStage::Reconnecting
                        && n.retried
                },
                RunEvent::Unconnected => action is Fail && n.stage == RunStage::Over
                    && !n.connected,
                _ => n == m,
            }
            &&& m.stage == RunStage::Reconnecting ==> match e {
                RunEvent::Reconnected(Ok(_)) => action == RunActionModel::Exec(m.command) && n.stage
                    == RunStage::Executing && n.connected && n.retried == m.retried,
                RunEvent::Reconnected(Err(why)) => action == RunActionModel::Fail(
                    "ssh reconnect failed: "@ + why@,
                ) && n.stage == RunStage::Over && !n.connected,
                _ => n == m,
            }
            &&& m.stage == RunStage::Over ==> n == m && action is Ignore
        }),
{
}

/// Why an environment cannot be reached is said: the way that it names, or that what it says on
/// authentication is not enough; a tunnel to it fails for the same reason, in words.
pub proof fn law_reason_against_an_environment(
    o: TunnelOpening,
    s: Seq<EntryModel>,
    env: EnvironmentInfo,
    transport: u64,
    next: ReachStage,
    t: Seq<EntryModel>,
    a: TunnelAction,
)
    requires
        o.stage == ReachStage::LookUp,
        transport_error(o.env_id@, env) is Some,
        tunnel_goes_on(o, s, ReachEvent::Environment(Ok(env)), transport, next, t, a),
    ensures
        ({
            let why = if env.transport_type@ != "ssh"@ {
                env.transport_type@
            } else {
                "invalid auth config for environment "@ + o.env_id@
            };
            &&& transport_error(o.env_id@, env) == Some(why)
            &&& t == s && next == ReachStage::Over
            &&& a matches TunnelAction::Fail(TunnelError::Config(m)) && m@
                == "transport not implemented: "@ + why
        }),
{
}

/// The connection of an environment that was put into the pool is found by that environment,
/// first or not.
pub proof fn law_connection_is_found_again(s: Seq<ConnectionModel>, c: ConnectionModel)
    requires
        forall|i: int|
            0 <= i < s.len() ==> (#[trigger] s[i]).environment_id != c.environment_id,
    ensures
        channel_of(s.push(c), c.environment_id) == Some(c.channel),
        channel_of(seq![c] + s, c.environment_id) == Some(c.channel),
        channel_of(s, c.environment_id) is None,
{
    lemma_connection_found(s.push(c), c, 0, s.len() as int);
    lemma_connection_found(seq![c] + s, c, 0, 0);
    lemma_no_connection(s, c.environment_id, 0);
}

proof fn lemma_connection_found(s: Seq<ConnectionModel>, c: ConnectionModel, i: int, k: int)
    requires
        0 <= i <= k < s.len(),
        s[k] == c,
        forall|j: int| 0 <= j < k ==> (#[trigger] s[j]).environment_id != c.environment_id,
    ensures
        connection_of(s, c.environment_id, i) == Some(k),
    decreases k - i,
{
    if i < k {
        lemma_connection_found(s, c, i + 1, k);
    }
}

proof fn lemma_no_connection(s: Seq<ConnectionModel>, id: Seq<char>, i: int)
    requires
        0 <= i,
        forall|j: int| 0 <= j < s.len() ==> (#[trigger] s[j]).environment_id != id,
    ensures
        connection_of(s, id, i) is None,
    decreases s.len() - i,
{
    if i < s.len() {
        lemma_no_connection(s, id, i + 1);
    }
}

/// A connection opens where it was asked to: by the one that is there, or by finding out first
/// where the environment is.
pub proof fn law_opening_begins_with_what_is_there(
    s: Seq<ConnectionModel>,
    env_id: Seq<char>,
    now_ms: u64,
    o: ChannelOpening,
    t: Seq<ConnectionModel>,
    a: ChannelAction,
)
    requires
        channel_begins(s, env_id, now_ms, o, t, a),
    ensures
        o.env_id@ == env_id,
        channel_of(s, env_id) is Some ==> a == ChannelAction::Reuse(channel_of(s, env_id)->0)
            && o.stage == ReachStage::Over,
        channel_of(s, env_id) is None ==> a is LookUp && o.stage == ReachStage::LookUp && t == s,
{
}

/// A command begins where there is a connection, and has not been tried again; without one it
/// is over at once. Either way it is run in a login shell.
pub proof fn law_command_begins_once(command: Seq<char>, connected: bool)
    ensures
        ({
            let (m, action) = begun(command, connected);
            &&& !m.retried && m.connected == connected
            &&& chars::starts_with(m.command, "bash -lc "@)
            &&& connected ==> m.stage == RunStage::Executing && action == RunActionModel::Exec(
                m.command,
            )
            &&& !connected ==> m.stage == RunStage::Over && action is Fail
        }),
{
    let c = begun(command, connected).0.command;
    assert(c.subrange(0, "bash -lc "@.len() as int) =~= "bash -lc "@);
}

} // verus!
