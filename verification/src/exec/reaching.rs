//! Reaching an environment for the first time: a connection that is kept, or a tunnel.

use crate::exec::pool;
use crate::exec::pool::{
    is_transport, pool_error_text, transport_error, with_connection, ConnectionModel,
    EnvironmentInfo, ExecChannelPool, PoolError,
};
use crate::exec::ssh::SshTransport;
use crate::exec::tunnel;
use crate::exec::tunnel::{
    entry_of, key_of, reused, settled, EntryModel, TunnelError, TunnelLease, TunnelManager,
};
use crate::text;
use vstd::prelude::*;

verus! {

/// What reaching an environment waits for.
#[derive(Clone, Copy, Debug, PartialEq, Eq, Structural)]
pub enum ReachStage {
    LookUp,
    Connect,
    Listen,
    Over,
}

/// What was found out or done.
#[derive(Debug)]
pub enum ReachEvent {
    Environment(Result<EnvironmentInfo, PoolError>),
    Connected(Result<(), String>),
    /// A port was opened here, or could not be.
    Listening(Result<u16, String>),
}

/// A connection on its way into the pool.
#[derive(Debug)]
pub struct ChannelOpening {
    pub env_id: String,
    pub stage: ReachStage,
}

/// What to do next about a connection.
#[derive(Debug)]
pub enum ChannelAction {
    /// There is one, under this number.
    Reuse(u64),
    LookUp,
    Connect(SshTransport),
    /// It is in the pool; a former one is to be closed.
    Opened { replaced: Option<u64> },
    Fail(PoolError),
    Ignore,
}

/// How the opening of a connection begins: one that is there is used.
pub open spec fn channel_begins(
    s: Seq<ConnectionModel>,
    env_id: Seq<char>,
    now_ms: u64,
    o: ChannelOpening,
    t: Seq<ConnectionModel>,
    a: ChannelAction,
) -> bool {
    &&& o.env_id@ == env_id
    &&& match pool::connection_of(s, env_id, 0) {
        Some(i) => {
            &&& o.stage == ReachStage::Over
            &&& t == s.update(i, pool::used(s[i], now_ms))
            &&& a == ChannelAction::Reuse(s[i].channel)
        },
        None => o.stage == ReachStage::LookUp && t == s && a is LookUp,
    }
}

/// How the opening of a connection goes on, from one stage and one pool to the next.
pub open spec fn channel_goes_on(
    env_id: Seq<char>,
    stage: ReachStage,
    s: Seq<ConnectionModel>,
    e: ReachEvent,
    channel: u64,
    now_ms: u64,
    next: ReachStage,
    t: Seq<ConnectionModel>,
    a: ChannelAction,
) -> bool {
    match (stage, e) {
        (ReachStage::LookUp, ReachEvent::Environment(Ok(env))) => t == s && match transport_error(
            env_id,
            env,
        ) {
            Some(why) => {
                &&& next == ReachStage::Over
                &&& a matches ChannelAction::Fail(PoolError::TransportNotImplemented(m)) && m@
                    == why
            },
            None => {
                &&& next == ReachStage::Connect
                &&& a matches ChannelAction::Connect(to) && is_transport(to, env_id, env)
            },
        },
        (ReachStage::LookUp, ReachEvent::Environment(Err(why))) => {
            &&& t == s
            &&& next == ReachStage::Over
            &&& a == ChannelAction::Fail(why)
        },
        (ReachStage::Connect, ReachEvent::Connected(Ok(_))) => {
            &&& next == ReachStage::Over
            &&& t == with_connection(
                s,
                ConnectionModel { environment_id: env_id, channel, last_used_ms: now_ms },
            )
            &&& a == (ChannelAction::Opened { replaced: pool::channel_of(s, env_id) })
        },
        (ReachStage::Connect, ReachEvent::Connected(Err(why))) => {
            &&& t == s
            &&& next == ReachStage::Over
            &&& a == ChannelAction::Fail(PoolError::Connection(why))
        },
        _ => t == s && next == stage && a is Ignore,
    }
}

impl ExecChannelPool {
    /// Begins to get the connection of an environment: one that is there, or a new one.
    pub fn get_or_create(&mut self, environment_id: &str, now_ms: u64) -> (r: (
        ChannelOpening,
        ChannelAction,
    ))
        requires
            old(self).wf(),
        ensures
            final(self).wf(),
            channel_begins(old(self).all(), environment_id@, now_ms, r.0, final(self).all(), r.1),
    {
        let env_id = text::owned(environment_id);
        match self.get(environment_id, now_ms) {
            Some(n) => (
                ChannelOpening { env_id, stage: ReachStage::Over },
                ChannelAction::Reuse(n),
            ),
            None => (ChannelOpening { env_id, stage: ReachStage::LookUp }, ChannelAction::LookUp),
        }
    }
}

impl ChannelOpening {
    /// Takes an event in and tells what to do next. `channel` is the number under which a
    /// new connection is held.
    pub fn step(
        &mut self,
        pool: &mut ExecChannelPool,
        event: ReachEvent,
        channel: u64,
        now_ms: u64,
    ) -> (r: ChannelAction)
        requires
            old(pool).wf(),
        ensures
            final(pool).wf(),
            final(self).env_id == old(self).env_id,
            channel_goes_on(
                old(self).env_id@,
                old(self).stage,
                old(pool).all(),
                event,
                channel,
                now_ms,
                final(self).stage,
                final(pool).all(),
                r,
            ),
    {
        match (self.stage, event) {
            (ReachStage::LookUp, ReachEvent::Environment(Ok(env))) => {
                match pool::build_transport(self.env_id.as_str(), &env) {
                    Ok(to) => {
                        self.stage = ReachStage::Connect;
                        ChannelAction::Connect(to)
                    },
                    Err(e) => {
                        self.stage = ReachStage::Over;
                        ChannelAction::Fail(e)
                    },
                }
            },
            (ReachStage::LookUp, ReachEvent::Environment(Err(why))) => {
                self.stage = ReachStage::Over;
                ChannelAction::Fail(why)
            },
            (ReachStage::Connect, ReachEvent::Connected(Ok(()))) => {
                self.stage = ReachStage::Over;
                let env_id = text::owned(self.env_id.as_str());
                let replaced = pool.insert_channel(env_id, channel, now_ms);
                ChannelAction::Opened { replaced }
            },
            (ReachStage::Connect, ReachEvent::Connected(Err(why))) => {
                self.stage = ReachStage::Over;
                ChannelAction::Fail(PoolError::Connection(why))
            },
            _ => ChannelAction::Ignore,
        }
    }
}

/// A tunnel on its way.
#[derive(Debug)]
pub struct TunnelOpening {
    pub env_id: String,
    pub remote_host: String,
    pub remote_port: u16,
    pub stage: ReachStage,
}

/// What to do next about a tunnel.
#[derive(Debug)]
pub enum TunnelAction {
    LookUp,
    Connect(SshTransport),
    /// Open a port here.
    Listen,
    /// The tunnel can be used. With `discard` there was one already, and what was made for
    /// this one is to be closed.
    Opened { lease: TunnelLease, discard: bool },
    Fail(TunnelError),
    Ignore,
}

impl TunnelOpening {
    pub open spec fn key(&self) -> Seq<char> {
        key_of(self.env_id@, self.remote_host@, self.remote_port)
    }

    /// The lease is of this tunnel, with this port here.
    pub open spec fn leases(&self, lease: TunnelLease, local_port: u16) -> bool {
        &&& lease.env_id@ == self.env_id@
        &&& lease.remote_host@ == self.remote_host@
        &&& lease.remote_port == self.remote_port
        &&& lease.local_port == local_port
    }
}

/// How the opening of a tunnel begins: one that is there is used once more.
pub open spec fn tunnel_begins(
    s: Seq<EntryModel>,
    o: TunnelOpening,
    t: Seq<EntryModel>,
    a: TunnelAction,
) -> bool {
    match entry_of(s, o.key(), 0) {
        Some(i) => {
            &&& o.stage == ReachStage::Over
            &&& t == reused(s, i)
            &&& a matches TunnelAction::Opened { lease, discard } && !discard && o.leases(
                lease,
                s[i].local_port,
            )
        },
        None => o.stage == ReachStage::LookUp && t == s && a is LookUp,
    }
}

/// Why an environment could not be looked up.
pub open spec fn is_lookup_error(err: TunnelError, e: PoolError) -> bool {
    match e {
        PoolError::EnvironmentNotFound { .. } => err matches TunnelError::EnvironmentNotFound(m)
            && m@ == pool_error_text(e),
        _ => err matches TunnelError::Db(m) && m@ == pool_error_text(e),
    }
}

/// How the opening of a tunnel goes on, from one stage and one set of tunnels to the next.
pub open spec fn tunnel_goes_on(
    o: TunnelOpening,
    s: Seq<EntryModel>,
    e: ReachEvent,
    transport: u64,
    next: ReachStage,
    t: Seq<EntryModel>,
    a: TunnelAction,
) -> bool {
    match (o.stage, e) {
        (ReachStage::LookUp, ReachEvent::Environment(Ok(env))) => t == s && match transport_error(
            o.env_id@,
            env,
        ) {
            Some(why) => {
                &&& next == ReachStage::Over
                &&& a matches TunnelAction::Fail(TunnelError::Config(m)) && m@
                    == "transport not implemented: "@ + why
            },
            None => {
                &&& next == ReachStage::Connect
                &&& a matches TunnelAction::Connect(to) && is_transport(to, o.env_id@, env)
            },
        },
        (ReachStage::LookUp, ReachEvent::Environment(Err(why))) => {
            &&& t == s
            &&& next == ReachStage::Over
            &&& a matches TunnelAction::Fail(err) && is_lookup_error(err, why)
        },
        (ReachStage::Connect, ReachEvent::Connected(Ok(_))) => {
            &&& t == s
            &&& next == ReachStage::Listen
            &&& a is Listen
        },
        (ReachStage::Connect, ReachEvent::Connected(Err(why))) => {
            &&& t == s
            &&& next == ReachStage::Over
            &&& a == TunnelAction::Fail(TunnelError::Connection(why))
        },
        (ReachStage::Listen, ReachEvent::Listening(Ok(port))) => {
            &&& next == ReachStage::Over
            &&& t == settled(s, o.key(), port, transport)
            &&& a matches TunnelAction::Opened { lease, discard } && match entry_of(s, o.key(), 0) {
                Some(i) => discard && o.leases(lease, s[i].local_port),
                None => !discard && o.leases(lease, port),
            }
        },
        (ReachStage::Listen, ReachEvent::Listening(Err(why))) => {
            &&& t == s
            &&& next == ReachStage::Over
            &&& a == TunnelAction::Fail(TunnelError::Listen(why))
        },
        _ => t == s && next == o.stage && a is Ignore,
    }
}

impl TunnelOpening {
    /// Begins to open a tunnel.
    pub fn begin(table: &mut TunnelManager, env_id: &str, remote_host: &str, remote_port: u16) -> (r:
        (Self, TunnelAction))
        requires
            old(table).wf(),
        ensures
            final(table).wf(),
            r.0.env_id@ == env_id@,
            r.0.remote_host@ == remote_host@,
            r.0.remote_port == remote_port,
            tunnel_begins(old(table).all(), r.0, final(table).all(), r.1),
    {
        let mut o = TunnelOpening {
            env_id: text::owned(env_id),
            remote_host: text::owned(remote_host),
            remote_port,
            stage: ReachStage::LookUp,
        };
        match table.open(env_id, remote_host, remote_port) {
            Some(lease) => {
                o.stage = ReachStage::Over;
                (o, TunnelAction::Opened { lease, discard: false })
            },
            None => (o, TunnelAction::LookUp),
        }
    }

    /// Takes an event in and tells what to do next. `transport` is the number under which
    /// the connection is held.
    pub fn step(&mut self, table: &mut TunnelManager, event: ReachEvent, transport: u64) -> (r:
        TunnelAction)
        requires
            old(table).wf(),
        ensures
            final(table).wf(),
            final(self).env_id == old(self).env_id,
            final(self).remote_host == old(self).remote_host,
            final(self).remote_port == old(self).remote_port,
            tunnel_goes_on(
                *old(self),
                old(table).all(),
                event,
                transport,
                final(self).stage,
                final(table).all(),
                r,
            ),
    {
        match (self.stage, event) {
            (ReachStage::LookUp, ReachEvent::Environment(Ok(env))) => {
                match pool::build_transport(self.env_id.as_str(), &env) {
                    Ok(to) => {
                        self.stage = ReachStage::Connect;
                        TunnelAction::Connect(to)
                    },
                    Err(e) => {
                        self.stage = ReachStage::Over;
                        TunnelAction::Fail(tunnel::config_error(e))
                    },
                }
            },
            (ReachStage::LookUp, ReachEvent::Environment(Err(why))) => {
                self.stage = ReachStage::Over;
                TunnelAction::Fail(tunnel::lookup_error(why))
            },
            (ReachStage::Connect, ReachEvent::Connected(Ok(()))) => {
                self.stage = ReachStage::Listen;
                TunnelAction::Listen
            },
            (ReachStage::Connect, ReachEvent::Connected(Err(why))) => {
                self.stage = ReachStage::Over;
                TunnelAction::Fail(TunnelError::Connection(why))
            },
            (ReachStage::Listen, ReachEvent::Listening(Ok(port))) => {
                self.stage = ReachStage::Over;
                let s = table.settle(
                    self.env_id.as_str(),
                    self.remote_host.as_str(),
                    self.remote_port,
                    port,
                    transport,
                );
                TunnelAction::Opened { lease: s.lease, discard: s.discard }
            },
            (ReachStage::Listen, ReachEvent::Listening(Err(why))) => {
                self.stage = ReachStage::Over;
                TunnelAction::Fail(TunnelError::Listen(why))
            },
            _ => TunnelAction::Ignore,
        }
    }
}

/// A tunnel that could not be opened leaves the tunnels as they were, and so does every step
/// before the last one.
pub proof fn law_failed_opening_leaves_no_tunnel(
    o: TunnelOpening,
    s: Seq<EntryModel>,
    e: ReachEvent,
    transport: u64,
    next: ReachStage,
    t: Seq<EntryModel>,
    a: TunnelAction,
)
    requires
        tunnel_goes_on(o, s, e, transport, next, t, a),
        !(a is Opened),
    ensures
        t == s,
        a is Fail ==> next == ReachStage::Over,
{
}

/// Whoever is told that a tunnel can be used finds it among the tunnels, under its name and
/// with the port that was told.
pub proof fn law_opened_tunnel_is_there(
    o: TunnelOpening,
    s: Seq<EntryModel>,
    e: ReachEvent,
    transport: u64,
    next: ReachStage,
    t: Seq<EntryModel>,
    a: TunnelAction,
)
    requires
        tunnel_goes_on(o, s, e, transport, next, t, a),
        a is Opened,
    ensures
        entry_of(t, o.key(), 0) is Some,
        t[entry_of(t, o.key(), 0)->0].local_port == a->lease.local_port,
        !a->discard ==> t[entry_of(t, o.key(), 0)->0].transport == transport,
{
    tunnel::lemma_settled_is_found(s, o.key(), e->Listening_0->Ok_0, transport);
}

/// A connection that could not be made leaves the pool as it was.
pub proof fn law_failed_opening_leaves_no_channel(
    env_id: Seq<char>,
    stage: ReachStage,
    s: Seq<ConnectionModel>,
    e: ReachEvent,
    channel: u64,
    now_ms: u64,
    next: ReachStage,
    t: Seq<ConnectionModel>,
    a: ChannelAction,
)
    requires
        channel_goes_on(env_id, stage, s, e, channel, now_ms, next, t, a),
        !(a is Opened),
    ensures
        t == s,
        a is Fail ==> next == ReachStage::Over,
{
}

/// The connection that was made for an environment is the one that it gets from then on.
pub proof fn law_opened_channel_is_reused(
    env_id: Seq<char>,
    stage: ReachStage,
    s: Seq<ConnectionModel>,
    e: ReachEvent,
    channel: u64,
    now_ms: u64,
    next: ReachStage,
    t: Seq<ConnectionModel>,
    a: ChannelAction,
)
    requires
        channel_goes_on(env_id, stage, s, e, channel, now_ms, next, t, a),
        a is Opened,
    ensures
        pool::channel_of(t, env_id) == Some(channel),
{
    pool::lemma_connection_is_found(
        s,
        ConnectionModel { environment_id: env_id, channel, last_used_ms: now_ms },
    );
}

} // verus!
