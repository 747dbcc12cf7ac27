//! Connections that are kept open, one for each environment.

use crate::exec::ssh::{auth_of_row, SshAuth, SshTransport};
use crate::text;
use vstd::prelude::*;

verus! {

#[derive(Debug)]
pub enum PoolError {
    EnvironmentNotFound { env_id: String },
    Connection(String),
    TransportNotImplemented(String),
}

pub open spec fn pool_error_text(e: PoolError) -> Seq<char> {
    match e {
        PoolError::EnvironmentNotFound { env_id } => "environment "@ + env_id@ + " not found"@,
        PoolError::Connection(m) => "connection error: "@ + m@,
        PoolError::TransportNotImplemented(m) => "transport not implemented: "@ + m@,
    }
}

impl PoolError {
    /// The error in words.
    pub fn message(&self) -> (r: String)
        ensures
            r@ == pool_error_text(*self),
    {
        match self {
            PoolError::EnvironmentNotFound { env_id } => {
                let mut m = text::owned("environment ");
                m.append(env_id.as_str());
                m.append(" not found");
                m
            },
            PoolError::Connection(e) => {
                let mut m = text::owned("connection error: ");
                m.append(e.as_str());
                m
            },
            PoolError::TransportNotImplemented(e) => {
                let mut m = text::owned("transport not implemented: ");
                m.append(e.as_str());
                m
            },
        }
    }
}

/// A connection, by the number under which it is held, and when it was used last.
#[derive(Debug)]
pub struct PooledConnection {
    pub environment_id: String,
    pub channel: u64,
    pub last_used_ms: u64,
}

#[verifier::ext_equal]
pub struct ConnectionModel {
    pub environment_id: Seq<char>,
    pub channel: u64,
    pub last_used_ms: u64,
}

impl View for PooledConnection {
    type V = ConnectionModel;

    open spec fn view(&self) -> ConnectionModel {
        ConnectionModel {
            environment_id: self.environment_id@,
            channel: self.channel,
            last_used_ms: self.last_used_ms,
        }
    }
}

pub open spec fn connection_models(s: Seq<PooledConnection>) -> Seq<ConnectionModel> {
    s.map_values(|c: PooledConnection| c@)
}

/// The first connection, from `i` on, of this environment.
pub open spec fn connection_of(s: Seq<ConnectionModel>, id: Seq<char>, i: int) -> Option<int>
    decreases s.len() - i,
{
    if i < 0 || i >= s.len() {
        None
    } else if s[i].environment_id == id {
        Some(i)
    } else {
        connection_of(s, id, i + 1)
    }
}

/// No environment has two connections.
pub open spec fn one_each(s: Seq<ConnectionModel>) -> bool {
    forall|i: int, j: int|
        0 <= i < j < s.len() ==> (#[trigger] s[i]).environment_id != (
        #[trigger] s[j]).environment_id
}

/// The connection has not been used for longer than the timeout.
pub open spec fn is_idle(c: ConnectionModel, now_ms: u64, idle_timeout_ms: u64) -> bool {
    now_ms - c.last_used_ms > idle_timeout_ms
}

pub open spec fn used(c: ConnectionModel, now_ms: u64) -> ConnectionModel {
    ConnectionModel { last_used_ms: now_ms, ..c }
}

/// The connections once this one was put in: it takes the place of the former one.
pub open spec fn with_connection(s: Seq<ConnectionModel>, c: ConnectionModel) -> Seq<
    ConnectionModel,
> {
    match connection_of(s, c.environment_id, 0) {
        Some(i) => s.update(i, c),
        None => s.push(c),
    }
}

/// The number of the connection of an environment.
pub open spec fn channel_of(s: Seq<ConnectionModel>, id: Seq<char>) -> Option<u64> {
    match connection_of(s, id, 0) {
        Some(i) => Some(s[i].channel),
        None => None,
    }
}

/// The connections that are kept open.
#[derive(Debug)]
pub struct ExecChannelPool {
    pub connections: Vec<PooledConnection>,
}

impl ExecChannelPool {
    pub open spec fn all(&self) -> Seq<ConnectionModel> {
        connection_models(self.connections@)
    }

    pub open spec fn wf(&self) -> bool {
        one_each(self.all())
    }

    pub fn new() -> (r: Self)
        ensures
            r.wf(),
            r.all() == Seq::<ConnectionModel>::empty(),
    {
        let r = ExecChannelPool { connections: Vec::new() };
        assert(r.all() =~= Seq::<ConnectionModel>::empty());
        r
    }

    fn find(&self, environment_id: &str) -> (r: Option<usize>)
        ensures
            match r {
                Some(i) => i < self.connections@.len() && connection_of(
                    self.all(),
                    environment_id@,
                    0,
                ) == Some(i as int) && self.all()[i as int].environment_id == environment_id@,
                None => connection_of(self.all(), environment_id@, 0) is None && forall|k: int|
                    0 <= k < self.all().len() ==> (#[trigger] self.all()[k]).environment_id
                        != environment_id@,
            },
    {
        let ghost s = self.all();
        let mut i: usize = 0;
        while i < self.connections.len()
            invariant
                i <= self.connections@.len(),
                s == self.all(),
                connection_of(s, environment_id@, 0) == connection_of(
                    s,
                    environment_id@,
                    i as int,
                ),
                forall|k: int| 0 <= k < i ==> (#[trigger] s[k]).environment_id != environment_id@,
            decreases self.connections@.len() - i,
        {
            assert(s[i as int] == self.connections@[i as int]@);
            if text::same(self.connections[i].environment_id.as_str(), environment_id) {
                return Some(i);
            }
            i = i + 1;
        }
        None
    }

    /// The connection of an environment, which is used from now on; `None` where one has to
    /// be made.
    pub fn get(&mut self, environment_id: &str, now_ms: u64) -> (r: Option<u64>)
        requires
            old(self).wf(),
        ensures
            final(self).wf(),
            match connection_of(old(self).all(), environment_id@, 0) {
                Some(i) => r == Some(old(self).all()[i].channel) && final(self).all() == old(
                    self,
                ).all().update(i, used(old(self).all()[i], now_ms)),
                None => r is None && final(self).all() == old(self).all(),
            },
    {
        let ghost s = self.all();
        match self.find(environment_id) {
            Some(i) => {
                let channel = self.connections[i].channel;
                let c = PooledConnection {
                    environment_id: text::owned(environment_id),
                    channel,
                    last_used_ms: now_ms,
                };
                let ghost m = c@;
                self.connections.set(i, c);
                assert(self.all() =~= s.update(i as int, m));
                assert(m =~= used(s[i as int], now_ms));
                Some(channel)
            },
            None => None,
        }
    }

    /// Puts a connection in, in place of the former one, which is handed over to be closed.
    pub fn insert_channel(&mut self, environment_id: String, channel: u64, now_ms: u64) -> (r:
        Option<u64>)
        requires
            old(self).wf(),
        ensures
            final(self).wf(),
            final(self).all() == with_connection(
                old(self).all(),
                ConnectionModel {
                    environment_id: environment_id@,
                    channel,
                    last_used_ms: now_ms,
                },
            ),
            r == channel_of(old(self).all(), environment_id@),
    {
        let ghost s = self.all();
        let found = self.find(environment_id.as_str());
        let c = PooledConnection { environment_id, channel, last_used_ms: now_ms };
        let ghost m = c@;
        match found {
            Some(i) => {
                assert(s[i as int] == self.connections@[i as int]@);
                let former = self.connections[i].channel;
                self.connections.set(i, c);
                assert(self.all() =~= s.update(i as int, m));
                Some(former)
            },
            None => {
                self.connections.push(c);
                assert(self.all() =~= s.push(m));
                None
            },
        }
    }

    /// Takes out the connections that have not been used for longer than the timeout, and
    /// hands them over to be closed.
    pub fn cleanup_idle(&mut self, now_ms: u64, idle_timeout_ms: u64) -> (r: Vec<u64>)
        requires
            old(self).wf(),
        ensures
            final(self).wf(),
            final(self).all() == old(self).all().filter(
                |c: ConnectionModel| !is_idle(c, now_ms, idle_timeout_ms),
            ),
            r@ == old(self).all().filter(
                |c: ConnectionModel| is_idle(c, now_ms, idle_timeout_ms),
            ).map_values(|c: ConnectionModel| c.channel),
    {
        let ghost s = self.all();
        let ghost idle = |c: ConnectionModel| is_idle(c, now_ms, idle_timeout_ms);
        let ghost fresh = |c: ConnectionModel| !is_idle(c, now_ms, idle_timeout_ms);
        let ghost ch = |c: ConnectionModel| c.channel;
        let mut kept: Vec<PooledConnection> = Vec::new();
        let mut gone: Vec<u64> = Vec::new();
        let mut i: usize = 0;
        proof {
            reveal(Seq::filter);
            assert(s.take(0) =~= Seq::<ConnectionModel>::empty());
            assert(connection_models(kept@) =~= s.take(0).filter(fresh));
            assert(gone@ =~= s.take(0).filter(idle).map_values(ch));
        }
        while i < self.connections.len()
            invariant
                i <= self.connections@.len(),
                s == self.all(),
                idle == |c: ConnectionModel| is_idle(c, now_ms, idle_timeout_ms),
                fresh == |c: ConnectionModel| !is_idle(c, now_ms, idle_timeout_ms),
                ch == |c: ConnectionModel| c.channel,
                connection_models(kept@) == s.take(i as int).filter(fresh),
                gone@ == s.take(i as int).filter(idle).map_values(ch),
            decreases self.connections@.len() - i,
        {
            assert(s[i as int] == self.connections@[i as int]@);
            proof {
                assert(s.take(i + 1) =~= s.take(i as int).push(s[i as int]));
                s.take(i as int).lemma_filter_push(s[i as int], fresh);
                s.take(i as int).lemma_filter_push(s[i as int], idle);
            }
            let c = &self.connections[i];
            let stale = now_ms > c.last_used_ms && now_ms - c.last_used_ms > idle_timeout_ms;
            let ghost was_kept = connection_models(kept@);
            let ghost was_gone = s.take(i as int).filter(idle);
            if stale {
                gone.push(c.channel);
                assert(was_gone.push(s[i as int]).map_values(ch) =~= was_gone.map_values(ch).push(
                    s[i as int].channel,
                ));
            } else {
                kept.push(
                    PooledConnection {
                        environment_id: c.environment_id.clone(),
                        channel: c.channel,
                        last_used_ms: c.last_used_ms,
                    },
                );
                assert(connection_models(kept@) =~= was_kept.push(s[i as int]));
            }
            i = i + 1;
        }
        proof {
            assert(s.take(i as int) =~= s);
            lemma_filter_one_each(s, fresh);
        }
        self.connections = kept;
        gone
    }

    /// Takes the connection of an environment out, and hands it over to be closed.
    pub fn disconnect(&mut self, environment_id: &str) -> (r: Option<u64>)
        requires
            old(self).wf(),
        ensures
            final(self).wf(),
            match connection_of(old(self).all(), environment_id@, 0) {
                Some(i) => r == Some(old(self).all()[i].channel) && final(self).all() == old(
                    self,
                ).all().remove(i),
                None => r is None && final(self).all() == old(self).all(),
            },
    {
        let ghost s = self.all();
        match self.find(environment_id) {
            Some(i) => {
                let c = self.connections.remove(i);
                assert(self.all() =~= s.remove(i as int));
                assert(c@ == s[i as int]);
                Some(c.channel)
            },
            None => None,
        }
    }

    /// Takes all connections out, and hands them over to be closed.
    pub fn disconnect_all(&mut self) -> (r: Vec<u64>)
        ensures
            final(self).wf(),
            final(self).all() == Seq::<ConnectionModel>::empty(),
            r@ == old(self).all().map_values(|c: ConnectionModel| c.channel),
    {
        let ghost s = self.all();
        let ghost ch = |c: ConnectionModel| c.channel;
        let mut out: Vec<u64> = Vec::new();
        let mut i: usize = 0;
        while i < self.connections.len()
            invariant
                i <= self.connections@.len(),
                s == self.all(),
                out@.len() == i,
                forall|k: int| 0 <= k < i ==> #[trigger] out@[k] == s[k].channel,
            decreases self.connections@.len() - i,
        {
            assert(s[i as int] == self.connections@[i as int]@);
            out.push(self.connections[i].channel);
            i = i + 1;
        }
        assert(out@ =~= s.map_values(ch));
        self.connections = Vec::new();
        assert(self.all() =~= Seq::<ConnectionModel>::empty());
        out
    }

    pub fn connection_count(&self) -> (r: usize)
        ensures
            r == self.all().len(),
    {
        self.connections.len()
    }

    /// Sets when the connection of an environment was used last.
    pub fn mark_last_used_for_test(&mut self, environment_id: &str, at_ms: u64)
        requires
            old(self).wf(),
        ensures
            final(self).wf(),
            match connection_of(old(self).all(), environment_id@, 0) {
                Some(i) => final(self).all() == old(self).all().update(
                    i,
                    used(old(self).all()[i], at_ms),
                ),
                None => final(self).all() == old(self).all(),
            },
    {
        let _channel = self.get(environment_id, at_ms);
    }
}

impl Default for ExecChannelPool {
    fn default() -> (r: Self)
        ensures
            r.wf(),
            r.all() == Seq::<ConnectionModel>::empty(),
    {
        ExecChannelPool::new()
    }
}

proof fn lemma_filter_one_each(s: Seq<ConnectionModel>, keep: spec_fn(ConnectionModel) -> bool)
    requires
        one_each(s),
    ensures
        one_each(s.filter(keep)),
    decreases s.len(),
{
    reveal(Seq::filter);
    if s.len() > 0 {
        let front = s.drop_last();
        lemma_filter_one_each(front, keep);
        let f = front.filter(keep);
        assert forall|i: int| 0 <= i < f.len() implies (#[trigger] f[i]).environment_id
            != s.last().environment_id by {
            front.lemma_filter_contains_rev(keep, f[i]);
            let k = choose|k: int| 0 <= k < front.len() && front[k] == f[i];
            assert(s[k].environment_id != s[s.len() - 1].environment_id);
        }
    }
}

/// Every connection is either kept or handed over to be closed: the two counts add up.
pub proof fn law_cleanup_loses_no_connection(
    s: Seq<ConnectionModel>,
    now_ms: u64,
    idle_timeout_ms: u64,
)
    ensures
        s.filter(|c: ConnectionModel| is_idle(c, now_ms, idle_timeout_ms)).len() + s.filter(
            |c: ConnectionModel| !is_idle(c, now_ms, idle_timeout_ms),
        ).len() == s.len(),
    decreases s.len(),
{
    reveal(Seq::filter);
    if s.len() > 0 {
        law_cleanup_loses_no_connection(s.drop_last(), now_ms, idle_timeout_ms);
    }
}

proof fn lemma_connection_from(
    s: Seq<ConnectionModel>,
    t: Seq<ConnectionModel>,
    c: ConnectionModel,
    i: int,
)
    requires
        0 <= i <= s.len(),
        match connection_of(s, c.environment_id, i) {
            Some(p) => t == s.update(p, c),
            None => t == s.push(c),
        },
    ensures
        match connection_of(t, c.environment_id, i) {
            Some(p) => t[p] == c,
            None => false,
        },
    decreases s.len() - i,
{
    if i < s.len() && s[i].environment_id != c.environment_id {
        lemma_connection_from(s, t, c, i + 1);
        lemma_connection_behind(s, c.environment_id, i + 1);
    }
}

proof fn lemma_connection_behind(s: Seq<ConnectionModel>, id: Seq<char>, i: int)
    requires
        0 <= i,
    ensures
        connection_of(s, id, i) matches Some(p) ==> i <= p < s.len(),
    decreases s.len() - i,
{
    if i < s.len() && s[i].environment_id != id {
        lemma_connection_behind(s, id, i + 1);
    }
}

pub(crate) proof fn lemma_connection_is_found(s: Seq<ConnectionModel>, c: ConnectionModel)
    ensures
        channel_of(with_connection(s, c), c.environment_id) == Some(c.channel),
{
    lemma_connection_from(s, with_connection(s, c), c, 0);
}

/// A connection that was just used is not idle, however short the timeout.
pub proof fn law_use_keeps_a_connection(c: ConnectionModel, now_ms: u64, idle_timeout_ms: u64)
    ensures
        !is_idle(used(c, now_ms), now_ms, idle_timeout_ms),
{
}

/// What is known of an environment that is to be reached.
#[derive(Debug)]
pub struct EnvironmentInfo {
    pub transport_type: String,
    pub host: Option<String>,
    pub port: Option<u16>,
    pub user: Option<String>,
    pub auth_type: Option<String>,
    pub private_key_path: Option<String>,
    /// The default credential; without one, what the environment itself says counts.
    pub default_cred_id: Option<String>,
}

pub open spec fn or_text(o: Option<Seq<char>>, default: Seq<char>) -> Seq<char> {
    match o {
        Some(s) => s,
        None => default,
    }
}

/// Why no connection can be made for an environment.
pub open spec fn transport_error(id: Seq<char>, env: EnvironmentInfo) -> Option<Seq<char>> {
    if env.transport_type@ != "ssh"@ {
        Some(env.transport_type@)
    } else if auth_of_row(
        or_text(env.auth_type.deep_view(), "private_key"@),
        env.private_key_path.deep_view(),
    ) is None {
        Some("invalid auth config for environment "@ + id)
    } else {
        None
    }
}

/// The connection reaches the environment as it is known.
pub open spec fn is_transport(t: SshTransport, id: Seq<char>, env: EnvironmentInfo) -> bool {
    &&& t.reaches(
        id,
        or_text(env.host.deep_view(), Seq::empty()),
        match env.port {
            Some(p) => p,
            None => 22,
        },
        or_text(env.user.deep_view(), Seq::empty()),
        auth_of_row(
            or_text(env.auth_type.deep_view(), "private_key"@),
            env.private_key_path.deep_view(),
        )->0,
    )
    &&& t.secret_override is None
    &&& t.cred_id.deep_view() == env.default_cred_id.deep_view()
}

/// The connection that is to be made for an environment.
pub fn build_transport(environment_id: &str, env: &EnvironmentInfo) -> (r: Result<
    SshTransport,
    PoolError,
>)
    ensures
        match transport_error(environment_id@, *env) {
            Some(why) => r matches Err(PoolError::TransportNotImplemented(m)) && m@ == why,
            None => r is Ok && is_transport(r->Ok_0, environment_id@, *env),
        },
{
    if !text::same(env.transport_type.as_str(), "ssh") {
        return Err(PoolError::TransportNotImplemented(env.transport_type.clone()));
    }
    let auth_type = match &env.auth_type {
        Some(a) => a.as_str(),
        None => "private_key",
    };
    let auth = match SshAuth::from_row(auth_type, text::as_deref(&env.private_key_path)) {
        Some(a) => a,
        None => {
            let mut m = text::owned("invalid auth config for environment ");
            m.append(environment_id);
            return Err(PoolError::TransportNotImplemented(m));
        },
    };
    let host = match &env.host {
        Some(h) => h.clone(),
        None => String::new(),
    };
    let user = match &env.user {
        Some(u) => u.clone(),
        None => String::new(),
    };
    let port: u16 = match env.port {
        Some(p) => p,
        None => 22,
    };
    match &env.default_cred_id {
        Some(cred_id) => Ok(
            SshTransport::with_cred(
                environment_id,
                host.as_str(),
                port,
                user.as_str(),
                auth,
                cred_id.as_str(),
            ),
        ),
        None => Ok(
            SshTransport::new(environment_id, host.as_str(), port, user.as_str(), auth),
        ),
    }
}

/// An environment and its default credential, as the tables have them.
#[derive(Debug)]
pub struct EnvironmentRecord {
    pub host: Option<String>,
    pub port: Option<i64>,
    pub user: Option<String>,
    pub transport_type: String,
    pub auth_type: Option<String>,
    pub private_key_path: Option<String>,
    pub credential: Option<CredentialRecord>,
}

#[derive(Debug)]
pub struct CredentialRecord {
    pub id: String,
    pub username: String,
    pub auth_type: String,
    pub private_key_path: Option<String>,
}

/// The first of the two that is there.
pub open spec fn first_of(a: Option<Seq<char>>, b: Option<Seq<char>>) -> Option<Seq<char>> {
    if a is Some {
        a
    } else {
        b
    }
}

/// What is known of an environment: its default credential goes before what it says itself.
pub fn fetch_environment(environment_id: &str, record: Option<EnvironmentRecord>) -> (r: Result<
    EnvironmentInfo,
    PoolError,
>)
    ensures
        match record {
            None => r matches Err(PoolError::EnvironmentNotFound { env_id }) && env_id@
                == environment_id@,
            Some(e) => {
                &&& r is Ok
                &&& r->Ok_0.transport_type == e.transport_type
                &&& r->Ok_0.host == e.host
                &&& r->Ok_0.port == (match e.port {
                    Some(p) => Some(p as u16),
                    None => None,
                })
                &&& match e.credential {
                    Some(c) => {
                        &&& r->Ok_0.user.deep_view() == Some(c.username@)
                        &&& r->Ok_0.auth_type.deep_view() == Some(c.auth_type@)
                        &&& r->Ok_0.private_key_path.deep_view() == first_of(
                            c.private_key_path.deep_view(),
                            e.private_key_path.deep_view(),
                        )
                        &&& r->Ok_0.default_cred_id.deep_view() == Some(c.id@)
                    },
                    None => {
                        &&& r->Ok_0.user == e.user
                        &&& r->Ok_0.auth_type == e.auth_type
                        &&& r->Ok_0.private_key_path == e.private_key_path
                        &&& r->Ok_0.default_cred_id is None
                    },
                }
            },
        },
{
    match record {
        None => Err(PoolError::EnvironmentNotFound { env_id: text::owned(environment_id) }),
        Some(e) => {
            let port: Option<u16> = match e.port {
                Some(p) => Some(p as u16),
                None => None,
            };
            match e.credential {
                Some(c) => Ok(
                    EnvironmentInfo {
                        transport_type: e.transport_type,
                        host: e.host,
                        port,
                        user: Some(c.username),
                        auth_type: Some(c.auth_type),
                        private_key_path: match c.private_key_path {
                            Some(p) => Some(p),
                            None => e.private_key_path,
                        },
                        default_cred_id: Some(c.id),
                    },
                ),
                None => Ok(
                    EnvironmentInfo {
                        transport_type: e.transport_type,
                        host: e.host,
                        port,
                        user: e.user,
                        auth_type: e.auth_type,
                        private_key_path: e.private_key_path,
                        default_cred_id: None,
                    },
                ),
            }
        },
    }
}

} // verus!
