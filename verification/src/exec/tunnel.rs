//! Tunnels to ports of other machines, shared by those who use them.

use crate::chars;
use crate::exec::pool::{pool_error_text, PoolError};
use crate::text;
use vstd::prelude::*;

verus! {

#[derive(Debug)]
pub enum TunnelError {
    EnvironmentNotFound(String),
    Db(String),
    Connection(String),
    Config(String),
    Listen(String),
}

/// The error in words.
pub open spec fn tunnel_error_text(e: TunnelError) -> Seq<char> {
    match e {
        TunnelError::EnvironmentNotFound(m) => "environment not found: "@ + m@,
        TunnelError::Db(m) => "database error: "@ + m@,
        TunnelError::Connection(m) => "ssh connection failed: "@ + m@,
        TunnelError::Config(m) => "invalid transport config: "@ + m@,
        TunnelError::Listen(m) => "local listen failed: "@ + m@,
    }
}

impl TunnelError {
    pub fn message(&self) -> (r: String)
        ensures
            r@ == tunnel_error_text(*self),
    {
        let (front, m) = match self {
            TunnelError::EnvironmentNotFound(m) => ("environment not found: ", m),
            TunnelError::Db(m) => ("database error: ", m),
            TunnelError::Connection(m) => ("ssh connection failed: ", m),
            TunnelError::Config(m) => ("invalid transport config: ", m),
            TunnelError::Listen(m) => ("local listen failed: ", m),
        };
        let mut s = text::owned(front);
        s.append(m.as_str());
        s
    }
}

/// Why an environment could not be looked up.
pub fn lookup_error(e: PoolError) -> (r: TunnelError)
    ensures
        match e {
            PoolError::EnvironmentNotFound { .. } => r matches TunnelError::EnvironmentNotFound(m)
                && m@ == pool_error_text(e),
            _ => r matches TunnelError::Db(m) && m@ == pool_error_text(e),
        },
{
    let m = e.message();
    match e {
        PoolError::EnvironmentNotFound { .. } => TunnelError::EnvironmentNotFound(m),
        _ => TunnelError::Db(m),
    }
}

/// Why no connection can be made.
pub fn config_error(e: PoolError) -> (r: TunnelError)
    ensures
        r matches TunnelError::Config(m) && m@ == pool_error_text(e),
{
    TunnelError::Config(e.message())
}

/// A tunnel as its users see it.
#[derive(Debug)]
pub struct TunnelLease {
    pub env_id: String,
    pub remote_host: String,
    pub remote_port: u16,
    pub local_port: u16,
}

pub open spec fn key_of(env_id: Seq<char>, host: Seq<char>, port: u16) -> Seq<char> {
    env_id + "/"@ + host + "/"@ + chars::dec(port as nat)
}

/// The name under which a tunnel is kept.
pub fn tunnel_key(env_id: &str, remote_host: &str, remote_port: u16) -> (r: String)
    ensures
        r@ == key_of(env_id@, remote_host@, remote_port),
{
    let mut k = text::owned(env_id);
    k.append("/");
    k.append(remote_host);
    k.append("/");
    k.append(text::dec(remote_port as u64).as_str());
    k
}

/// A tunnel that is open: its port here, the number of its connection, how many use it.
#[derive(Debug)]
pub struct TunnelEntry {
    pub key: String,
    pub local_port: u16,
    pub transport: u64,
    pub refs: u32,
}

#[verifier::ext_equal]
pub struct EntryModel {
    pub key: Seq<char>,
    pub local_port: u16,
    pub transport: u64,
    pub refs: u32,
}

impl View for TunnelEntry {
    type V = EntryModel;

    open spec fn view(&self) -> EntryModel {
        EntryModel {
            key: self.key@,
            local_port: self.local_port,
            transport: self.transport,
            refs: self.refs,
        }
    }
}

pub open spec fn entry_models(s: Seq<TunnelEntry>) -> Seq<EntryModel> {
    s.map_values(|e: TunnelEntry| e@)
}

/// The first tunnel, from `i` on, under this name.
pub open spec fn entry_of(s: Seq<EntryModel>, key: Seq<char>, i: int) -> Option<int>
    decreases s.len() - i,
{
    if i < 0 || i >= s.len() {
        None
    } else if s[i].key == key {
        Some(i)
    } else {
        entry_of(s, key, i + 1)
    }
}

/// Every tunnel has a name of its own and somebody who uses it.
pub open spec fn proper(s: Seq<EntryModel>) -> bool {
    &&& forall|i: int, j: int|
        0 <= i < j < s.len() ==> (#[trigger] s[i]).key != (#[trigger] s[j]).key
    &&& forall|i: int| 0 <= i < s.len() ==> (#[trigger] s[i]).refs > 0
}

pub open spec fn one_more(refs: u32) -> u32 {
    if refs == u32::MAX {
        refs
    } else {
        (refs + 1) as u32
    }
}

/// The tunnels once the one under a name is used once more.
pub open spec fn reused(s: Seq<EntryModel>, i: int) -> Seq<EntryModel> {
    s.update(i, EntryModel { refs: one_more(s[i].refs), ..s[i] })
}

/// The tunnels once the one under a name is used once less: without users it is gone.
pub open spec fn released(s: Seq<EntryModel>, key: Seq<char>) -> Seq<EntryModel> {
    match entry_of(s, key, 0) {
        Some(i) => if s[i].refs <= 1 {
            s.remove(i)
        } else {
            s.update(i, EntryModel { refs: (s[i].refs - 1) as u32, ..s[i] })
        },
        None => s,
    }
}

/// The tunnels once another one was made ready under a name: where there is one already,
/// that one is used.
pub open spec fn settled(
    s: Seq<EntryModel>,
    key: Seq<char>,
    local_port: u16,
    transport: u64,
) -> Seq<EntryModel> {
    match entry_of(s, key, 0) {
        Some(i) => reused(s, i),
        None => s.push(EntryModel { key, local_port, transport, refs: 1 }),
    }
}

/// The tunnels that are open.
#[derive(Debug)]
pub struct TunnelManager {
    pub entries: Vec<TunnelEntry>,
}

/// What becomes of a connection that was made for a tunnel.
#[derive(Debug)]
pub struct Settled {
    pub lease: TunnelLease,
    /// There was a tunnel already: the new connection is to be closed.
    pub discard: bool,
}

impl TunnelManager {
    pub open spec fn all(&self) -> Seq<EntryModel> {
        entry_models(self.entries@)
    }

    pub open spec fn wf(&self) -> bool {
        proper(self.all())
    }

    pub fn new() -> (r: Self)
        ensures
            r.wf(),
            r.all() == Seq::<EntryModel>::empty(),
    {
        let r = TunnelManager { entries: Vec::new() };
        assert(r.all() =~= Seq::<EntryModel>::empty());
        r
    }

    fn find(&self, key: &str) -> (r: Option<usize>)
        ensures
            match r {
                Some(i) => i < self.entries@.len() && entry_of(self.all(), key@, 0) == Some(
                    i as int,
                ) && self.all()[i as int].key == key@,
                None => entry_of(self.all(), key@, 0) is None && forall|k: int|
                    0 <= k < self.all().len() ==> (#[trigger] self.all()[k]).key != key@,
            },
    {
        let ghost s = self.all();
        let mut i: usize = 0;
        while i < self.entries.len()
            invariant
                i <= self.entries@.len(),
                s == self.all(),
                entry_of(s, key@, 0) == entry_of(s, key@, i as int),
                forall|k: int| 0 <= k < i ==> (#[trigger] s[k]).key != key@,
            decreases self.entries@.len() - i,
        {
            assert(s[i as int] == self.entries@[i as int]@);
            if text::same(self.entries[i].key.as_str(), key) {
                return Some(i);
            }
            i = i + 1;
        }
        None
    }

    fn use_again(&mut self, i: usize) -> (r: u16)
        requires
            old(self).wf(),
            i < old(self).entries@.len(),
        ensures
            final(self).wf(),
            final(self).all() == reused(old(self).all(), i as int),
            r == old(self).all()[i as int].local_port,
    {
        let ghost s = self.all();
        let e = &self.entries[i];
        let port = e.local_port;
        let grown = TunnelEntry {
            key: e.key.clone(),
            local_port: port,
            transport: e.transport,
            refs: e.refs.saturating_add(1),
        };
        let ghost m = grown@;
        assert(s[i as int] == self.entries@[i as int]@);
        self.entries.set(i, grown);
        assert(self.all() =~= s.update(i as int, m));
        assert(m =~= EntryModel { refs: one_more(s[i as int].refs), ..s[i as int] });
        port
    }

    /// Uses the tunnel that is open, where there is one; else a connection has to be made.
    pub fn open(&mut self, env_id: &str, remote_host: &str, remote_port: u16) -> (r: Option<
        TunnelLease,
    >)
        requires
            old(self).wf(),
        ensures
            final(self).wf(),
            match entry_of(old(self).all(), key_of(env_id@, remote_host@, remote_port), 0) {
                Some(i) => r is Some && r->0.env_id@ == env_id@ && r->0.remote_host@
                    == remote_host@ && r->0.remote_port == remote_port && r->0.local_port == old(
                    self,
                ).all()[i].local_port && final(self).all() == reused(old(self).all(), i),
                None => r is None && final(self).all() == old(self).all(),
            },
    {
        let key = tunnel_key(env_id, remote_host, remote_port);
        match self.find(key.as_str()) {
            Some(i) => {
                let local_port = self.use_again(i);
                Some(
                    TunnelLease {
                        env_id: text::owned(env_id),
                        remote_host: text::owned(remote_host),
                        remote_port,
                        local_port,
                    },
                )
            },
            None => None,
        }
    }

    /// Puts a tunnel in for which a connection was made. Where another one came first, that
    /// one is used and the connection is to be closed.
    pub fn settle(
        &mut self,
        env_id: &str,
        remote_host: &str,
        remote_port: u16,
        local_port: u16,
        transport: u64,
    ) -> (r: Settled)
        requires
            old(self).wf(),
        ensures
            final(self).wf(),
            ({
                let key = key_of(env_id@, remote_host@, remote_port);
                let there = entry_of(old(self).all(), key, 0);
                &&& final(self).all() == settled(old(self).all(), key, local_port, transport)
                &&& r.discard == there is Some
                &&& r.lease.env_id@ == env_id@
                &&& r.lease.remote_host@ == remote_host@
                &&& r.lease.remote_port == remote_port
                &&& r.lease.local_port == (match there {
                    Some(i) => old(self).all()[i].local_port,
                    None => local_port,
                })
            }),
    {
        let ghost s = self.all();
        let key = tunnel_key(env_id, remote_host, remote_port);
        let mut discard = false;
        let mut port: u16 = local_port;
        match self.find(key.as_str()) {
            Some(i) => {
                port = self.use_again(i);
                discard = true;
            },
            None => {
                let e = TunnelEntry { key, local_port, transport, refs: 1 };
                let ghost m = e@;
                self.entries.push(e);
                assert(self.all() =~= s.push(m));
            },
        }
        Settled {
            lease: TunnelLease {
                env_id: text::owned(env_id),
                remote_host: text::owned(remote_host),
                remote_port,
                local_port: port,
            },
            discard,
        }
    }

    /// One user less. The connection of a tunnel without users is handed over to be closed.
    pub fn close(&mut self, env_id: &str, remote_host: &str, remote_port: u16) -> (r: Option<u64>)
        requires
            old(self).wf(),
        ensures
            final(self).wf(),
            final(self).all() == released(
                old(self).all(),
                key_of(env_id@, remote_host@, remote_port),
            ),
            match entry_of(old(self).all(), key_of(env_id@, remote_host@, remote_port), 0) {
                Some(i) => r == (if old(self).all()[i].refs <= 1 {
                    Some(old(self).all()[i].transport)
                } else {
                    None
                }),
                None => r is None,
            },
    {
        let ghost s = self.all();
        let key = tunnel_key(env_id, remote_host, remote_port);
        match self.find(key.as_str()) {
            Some(i) => {
                assert(s[i as int] == self.entries@[i as int]@);
                if self.entries[i].refs <= 1 {
                    let e = self.entries.remove(i);
                    assert(self.all() =~= s.remove(i as int));
                    Some(e.transport)
                } else {
                    let e = &self.entries[i];
                    let less = TunnelEntry {
                        key: e.key.clone(),
                        local_port: e.local_port,
                        transport: e.transport,
                        refs: e.refs - 1,
                    };
                    let ghost m = less@;
                    self.entries.set(i, less);
                    assert(self.all() =~= s.update(i as int, m));
                    assert(m =~= EntryModel {
                        refs: (s[i as int].refs - 1) as u32,
                        ..s[i as int]
                    });
                    None
                }
            },
            None => None,
        }
    }

    /// Takes all tunnels of an environment out, and hands their connections over to be closed.
    pub fn close_all_for_env(&mut self, env_id: &str) -> (r: Vec<u64>)
        requires
            old(self).wf(),
        ensures
            final(self).wf(),
            final(self).all() == old(self).all().filter(
                |e: EntryModel| !chars::starts_with(e.key, env_id@ + "/"@),
            ),
            r@ == old(self).all().filter(
                |e: EntryModel| chars::starts_with(e.key, env_id@ + "/"@),
            ).map_values(|e: EntryModel| e.transport),
    {
        let ghost s = self.all();
        let mut prefix = text::owned(env_id);
        prefix.append("/");
        let ghost gone_p = |e: EntryModel| chars::starts_with(e.key, env_id@ + "/"@);
        let ghost kept_p = |e: EntryModel| !chars::starts_with(e.key, env_id@ + "/"@);
        let ghost tr = |e: EntryModel| e.transport;
        let mut kept: Vec<TunnelEntry> = Vec::new();
        let mut gone: Vec<u64> = Vec::new();
        let mut i: usize = 0;
        proof {
            reveal(Seq::filter);
            assert(s.take(0) =~= Seq::<EntryModel>::empty());
            assert(entry_models(kept@) =~= s.take(0).filter(kept_p));
            assert(gone@ =~= s.take(0).filter(gone_p).map_values(tr));
        }
        while i < self.entries.len()
            invariant
                i <= self.entries@.len(),
                s == self.all(),
                prefix@ == env_id@ + "/"@,
                gone_p == |e: EntryModel| chars::starts_with(e.key, env_id@ + "/"@),
                kept_p == |e: EntryModel| !chars::starts_with(e.key, env_id@ + "/"@),
                tr == |e: EntryModel| e.transport,
                entry_models(kept@) == s.take(i as int).filter(kept_p),
                gone@ == s.take(i as int).filter(gone_p).map_values(tr),
            decreases self.entries@.len() - i,
        {
            assert(s[i as int] == self.entries@[i as int]@);
            proof {
                assert(s.take(i + 1) =~= s.take(i as int).push(s[i as int]));
                s.take(i as int).lemma_filter_push(s[i as int], kept_p);
                s.take(i as int).lemma_filter_push(s[i as int], gone_p);
            }
            let e = &self.entries[i];
            let ghost was_kept = entry_models(kept@);
            let ghost was_gone = s.take(i as int).filter(gone_p);
            if text::starts_with(e.key.as_str(), prefix.as_str()) {
                gone.push(e.transport);
                assert(was_gone.push(s[i as int]).map_values(tr) =~= was_gone.map_values(tr).push(
                    s[i as int].transport,
                ));
            } else {
                kept.push(
                    TunnelEntry {
                        key: e.key.clone(),
                        local_port: e.local_port,
                        transport: e.transport,
                        refs: e.refs,
                    },
                );
                assert(entry_models(kept@) =~= was_kept.push(s[i as int]));
            }
            i = i + 1;
        }
        proof {
            assert(s.take(i as int) =~= s);
            lemma_filter_proper(s, kept_p);
        }
        self.entries = kept;
        gone
    }

    pub fn tunnel_count(&self) -> (r: usize)
        ensures
            r == self.all().len(),
    {
        self.entries.len()
    }

    /// Takes out a tunnel whose connection is dead, so that the next use makes a new one. A
    /// tunnel that has another connection by now stays.
    pub fn mark_failed(
        &mut self,
        env_id: &str,
        remote_host: &str,
        remote_port: u16,
        dead: u64,
    ) -> (r: bool)
        requires
            old(self).wf(),
        ensures
            final(self).wf(),
            match entry_of(old(self).all(), key_of(env_id@, remote_host@, remote_port), 0) {
                Some(i) => r == (old(self).all()[i].transport == dead) && final(self).all() == (if r {
                    old(self).all().remove(i)
                } else {
                    old(self).all()
                }),
                None => !r && final(self).all() == old(self).all(),
            },
    {
        let ghost s = self.all();
        let key = tunnel_key(env_id, remote_host, remote_port);
        match self.find(key.as_str()) {
            Some(i) => {
                assert(s[i as int] == self.entries@[i as int]@);
                if self.entries[i].transport != dead {
                    return false;
                }
                let _gone = self.entries.remove(i);
                assert(self.all() =~= s.remove(i as int));
                true
            },
            None => false,
        }
    }
}

proof fn lemma_filter_proper(s: Seq<EntryModel>, keep: spec_fn(EntryModel) -> bool)
    requires
        proper(s),
    ensures
        proper(s.filter(keep)),
    decreases s.len(),
{
    reveal(Seq::filter);
    if s.len() > 0 {
        let front = s.drop_last();
        assert(proper(front)) by {
            assert forall|i: int| 0 <= i < front.len() implies (#[trigger] front[i]).refs > 0 by {
                assert(s[i].refs > 0);
            }
        }
        lemma_filter_proper(front, keep);
        let f = front.filter(keep);
        assert forall|i: int| 0 <= i < f.len() implies (#[trigger] f[i]).key != s.last().key by {
            front.lemma_filter_contains_rev(keep, f[i]);
            let k = choose|k: int| 0 <= k < front.len() && front[k] == f[i];
            assert(s[k].key != s[s.len() - 1].key);
        }
        assert(s[s.len() - 1].refs > 0);
    }
}

proof fn lemma_entry_of(s: Seq<EntryModel>, key: Seq<char>, i: int)
    requires
        0 <= i,
        entry_of(s, key, i) is Some,
    ensures
        i <= entry_of(s, key, i)->0 < s.len(),
        s[entry_of(s, key, i)->0].key == key,
        forall|k: int| i <= k < entry_of(s, key, i)->0 ==> (#[trigger] s[k]).key != key,
    decreases s.len() - i,
{
    if s[i].key != key {
        lemma_entry_of(s, key, i + 1);
    }
}

proof fn lemma_entry_is(s: Seq<EntryModel>, key: Seq<char>, i: int, p: int)
    requires
        0 <= i <= p < s.len(),
        s[p].key == key,
        forall|k: int| i <= k < p ==> (#[trigger] s[k]).key != key,
    ensures
        entry_of(s, key, i) == Some(p),
    decreases p - i,
{
    if i < p {
        lemma_entry_is(s, key, i + 1, p);
    }
}

proof fn lemma_no_entry(s: Seq<EntryModel>, key: Seq<char>, i: int)
    requires
        0 <= i,
        entry_of(s, key, i) is None,
    ensures
        forall|k: int| i <= k < s.len() ==> (#[trigger] s[k]).key != key,
    decreases s.len() - i,
{
    if i < s.len() {
        lemma_no_entry(s, key, i + 1);
    }
}

pub(crate) proof fn lemma_settled_is_found(
    s: Seq<EntryModel>,
    key: Seq<char>,
    local_port: u16,
    transport: u64,
)
    ensures
        ({
            let t = settled(s, key, local_port, transport);
            match entry_of(s, key, 0) {
                Some(p) => entry_of(t, key, 0) == Some(p) && t[p].local_port == s[p].local_port,
                None => entry_of(t, key, 0) == Some(s.len() as int) && t[s.len() as int]
                    == (EntryModel { key, local_port, transport, refs: 1 }),
            }
        }),
{
    let t = settled(s, key, local_port, transport);
    match entry_of(s, key, 0) {
        Some(p) => {
            lemma_entry_of(s, key, 0);
            lemma_entry_is(t, key, 0, p);
        },
        None => {
            lemma_no_entry(s, key, 0);
            lemma_entry_is(t, key, 0, s.len() as int);
        },
    }
}

/// Whoever starts to use a tunnel and stops again leaves all as it was: a new tunnel is gone
/// and one that others use stays.
pub proof fn law_release_undoes_use(
    s: Seq<EntryModel>,
    key: Seq<char>,
    local_port: u16,
    transport: u64,
)
    requires
        proper(s),
        entry_of(s, key, 0) is Some ==> s[entry_of(s, key, 0)->0].refs < u32::MAX,
    ensures
        released(settled(s, key, local_port, transport), key) == s,
{
    let t = settled(s, key, local_port, transport);
    match entry_of(s, key, 0) {
        Some(p) => {
            lemma_entry_of(s, key, 0);
            lemma_entry_is(t, key, 0, p);
            assert(s[p].refs > 0);
            assert(released(t, key) =~= s);
        },
        None => {
            lemma_no_entry(s, key, 0);
            lemma_entry_is(t, key, 0, s.len() as int);
            assert(released(t, key) =~= s);
        },
    }
}

} // verus!
