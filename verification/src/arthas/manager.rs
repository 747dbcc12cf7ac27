//! The sessions with arthas: which are there, which may be used, which have to go.

use crate::chars;
use crate::text;
use vstd::prelude::*;

verus! {

/// How many sessions are kept.
pub const MAX_SESSIONS: usize = 3;

/// How long putting arthas into a process may take, in seconds.
pub const ATTACH_TASK_TIMEOUT_SECS: u64 = 300;

#[derive(Debug)]
pub enum ManagerError {
    Attach(String),
    NotOpen { attaching: bool },
    Timeout(u64),
    Upstream(String),
    Transport(String),
}

impl Clone for ManagerError {
    fn clone(&self) -> (r: Self)
        ensures
            r == *self,
    {
        match self {
            ManagerError::Attach(m) => ManagerError::Attach(m.clone()),
            ManagerError::NotOpen { attaching } => ManagerError::NotOpen { attaching: *attaching },
            ManagerError::Timeout(secs) => ManagerError::Timeout(*secs),
            ManagerError::Upstream(m) => ManagerError::Upstream(m.clone()),
            ManagerError::Transport(m) => ManagerError::Transport(m.clone()),
        }
    }
}

pub open spec fn manager_error_text(e: ManagerError) -> Seq<char> {
    match e {
        ManagerError::Attach(m) => "attach 失败："@ + m@,
        ManagerError::NotOpen { .. } => "该 JVM 尚未 attach arthas"@,
        ManagerError::Timeout(secs) => "arthas 调用超时（"@ + chars::dec(secs as nat) + "s）"@,
        ManagerError::Upstream(m) => m@,
        ManagerError::Transport(m) => "arthas 通道传输错误："@ + m@,
    }
}

impl ManagerError {
    pub fn message(&self) -> (r: String)
        ensures
            r@ == manager_error_text(*self),
    {
        match self {
            ManagerError::Attach(m) => {
                let mut s = text::owned("attach 失败：");
                s.append(m.as_str());
                s
            },
            ManagerError::NotOpen { .. } => text::owned("该 JVM 尚未 attach arthas"),
            ManagerError::Timeout(secs) => {
                let mut s = text::owned("arthas 调用超时（");
                s.append(text::dec(*secs).as_str());
                s.append("s）");
                s
            },
            ManagerError::Upstream(m) => m.clone(),
            ManagerError::Transport(m) => {
                let mut s = text::owned("arthas 通道传输错误：");
                s.append(m.as_str());
                s
            },
        }
    }
}

/// What a tool of arthas answered.
#[derive(Debug)]
pub struct CallOutcome {
    pub text: String,
    pub is_error: bool,
}

/// A session that was made: the numbers of its client and of the way to stop it, and the
/// port of arthas.
#[derive(Clone, Copy, Debug)]
pub struct AttachedSession {
    pub client: u64,
    pub stop_handle: u64,
    pub remote_port: u16,
}

/// Times in milliseconds.
#[derive(Clone, Copy, Debug)]
pub struct ArthasConfig {
    /// How long a session may stay unused.
    pub idle_timeout: u64,
    /// How often the sessions are looked through.
    pub idle_tick: u64,
}

impl Default for ArthasConfig {
    fn default() -> (r: Self)
        ensures
            r.idle_timeout == 15 * 60 * 1000,
            r.idle_tick == 30 * 1000,
    {
        ArthasConfig { idle_timeout: 900000, idle_tick: 30000 }
    }
}

#[derive(Debug)]
pub enum ArthasPhase {
    Attaching,
    Ready,
    Failed { error: ManagerError },
}

impl Clone for ArthasPhase {
    fn clone(&self) -> (r: Self)
        ensures
            r == *self,
    {
        match self {
            ArthasPhase::Attaching => ArthasPhase::Attaching,
            ArthasPhase::Ready => ArthasPhase::Ready,
            ArthasPhase::Failed { error } => ArthasPhase::Failed { error: error.clone() },
        }
    }
}

/// A session with a process of an environment.
#[derive(Debug)]
pub struct ArthasEntry {
    pub env_id: String,
    pub pid: i64,
    pub phase: ArthasPhase,
    pub client: Option<u64>,
    pub stop_handle: Option<u64>,
    /// When it was used last.
    pub last_active: u64,
    /// How many calls are under way.
    pub inflight: u32,
    /// The number of the task that makes it.
    pub task_id: u64,
    pub remote_port: Option<u16>,
}

#[derive(Debug)]
pub struct OpenOutcome {
    pub env_id: String,
    pub pid: i64,
    pub summary: String,
}

/// What opening a session leads to.
#[derive(Debug)]
pub enum OpenStep {
    /// There is one that is ready.
    Reused(OpenOutcome),
    /// There is one that is not ready: its phase is to be waited for.
    Wait,
    /// A new one was entered: the task of this number has to make it, and those that had to
    /// go are to be stopped.
    Start { task_id: u64, stops: Vec<u64> },
}

/// What somebody who waits for a session sees.
#[derive(Debug)]
pub enum OpenSignal {
    Phase(ArthasPhase),
    TimedOut,
    /// The session that was waited for is gone.
    Gone,
}

/// What making a session came to.
#[derive(Debug)]
pub enum AttachResult {
    Attached(AttachedSession),
    Failed(ManagerError),
    TimedOut,
}

/// What a call came to.
#[derive(Debug)]
pub enum QueryResult {
    Answered(CallOutcome),
    TransportFailed(String),
    TimedOut,
}

/// What has to be ended with a session.
#[derive(Clone, Copy, Debug)]
pub struct Released {
    pub stop_handle: Option<u64>,
    pub client: Option<u64>,
}

pub open spec fn is_of(e: ArthasEntry, env_id: Seq<char>, pid: i64) -> bool {
    e.env_id@ == env_id && e.pid == pid
}

/// The first session, from `i` on, with this process.
pub open spec fn entry_of(s: Seq<ArthasEntry>, env_id: Seq<char>, pid: i64, i: int) -> Option<int>
    decreases s.len() - i,
{
    if i < 0 || i >= s.len() {
        None
    } else if is_of(s[i], env_id, pid) {
        Some(i)
    } else {
        entry_of(s, env_id, pid, i + 1)
    }
}

/// Among the first `n` sessions, the one that is ready and was used least recently.
pub open spec fn oldest_ready(s: Seq<ArthasEntry>, n: int) -> Option<int>
    decreases n,
{
    if n <= 0 {
        None
    } else {
        let before = oldest_ready(s, n - 1);
        if !(s[n - 1].phase is Ready) {
            before
        } else {
            match before {
                Some(i) => if s[n - 1].last_active < s[i].last_active {
                    Some(n - 1)
                } else {
                    before
                },
                None => Some(n - 1),
            }
        }
    }
}

/// The sessions that stay once there is room for one more: while there are too many, the
/// one that is ready and was used least recently goes. Where none is ready, all stay.
pub open spec fn roomy(s: Seq<ArthasEntry>) -> Seq<ArthasEntry>
    decreases s.len(),
{
    if s.len() < MAX_SESSIONS {
        s
    } else {
        match oldest_ready(s, s.len() as int) {
            Some(i) => if 0 <= i < s.len() {
                roomy(s.remove(i))
            } else {
                s
            },
            None => s,
        }
    }
}

/// What has to be stopped for that, in order.
pub open spec fn evicted(s: Seq<ArthasEntry>) -> Seq<u64>
    decreases s.len(),
{
    if s.len() < MAX_SESSIONS {
        Seq::empty()
    } else {
        match oldest_ready(s, s.len() as int) {
            Some(i) => if 0 <= i < s.len() {
                handles_of(s[i]) + evicted(s.remove(i))
            } else {
                Seq::empty()
            },
            None => Seq::empty(),
        }
    }
}

pub open spec fn handles_of(e: ArthasEntry) -> Seq<u64> {
    match e.stop_handle {
        Some(h) => seq![h],
        None => Seq::empty(),
    }
}


/// The session may go for having been unused: it is older than the limit, nothing is under
/// way in it, and it is not in the making.
pub open spec fn reapable(e: ArthasEntry, now: u64, idle_timeout: u64) -> bool {
    &&& now - e.last_active > idle_timeout
    &&& match e.phase {
        ArthasPhase::Ready => e.inflight == 0,
        ArthasPhase::Failed { .. } => true,
        ArthasPhase::Attaching => false,
    }
}

pub fn is_reapable(e: &ArthasEntry, now: u64, idle_timeout: u64) -> (r: bool)
    ensures
        r == reapable(*e, now, idle_timeout),
{
    if now <= e.last_active || now - e.last_active <= idle_timeout {
        return false;
    }
    match e.phase {
        ArthasPhase::Ready => e.inflight == 0,
        ArthasPhase::Failed { .. } => true,
        ArthasPhase::Attaching => false,
    }
}

/// The session in the making.
pub open spec fn fresh(
    e: ArthasEntry,
    env_id: Seq<char>,
    pid: i64,
    now: u64,
    task_id: u64,
) -> bool {
    &&& e.env_id@ == env_id
    &&& e.pid == pid
    &&& e.phase is Attaching
    &&& e.client is None
    &&& e.stop_handle is None
    &&& e.last_active == now
    &&& e.inflight == 0
    &&& e.task_id == task_id
    &&& e.remote_port is None
}

/// The sessions without one of this process that failed.
pub open spec fn cleared(s: Seq<ArthasEntry>, env_id: Seq<char>, pid: i64) -> Seq<ArthasEntry> {
    match entry_of(s, env_id, pid, 0) {
        Some(i) => if s[i].phase is Failed {
            s.remove(i)
        } else {
            s
        },
        None => s,
    }
}

/// What opening a session does, to the sessions `s` and the last number `n` of a task. One
/// that failed does not count. One that is ready is used; one in the making is waited for;
/// else a new one is entered, after room was made for it.
pub open spec fn is_opened(
    s: Seq<ArthasEntry>,
    n: u64,
    env_id: Seq<char>,
    pid: i64,
    now: u64,
    r: OpenStep,
    s2: Seq<ArthasEntry>,
    n2: u64,
) -> bool {
    let t = cleared(s, env_id, pid);
    match entry_of(t, env_id, pid, 0) {
        Some(i) => {
            &&& n2 == n
            &&& if t[i].phase is Ready {
                &&& r matches OpenStep::Reused(o)
                &&& o.env_id@ == env_id
                &&& o.pid == pid
                &&& o.summary@ == "arthas 已就绪（复用现有 attach）"@
                &&& s2 == t.update(i, ArthasEntry { last_active: now, ..t[i] })
            } else {
                r is Wait && s2 == t
            }
        },
        None => {
            &&& n2 == n + 1
            &&& r matches OpenStep::Start { task_id, stops }
            &&& task_id == n2
            &&& stops@ == evicted(t)
            &&& s2.len() == roomy(t).len() + 1
            &&& s2.drop_last() == roomy(t)
            &&& fresh(s2.last(), env_id, pid, now, task_id)
        },
    }
}

/// The sessions once somebody who waited was told: one that failed is taken out.
pub open spec fn waited(
    s: Seq<ArthasEntry>,
    env_id: Seq<char>,
    pid: i64,
    signal: OpenSignal,
) -> Seq<ArthasEntry> {
    match signal {
        OpenSignal::Phase(ArthasPhase::Failed { .. }) => cleared(s, env_id, pid),
        _ => s,
    }
}

/// What a task that ends does to the sessions: its own one is settled, any other stays.
pub open spec fn is_settled(
    s: Seq<ArthasEntry>,
    env_id: Seq<char>,
    pid: i64,
    task_id: u64,
    result: AttachResult,
    now: u64,
    s2: Seq<ArthasEntry>,
) -> bool {
    match entry_of(s, env_id, pid, 0) {
        Some(i) if s[i].task_id == task_id => match result {
            AttachResult::Attached(a) => s2 == s.update(i, made(s[i], a, now)),
            AttachResult::Failed(error) => s2 == s.update(
                i,
                ArthasEntry { phase: ArthasPhase::Failed { error }, ..s[i] },
            ),
            AttachResult::TimedOut => {
                &&& s2.len() == s.len()
                &&& s2[i].phase matches ArthasPhase::Failed { error }
                &&& error matches ManagerError::Attach(m)
                &&& m@ == "attach 超时（"@ + chars::dec(ATTACH_TASK_TIMEOUT_SECS as nat)
                    + "s 硬超时）"@
                &&& s2 == s.update(i, ArthasEntry { phase: s2[i].phase, ..s[i] })
            },
        },
        _ => s2 == s,
    }
}

/// What a call is answered with.
pub open spec fn answer(result: QueryResult, timeout_secs: u64) -> Result<CallOutcome, ManagerError> {
    match result {
        QueryResult::Answered(o) => Ok::<CallOutcome, ManagerError>(o),
        QueryResult::TransportFailed(m) => Err(ManagerError::Transport(m)),
        QueryResult::TimedOut => Err(ManagerError::Timeout(timeout_secs)),
    }
}

/// A session as the task leaves it that made it.
pub open spec fn made(e: ArthasEntry, a: AttachedSession, now: u64) -> ArthasEntry {
    ArthasEntry {
        client: Some(a.client),
        stop_handle: Some(a.stop_handle),
        remote_port: Some(a.remote_port),
        last_active: now,
        phase: ArthasPhase::Ready,
        ..e
    }
}

pub open spec fn port_of(e: ArthasEntry) -> Option<u16> {
    if e.phase is Ready {
        e.remote_port
    } else {
        None
    }
}

/// The ports that the sessions with an environment have, where they are ready.
pub open spec fn ports(s: Seq<ArthasEntry>, env_id: Seq<char>) -> Seq<u16>
    decreases s.len(),
{
    if s.len() == 0 {
        Seq::empty()
    } else if s.last().env_id@ == env_id && port_of(s.last()) is Some {
        ports(s.drop_last(), env_id).push(port_of(s.last())->0)
    } else {
        ports(s.drop_last(), env_id)
    }
}

pub open spec fn released(e: ArthasEntry) -> Released {
    Released { stop_handle: e.stop_handle, client: e.client }
}

/// No two sessions are with the same process, nor made by the same task, and the numbers
/// of tasks are handed out in order.
pub open spec fn proper(s: Seq<ArthasEntry>, next_task_id: u64) -> bool {
    &&& forall|i: int, j: int|
        0 <= i < j < s.len() ==> !is_of(#[trigger] s[i], (#[trigger] s[j]).env_id@, s[j].pid)
    &&& forall|i: int, j: int|
        0 <= i < j < s.len() ==> (#[trigger] s[i]).task_id != (#[trigger] s[j]).task_id
    &&& forall|i: int| 0 <= i < s.len() ==> (#[trigger] s[i]).task_id <= next_task_id
}

/// The sessions with arthas.
#[derive(Debug)]
pub struct ArthasManager {
    pub sessions: Vec<ArthasEntry>,
    /// Whether somebody looks the sessions through from time to time.
    pub reaper_spawned: bool,
    pub next_task_id: u64,
}

impl ArthasManager {
    pub open spec fn wf(&self) -> bool {
        proper(self.sessions@, self.next_task_id)
    }

    pub fn new() -> (r: Self)
        ensures
            r.wf(),
            r.sessions@ == Seq::<ArthasEntry>::empty(),
            !r.reaper_spawned,
            r.next_task_id == 0,
    {
        ArthasManager { sessions: Vec::new(), reaper_spawned: false, next_task_id: 0 }
    }

    /// Whether the sessions are to be looked through from now on; only once it says so.
    pub fn ensure_reaper(&mut self) -> (r: bool)
        ensures
            r == !old(self).reaper_spawned,
            final(self).reaper_spawned,
            final(self).sessions == old(self).sessions,
            final(self).next_task_id == old(self).next_task_id,
    {
        let first = !self.reaper_spawned;
        self.reaper_spawned = true;
        first
    }

    fn find(&self, env_id: &str, pid: i64) -> (r: Option<usize>)
        ensures
            match r {
                Some(i) => i < self.sessions@.len() && entry_of(self.sessions@, env_id@, pid, 0)
                    == Some(i as int) && is_of(self.sessions@[i as int], env_id@, pid),
                None => entry_of(self.sessions@, env_id@, pid, 0) is None && forall|k: int|
                    0 <= k < self.sessions@.len() ==> !is_of(
                        #[trigger] self.sessions@[k],
                        env_id@,
                        pid,
                    ),
            },
    {
        let mut i: usize = 0;
        while i < self.sessions.len()
            invariant
                i <= self.sessions@.len(),
                entry_of(self.sessions@, env_id@, pid, 0) == entry_of(
                    self.sessions@,
                    env_id@,
                    pid,
                    i as int,
                ),
                forall|k: int|
                    0 <= k < i ==> !is_of(#[trigger] self.sessions@[k], env_id@, pid),
            decreases self.sessions@.len() - i,
        {
            if self.sessions[i].pid == pid && text::same(
                self.sessions[i].env_id.as_str(),
                env_id,
            ) {
                return Some(i);
            }
            i = i + 1;
        }
        None
    }

    /// The session that is ready and was used least recently.
    fn lru_ready_victim(&self) -> (r: Option<usize>)
        ensures
            match r {
                Some(i) => i < self.sessions@.len() && oldest_ready(
                    self.sessions@,
                    self.sessions@.len() as int,
                ) == Some(i as int),
                None => oldest_ready(self.sessions@, self.sessions@.len() as int) is None,
            },
    {
        let mut best: Option<usize> = None;
        let mut i: usize = 0;
        while i < self.sessions.len()
            invariant
                i <= self.sessions@.len(),
                match best {
                    Some(b) => b < i && oldest_ready(self.sessions@, i as int) == Some(b as int),
                    None => oldest_ready(self.sessions@, i as int) is None,
                },
            decreases self.sessions@.len() - i,
        {
            let ready = match self.sessions[i].phase {
                ArthasPhase::Ready => true,
                _ => false,
            };
            if ready {
                match best {
                    Some(b) => {
                        if self.sessions[i].last_active < self.sessions[b].last_active {
                            best = Some(i);
                        }
                    },
                    None => {
                        best = Some(i);
                    },
                }
            }
            i = i + 1;
        }
        best
    }

    fn make_room(&mut self) -> (stops: Vec<u64>)
        requires
            old(self).wf(),
        ensures
            final(self).wf(),
            final(self).sessions@ == roomy(old(self).sessions@),
            stops@ == evicted(old(self).sessions@),
            final(self).next_task_id == old(self).next_task_id,
            final(self).reaper_spawned == old(self).reaper_spawned,
            forall|env_id: Seq<char>, pid: i64|
                entry_of(old(self).sessions@, env_id, pid, 0) is None ==> #[trigger] entry_of(
                    final(self).sessions@,
                    env_id,
                    pid,
                    0,
                ) is None,
    {
        let ghost all = self.sessions@;
        let mut stops: Vec<u64> = Vec::new();
        assert(stops@ + evicted(all) =~= evicted(all));
        while self.sessions.len() >= MAX_SESSIONS
            invariant
                self.wf(),
                roomy(self.sessions@) == roomy(all),
                stops@ + evicted(self.sessions@) == evicted(all),
                self.next_task_id == old(self).next_task_id,
                self.reaper_spawned == old(self).reaper_spawned,
                forall|env_id: Seq<char>, pid: i64|
                    entry_of(all, env_id, pid, 0) is None ==> #[trigger] entry_of(
                        self.sessions@,
                        env_id,
                        pid,
                        0,
                    ) is None,
                all == old(self).sessions@,
            ensures
                self.sessions@ == roomy(self.sessions@),
                evicted(self.sessions@) == Seq::<u64>::empty(),
            decreases self.sessions@.len(),
        {
            let ghost s = self.sessions@;
            match self.lru_ready_victim() {
                Some(i) => {
                    let ghost gone = stops@;
                    match self.sessions[i].stop_handle {
                        Some(h) => {
                            stops.push(h);
                        },
                        None => {},
                    }
                    assert(stops@ =~= gone + handles_of(s[i as int]));
                    let _entry = self.sessions.remove(i);
                    proof {
                        assert(self.sessions@ =~= s.remove(i as int));
                        assert(stops@ + evicted(self.sessions@) =~= gone + evicted(s));
                        assert forall|env_id: Seq<char>, pid: i64|
                            entry_of(all, env_id, pid, 0) is None implies #[trigger] entry_of(
                            self.sessions@,
                            env_id,
                            pid,
                            0,
                        ) is None by {
                            assert(entry_of(s, env_id, pid, 0) is None);
                            lemma_absent(s, env_id, pid, 0);
                            lemma_none(self.sessions@, env_id, pid, 0);
                        }
                    }
                },
                None => {
                    break;
                },
            }
        }
        assert(stops@ =~= evicted(all));
        stops
    }

    fn clear(&mut self, env_id: &str, pid: i64)
        requires
            old(self).wf(),
        ensures
            final(self).wf(),
            final(self).next_task_id == old(self).next_task_id,
            final(self).reaper_spawned == old(self).reaper_spawned,
            final(self).sessions@ == cleared(old(self).sessions@, env_id@, pid),
    {
        match self.find(env_id, pid) {
            Some(i) => {
                let failed = match self.sessions[i].phase {
                    ArthasPhase::Failed { .. } => true,
                    _ => false,
                };
                if failed {
                    let _gone = self.sessions.remove(i);
                }
            },
            None => {},
        }
    }

    /// Opens a session with a process. One that is ready is used; one in the making is
    /// waited for; else, also where one failed, a new one is entered, after room was made
    /// for it.
    pub fn open(&mut self, env_id: &str, pid: i64, now: u64) -> (r: OpenStep)
        requires
            old(self).wf(),
            old(self).next_task_id < u64::MAX,
        ensures
            final(self).wf(),
            final(self).reaper_spawned == old(self).reaper_spawned,
            is_opened(
                old(self).sessions@,
                old(self).next_task_id,
                env_id@,
                pid,
                now,
                r,
                final(self).sessions@,
                final(self).next_task_id,
            ),
    {
        self.clear(env_id, pid);
        match self.find(env_id, pid) {
            Some(i) => {
                let ready = match self.sessions[i].phase {
                    ArthasPhase::Ready => true,
                    _ => false,
                };
                if ready {
                    self.sessions[i].last_active = now;
                    OpenStep::Reused(
                        OpenOutcome {
                            env_id: text::owned(env_id),
                            pid,
                            summary: text::owned("arthas 已就绪（复用现有 attach）"),
                        },
                    )
                } else {
                    OpenStep::Wait
                }
            },
            None => {
                let stops = self.make_room();
                let ghost room = self.sessions@;
                self.next_task_id = self.next_task_id + 1;
                let task_id = self.next_task_id;
                let entry = ArthasEntry {
                    env_id: text::owned(env_id),
                    pid,
                    phase: ArthasPhase::Attaching,
                    client: None,
                    stop_handle: None,
                    last_active: now,
                    inflight: 0,
                    task_id,
                    remote_port: None,
                };
                proof {
                    assert(entry_of(room, env_id@, pid, 0) is None);
                    lemma_absent(room, env_id@, pid, 0);
                }
                self.sessions.push(entry);
                assert(self.sessions@.drop_last() =~= room);
                OpenStep::Start { task_id, stops }
            },
        }
    }

    fn take(&mut self, env_id: &str, pid: i64) -> (r: Option<Released>)
        requires
            old(self).wf(),
        ensures
            final(self).wf(),
            final(self).next_task_id == old(self).next_task_id,
            final(self).reaper_spawned == old(self).reaper_spawned,
            match entry_of(old(self).sessions@, env_id@, pid, 0) {
                Some(i) => r == Some(released(old(self).sessions@[i])) && final(self).sessions@
                    == old(self).sessions@.remove(i),
                None => r is None && final(self).sessions@ == old(self).sessions@,
            },
    {
        match self.find(env_id, pid) {
            Some(i) => {
                let e = self.sessions.remove(i);
                Some(Released { stop_handle: e.stop_handle, client: e.client })
            },
            None => None,
        }
    }

    /// Tells somebody who waits for a session what came of it; `None` while it is still in
    /// the making. One that failed is taken out, so that the next try begins anew.
    pub fn wait_open(
        &mut self,
        env_id: &str,
        pid: i64,
        timeout_secs: u64,
        signal: OpenSignal,
    ) -> (r: Option<Result<OpenOutcome, ManagerError>>)
        requires
            old(self).wf(),
        ensures
            final(self).wf(),
            final(self).next_task_id == old(self).next_task_id,
            final(self).reaper_spawned == old(self).reaper_spawned,
            final(self).sessions@ == waited(old(self).sessions@, env_id@, pid, signal),
            match signal {
                OpenSignal::Phase(ArthasPhase::Ready) => r matches Some(Ok(o)) && o.env_id@
                    == env_id@ && o.pid == pid && o.summary@ == "arthas 已就绪"@,
                OpenSignal::Phase(ArthasPhase::Failed { error }) => r == Some(
                    Err::<OpenOutcome, ManagerError>(error),
                ),
                OpenSignal::Phase(ArthasPhase::Attaching) => r is None,
                OpenSignal::TimedOut => r == Some(
                    Err::<OpenOutcome, ManagerError>(ManagerError::Timeout(timeout_secs)),
                ),
                OpenSignal::Gone => r matches Some(Err(ManagerError::Attach(m))) && m@
                    == "attach 会话已被回收，请重试 arthas_open"@,
            },
    {
        match signal {
            OpenSignal::Phase(ArthasPhase::Ready) => Some(
                Ok(
                    OpenOutcome {
                        env_id: text::owned(env_id),
                        pid,
                        summary: text::owned("arthas 已就绪"),
                    },
                ),
            ),
            OpenSignal::Phase(ArthasPhase::Failed { error }) => {
                self.clear(env_id, pid);
                Some(Err(error))
            },
            OpenSignal::Phase(ArthasPhase::Attaching) => None,
            OpenSignal::TimedOut => Some(Err(ManagerError::Timeout(timeout_secs))),
            OpenSignal::Gone => Some(
                Err(ManagerError::Attach(text::owned("attach 会话已被回收，请重试 arthas_open"))),
            ),
        }
    }

    /// Begins a call: the client of the session, where it is ready.
    pub fn query(&mut self, env_id: &str, pid: i64, now: u64) -> (r: Result<u64, ManagerError>)
        requires
            old(self).wf(),
            forall|i: int|
                0 <= i < old(self).sessions@.len() ==> (#[trigger] old(self).sessions@[i]).inflight
                    < u32::MAX,
        ensures
            final(self).wf(),
            final(self).next_task_id == old(self).next_task_id,
            final(self).reaper_spawned == old(self).reaper_spawned,
            match entry_of(old(self).sessions@, env_id@, pid, 0) {
                Some(i) => {
                    let e = old(self).sessions@[i];
                    if e.phase is Ready && e.client is Some {
                        r == Ok::<u64, ManagerError>(e.client->0) && final(self).sessions@ == old(
                            self,
                        ).sessions@.update(
                            i,
                            ArthasEntry {
                                inflight: (e.inflight + 1) as u32,
                                last_active: now,
                                ..e
                            },
                        )
                    } else {
                        r == Err::<u64, ManagerError>(
                            ManagerError::NotOpen { attaching: e.phase is Attaching },
                        ) && final(self).sessions@ == old(self).sessions@
                    }
                },
                None => r == Err::<u64, ManagerError>(ManagerError::NotOpen { attaching: false })
                    && final(self).sessions@ == old(self).sessions@,
            },
    {
        match self.find(env_id, pid) {
            None => Err(ManagerError::NotOpen { attaching: false }),
            Some(i) => {
                match self.sessions[i].phase {
                    ArthasPhase::Ready => {
                        match self.sessions[i].client {
                            Some(client) => {
                                let n: u32 = self.sessions[i].inflight;
                                self.sessions[i].inflight = n + 1;
                                self.sessions[i].last_active = now;
                                assert(self.sessions@ =~= old(self).sessions@.update(
                                    i as int,
                                    ArthasEntry {
                                        inflight: (n + 1) as u32,
                                        last_active: now,
                                        ..old(self).sessions@[i as int]
                                    },
                                ));
                                Ok(client)
                            },
                            None => Err(ManagerError::NotOpen { attaching: false }),
                        }
                    },
                    ArthasPhase::Attaching => Err(ManagerError::NotOpen { attaching: true }),
                    ArthasPhase::Failed { .. } => Err(ManagerError::NotOpen { attaching: false }),
                }
            },
        }
    }

    /// Ends a call: what it came to, and what has to be stopped. Where the way to arthas
    /// failed, its session is taken out.
    pub fn finish_query(
        &mut self,
        env_id: &str,
        pid: i64,
        now: u64,
        timeout_secs: u64,
        result: QueryResult,
    ) -> (r: (Result<CallOutcome, ManagerError>, Option<u64>))
        requires
            old(self).wf(),
        ensures
            final(self).wf(),
            final(self).next_task_id == old(self).next_task_id,
            final(self).reaper_spawned == old(self).reaper_spawned,
            match entry_of(old(self).sessions@, env_id@, pid, 0) {
                Some(i) => {
                    let e = old(self).sessions@[i];
                    if result is TransportFailed {
                        final(self).sessions@ == old(self).sessions@.remove(i) && r.1
                            == e.stop_handle
                    } else {
                        r.1 is None && final(self).sessions@ == old(self).sessions@.update(
                            i,
                            ArthasEntry {
                                inflight: if e.inflight == 0 {
                                    0
                                } else {
                                    (e.inflight - 1) as u32
                                },
                                last_active: now,
                                ..e
                            },
                        )
                    }
                },
                None => r.1 is None && final(self).sessions@ == old(self).sessions@,
            },
            r.0 == answer(result, timeout_secs),
            r.0 == (match result {
                QueryResult::Answered(o) => Ok::<CallOutcome, ManagerError>(o),
                QueryResult::TransportFailed(m) => Err(ManagerError::Transport(m)),
                QueryResult::TimedOut => Err(ManagerError::Timeout(timeout_secs)),
            }),
    {
        match self.find(env_id, pid) {
            Some(i) => {
                match result {
                    QueryResult::TransportFailed(m) => {
                        let e = self.sessions.remove(i);
                        (Err(ManagerError::Transport(m)), e.stop_handle)
                    },
                    _ => {
                        let n: u32 = self.sessions[i].inflight;
                        self.sessions[i].inflight = n.saturating_sub(1);
                        self.sessions[i].last_active = now;
                        assert(self.sessions@ =~= old(self).sessions@.update(
                            i as int,
                            ArthasEntry {
                                inflight: if n == 0 {
                                    0
                                } else {
                                    (n - 1) as u32
                                },
                                last_active: now,
                                ..old(self).sessions@[i as int]
                            },
                        ));
                        match result {
                            QueryResult::Answered(o) => (Ok(o), None),
                            _ => (Err(ManagerError::Timeout(timeout_secs)), None),
                        }
                    },
                }
            },
            None => {
                match result {
                    QueryResult::Answered(o) => (Ok(o), None),
                    QueryResult::TransportFailed(m) => (Err(ManagerError::Transport(m)), None),
                    QueryResult::TimedOut => (Err(ManagerError::Timeout(timeout_secs)), None),
                }
            },
        }
    }

    /// Closes a session; `None` where there was none.
    pub fn close(&mut self, env_id: &str, pid: i64) -> (r: Option<Released>)
        requires
            old(self).wf(),
        ensures
            final(self).wf(),
            final(self).next_task_id == old(self).next_task_id,
            final(self).reaper_spawned == old(self).reaper_spawned,
            match entry_of(old(self).sessions@, env_id@, pid, 0) {
                Some(i) => r == Some(released(old(self).sessions@[i])) && final(self).sessions@
                    == old(self).sessions@.remove(i),
                None => r is None && final(self).sessions@ == old(self).sessions@,
            },
    {
        self.take(env_id, pid)
    }

    /// Closes all sessions with an environment.
    pub fn close_for_environment(&mut self, env_id: &str) -> (r: Vec<Released>)
        requires
            old(self).wf(),
        ensures
            final(self).wf(),
            final(self).next_task_id == old(self).next_task_id,
            final(self).reaper_spawned == old(self).reaper_spawned,
            final(self).sessions@ == kept_elsewhere(old(self).sessions@, env_id@),
            r@ == released_here(old(self).sessions@, env_id@),
    {
        let ghost all = self.sessions@;
        let mut gone: Vec<Released> = Vec::new();
        let mut i: usize = 0;
        let ghost mut seen: int = 0;
        assert(all.take(0) =~= Seq::<ArthasEntry>::empty());
        assert(self.sessions@ =~= kept_elsewhere(all.take(0), env_id@) + all.skip(0));
        while i < self.sessions.len()
            invariant
                self.wf(),
                self.next_task_id == old(self).next_task_id,
                self.reaper_spawned == old(self).reaper_spawned,
                0 <= seen <= all.len(),
                i == kept_elsewhere(all.take(seen), env_id@).len(),
                self.sessions@ == kept_elsewhere(all.take(seen), env_id@) + all.skip(seen),
                gone@ == released_here(all.take(seen), env_id@),
            decreases self.sessions@.len() - i,
        {
            let ghost s = self.sessions@;
            proof {
                assert(s[i as int] == all[seen]);
                assert(all.take(seen + 1).drop_last() =~= all.take(seen));
                assert(all.take(seen + 1).last() == all[seen]);
            }
            if text::same(self.sessions[i].env_id.as_str(), env_id) {
                let e = self.sessions.remove(i);
                gone.push(Released { stop_handle: e.stop_handle, client: e.client });
                assert(self.sessions@ =~= s.remove(i as int));
                assert(self.sessions@ =~= kept_elsewhere(all.take(seen + 1), env_id@) + all.skip(
                    seen + 1,
                ));
            } else {
                i = i + 1;
                assert(self.sessions@ =~= kept_elsewhere(all.take(seen + 1), env_id@) + all.skip(
                    seen + 1,
                ));
            }
            proof {
                seen = seen + 1;
            }
        }
        proof {
            assert(seen == all.len());
            assert(all.take(seen) =~= all);
            assert(self.sessions@ =~= kept_elsewhere(all, env_id@));
        }
        gone
    }

    /// The ports of arthas that the sessions with an environment use.
    pub fn active_remote_ports(&self, env_id: &str) -> (r: Vec<u16>)
        ensures
            r@ == ports(self.sessions@, env_id@),
    {
        let mut out: Vec<u16> = Vec::new();
        let mut i: usize = 0;
        let ghost all = self.sessions@;
        while i < self.sessions.len()
            invariant
                i <= self.sessions@.len(),
                all == self.sessions@,
                out@ == ports(all.take(i as int), env_id@),
            decreases self.sessions@.len() - i,
        {
            proof {
                assert(all.take(i + 1).drop_last() =~= all.take(i as int));
                assert(all.take(i + 1).last() == all[i as int]);
            }
            let e = &self.sessions[i];
            if text::same(e.env_id.as_str(), env_id) {
                match e.phase {
                    ArthasPhase::Ready => {
                        match e.remote_port {
                            Some(p) => {
                                out.push(p);
                            },
                            None => {},
                        }
                    },
                    _ => {},
                }
            }
            i = i + 1;
        }
        assert(all.take(i as int) =~= all);
        out
    }

    /// Takes out the sessions that were unused for too long: what has to be stopped.
    pub fn reap(&mut self, now: u64, idle_timeout: u64) -> (stops: Vec<u64>)
        requires
            old(self).wf(),
        ensures
            final(self).wf(),
            final(self).next_task_id == old(self).next_task_id,
            final(self).reaper_spawned == old(self).reaper_spawned,
            final(self).sessions@ == kept_in_use(old(self).sessions@, now, idle_timeout),
            stops@ == reaped(old(self).sessions@, now, idle_timeout),
    {
        let ghost all = self.sessions@;
        let mut stops: Vec<u64> = Vec::new();
        let mut i: usize = 0;
        let ghost mut seen: int = 0;
        assert(all.take(0) =~= Seq::<ArthasEntry>::empty());
        assert(self.sessions@ =~= kept_in_use(all.take(0), now, idle_timeout) + all.skip(0));
        while i < self.sessions.len()
            invariant
                self.wf(),
                self.next_task_id == old(self).next_task_id,
                self.reaper_spawned == old(self).reaper_spawned,
                0 <= seen <= all.len(),
                i == kept_in_use(all.take(seen), now, idle_timeout).len(),
                self.sessions@ == kept_in_use(all.take(seen), now, idle_timeout) + all.skip(seen),
                stops@ == reaped(all.take(seen), now, idle_timeout),
            decreases self.sessions@.len() - i,
        {
            let ghost s = self.sessions@;
            proof {
                assert(s[i as int] == all[seen]);
                assert(all.take(seen + 1).drop_last() =~= all.take(seen));
                assert(all.take(seen + 1).last() == all[seen]);
            }
            if is_reapable(&self.sessions[i], now, idle_timeout) {
                let ghost before = stops@;
                let e = self.sessions.remove(i);
                match e.stop_handle {
                    Some(h) => {
                        stops.push(h);
                    },
                    None => {},
                }
                assert(stops@ =~= before + handles_of(all[seen]));
                assert(self.sessions@ =~= s.remove(i as int));
            } else {
                i = i + 1;
            }
            proof {
                assert(self.sessions@ =~= kept_in_use(all.take(seen + 1), now, idle_timeout)
                    + all.skip(seen + 1));
                seen = seen + 1;
            }
        }
        proof {
            assert(seen == all.len());
            assert(all.take(seen) =~= all);
            assert(self.sessions@ =~= kept_in_use(all, now, idle_timeout));
        }
        stops
    }

    /// Takes in what a task made, where its session is still there and its own. Else what
    /// it made has to be ended.
    pub fn run_attach_task(
        &mut self,
        env_id: &str,
        pid: i64,
        task_id: u64,
        result: AttachResult,
        now: u64,
    ) -> (r: Option<AttachedSession>)
        requires
            old(self).wf(),
        ensures
            final(self).wf(),
            final(self).next_task_id == old(self).next_task_id,
            final(self).reaper_spawned == old(self).reaper_spawned,
            is_settled(
                old(self).sessions@,
                env_id@,
                pid,
                task_id,
                result,
                now,
                final(self).sessions@,
            ),
            match entry_of(old(self).sessions@, env_id@, pid, 0) {
                Some(i) if old(self).sessions@[i].task_id == task_id => r is None,
                _ => r == (match result {
                    AttachResult::Attached(a) => Some(a),
                    _ => None,
                }),
            },
    {
        let there = match self.find(env_id, pid) {
            Some(i) => {
                if self.sessions[i].task_id == task_id {
                    Some(i)
                } else {
                    None
                }
            },
            None => None,
        };
        match there {
            Some(i) => {
                match result {
                    AttachResult::Attached(a) => {
                        self.sessions[i].client = Some(a.client);
                        self.sessions[i].stop_handle = Some(a.stop_handle);
                        self.sessions[i].remote_port = Some(a.remote_port);
                        self.sessions[i].last_active = now;
                        self.sessions[i].phase = ArthasPhase::Ready;
                        assert(self.sessions@ =~= old(self).sessions@.update(
                            i as int,
                            made(old(self).sessions@[i as int], a, now),
                        ));
                    },
                    AttachResult::Failed(error) => {
                        self.sessions[i].phase = ArthasPhase::Failed { error };
                    },
                    AttachResult::TimedOut => {
                        let mut m = text::owned("attach 超时（");
                        m.append(text::dec(ATTACH_TASK_TIMEOUT_SECS).as_str());
                        m.append("s 硬超时）");
                        self.sessions[i].phase = ArthasPhase::Failed {
                            error: ManagerError::Attach(m),
                        };
                    },
                }
                None
            },
            None => {
                match result {
                    AttachResult::Attached(a) => Some(a),
                    _ => None,
                }
            },
        }
    }
}

/// The sessions that are not with this environment.
pub open spec fn kept_elsewhere(s: Seq<ArthasEntry>, env_id: Seq<char>) -> Seq<ArthasEntry>
    decreases s.len(),
{
    if s.len() == 0 {
        s
    } else if s.last().env_id@ == env_id {
        kept_elsewhere(s.drop_last(), env_id)
    } else {
        kept_elsewhere(s.drop_last(), env_id).push(s.last())
    }
}

/// What has to be ended with the sessions that are with this environment.
pub open spec fn released_here(s: Seq<ArthasEntry>, env_id: Seq<char>) -> Seq<Released>
    decreases s.len(),
{
    if s.len() == 0 {
        Seq::empty()
    } else if s.last().env_id@ == env_id {
        released_here(s.drop_last(), env_id).push(released(s.last()))
    } else {
        released_here(s.drop_last(), env_id)
    }
}

/// The sessions that may not go yet.
pub open spec fn kept_in_use(s: Seq<ArthasEntry>, now: u64, idle_timeout: u64) -> Seq<ArthasEntry>
    decreases s.len(),
{
    if s.len() == 0 {
        s
    } else if reapable(s.last(), now, idle_timeout) {
        kept_in_use(s.drop_last(), now, idle_timeout)
    } else {
        kept_in_use(s.drop_last(), now, idle_timeout).push(s.last())
    }
}

/// What has to be stopped with the sessions that go.
pub open spec fn reaped(s: Seq<ArthasEntry>, now: u64, idle_timeout: u64) -> Seq<u64>
    decreases s.len(),
{
    if s.len() == 0 {
        Seq::empty()
    } else if reapable(s.last(), now, idle_timeout) {
        reaped(s.drop_last(), now, idle_timeout) + handles_of(s.last())
    } else {
        reaped(s.drop_last(), now, idle_timeout)
    }
}

proof fn lemma_absent(s: Seq<ArthasEntry>, env_id: Seq<char>, pid: i64, i: int)
    requires
        entry_of(s, env_id, pid, i) is None,
        0 <= i,
    ensures
        forall|k: int| i <= k < s.len() ==> !is_of(#[trigger] s[k], env_id, pid),
    decreases s.len() - i,
{
    if i < s.len() {
        lemma_absent(s, env_id, pid, i + 1);
    }
}

proof fn lemma_none(s: Seq<ArthasEntry>, env_id: Seq<char>, pid: i64, i: int)
    requires
        forall|k: int| 0 <= k < s.len() ==> !is_of(#[trigger] s[k], env_id, pid),
    ensures
        entry_of(s, env_id, pid, i) is None,
    decreases s.len() - i,
{
    if 0 <= i < s.len() {
        lemma_none(s, env_id, pid, i + 1);
    }
}

/// Which session goes first: one that is ready, and none that is ready was used less
/// recently. None goes only where none is ready.
pub proof fn law_least_recent_goes_first(s: Seq<ArthasEntry>, n: int)
    requires
        0 <= n <= s.len(),
    ensures
        match oldest_ready(s, n) {
            Some(i) => 0 <= i < n && s[i].phase is Ready && forall|k: int|
                0 <= k < n && (#[trigger] s[k]).phase is Ready ==> s[i].last_active
                    <= s[k].last_active,
            None => forall|k: int| 0 <= k < n ==> !((#[trigger] s[k]).phase is Ready),
        },
    decreases n,
{
    if n > 0 {
        law_least_recent_goes_first(s, n - 1);
    }
}

/// Once a new session is entered there are no more than may be kept, unless none of the
/// others is ready. Those that are not ready are never given up for it.
pub proof fn law_sessions_are_capped(s: Seq<ArthasEntry>)
    ensures
        roomy(s).len() + 1 <= MAX_SESSIONS || forall|k: int|
            0 <= k < roomy(s).len() ==> !((#[trigger] roomy(s)[k]).phase is Ready),
        forall|k: int|
            0 <= k < s.len() && !((#[trigger] s[k]).phase is Ready) ==> roomy(s).contains(s[k]),
    decreases s.len(),
{
    if s.len() >= MAX_SESSIONS {
        law_least_recent_goes_first(s, s.len() as int);
        match oldest_ready(s, s.len() as int) {
            Some(i) => {
                let rest = s.remove(i);
                law_sessions_are_capped(rest);
                assert forall|k: int|
                    0 <= k < s.len() && !((#[trigger] s[k]).phase is Ready) implies roomy(
                    s,
                ).contains(s[k]) by {
                    let j = if k < i { k } else { k - 1 };
                    assert(rest[j] == s[k]);
                }
            },
            None => {
                assert forall|k: int|
                    0 <= k < s.len() && !((#[trigger] s[k]).phase is Ready) implies roomy(
                    s,
                ).contains(s[k]) by {
                    assert(roomy(s)[k] == s[k]);
                }
            },
        }
    } else {
        assert forall|k: int|
            0 <= k < s.len() && !((#[trigger] s[k]).phase is Ready) implies roomy(s).contains(
            s[k],
        ) by {
            assert(roomy(s)[k] == s[k]);
        }
    }
}

/// A session that is closed is gone: closing it again finds none.
pub proof fn law_closing_is_final(
    s: Seq<ArthasEntry>,
    next_task_id: u64,
    env_id: Seq<char>,
    pid: i64,
    i: int,
)
    requires
        proper(s, next_task_id),
        entry_of(s, env_id, pid, 0) == Some(i),
    ensures
        0 <= i < s.len(),
        entry_of(s.remove(i), env_id, pid, 0) is None,
{
    lemma_found(s, env_id, pid, 0);
    let rest = s.remove(i);
    assert forall|k: int| 0 <= k < rest.len() implies !is_of(#[trigger] rest[k], env_id, pid) by {
        if k < i {
            assert(rest[k] == s[k]);
        } else {
            assert(rest[k] == s[k + 1]);
            assert(!is_of(s[i], s[k + 1].env_id@, s[k + 1].pid));
        }
    }
    lemma_none(rest, env_id, pid, 0);
}

pub proof fn lemma_found(s: Seq<ArthasEntry>, env_id: Seq<char>, pid: i64, i: int)
    requires
        0 <= i,
    ensures
        match entry_of(s, env_id, pid, i) {
            Some(k) => i <= k < s.len() && is_of(s[k], env_id, pid) && forall|j: int|
                i <= j < k ==> !is_of(#[trigger] s[j], env_id, pid),
            None => true,
        },
    decreases s.len() - i,
{
    if i < s.len() {
        lemma_found(s, env_id, pid, i + 1);
    }
}

/// Looking the sessions through takes none that is in the making, none that is ready and
/// in which a call is under way, and none that was used within the time allowed.
pub proof fn law_reaping_spares_what_is_used(
    s: Seq<ArthasEntry>,
    now: u64,
    idle_timeout: u64,
    k: int,
)
    requires
        0 <= k < s.len(),
        s[k].phase is Attaching || (s[k].phase is Ready && s[k].inflight > 0) || now
            - s[k].last_active <= idle_timeout,
    ensures
        kept_in_use(s, now, idle_timeout).contains(s[k]),
    decreases s.len(),
{
    let front = kept_in_use(s.drop_last(), now, idle_timeout);
    if k < s.len() - 1 {
        law_reaping_spares_what_is_used(s.drop_last(), now, idle_timeout, k);
        assert(front.contains(s[k]));
        let j = choose|j: int| 0 <= j < front.len() && front[j] == s[k];
        assert(kept_in_use(s, now, idle_timeout)[j] == s[k]);
    } else {
        assert(kept_in_use(s, now, idle_timeout) == front.push(s.last()));
        assert(kept_in_use(s, now, idle_timeout)[front.len() as int] == s[k]);
    }
}

/// A session that is entered anew gets a number that no session before it had, so that no
/// task but its own can settle it.
pub proof fn law_numbers_are_not_used_again(s: Seq<ArthasEntry>, next_task_id: u64, k: int)
    requires
        proper(s, next_task_id),
        next_task_id < u64::MAX,
        0 <= k < s.len(),
    ensures
        s[k].task_id != next_task_id + 1,
{
}

} // verus!
