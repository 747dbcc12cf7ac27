//! The analyzer and the dumps that it has open.

use crate::analyzer::client::CallOutcome;
use crate::analyzer::session::{
    capped, entered, entry_of, evicted, gone_inside, kept_outside, pairs, touched, DumpModel,
    DumpSessions, EntryPhase,
};
use crate::chars;
use crate::ids;
use crate::infra::pathname;
use crate::infra::pathname::{extension_of, has_drive, is_rooted, small, Platform};
use crate::infra::posix;
use crate::infra::posix::{absolute_from, is_clean, law_absolute_is_stable, law_dot_does_not_matter};
use crate::json;
use crate::json::{put, Json, JsonModel};
use crate::text;
use vstd::prelude::*;

verus! {

/// How long opening a dump may take, in seconds.
pub const OPEN_TASK_TIMEOUT_SECS: u64 = 1800;

/// How long closing one may take, in seconds.
pub const CLOSE_TIMEOUT_SECS: u64 = 60;

/// The program of the analyzer.
pub const ANALYZER_JAR_NAME: &'static str = "jvm-heap-dump-mcp-0.2.0-all.jar";

/// What is said where that program is not there.
pub const ANALYZER_JAR_MISSING: &'static str =
    "分析器 JAR 缺失（resources/analyzer/）。请运行 scripts/fetch-analyzer-jar.ps1 后重启。";

#[derive(Debug)]
pub enum ManagerError {
    JavaMissing(String),
    Unavailable(String),
    Timeout(u64),
    NotOpen { warming: bool },
    Upstream(String),
}

impl Clone for ManagerError {
    fn clone(&self) -> (r: Self)
        ensures
            r == *self,
    {
        match self {
            ManagerError::JavaMissing(m) => ManagerError::JavaMissing(m.clone()),
            ManagerError::Unavailable(m) => ManagerError::Unavailable(m.clone()),
            ManagerError::Timeout(secs) => ManagerError::Timeout(*secs),
            ManagerError::NotOpen { warming } => ManagerError::NotOpen { warming: *warming },
            ManagerError::Upstream(m) => ManagerError::Upstream(m.clone()),
        }
    }
}

pub open spec fn manager_error_text(e: ManagerError) -> Seq<char> {
    match e {
        ManagerError::JavaMissing(m) => m@,
        ManagerError::Unavailable(m) => m@,
        ManagerError::Timeout(secs) => "分析调用超时（"@ + chars::dec(secs as nat)
            + "s），工人进程保留未受影响"@,
        ManagerError::NotOpen { .. } => "该 dump 尚未打开"@,
        ManagerError::Upstream(m) => m@,
    }
}

impl ManagerError {
    pub fn message(&self) -> (r: String)
        ensures
            r@ == manager_error_text(*self),
    {
        match self {
            ManagerError::JavaMissing(m) => m.clone(),
            ManagerError::Unavailable(m) => m.clone(),
            ManagerError::Timeout(secs) => {
                let mut s = text::owned("分析调用超时（");
                s.append(text::dec(*secs).as_str());
                s.append("s），工人进程保留未受影响");
                s
            },
            ManagerError::NotOpen { .. } => text::owned("该 dump 尚未打开"),
            ManagerError::Upstream(m) => m.clone(),
        }
    }
}

/// Times in milliseconds.
#[derive(Clone, Copy, Debug)]
pub struct ManagerConfig {
    /// How long the analyzer may run with nothing to do.
    pub idle_timeout: u64,
    /// How often that is looked at.
    pub idle_tick: u64,
}

impl Default for ManagerConfig {
    fn default() -> (r: Self)
        ensures
            r.idle_timeout == 15 * 60 * 1000,
            r.idle_tick == 30 * 1000,
    {
        ManagerConfig { idle_timeout: 900000, idle_tick: 30000 }
    }
}

#[derive(Debug)]
pub struct OpenOutcome {
    pub summary: String,
    pub evicted: Vec<String>,
}

pub const GB: u64 = 1073741824;

/// One and a half times the size, in whole gigabytes, rounded up.
pub open spec fn gigabytes_wanted(size: u64) -> int {
    (3 * size + 2 * GB - 1) / (2 * GB)
}

/// The memory, in gigabytes, that the analyzer gets for a dump: one and a half times its
/// size, but at least 4 and at most 12.
pub fn xmx_gb_for(dump_size_bytes: u64) -> (r: u32)
    ensures
        r == (if gigabytes_wanted(dump_size_bytes) < 4 {
            4
        } else if gigabytes_wanted(dump_size_bytes) > 12 {
            12
        } else {
            gigabytes_wanted(dump_size_bytes)
        }),
{
    if dump_size_bytes > 8589934592 {
        assert(gigabytes_wanted(dump_size_bytes) > 12);
        return 12;
    }
    let need: u64 = (3 * dump_size_bytes + 2147483647) / 2147483648;
    if need < 4 {
        4
    } else {
        need as u32
    }
}

/// A path without the prefix that keeps Windows from interpreting it.
pub open spec fn plain(path: Seq<char>) -> Seq<char> {
    if chars::starts_with(path, "\\\\?\\UNC\\"@) {
        "\\\\"@ + path.subrange("\\\\?\\UNC\\"@.len() as int, path.len() as int)
    } else if chars::starts_with(path, "\\\\?\\"@) {
        path.subrange("\\\\?\\"@.len() as int, path.len() as int)
    } else {
        path
    }
}

pub fn strip_verbatim_prefix(path: &str) -> (r: String)
    ensures
        r@ == plain(path@),
{
    match text::strip_prefix(path, "\\\\?\\UNC\\") {
        Some(rest) => {
            let mut s = text::owned("\\\\");
            s.append(rest);
            s
        },
        None => {
            match text::strip_prefix(path, "\\\\?\\") {
                Some(rest) => text::owned(rest),
                None => text::owned(path),
            }
        },
    }
}

/// The name under which a dump is kept: its path; on Windows with one kind of separator
/// and the letter of the drive in lower case.
pub open spec fn dump_key(abs: Seq<char>, p: Platform) -> Seq<char> {
    if p == Platform::Windows {
        let s = chars::replace_char(abs, '/', "\\"@);
        if has_drive(s) {
            small(s)
        } else {
            s
        }
    } else {
        abs
    }
}

pub fn key_of_absolute(abs: &str, p: Platform) -> (r: String)
    ensures
        r@ == dump_key(abs@, p),
{
    match p {
        Platform::Windows => {
            let s = text::replace_char(abs, '/', "\\");
            let v = text::to_chars(s.as_str());
            if pathname::starts_with_drive(&v) {
                pathname::with_small_letter(s.as_str())
            } else {
                s
            }
        },
        Platform::Unix => text::owned(abs),
    }
}

/// What the machine tells of where a path leads: on Unix its current directory, on Windows
/// the full path that it gives for the path without a verbatim prefix. `None` where it
/// cannot tell.
#[derive(Clone, Copy, Debug)]
pub enum Whereabouts<'a> {
    Unix { cwd: Option<&'a str> },
    Windows { full: Option<&'a str> },
}

pub open spec fn platform_of(at: Whereabouts) -> Platform {
    match at {
        Whereabouts::Unix { .. } => Platform::Unix,
        Whereabouts::Windows { .. } => Platform::Windows,
    }
}

/// The path made absolute. One that cannot be is taken as it is.
pub open spec fn absolute_form(path: Seq<char>, at: Whereabouts) -> Seq<char> {
    let s = plain(path);
    match at {
        Whereabouts::Unix { cwd } => if s.len() == 0 {
            s
        } else if is_rooted(s, Platform::Unix) {
            absolute_from(Seq::empty(), s)
        } else {
            match cwd {
                Some(dir) => absolute_from(dir@, s),
                None => s,
            }
        },
        Whereabouts::Windows { full } => match full {
            Some(f) => f@,
            None => s,
        },
    }
}

/// The name under which a dump is kept, however its path is written.
pub open spec fn key_of(path: Seq<char>, at: Whereabouts) -> Seq<char> {
    dump_key(absolute_form(path, at), platform_of(at))
}

/// The name under which a dump is kept, however its path is written.
pub fn normalize_dump_path(path: &str, at: Whereabouts) -> (r: String)
    ensures
        r@ == key_of(path@, at),
{
    let stripped = strip_verbatim_prefix(path);
    match at {
        Whereabouts::Unix { cwd } => {
            let abs = if stripped.as_str().is_empty() {
                stripped
            } else if pathname::starts_at_root(stripped.as_str(), Platform::Unix) {
                posix::make_absolute("", stripped.as_str())
            } else {
                match cwd {
                    Some(dir) => posix::make_absolute(dir, stripped.as_str()),
                    None => stripped,
                }
            };
            key_of_absolute(abs.as_str(), Platform::Unix)
        },
        Whereabouts::Windows { full } => {
            let abs = match full {
                Some(f) => text::owned(f),
                None => stripped,
            };
            key_of_absolute(abs.as_str(), Platform::Windows)
        },
    }
}

/// The file is a heap dump, by its name.
pub open spec fn names_heap_dump(path: Seq<char>, p: Platform) -> bool {
    match extension_of(path, p) {
        Some(e) => chars::to_lower_ascii(e) == chars::to_lower_ascii("hprof"@),
        None => false,
    }
}

/// Whether a file that was brought is opened right away.
pub fn is_heap_dump(path: &str, p: Platform) -> (r: bool)
    ensures
        r == names_heap_dump(path@, p),
{
    match pathname::extension(path, p) {
        Some(e) => text::same_ignoring_ascii_case(e, "hprof"),
        None => false,
    }
}

/// What is told when a dump is opened on its own accord.
pub fn warm_up_started(path: &str) -> (r: String)
    ensures
        r@ == "拉回完成，后台分析预热开始（MAT 建索引）："@ + path@,
{
    let mut s = text::owned("拉回完成，后台分析预热开始（MAT 建索引）：");
    s.append(path);
    s
}

/// What is told of what that came to.
pub fn warm_up_ended(path: &str, error: Option<&ManagerError>) -> (r: String)
    ensures
        r@ == (match error {
            None => "分析就绪，heap_* 工具可直接查询："@ + path@,
            Some(e) => "分析预热失败（不影响对话，可手动 heap_open 重试）："@ + manager_error_text(*e),
        }),
{
    match error {
        None => {
            let mut s = text::owned("分析就绪，heap_* 工具可直接查询：");
            s.append(path);
            s
        },
        Some(e) => {
            let mut s = text::owned("分析预热失败（不影响对话，可手动 heap_open 重试）：");
            s.append(e.message().as_str());
            s
        },
    }
}

/// What opening a dump leads to.
#[derive(Debug)]
pub enum OpenStep {
    /// It is open; what the analyzer said of it.
    Cached(String),
    /// It is being opened: how far it is has to be waited for.
    Attach,
    /// The analyzer has to open it under this id, and to close those that had to go: their
    /// paths and ids.
    Begin { analyzer_id: String, victims: Vec<(String, String)> },
}

/// What somebody who waits for a dump sees.
#[derive(Debug)]
pub enum OpenSignal {
    Phase(EntryPhase),
    TimedOut,
    /// What was waited for is gone.
    Gone,
}

/// What a call came to.
#[derive(Debug)]
pub enum CallResult {
    Answered(CallOutcome),
    TransportFailed(String),
    TimedOut,
}

/// What opening a dump came to.
#[derive(Debug)]
pub enum OpenResult {
    /// The analyzer could not be started.
    NoClient(ManagerError),
    Call(CallResult),
}

/// What has to be done once opening a dump came to its end.
#[derive(Debug)]
pub struct Settlement {
    /// The dump is open but nobody knows of it any more: it has to be closed.
    pub release: bool,
    /// The analyzer that has to be ended.
    pub shut_down: Option<u64>,
}

/// How far a dump is after it was opened.
pub open spec fn phase_after(result: OpenResult) -> EntryPhase {
    match result {
        OpenResult::NoClient(error) => EntryPhase::Failed { error },
        OpenResult::Call(CallResult::TimedOut) => EntryPhase::Failed {
            error: ManagerError::Timeout(OPEN_TASK_TIMEOUT_SECS),
        },
        OpenResult::Call(CallResult::TransportFailed(e)) => EntryPhase::Failed {
            error: ManagerError::Unavailable(e),
        },
        OpenResult::Call(CallResult::Answered(o)) => if o.is_error {
            EntryPhase::Failed { error: ManagerError::Upstream(o.text) }
        } else {
            EntryPhase::Ready { summary: o.text }
        },
    }
}

pub fn open_phase(result: OpenResult) -> (r: EntryPhase)
    ensures
        r == phase_after(result),
{
    match result {
        OpenResult::NoClient(error) => EntryPhase::Failed { error },
        OpenResult::Call(CallResult::TimedOut) => EntryPhase::Failed {
            error: ManagerError::Timeout(OPEN_TASK_TIMEOUT_SECS),
        },
        OpenResult::Call(CallResult::TransportFailed(e)) => EntryPhase::Failed {
            error: ManagerError::Unavailable(e),
        },
        OpenResult::Call(CallResult::Answered(o)) => {
            if o.is_error {
                EntryPhase::Failed { error: ManagerError::Upstream(o.text) }
            } else {
                EntryPhase::Ready { summary: o.text }
            }
        },
    }
}

/// What a call is answered with.
pub open spec fn answer(result: CallResult, timeout_secs: u64) -> Result<
    CallOutcome,
    ManagerError,
> {
    match result {
        CallResult::TimedOut => Err(ManagerError::Timeout(timeout_secs)),
        CallResult::TransportFailed(e) => Err(ManagerError::Unavailable(e)),
        CallResult::Answered(o) => if o.is_error {
            Err(ManagerError::Upstream(o.text))
        } else {
            Ok(o)
        },
    }
}

/// The arguments of a question to the analyzer: those given, and the id of the dump.
pub fn query_arguments(args: Json, analyzer_id: &str) -> (r: Json)
    ensures
        r@ == put(args@, "id"@, JsonModel::Str(analyzer_id@)),
{
    json::with_field(args, "id", Json::Str(text::owned(analyzer_id)))
}

/// The analyzer: its number while it runs, the dumps, how many questions are under way and
/// when it was used last.
#[derive(Debug)]
pub struct HeapAnalyzerManager {
    pub client: Option<u64>,
    pub sessions: DumpSessions,
    pub inflight: u32,
    pub last_active: u64,
    pub reaper_spawned: bool,
}

impl HeapAnalyzerManager {
    pub open spec fn wf(&self) -> bool {
        self.sessions.wf()
    }

    pub open spec fn all(&self) -> Seq<DumpModel> {
        self.sessions.all()
    }

    pub open spec fn platform(&self) -> Platform {
        self.sessions.platform
    }

    /// Nothing but the dumps and the time of the last use differ.
    pub open spec fn rest_as(&self, other: Self) -> bool {
        &&& self.client == other.client
        &&& self.inflight == other.inflight
        &&& self.reaper_spawned == other.reaper_spawned
        &&& self.platform() == other.platform()
    }

    pub fn new(platform: Platform, now: u64) -> (r: Self)
        ensures
            r.wf(),
            r.client is None,
            r.all() == Seq::<DumpModel>::empty(),
            r.platform() == platform,
            r.inflight == 0,
            r.last_active == now,
            !r.reaper_spawned,
    {
        HeapAnalyzerManager {
            client: None,
            sessions: DumpSessions::new(platform),
            inflight: 0,
            last_active: now,
            reaper_spawned: false,
        }
    }

    /// Opens the dump at a path, however that is written: the name under which it is kept,
    /// and what that leads to.
    pub fn open(&mut self, path: &str, at: Whereabouts, now: u64) -> (r: (String, OpenStep))
        requires
            old(self).wf(),
        ensures
            final(self).wf(),
            final(self).rest_as(*old(self)),
            r.0@ == key_of(path@, at),
            exists|id: Seq<char>| #[trigger] ids::is_uuid(id) && opened(
                old(self).all(),
                old(self).last_active,
                key_of(path@, at),
                id,
                now,
                old(self).platform(),
                final(self).all(),
                final(self).last_active,
                r.1,
            ),
    {
        let key = normalize_dump_path(path, at);
        let step = self.open_key(key.as_str(), now);
        (key, step)
    }

    /// Opens a dump. One that is open is used; one that is being opened is waited for; any
    /// other is opened under a fresh id, after room was made for it.
    pub fn open_key(&mut self, key: &str, now: u64) -> (r: OpenStep)
        requires
            old(self).wf(),
        ensures
            final(self).wf(),
            final(self).rest_as(*old(self)),
            exists|id: Seq<char>| #[trigger] ids::is_uuid(id) && opened(
                old(self).all(),
                old(self).last_active,
                key@,
                id,
                now,
                old(self).platform(),
                final(self).all(),
                final(self).last_active,
                r,
            ),
    {
        let id = ids::new_uuid();
        assert(ids::is_uuid(id@));
        self.open_as(key, id, now)
    }

    /// Opens a dump, under this id where the analyzer has to open it.
    pub fn open_as(&mut self, key: &str, id: String, now: u64) -> (r: OpenStep)
        requires
            old(self).wf(),
        ensures
            final(self).wf(),
            final(self).rest_as(*old(self)),
            opened(
                old(self).all(),
                old(self).last_active,
                key@,
                id@,
                now,
                old(self).platform(),
                final(self).all(),
                final(self).last_active,
                r,
            ),
    {
        match self.sessions.phase(key) {
            Some(EntryPhase::Ready { summary }) => {
                self.sessions.touch(key, now);
                self.last_active = now;
                OpenStep::Cached(summary)
            },
            Some(EntryPhase::Warming) => OpenStep::Attach,
            _ => {
                let victims = self.sessions.begin(key, id.as_str(), now);
                OpenStep::Begin { analyzer_id: id, victims }
            },
        }
    }

    /// Tells somebody who waits for a dump what came of it; `None` while it is still being
    /// opened.
    pub fn wait_open(
        &mut self,
        key: &str,
        signal: OpenSignal,
        timeout_secs: u64,
        now: u64,
    ) -> (r: Option<Result<String, ManagerError>>)
        requires
            old(self).wf(),
        ensures
            final(self).wf(),
            final(self).rest_as(*old(self)),
            final(self).all() == waited(
                old(self).all(),
                key@,
                signal,
                now,
                old(self).platform(),
            ),
            final(self).last_active == (if signal matches OpenSignal::Phase(
                EntryPhase::Ready { .. },
            ) {
                now
            } else {
                old(self).last_active
            }),
            match signal {
                OpenSignal::Phase(EntryPhase::Ready { summary }) => r == Some(
                    Ok::<String, ManagerError>(summary),
                ),
                OpenSignal::Phase(EntryPhase::Failed { error }) => r == Some(
                    Err::<String, ManagerError>(error),
                ),
                OpenSignal::Phase(EntryPhase::Warming) => r is None,
                OpenSignal::TimedOut => r == Some(
                    Err::<String, ManagerError>(ManagerError::Timeout(timeout_secs)),
                ),
                OpenSignal::Gone => r matches Some(Err(ManagerError::Unavailable(m))) && m@
                    == "分析会话已失效（工人进程可能已崩溃），请重试 heap_open"@,
            },
    {
        match signal {
            OpenSignal::Phase(EntryPhase::Ready { summary }) => {
                self.sessions.touch(key, now);
                self.last_active = now;
                Some(Ok(summary))
            },
            OpenSignal::Phase(EntryPhase::Failed { error }) => Some(Err(error)),
            OpenSignal::Phase(EntryPhase::Warming) => None,
            OpenSignal::TimedOut => Some(Err(ManagerError::Timeout(timeout_secs))),
            OpenSignal::Gone => Some(
                Err(
                    ManagerError::Unavailable(
                        text::owned("分析会话已失效（工人进程可能已崩溃），请重试 heap_open"),
                    ),
                ),
            ),
        }
    }

    /// Whom to ask about the dump at a path, and under which id; it has to be open.
    pub fn query(&mut self, path: &str, at: Whereabouts, now: u64) -> (r: Result<
        (String, u64),
        ManagerError,
    >)
        requires
            old(self).wf(),
        ensures
            final(self).wf(),
            final(self).rest_as(*old(self)),
            match entry_of(old(self).all(), key_of(path@, at), old(self).platform(), 0) {
                Some(i) if old(self).all()[i].phase is Ready => {
                    &&& final(self).last_active == now
                    &&& final(self).all() == touched(
                        old(self).all(),
                        key_of(path@, at),
                        now,
                        old(self).platform(),
                    )
                    &&& match old(self).client {
                        Some(c) => r is Ok && r->Ok_0.0@ == old(self).all()[i].id && r->Ok_0.1
                            == c,
                        None => r matches Err(ManagerError::Unavailable(m)) && m@
                            == "工人进程不在运行"@,
                    }
                },
                Some(i) => r == Err::<(String, u64), ManagerError>(
                    ManagerError::NotOpen { warming: old(self).all()[i].phase is Warming },
                ) && *final(self) == *old(self),
                None => r == Err::<(String, u64), ManagerError>(
                    ManagerError::NotOpen { warming: false },
                ) && *final(self) == *old(self),
            },
    {
        let key = normalize_dump_path(path, at);
        self.query_key(key.as_str(), now)
    }

    /// Whom to ask about a dump, and under which id; it has to be open.
    fn query_key(&mut self, key: &str, now: u64) -> (r: Result<(String, u64), ManagerError>)
        requires
            old(self).wf(),
        ensures
            final(self).wf(),
            final(self).rest_as(*old(self)),
            match entry_of(old(self).all(), key@, old(self).platform(), 0) {
                Some(i) if old(self).all()[i].phase is Ready => {
                    &&& final(self).last_active == now
                    &&& final(self).all() == touched(
                        old(self).all(),
                        key@,
                        now,
                        old(self).platform(),
                    )
                    &&& match old(self).client {
                        Some(c) => r is Ok && r->Ok_0.0@ == old(self).all()[i].id && r->Ok_0.1
                            == c,
                        None => r matches Err(ManagerError::Unavailable(m)) && m@
                            == "工人进程不在运行"@,
                    }
                },
                Some(i) => r == Err::<(String, u64), ManagerError>(
                    ManagerError::NotOpen { warming: old(self).all()[i].phase is Warming },
                ) && *final(self) == *old(self),
                None => r == Err::<(String, u64), ManagerError>(
                    ManagerError::NotOpen { warming: false },
                ) && *final(self) == *old(self),
            },
    {
        match self.sessions.phase(key) {
            Some(EntryPhase::Ready { .. }) => {
                let id = match self.sessions.analyzer_id(key) {
                    Some(id) => id,
                    None => String::new(),
                };
                self.sessions.touch(key, now);
                self.last_active = now;
                match self.client {
                    Some(c) => Ok((id, c)),
                    None => Err(ManagerError::Unavailable(text::owned("工人进程不在运行"))),
                }
            },
            Some(EntryPhase::Warming) => Err(ManagerError::NotOpen { warming: true }),
            _ => Err(ManagerError::NotOpen { warming: false }),
        }
    }

    /// A question is put.
    pub fn begin_call(&mut self)
        requires
            old(self).inflight < u32::MAX,
        ensures
            final(self).inflight == old(self).inflight + 1,
            final(self).client == old(self).client,
            final(self).sessions == old(self).sessions,
            final(self).last_active == old(self).last_active,
            final(self).reaper_spawned == old(self).reaper_spawned,
    {
        self.inflight = self.inflight + 1;
    }

    /// A question was answered, or not: what is said of it, and the analyzer that has to be
    /// ended. Where it could not be reached, all its dumps are gone.
    pub fn guarded_call(&mut self, result: CallResult, timeout_secs: u64, now: u64) -> (r: (
        Result<CallOutcome, ManagerError>,
        Option<u64>,
    ))
        requires
            old(self).wf(),
            old(self).inflight > 0,
        ensures
            final(self).wf(),
            r.0 == answer(result, timeout_secs),
            final(self).inflight == old(self).inflight - 1,
            final(self).last_active == now,
            final(self).reaper_spawned == old(self).reaper_spawned,
            final(self).platform() == old(self).platform(),
            if result is TransportFailed {
                &&& r.1 == old(self).client
                &&& final(self).client is None
                &&& final(self).all() == Seq::<DumpModel>::empty()
            } else {
                &&& r.1 is None
                &&& final(self).client == old(self).client
                &&& final(self).all() == old(self).all()
            },
    {
        self.inflight = self.inflight - 1;
        self.last_active = now;
        match result {
            CallResult::TimedOut => (Err(ManagerError::Timeout(timeout_secs)), None),
            CallResult::TransportFailed(e) => {
                let gone = self.invalidate(now);
                (Err(ManagerError::Unavailable(e)), gone)
            },
            CallResult::Answered(o) => {
                if o.is_error {
                    (Err(ManagerError::Upstream(o.text)), None)
                } else {
                    (Ok(o), None)
                }
            },
        }
    }

    /// The analyzer is gone, and all dumps with it: the one that has to be ended.
    pub fn invalidate(&mut self, now: u64) -> (r: Option<u64>)
        ensures
            final(self).wf(),
            r == old(self).client,
            final(self).client is None,
            final(self).all() == Seq::<DumpModel>::empty(),
            final(self).last_active == now,
            final(self).inflight == old(self).inflight,
            final(self).reaper_spawned == old(self).reaper_spawned,
            final(self).platform() == old(self).platform(),
    {
        let client = self.client;
        self.client = None;
        self.sessions = DumpSessions::new(self.sessions.platform);
        self.last_active = now;
        client
    }

    /// Closes the dump at a path: the id under which the analyzer has it; `None` where it
    /// was not open.
    pub fn close(&mut self, path: &str, at: Whereabouts, now: u64) -> (r: Option<String>)
        requires
            old(self).wf(),
        ensures
            final(self).wf(),
            final(self).rest_as(*old(self)),
            final(self).last_active == now,
            match entry_of(old(self).all(), key_of(path@, at), old(self).platform(), 0) {
                Some(i) => r is Some && r->0@ == old(self).all()[i].id && final(self).all() == old(
                    self,
                ).all().remove(i),
                None => r is None && final(self).all() == old(self).all(),
            },
    {
        let key = normalize_dump_path(path, at);
        self.last_active = now;
        self.sessions.remove(key.as_str())
    }

    /// Closes all dumps in the directory of a session: their paths and ids.
    pub fn close_for_friday_session(&mut self, dir: &str, at: Whereabouts, now: u64) -> (r: Vec<
        (String, String),
    >)
        requires
            old(self).wf(),
        ensures
            final(self).wf(),
            final(self).rest_as(*old(self)),
            final(self).last_active == now,
            final(self).all() == kept_outside(old(self).all(), key_of(dir@, at), old(self).platform()),
            pairs(r@) == gone_inside(old(self).all(), key_of(dir@, at), old(self).platform()),
    {
        let key = normalize_dump_path(dir, at);
        self.last_active = now;
        self.sessions.remove_under_dir(key.as_str())
    }

    /// The analyzer was started: whether somebody has to look after it from now on. Only
    /// once that is so.
    pub fn ensure_client(&mut self, client: u64, now: u64) -> (r: bool)
        requires
            old(self).wf(),
        ensures
            final(self).wf(),
            r == !old(self).reaper_spawned,
            final(self).reaper_spawned,
            final(self).client == Some(client),
            final(self).last_active == now,
            final(self).sessions == old(self).sessions,
            final(self).inflight == old(self).inflight,
    {
        self.client = Some(client);
        self.last_active = now;
        let first = !self.reaper_spawned;
        self.reaper_spawned = true;
        first
    }

    /// Settles how far a dump is once opening it came to its end. Where it was closed
    /// meanwhile, or is being opened anew, nothing is settled, and what the analyzer opened
    /// has to be closed. Where the analyzer could not be reached, all dumps are gone.
    pub fn run_open_task(&mut self, key: &str, analyzer_id: &str, result: OpenResult, now: u64) -> (r:
        Settlement)
        requires
            old(self).wf(),
        ensures
            final(self).wf(),
            final(self).last_active == now,
            final(self).inflight == old(self).inflight,
            final(self).reaper_spawned == old(self).reaper_spawned,
            final(self).platform() == old(self).platform(),
            final(self).all() == settled(
                old(self).all(),
                key@,
                analyzer_id@,
                result,
                now,
                old(self).platform(),
            ),
            if result matches OpenResult::Call(CallResult::TransportFailed(_)) {
                &&& final(self).client is None
                &&& r.shut_down == old(self).client
                &&& !r.release
            } else {
                &&& r.shut_down is None
                &&& final(self).client == old(self).client
                &&& r.release == (phase_after(result) is Ready && !(match entry_of(
                    old(self).all(),
                    key@,
                    old(self).platform(),
                    0,
                ) {
                    Some(i) => old(self).all()[i].id == analyzer_id@,
                    None => false,
                }))
            },
    {
        let lost = match &result {
            OpenResult::Call(CallResult::TransportFailed(_)) => true,
            _ => false,
        };
        let phase = open_phase(result);
        let was_ready = match &phase {
            EntryPhase::Ready { .. } => true,
            _ => false,
        };
        let shut_down = if lost {
            self.invalidate(now)
        } else {
            None
        };
        let matched = self.sessions.set_phase(key, analyzer_id, phase, now);
        self.last_active = now;
        Settlement { release: !matched && was_ready, shut_down }
    }

    /// The analyzer that has to be ended for having nothing to do: no dump is open, no
    /// question is under way, and it was not used for long enough.
    pub fn reap(&mut self, now: u64, idle_timeout: u64) -> (r: Option<u64>)
        requires
            old(self).wf(),
        ensures
            final(self).wf(),
            final(self).sessions == old(self).sessions,
            final(self).inflight == old(self).inflight,
            final(self).last_active == old(self).last_active,
            final(self).reaper_spawned == old(self).reaper_spawned,
            if old(self).all().len() == 0 && old(self).inflight == 0 && elapsed(
                old(self).last_active,
                now,
            ) >= idle_timeout {
                r == old(self).client && final(self).client is None
            } else {
                r is None && final(self).client == old(self).client
            },
    {
        let past: u64 = if now >= self.last_active {
            now - self.last_active
        } else {
            0
        };
        if self.sessions.is_empty() && self.inflight == 0 && past >= idle_timeout {
            let client = self.client;
            self.client = None;
            client
        } else {
            None
        }
    }
}

/// The time that has passed; none where the clock went back.
pub open spec fn elapsed(since: u64, now: u64) -> int {
    if now >= since {
        now - since
    } else {
        0
    }
}

/// The dumps once somebody who waited for one was told: where it is open, it was used.
pub open spec fn waited(
    s: Seq<DumpModel>,
    key: Seq<char>,
    signal: OpenSignal,
    now: u64,
    p: Platform,
) -> Seq<DumpModel> {
    match signal {
        OpenSignal::Phase(EntryPhase::Ready { .. }) => touched(s, key, now, p),
        _ => s,
    }
}

/// The dumps once opening one came to its end: settled where it is still being opened under
/// that id. Where the analyzer could not be reached all are gone.
pub open spec fn settled(
    s: Seq<DumpModel>,
    key: Seq<char>,
    id: Seq<char>,
    result: OpenResult,
    now: u64,
    p: Platform,
) -> Seq<DumpModel> {
    if result matches OpenResult::Call(CallResult::TransportFailed(_)) {
        Seq::empty()
    } else {
        match entry_of(s, key, p, 0) {
            Some(i) if s[i].id == id => s.update(
                i,
                DumpModel { phase: phase_after(result), last_touched: now, ..s[i] },
            ),
            _ => s,
        }
    }
}

/// Opening a dump under an id led from these dumps to those, and to this step.
pub open spec fn opened(
    before: Seq<DumpModel>,
    active_before: u64,
    key: Seq<char>,
    id: Seq<char>,
    now: u64,
    p: Platform,
    after: Seq<DumpModel>,
    active_after: u64,
    step: OpenStep,
) -> bool {
    match entry_of(before, key, p, 0) {
        Some(i) if before[i].phase is Ready => {
            &&& step == OpenStep::Cached(before[i].phase->summary)
            &&& after == touched(before, key, now, p)
            &&& active_after == now
        },
        Some(i) if before[i].phase is Warming => {
            &&& step is Attach
            &&& after == before
            &&& active_after == active_before
        },
        _ => {
            &&& step matches OpenStep::Begin { analyzer_id, victims }
            &&& analyzer_id@ == id
            &&& after == capped(entered(before, key, id, now, p))
            &&& pairs(victims@) == evicted(entered(before, key, id, now, p))
            &&& active_after == active_before
        },
    }
}

proof fn lemma_backslashes(s: Seq<char>)
    ensures
        chars::replace_char(s, '/', "\\"@).len() == s.len(),
        forall|i: int|
            0 <= i < s.len() ==> #[trigger] chars::replace_char(s, '/', "\\"@)[i] == (if s[i]
                == '/' {
                '\\'
            } else {
                s[i]
            }),
    decreases s.len(),
{
    reveal_strlit("\\");
    if s.len() > 0 {
        lemma_backslashes(s.drop_last());
        let front = chars::replace_char(s.drop_last(), '/', "\\"@);
        let whole = chars::replace_char(s, '/', "\\"@);
        assert forall|i: int| 0 <= i < s.len() implies #[trigger] whole[i] == (if s[i] == '/' {
            '\\'
        } else {
            s[i]
        }) by {
            if i < s.len() - 1 {
                assert(whole[i] == front[i]);
            }
        }
    }
}

/// The two characters mean the same in a path of Windows.
pub open spec fn alike(a: char, b: char) -> bool {
    a == b || (a == '/' && b == '\\') || (a == '\\' && b == '/')
}

/// On Windows it does not matter for the name of a dump which of the two separators its path
/// is written with, nor whether the letter of the drive is a capital one.
pub proof fn law_path_variants_share_a_key(a: Seq<char>, b: Seq<char>)
    requires
        a.len() == b.len(),
        forall|i: int| 1 <= i < a.len() ==> alike(#[trigger] a[i], b[i]),
        a.len() > 0 ==> alike(a[0], b[0]) || (has_drive(a) && has_drive(b) && chars::lower_ascii(
            a[0],
        ) == chars::lower_ascii(b[0])),
    ensures
        dump_key(a, Platform::Windows) == dump_key(b, Platform::Windows),
{
    lemma_backslashes(a);
    lemma_backslashes(b);
    let x = chars::replace_char(a, '/', "\\"@);
    let y = chars::replace_char(b, '/', "\\"@);
    assert forall|i: int| 1 <= i < x.len() implies x[i] == y[i] by {
        assert(alike(a[i], b[i]));
    }
    assert(has_drive(x) == has_drive(y)) by {
        if x.len() >= 2 {
            assert(alike(a[1], b[1]));
        }
    }
    assert(dump_key(a, Platform::Windows) =~= dump_key(b, Platform::Windows));
}

/// The name of a dump is its own name: taking it again changes nothing.
pub proof fn law_key_is_stable(a: Seq<char>, p: Platform)
    ensures
        dump_key(dump_key(a, p), p) == dump_key(a, p),
{
    if p == Platform::Windows {
        lemma_backslashes(a);
        let k = dump_key(a, p);
        lemma_backslashes(k);
        assert(chars::replace_char(k, '/', "\\"@) =~= k);
        assert(dump_key(k, p) =~= k);
    }
}

proof fn lemma_rooted_is_plain(s: Seq<char>)
    requires
        is_rooted(s, Platform::Unix),
    ensures
        plain(s) == s,
{
    reveal_strlit("\\\\?\\UNC\\");
    reveal_strlit("\\\\?\\");
    if chars::starts_with(s, "\\\\?\\"@) {
        assert(s.subrange(0, "\\\\?\\"@.len() as int)[0] == s[0]);
    }
    if chars::starts_with(s, "\\\\?\\UNC\\"@) {
        assert(s.subrange(0, "\\\\?\\UNC\\"@.len() as int)[0] == s[0]);
    }
}

/// The path has a verbatim prefix.
pub open spec fn is_verbatim(path: Seq<char>) -> bool {
    chars::starts_with(path, "\\\\?\\"@)
}

/// On Unix there is one name for a dump: it is absolute, it is its own name, and for a path
/// that starts at the root it does not depend on the current directory.
pub proof fn law_key_is_absolute_and_stable(path: Seq<char>, cwd: &str, elsewhere: Option<&str>)
    requires
        plain(path).len() > 0,
        is_rooted(plain(path), Platform::Unix) || is_clean(cwd@),
    ensures
        ({
            let key = key_of(path, Whereabouts::Unix { cwd: Some(cwd) });
            &&& is_rooted(key, Platform::Unix)
            &&& key_of(key, Whereabouts::Unix { cwd: elsewhere }) == key
            &&& is_rooted(plain(path), Platform::Unix) ==> key_of(
                path,
                Whereabouts::Unix { cwd: elsewhere },
            ) == key
        }),
{
    let s = plain(path);
    let none = Seq::<char>::empty();
    if is_rooted(s, Platform::Unix) {
        law_absolute_is_stable(none, s, none);
        lemma_rooted_is_plain(absolute_from(none, s));
    } else {
        law_absolute_is_stable(cwd@, s, none);
        lemma_rooted_is_plain(absolute_from(cwd@, s));
    }
}

/// A verbatim prefix does not matter for the name of a dump.
pub proof fn law_prefix_does_not_matter(path: Seq<char>, at: Whereabouts)
    requires
        !is_verbatim(plain(path)),
    ensures
        key_of(plain(path), at) == key_of(path, at),
{
    reveal_strlit("\\\\?\\UNC\\");
    reveal_strlit("\\\\?\\");
    let s = plain(path);
    if chars::starts_with(s, "\\\\?\\UNC\\"@) {
        assert(s.subrange(0, "\\\\?\\"@.len() as int) =~= "\\\\?\\"@) by {
            assert forall|i: int| 0 <= i < 4 implies s[i] == "\\\\?\\"@[i] by {
                assert(s.subrange(0, "\\\\?\\UNC\\"@.len() as int)[i] == s[i]);
            }
        }
    }
}

/// A `.` inside an absolute path does not matter for the name of a dump.
pub proof fn law_dot_does_not_matter_for_the_key(a: Seq<char>, b: Seq<char>, cwd: Option<&str>)
    requires
        a.len() == 0 || a[0] == '/',
        b.len() > 0,
        b[0] != '/',
    ensures
        key_of(a + "/"@ + "."@ + "/"@ + b, Whereabouts::Unix { cwd }) == key_of(
            a + "/"@ + b,
            Whereabouts::Unix { cwd },
        ),
{
    reveal_strlit("/");
    reveal_strlit(".");
    lemma_rooted_is_plain(a + "/"@ + "."@ + "/"@ + b);
    lemma_rooted_is_plain(a + "/"@ + b);
    law_dot_does_not_matter(Seq::empty(), a, b);
}

} // verus!
