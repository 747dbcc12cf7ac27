//! Starting an agent: which program, with which arguments and which prompt.

use crate::agent::attempt::ResumeRetry;
use crate::agent::prompt;
use crate::agent::stream;
use crate::agent::stream::{kind, or_else};
use crate::app::session;
use crate::app::session::MessageRow;
use crate::infra::pathname;
use crate::infra::pathname::{file_part, joined, parent_of, Platform};
use crate::json;
use crate::json::{Json, JsonModel};
use crate::knowledge::{Experience, ExperienceModel};
use crate::text;
use vstd::prelude::*;

verus! {

#[derive(Debug)]
pub enum SpawnError {
    NoActiveAgent,
    BinaryMissing { path: String },
    SpawnFailed(String),
    Db(String),
}

impl SpawnError {
    /// The error in words.
    pub fn message(&self) -> (r: String)
        ensures
            r@ == match self {
                SpawnError::NoActiveAgent => "无可用 agent，请先检测或手动添加"@,
                SpawnError::BinaryMissing { path } => "agent 二进制不存在："@ + path@,
                SpawnError::SpawnFailed(e) => "启动 agent 失败："@ + e@,
                SpawnError::Db(e) => "DB 查询失败："@ + e@,
            },
    {
        match self {
            SpawnError::NoActiveAgent => text::owned("无可用 agent，请先检测或手动添加"),
            SpawnError::BinaryMissing { path } => {
                let mut m = text::owned("agent 二进制不存在：");
                m.append(path.as_str());
                m
            },
            SpawnError::SpawnFailed(e) => {
                let mut m = text::owned("启动 agent 失败：");
                m.append(e.as_str());
                m
            },
            SpawnError::Db(e) => {
                let mut m = text::owned("DB 查询失败：");
                m.append(e.as_str());
                m
            },
        }
    }
}

/// How the program of an agent is called.
#[derive(Debug)]
pub struct CommandConfig {
    pub mode_args: Vec<&'static str>,
    pub format_args: Vec<&'static str>,
    pub session_flag: &'static str,
    pub needs_exe_resolution: bool,
}

pub open spec fn mode_args(provider: Seq<char>) -> Seq<Seq<char>> {
    if provider == "codeagentcli"@ {
        seq!["-p"@]
    } else {
        seq!["run"@]
    }
}

pub open spec fn format_args(provider: Seq<char>) -> Seq<Seq<char>> {
    if provider == "codeagentcli"@ {
        seq!["--output-format"@, "stream-json"@, "--verbose"@, "--skip-safe-check"@]
    } else {
        seq!["--format"@, "json"@]
    }
}

pub open spec fn session_flag(provider: Seq<char>) -> Seq<char> {
    if provider == "codeagentcli"@ {
        "--sessions"@
    } else {
        "--session"@
    }
}

/// How the program of a provider is called; one that is unknown is called like opencode.
pub fn command_config_for(provider: &str) -> (r: CommandConfig)
    ensures
        r.mode_args.deep_view() == mode_args(provider@),
        r.format_args.deep_view() == format_args(provider@),
        r.session_flag@ == session_flag(provider@),
        r.needs_exe_resolution == (provider@ != "codeagentcli"@),
{
    let mut mode: Vec<&'static str> = Vec::new();
    let mut format: Vec<&'static str> = Vec::new();
    if text::same(provider, "codeagentcli") {
        mode.push("-p");
        format.push("--output-format");
        format.push("stream-json");
        format.push("--verbose");
        format.push("--skip-safe-check");
        assert(mode.deep_view() =~= mode_args(provider@));
        assert(format.deep_view() =~= format_args(provider@));
        return CommandConfig {
            mode_args: mode,
            format_args: format,
            session_flag: "--sessions",
            needs_exe_resolution: false,
        };
    }
    mode.push("run");
    format.push("--format");
    format.push("json");
    assert(mode.deep_view() =~= mode_args(provider@));
    assert(format.deep_view() =~= format_args(provider@));
    CommandConfig {
        mode_args: mode,
        format_args: format,
        session_flag: "--session",
        needs_exe_resolution: true,
    }
}

/// The first flag, from `i` on, that the help text mentions.
pub open spec fn advertised(help: Seq<char>, flags: Seq<Seq<char>>, i: int) -> Option<Seq<char>>
    decreases flags.len() - i,
{
    if i < 0 || i >= flags.len() {
        None
    } else if crate::chars::contains(help, flags[i]) {
        Some(flags[i])
    } else {
        advertised(help, flags, i + 1)
    }
}

/// The first of the candidates that the help text mentions.
pub fn pick_session_flag_from_help(help_text: &str, candidates: &[&'static str]) -> (r: Option<
    &'static str,
>)
    ensures
        r.deep_view() == advertised(help_text@, candidates.deep_view(), 0),
{
    let ghost flags = candidates.deep_view();
    let mut i: usize = 0;
    while i < candidates.len()
        invariant
            i <= candidates@.len(),
            flags == candidates.deep_view(),
            advertised(help_text@, flags, 0) == advertised(help_text@, flags, i as int),
        decreases candidates@.len() - i,
    {
        assert(flags[i as int] == candidates@[i as int]@);
        if text::contains(help_text, candidates[i]) {
            return Some(candidates[i]);
        }
        i = i + 1;
    }
    None
}

/// The flags that may resume a session, the preferred one first.
pub open spec fn flag_candidates(preferred: Seq<char>) -> Seq<Seq<char>> {
    if preferred == "--sessions"@ {
        seq!["--sessions"@, "--session-id"@]
    } else if preferred == "--session-id"@ {
        seq!["--session-id"@, "--sessions"@]
    } else {
        seq![preferred]
    }
}

/// The flag that resumes a session. Only codeagentcli has more than one, depending on
/// its version: what its help text says decides, where there is one.
pub open spec fn resolved_flag(
    provider: Seq<char>,
    preferred: Seq<char>,
    help: Option<Seq<char>>,
) -> Seq<char> {
    if provider != "codeagentcli"@ {
        preferred
    } else {
        match help {
            Some(h) => or_else(advertised(h, flag_candidates(preferred), 0), preferred),
            None => preferred,
        }
    }
}

/// The flag that resumes a session. `help_text` is what the program says when asked for
/// help, if it answers in time.
pub fn resolve_session_flag(
    provider: &str,
    preferred: &'static str,
    help_text: Option<&str>,
) -> (r: &'static str)
    ensures
        r@ == resolved_flag(provider@, preferred@, help_text.deep_view()),
{
    if !text::same(provider, "codeagentcli") {
        return preferred;
    }
    let mut candidates: Vec<&'static str> = Vec::new();
    if text::same(preferred, "--sessions") {
        candidates.push("--sessions");
        candidates.push("--session-id");
    } else if text::same(preferred, "--session-id") {
        candidates.push("--session-id");
        candidates.push("--sessions");
    } else {
        candidates.push(preferred);
    }
    assert(candidates.deep_view() =~= flag_candidates(preferred@));
    match help_text {
        Some(h) => {
            let slice = candidates.as_slice();
            assert(slice.deep_view() =~= candidates.deep_view());
            match pick_session_flag_from_help(h, slice) {
                Some(flag) => flag,
                None => preferred,
            }
        },
        None => preferred,
    }
}

/// Where the native programs of opencode stand, seen from the directory of its shim.
pub open spec fn native_name(i: int) -> Seq<char> {
    if i == 0 {
        "node_modules\\opencode-ai\\node_modules\\opencode-windows-x64\\bin\\opencode.exe"@
    } else if i == 1 {
        "node_modules\\opencode-ai\\node_modules\\opencode-windows-x64-baseline\\bin\\opencode.exe"@
    } else {
        "node_modules\\opencode-ai\\node_modules\\opencode-windows-arm64\\bin\\opencode.exe"@
    }
}

/// The native program `i` of the shim at this path.
pub open spec fn native_of(path: Seq<char>, i: int, p: Platform) -> Seq<char> {
    joined(parent_of(path, p), native_name(i), p)
}

/// The file has the extension `exe`.
pub open spec fn is_exe(path: Seq<char>, p: Platform) -> bool {
    let f = file_part(path, p);
    crate::chars::ends_with(f, ".exe"@) && f.len() > 4
}

/// The programs that may stand behind a shim, in the order in which they are tried.
pub fn native_candidates(path: &str, platform: Platform) -> (r: Vec<String>)
    ensures
        r@.len() == 3,
        forall|i: int| 0 <= i < 3 ==> (#[trigger] r@[i])@ == native_of(path@, i, platform),
{
    let dir = pathname::parent(path, platform);
    let mut out: Vec<String> = Vec::new();
    out.push(
        pathname::join(
            dir.as_str(),
            "node_modules\\opencode-ai\\node_modules\\opencode-windows-x64\\bin\\opencode.exe",
            platform,
        ),
    );
    out.push(
        pathname::join(
            dir.as_str(),
            "node_modules\\opencode-ai\\node_modules\\opencode-windows-x64-baseline\\bin\\opencode.exe",
            platform,
        ),
    );
    out.push(
        pathname::join(
            dir.as_str(),
            "node_modules\\opencode-ai\\node_modules\\opencode-windows-arm64\\bin\\opencode.exe",
            platform,
        ),
    );
    out
}

/// The program to start. On Windows that is the first native program that is there
/// (`present[i]` tells it of candidate `i`), unless the path names a program already;
/// a shim would cut long arguments short.
pub open spec fn native_exe(path: Seq<char>, platform: Platform, present: Seq<bool>) -> Seq<char> {
    if platform != Platform::Windows || is_exe(path, platform) || file_part(path, platform).len()
        == 0 {
        path
    } else if present.len() > 0 && present[0] {
        native_of(path, 0, platform)
    } else if present.len() > 1 && present[1] {
        native_of(path, 1, platform)
    } else if present.len() > 2 && present[2] {
        native_of(path, 2, platform)
    } else {
        path
    }
}

pub fn resolve_native_exe(path: &str, platform: Platform, present: &Vec<bool>) -> (r: String)
    ensures
        r@ == native_exe(path@, platform, present@),
{
    if platform != Platform::Windows {
        return text::owned(path);
    }
    let f = pathname::file_name(path, platform);
    if f.is_empty() || (text::ends_with(f, ".exe") && f.unicode_len() > 4) {
        return text::owned(path);
    }
    let candidates = native_candidates(path, platform);
    if present.len() > 0 && present[0] {
        return candidates[0].clone();
    }
    if present.len() > 1 && present[1] {
        return candidates[1].clone();
    }
    if present.len() > 2 && present[2] {
        return candidates[2].clone();
    }
    text::owned(path)
}

/// The arguments of an agent's program: how it runs, in which format it answers, that it
/// does not ask for permissions, and the session that it resumes.
pub open spec fn agent_args(provider: Seq<char>, resume: Option<(Seq<char>, Seq<char>)>) -> Seq<
    Seq<char>,
> {
    let front = mode_args(provider) + format_args(provider) + seq![
        "--dangerously-skip-permissions"@,
    ];
    match resume {
        Some(r) => front + seq![r.0, r.1],
        None => front,
    }
}

fn push_all(out: &mut Vec<String>, args: &Vec<&'static str>)
    ensures
        final(out).deep_view() == old(out).deep_view() + args.deep_view(),
{
    let ghost before = out.deep_view();
    let ghost all = args.deep_view();
    let mut i: usize = 0;
    assert(out.deep_view() =~= before + all.take(0));
    while i < args.len()
        invariant
            i <= args@.len(),
            all == args.deep_view(),
            out.deep_view() == before + all.take(i as int),
        decreases args@.len() - i,
    {
        let ghost now = out.deep_view();
        out.push(text::owned(args[i]));
        i = i + 1;
        assert(out.deep_view() =~= now.push(all[i - 1]));
        assert(out.deep_view() =~= before + all.take(i as int));
    }
    assert(all.take(i as int) =~= all);
}

/// The arguments of an agent's program. `resume` is the flag and the id of the session
/// that it resumes.
pub fn command_args(provider: &str, resume: Option<(&str, &str)>) -> (r: Vec<String>)
    ensures
        r.deep_view() == agent_args(
            provider@,
            match resume {
                Some(p) => Some((p.0@, p.1@)),
                None => None,
            },
        ),
{
    let config = command_config_for(provider);
    let mut out: Vec<String> = Vec::new();
    assert(out.deep_view() =~= Seq::<Seq<char>>::empty());
    push_all(&mut out, &config.mode_args);
    push_all(&mut out, &config.format_args);
    let ghost front = mode_args(provider@) + format_args(provider@);
    assert(out.deep_view() =~= front);
    out.push(text::owned("--dangerously-skip-permissions"));
    assert(out.deep_view() =~= front + seq!["--dangerously-skip-permissions"@]);
    let ghost front = front + seq!["--dangerously-skip-permissions"@];
    match resume {
        Some(p) => {
            out.push(text::owned(p.0));
            out.push(text::owned(p.1));
            assert(out.deep_view() =~= front + seq![p.0@, p.1@]);
        },
        None => {},
    }
    out
}

/// What an agent is started with.
#[derive(Debug)]
pub struct SpawnPlan {
    pub exe: String,
    pub args: Vec<String>,
    pub prompt: String,
}

/// The row of the active agent.
#[derive(Debug)]
pub struct ActiveAgent {
    pub path: String,
    pub provider: String,
    /// There is a file at the path.
    pub exists: bool,
    /// Which of the native programs behind the path are there.
    pub native_present: Vec<bool>,
}

/// The prompt: experiences go before history, and history before a plain message.
pub open spec fn chosen_prompt(
    message: Seq<char>,
    override_text: Option<Seq<char>>,
    session_id: Seq<char>,
    experiences: Option<Seq<ExperienceModel>>,
    history: Option<Seq<char>>,
) -> Seq<char> {
    if experiences is Some && experiences->0.len() > 0 {
        prompt::experiences_prompt(message, override_text, session_id, experiences->0)
    } else if history is Some {
        prompt::history_prompt(message, override_text, session_id, history->0)
    } else {
        prompt::plain_prompt(message, override_text, session_id)
    }
}

/// The program of the active agent.
pub open spec fn agent_exe(a: ActiveAgent, platform: Platform) -> Seq<char> {
    if a.provider@ != "codeagentcli"@ {
        native_exe(a.path@, platform, a.native_present@)
    } else {
        a.path@
    }
}

pub open spec fn experience_models(es: Option<&[Experience]>) -> Option<Seq<ExperienceModel>> {
    match es {
        Some(s) => Some(s@.map_values(|e: Experience| e@)),
        None => None,
    }
}

/// The program of the active agent, or why there is none to start.
pub fn active_program(agent: &Option<ActiveAgent>, platform: Platform) -> (r: Result<
    String,
    SpawnError,
>)
    ensures
        match agent {
            None => r matches Err(SpawnError::NoActiveAgent),
            Some(a) => if a.exists {
                r is Ok && r->Ok_0@ == agent_exe(*a, platform)
            } else {
                r matches Err(SpawnError::BinaryMissing { path }) && path@ == a.path@
            },
        },
{
    match agent {
        None => Err(SpawnError::NoActiveAgent),
        Some(a) => {
            if !a.exists {
                return Err(SpawnError::BinaryMissing { path: a.path.clone() });
            }
            let config = command_config_for(a.provider.as_str());
            if config.needs_exe_resolution {
                Ok(resolve_native_exe(a.path.as_str(), platform, &a.native_present))
            } else {
                Ok(a.path.clone())
            }
        },
    }
}

/// The active agent is to be started in this way, or there is none to start. `resume` is the
/// flag and the id of the session that it resumes.
pub open spec fn is_plan(
    r: Result<SpawnPlan, SpawnError>,
    agent: Option<ActiveAgent>,
    platform: Platform,
    resume: Option<(Seq<char>, Seq<char>)>,
    prompt: Seq<char>,
) -> bool {
    match agent {
        None => r matches Err(SpawnError::NoActiveAgent),
        Some(a) => if a.exists {
            &&& r is Ok
            &&& r->Ok_0.exe@ == agent_exe(a, platform)
            &&& r->Ok_0.args.deep_view() == agent_args(a.provider@, resume)
            &&& r->Ok_0.prompt@ == prompt
        } else {
            r matches Err(SpawnError::BinaryMissing { path }) && path@ == a.path@
        },
    }
}

/// What the active agent is started with for a message of the user. `agent_session_id`
/// is the agent's own session that it resumes, `help_text` what its program says when
/// asked for help.
pub fn spawn_active(
    agent: &Option<ActiveAgent>,
    platform: Platform,
    session_id: &str,
    message: &str,
    agent_session_id: Option<&str>,
    help_text: Option<&str>,
    override_text: Option<&str>,
    experiences: Option<&[Experience]>,
    history: Option<&str>,
) -> (r: Result<SpawnPlan, SpawnError>)
    ensures
        is_plan(
            r,
            *agent,
            platform,
            match (agent, agent_session_id) {
                (Some(a), Some(id)) => Some(
                    (
                        resolved_flag(
                            a.provider@,
                            session_flag(a.provider@),
                            help_text.deep_view(),
                        ),
                        id@,
                    ),
                ),
                _ => None,
            },
            chosen_prompt(
                message@,
                override_text.deep_view(),
                session_id@,
                experience_models(experiences),
                history.deep_view(),
            ),
        ),
{
    let exe = match active_program(agent, platform) {
        Ok(e) => e,
        Err(e) => return Err(e),
    };
    match agent {
        None => Err(SpawnError::NoActiveAgent),
        Some(a) => {
            let provider = a.provider.as_str();
            let config = command_config_for(provider);
            let args = match agent_session_id {
                Some(id) => {
                    let flag = resolve_session_flag(provider, config.session_flag, help_text);
                    command_args(provider, Some((flag, id)))
                },
                None => command_args(provider, None),
            };
            let plain = match experiences {
                Some(es) => es.len() == 0,
                None => true,
            };
            let prompt = match experiences {
                Some(es) if !plain => prompt::build_prompt_with_experiences(
                    message,
                    override_text,
                    session_id,
                    es,
                ),
                _ => match history {
                    Some(h) => prompt::build_prompt_with_history(
                        message,
                        override_text,
                        session_id,
                        h,
                    ),
                    None => prompt::build_prompt(message, override_text, session_id),
                },
            };
            Ok(SpawnPlan { exe, args, prompt })
        },
    }
}

/// The conversation that is told to an agent that starts afresh: none where the messages
/// could not be read.
pub open spec fn told_history(
    messages: Option<&[MessageRow]>,
    agent_message_id: Seq<char>,
) -> Option<Seq<char>> {
    match messages {
        Some(m) => stream::recent_history(session::messages(m@), agent_message_id),
        None => None,
    }
}

/// What the active agent is started with once it has refused to resume its session: it
/// resumes none, and what was said before goes into the prompt. `messages` are those of the
/// conversation, where they could be read; `agent_message_id` is the one being answered.
pub fn spawn_fresh(
    agent: &Option<ActiveAgent>,
    platform: Platform,
    session_id: &str,
    retry: &ResumeRetry,
    override_text: Option<&str>,
    messages: Option<&[MessageRow]>,
    agent_message_id: &str,
) -> (r: Result<SpawnPlan, SpawnError>)
    ensures
        is_plan(
            r,
            *agent,
            platform,
            None,
            chosen_prompt(
                retry.user_message@,
                override_text.deep_view(),
                session_id@,
                None,
                told_history(messages, agent_message_id@),
            ),
        ),
{
    let history = match messages {
        Some(m) => stream::format_recent_history(m, agent_message_id),
        None => None,
    };
    let told = match &history {
        Some(h) => Some(h.as_str()),
        None => None,
    };
    spawn_active(
        agent,
        platform,
        session_id,
        retry.user_message.as_str(),
        None,
        None,
        override_text,
        None,
        told,
    )
}

/// What the active agent is started with for a single question: it resumes no session and
/// reads the question as it is.
pub fn plan_one_shot(agent: &Option<ActiveAgent>, platform: Platform, prompt: &str) -> (r: Result<
    SpawnPlan,
    SpawnError,
>)
    ensures
        is_plan(r, *agent, platform, None, prompt@),
{
    let exe = match active_program(agent, platform) {
        Ok(e) => e,
        Err(e) => return Err(e),
    };
    match agent {
        None => Err(SpawnError::NoActiveAgent),
        Some(a) => Ok(
            SpawnPlan {
                exe,
                args: command_args(a.provider.as_str(), None),
                prompt: text::owned(prompt),
            },
        ),
    }
}

/// The text of the first `n` blocks of an assistant's message.
pub open spec fn block_texts(items: Seq<JsonModel>, n: int) -> Seq<char>
    decreases n,
{
    if n <= 0 {
        Seq::empty()
    } else if json::string(json::field(items[n - 1], "type"@)) == Some("text"@) {
        block_texts(items, n - 1) + or_else(
            json::string(json::field(items[n - 1], "text"@)),
            Seq::empty(),
        )
    } else {
        block_texts(items, n - 1)
    }
}

/// What one line of an agent's output adds to the answer of a single question.
pub open spec fn one_shot_text(provider: Seq<char>, j: JsonModel) -> Seq<char> {
    let kind = json::string(json::field(j, "type"@));
    if provider == "opencode"@ {
        if kind == Some("text"@) {
            or_else(json::string(json::inner(json::field(j, "part"@), "text"@)), Seq::empty())
        } else {
            Seq::empty()
        }
    } else if kind == Some("result"@) {
        or_else(json::string(json::field(j, "result"@)), Seq::empty())
    } else if kind == Some("assistant"@) {
        match json::items(json::inner(json::field(j, "message"@), "content"@)) {
            Some(items) => block_texts(items, items.len() as int),
            None => Seq::empty(),
        }
    } else {
        Seq::empty()
    }
}

fn append_opt(out: &mut String, t: Option<&str>)
    ensures
        final(out)@ == old(out)@ + or_else(t.deep_view(), Seq::empty()),
{
    let ghost before = out@;
    match t {
        Some(s) => out.append(s),
        None => {
            assert(out@ =~= before + Seq::<char>::empty());
        },
    }
}

fn is_kind(j: &Json, kind: &str) -> (r: bool)
    ensures
        r == (json::string(json::field(j@, "type"@)) == Some(kind@)),
{
    match json::as_str(j.get("type")) {
        Some(t) => text::same(t, kind),
        None => false,
    }
}

/// Takes one line of an agent's output, read as JSON, into the answer.
pub fn append_one_shot_value(out: &mut String, provider: &str, j: &Json)
    ensures
        final(out)@ == old(out)@ + one_shot_text(provider@, j@),
{
    let ghost before = out@;
    if text::same(provider, "opencode") {
        if is_kind(j, "text") {
            append_opt(out, json::as_str(json::get_in(j.get("part"), "text")));
            return;
        }
    } else if is_kind(j, "result") {
        append_opt(out, json::as_str(j.get("result")));
        return;
    } else if is_kind(j, "assistant") {
        match json::as_array(json::get_in(j.get("message"), "content")) {
            Some(content) => {
                let ghost items = json::models(content@);
                proof {
                    json::lemma_models(content@);
                }
                let mut i: usize = 0;
                assert(out@ =~= before + block_texts(items, 0));
                while i < content.len()
                    invariant
                        i <= content@.len(),
                        items.len() == content@.len(),
                        forall|k: int|
                            0 <= k < items.len() ==> #[trigger] items[k] == json::model(
                                content@[k],
                            ),
                        out@ == before + block_texts(items, i as int),
                    decreases content@.len() - i,
                {
                    let block = &content[i];
                    assert(items[i as int] == block@);
                    if is_kind(block, "text") {
                        append_opt(out, json::as_str(block.get("text")));
                    }
                    i = i + 1;
                    assert(out@ =~= before + block_texts(items, i as int));
                }
                return;
            },
            None => {},
        }
    }
    assert(out@ =~= before + Seq::<char>::empty());
}

/// What the first `n` lines of an agent's output add to the answer.
pub open spec fn one_shot_answer(provider: Seq<char>, lines: Seq<Seq<char>>, n: int) -> Seq<char>
    decreases n,
{
    if n <= 0 {
        Seq::empty()
    } else {
        one_shot_answer(provider, lines, n - 1) + match json::parsed(lines[n - 1]) {
            Some(j) => one_shot_text(provider, j),
            None => Seq::empty(),
        }
    }
}

/// Takes one line of an agent's output into the answer.
pub fn append_one_shot_line(out: &mut String, provider: &str, line: &str)
    ensures
        final(out)@ == old(out)@ + (match json::parsed(line@) {
            Some(j) => one_shot_text(provider@, j),
            None => Seq::empty(),
        }),
{
    let ghost before = out@;
    match json::parse(line) {
        Some(j) => append_one_shot_value(out, provider, &j),
        None => {
            assert(out@ =~= before + Seq::<char>::empty());
        },
    }
}

/// The answer of an agent to a single question, from the lines of its output.
pub fn spawn_one_shot(provider: &str, lines: &Vec<String>) -> (r: String)
    ensures
        r@ == one_shot_answer(provider@, lines.deep_view(), lines@.len() as int),
{
    let ghost all = lines.deep_view();
    let mut out = String::new();
    let mut i: usize = 0;
    while i < lines.len()
        invariant
            i <= lines@.len(),
            all == lines.deep_view(),
            out@ == one_shot_answer(provider@, all, i as int),
        decreases lines@.len() - i,
    {
        assert(all[i as int] == lines@[i as int]@);
        append_one_shot_line(&mut out, provider, lines[i].as_str());
        i = i + 1;
    }
    out
}

} // verus!
