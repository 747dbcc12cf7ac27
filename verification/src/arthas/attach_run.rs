//! Putting arthas into a JVM, step by step.

use crate::app::env_credentials::EnvCredentialRow;
use crate::arthas::attach;
use crate::arthas::attach::{
    attaching, free_port_in, port_probe, port_search, properties, properties_write, user_check,
    users_in, written, ARTHAS_PORT_CANDIDATES, ARTHAS_PORT_START,
};
use crate::chars;
use crate::exec::channel::RunOutcome;
use crate::exec::pool::EnvironmentInfo;
use crate::exec::ssh::{auth_of_row, AuthModel, SshAuth, SshTransport};
use crate::ids;
use crate::text;
use vstd::prelude::*;

verus! {

/// What is to be done: which process of which environment, for which session, and the
/// `java` that may be used for it.
#[derive(Debug)]
pub struct AttachRequest {
    pub session_id: String,
    pub env_id: String,
    pub pid: i64,
    pub java_bin: String,
}

impl Clone for AttachRequest {
    fn clone(&self) -> (r: Self)
        ensures
            r == *self,
    {
        AttachRequest {
            session_id: self.session_id.clone(),
            env_id: self.env_id.clone(),
            pid: self.pid,
            java_bin: self.java_bin.clone(),
        }
    }
}

/// How long arthas may take to answer.
pub const READY_BUDGET_SECS: u64 = 60;

/// How long to wait before asking again.
pub const PROBE_INTERVAL_SECS: u64 = 3;

/// Where the log of arthas is, as messages say it.
pub const ARTHAS_LOG_HINT: &'static str = "/tmp/arthas-friday-<pid>.log";

/// The command that tells the `java` of a machine.
pub const FIND_JAVA: &'static str = "command -v java";

/// What the work waits for.
#[derive(Clone, Copy, PartialEq, Eq, Structural, Debug)]
pub enum AttachStage {
    Channel,
    Setting,
    Package,
    CachedJdk,
    PathJava,
    Jdk,
    Users,
    Credential,
    Temporary,
    Port,
    Config,
    Attach,
    Probe,
    Tunnel,
    Handshake,
    Over,
}

/// The work on a process, and what is known so far.
#[derive(Debug)]
pub struct AttachRun {
    pub session_id: String,
    pub env_id: String,
    pub pid: i64,
    pub java_bin: String,
    /// The token for the session that is to be.
    pub token: String,
    /// Where arthas is installed.
    pub home: String,
    /// The `java` that starts it.
    pub java: String,
    pub jvm_user: String,
    pub ssh_user: String,
    /// Whether a connection of its own, as the user of the process, is used to start it.
    pub temporary: bool,
    pub port: u16,
    pub local_port: u16,
    pub stage: AttachStage,
}

#[verifier::ext_equal]
pub struct AttachModel {
    pub session_id: Seq<char>,
    pub env_id: Seq<char>,
    pub pid: i64,
    pub java_bin: Seq<char>,
    pub token: Seq<char>,
    pub home: Seq<char>,
    pub java: Seq<char>,
    pub jvm_user: Seq<char>,
    pub ssh_user: Seq<char>,
    pub temporary: bool,
    pub port: u16,
    pub local_port: u16,
    pub stage: AttachStage,
}

impl View for AttachRun {
    type V = AttachModel;

    open spec fn view(&self) -> AttachModel {
        AttachModel {
            session_id: self.session_id@,
            env_id: self.env_id@,
            pid: self.pid,
            java_bin: self.java_bin@,
            token: self.token@,
            home: self.home@,
            java: self.java@,
            jvm_user: self.jvm_user@,
            ssh_user: self.ssh_user@,
            temporary: self.temporary,
            port: self.port,
            local_port: self.local_port,
            stage: self.stage,
        }
    }
}

/// What was done or found out.
#[derive(Debug)]
pub enum AttachEvent {
    /// The connection to the machine.
    Channel(Result<(), String>),
    /// The address of the store of packages.
    Setting(Result<String, String>),
    /// Where arthas is installed.
    Package(Result<String, String>),
    /// Where a JDK is known to be.
    CachedJdk(Option<String>),
    /// What came of `FIND_JAVA`, and whether what it wrote may stand in a command.
    PathJava { outcome: RunOutcome, valid: bool },
    /// Where a JDK was installed.
    Jdk(Result<String, String>),
    /// What came of the command that was to be run.
    Command(RunOutcome),
    /// Whether there is a credential of the user.
    Credential(bool),
    /// The connection of its own.
    Temporary(Result<(), String>),
    /// What came of asking for the port, and whether the time is over.
    Probe { outcome: RunOutcome, late: bool },
    /// The local port of the tunnel.
    Tunnel(Result<u16, String>),
    /// The first talk with arthas.
    Handshake(Result<(), String>),
}

/// What to do next.
#[derive(Debug)]
pub enum AttachAction {
    /// Get the connection to the environment.
    GetChannel { env_id: String },
    /// Read the address of the store of packages.
    ReadSetting,
    /// Install arthas from the store at this address.
    EnsurePackage { env_id: String, base_url: String },
    /// See whether a JDK of the environment is known.
    LookUpJdk { env_id: String },
    /// Install a JDK like that of this `java`, and remember it for the environment.
    EnsureJdk { env_id: String, java_bin: String },
    /// Wait, then run a command that must end within some seconds; with `temporary`, on the
    /// connection of its own.
    Run { wait_secs: u64, command: String, secs: u64, temporary: bool },
    /// Look for a credential of this user in the environment.
    FindCredential { env_id: String, user: String },
    /// Connect as the user of that credential.
    ConnectTemporary,
    /// Open a tunnel to this port.
    OpenTunnel { env_id: String, port: u16 },
    /// Speak with arthas at this address, with this token.
    Connect { url: String, token: String },
    /// Arthas is ready: its port, and the local port of the tunnel.
    Ready { port: u16, local_port: u16 },
    /// It cannot be done. Where a tunnel to a port was opened, it is to be closed.
    Fail { error: String, close_tunnel: Option<u16> },
    /// The event did not belong here.
    Ignore,
}

pub enum ActionModel {
    GetChannel { env_id: Seq<char> },
    ReadSetting,
    EnsurePackage { env_id: Seq<char>, base_url: Seq<char> },
    LookUpJdk { env_id: Seq<char> },
    EnsureJdk { env_id: Seq<char>, java_bin: Seq<char> },
    Run { wait_secs: u64, command: Seq<char>, secs: u64, temporary: bool },
    FindCredential { env_id: Seq<char>, user: Seq<char> },
    ConnectTemporary,
    OpenTunnel { env_id: Seq<char>, port: u16 },
    Connect { url: Seq<char>, token: Seq<char> },
    Ready { port: u16, local_port: u16 },
    Fail { error: Seq<char>, close_tunnel: Option<u16> },
    Ignore,
}

impl View for AttachAction {
    type V = ActionModel;

    open spec fn view(&self) -> ActionModel {
        match self {
            AttachAction::GetChannel { env_id } => ActionModel::GetChannel { env_id: env_id@ },
            AttachAction::ReadSetting => ActionModel::ReadSetting,
            AttachAction::EnsurePackage { env_id, base_url } => ActionModel::EnsurePackage {
                env_id: env_id@,
                base_url: base_url@,
            },
            AttachAction::LookUpJdk { env_id } => ActionModel::LookUpJdk { env_id: env_id@ },
            AttachAction::EnsureJdk { env_id, java_bin } => ActionModel::EnsureJdk {
                env_id: env_id@,
                java_bin: java_bin@,
            },
            AttachAction::Run { wait_secs, command, secs, temporary } => ActionModel::Run {
                wait_secs: *wait_secs,
                command: command@,
                secs: *secs,
                temporary: *temporary,
            },
            AttachAction::FindCredential { env_id, user } => ActionModel::FindCredential {
                env_id: env_id@,
                user: user@,
            },
            AttachAction::ConnectTemporary => ActionModel::ConnectTemporary,
            AttachAction::OpenTunnel { env_id, port } => ActionModel::OpenTunnel {
                env_id: env_id@,
                port: *port,
            },
            AttachAction::Connect { url, token } => ActionModel::Connect {
                url: url@,
                token: token@,
            },
            AttachAction::Ready { port, local_port } => ActionModel::Ready {
                port: *port,
                local_port: *local_port,
            },
            AttachAction::Fail { error, close_tunnel } => ActionModel::Fail {
                error: error@,
                close_tunnel: *close_tunnel,
            },
            AttachAction::Ignore => ActionModel::Ignore,
        }
    }
}

/// What is told of the progress, and what to do next. With `leave_temporary`, the
/// connection of its own is to be closed first.
#[derive(Debug)]
pub struct AttachStep {
    /// The name of a stage and what is said of it.
    pub progress: Option<(&'static str, String)>,
    pub leave_temporary: bool,
    pub action: AttachAction,
}

#[verifier::ext_equal]
pub struct StepModel {
    pub progress: Option<(Seq<char>, Seq<char>)>,
    pub leave_temporary: bool,
    pub action: ActionModel,
}

impl View for AttachStep {
    type V = StepModel;

    open spec fn view(&self) -> StepModel {
        StepModel {
            progress: match self.progress {
                Some(p) => Some((p.0@, p.1@)),
                None => None,
            },
            leave_temporary: self.leave_temporary,
            action: self.action@,
        }
    }
}

pub open spec fn quiet(action: ActionModel) -> StepModel {
    StepModel { progress: None, leave_temporary: false, action }
}

pub open spec fn told(stage: Seq<char>, detail: Seq<char>, action: ActionModel) -> StepModel {
    StepModel { progress: Some((stage, detail)), leave_temporary: false, action }
}

pub open spec fn run_here(command: Seq<char>, secs: u64) -> ActionModel {
    ActionModel::Run { wait_secs: 0, command, secs, temporary: false }
}

/// The connection of its own is open: from when it was made until arthas was started.
pub open spec fn temporary_open(m: AttachModel) -> bool {
    m.temporary && (m.stage == AttachStage::Port || m.stage == AttachStage::Config || m.stage
        == AttachStage::Attach)
}

/// The work is over. A connection of its own that is still open is left.
pub open spec fn failed(m: AttachModel, error: Seq<char>) -> (AttachModel, StepModel) {
    (
        AttachModel { stage: AttachStage::Over, ..m },
        StepModel {
            progress: None,
            leave_temporary: temporary_open(m),
            action: ActionModel::Fail { error, close_tunnel: None },
        },
    )
}

/// The process is started by the user who is connected: it is theirs, or they may do all.
pub open spec fn may_attach(jvm_user: Seq<char>, ssh_user: Seq<char>) -> bool {
    jvm_user == ssh_user || ssh_user == "root"@
}

/// With `java` known, the users are asked for.
pub open spec fn with_java(m: AttachModel, java: Seq<char>) -> (AttachModel, StepModel) {
    (
        AttachModel { java, stage: AttachStage::Users, ..m },
        told("check_user"@, "检查目标 JVM 运行用户"@, run_here(user_check(m.pid), 15)),
    )
}

/// With the users settled, a port is looked for.
pub open spec fn with_users(m: AttachModel) -> (AttachModel, StepModel) {
    (
        AttachModel { stage: AttachStage::Port, ..m },
        told(
            "allocate_port"@,
            "分配 arthas HTTP 端口"@,
            run_here(port_search_all(), 20),
        ),
    )
}

pub open spec fn port_search_all() -> Seq<char> {
    port_search(ARTHAS_PORT_START, (ARTHAS_PORT_START + ARTHAS_PORT_CANDIDATES - 1) as nat)
}

pub open spec fn no_credential(jvm_user: Seq<char>, ssh_user: Seq<char>) -> Seq<char> {
    "目标 JVM 运行用户为 "@ + jvm_user + "，当前 SSH 用户为 "@ + ssh_user + " 且未录入 "@ + jvm_user
        + " 的凭证。请让用户在环境管理中为该环境添加用户 "@ + jvm_user + " 的凭证后重试"@
}

pub open spec fn not_ready(port: u16) -> Seq<char> {
    "arthas HTTP 服务在 "@ + chars::dec(READY_BUDGET_SECS as nat) + "s 内未就绪（端口 "@
        + chars::dec(port as nat)
        + "）。可能原因：attach 失败（用户权限/attach 机制被禁用）、目标 JVM 拒绝 attach。可用 run_command 查看 "@
        + ARTHAS_LOG_HINT@ + " 日志"@
}

pub open spec fn exit_text(what: Seq<char>, exit_code: i32, stderr: Seq<char>) -> Seq<char> {
    what + "（exit "@ + chars::dec_signed(exit_code as int) + "）: "@ + stderr
}

/// Where the `java` of a machine is: what the command wrote, where it may be used.
pub open spec fn java_on_path(outcome: RunOutcome, valid: bool) -> Option<Seq<char>> {
    match outcome {
        RunOutcome::Output(o) => if o.exit_code == 0 && !chars::is_blank(o.stdout@) && valid {
            Some(chars::trim(o.stdout@))
        } else {
            None
        },
        _ => None,
    }
}

/// The address of arthas behind a tunnel.
pub open spec fn local_url(local_port: u16) -> Seq<char> {
    "http://127.0.0.1:"@ + chars::dec(local_port as nat) + "/mcp"@
}

pub open spec fn after_users(m: AttachModel, outcome: RunOutcome) -> (AttachModel, StepModel) {
    match written(user_check(m.pid), 15, outcome) {
        Err(e) => failed(m, e),
        Ok(o) => match users_in(o.stdout@) {
            Err(e) => failed(m, "用户对齐检查失败: "@ + e + "; stderr: "@ + o.stderr@),
            Ok((jvm_user, ssh_user)) => {
                let known = AttachModel { jvm_user, ssh_user, ..m };
                if may_attach(jvm_user, ssh_user) {
                    with_users(known)
                } else {
                    (
                        AttachModel { stage: AttachStage::Credential, ..known },
                        told(
                            "check_user"@,
                            "SSH 用户 "@ + ssh_user + " ≠ JVM 用户 "@ + jvm_user + "，使用 "@
                                + jvm_user + " 凭证临时连接"@,
                            ActionModel::FindCredential { env_id: m.env_id, user: jvm_user },
                        ),
                    )
                }
            },
        },
    }
}

pub open spec fn after_port(m: AttachModel, outcome: RunOutcome) -> (AttachModel, StepModel) {
    match written(port_search_all(), 20, outcome) {
        Err(e) => failed(m, e),
        Ok(o) => match free_port_in(o.stdout@) {
            Err(e) => failed(m, e),
            Ok(port) => (
                AttachModel { port, stage: AttachStage::Config, ..m },
                told(
                    "write_config"@,
                    "写入 arthas.properties（httpPort="@ + chars::dec(port as nat) + "）"@,
                    run_here(properties_write(m.home, properties(port, m.token)), 15),
                ),
            ),
        },
    }
}

pub open spec fn after_config(m: AttachModel, outcome: RunOutcome) -> (AttachModel, StepModel) {
    match written(properties_write(m.home, properties(m.port, m.token)), 15, outcome) {
        Err(e) => failed(m, e),
        Ok(o) => if o.exit_code != 0 {
            failed(m, exit_text("写入 arthas.properties 失败"@, o.exit_code, o.stderr@))
        } else {
            (
                AttachModel { stage: AttachStage::Attach, ..m },
                told(
                    "attach"@,
                    "attach arthas 到 PID "@ + chars::dec_signed(m.pid as int) + "（java="@
                        + m.java + "）"@,
                    ActionModel::Run {
                        wait_secs: 0,
                        command: attaching(m.java, m.home, m.pid),
                        secs: 30,
                        temporary: m.temporary,
                    },
                ),
            )
        },
    }
}

pub open spec fn after_attach(m: AttachModel, outcome: RunOutcome) -> (AttachModel, StepModel) {
    match written(attaching(m.java, m.home, m.pid), 30, outcome) {
        Err(e) => failed(m, e),
        Ok(o) => if o.exit_code != 0 {
            failed(m, exit_text("arthas attach 命令失败"@, o.exit_code, o.stderr@))
        } else {
            (
                AttachModel { stage: AttachStage::Probe, ..m },
                StepModel {
                    progress: Some(("probe"@, "等待 arthas HTTP 服务就绪"@)),
                    leave_temporary: m.temporary,
                    action: run_here(port_probe(m.port), 15),
                },
            )
        },
    }
}

pub open spec fn after_probe(m: AttachModel, outcome: RunOutcome, late: bool) -> (
    AttachModel,
    StepModel,
) {
    match written(port_probe(m.port), 15, outcome) {
        Err(e) => failed(m, "arthas 探活失败: attach 失败："@ + e),
        Ok(o) => if chars::trim(o.stdout@) == "busy"@ {
            (
                AttachModel { stage: AttachStage::Tunnel, ..m },
                told("tunnel"@, "建立 SSH 隧道"@, ActionModel::OpenTunnel { env_id: m.env_id, port: m.port }),
            )
        } else if late {
            failed(m, not_ready(m.port))
        } else {
            (
                m,
                quiet(
                    ActionModel::Run {
                        wait_secs: PROBE_INTERVAL_SECS,
                        command: port_probe(m.port),
                        secs: 15,
                        temporary: false,
                    },
                ),
            )
        },
    }
}

/// The next state of the work, what is told of it and what to do.
pub open spec fn next(m: AttachModel, e: AttachEvent) -> (AttachModel, StepModel) {
    match (m.stage, e) {
        (AttachStage::Channel, AttachEvent::Channel(Ok(_))) => (
            AttachModel { stage: AttachStage::Setting, ..m },
            told("ensure_package"@, "确保 arthas 工具包"@, ActionModel::ReadSetting),
        ),
        (AttachStage::Channel, AttachEvent::Channel(Err(e))) => failed(
            m,
            "SSH 连接失败: "@ + e@,
        ),
        (AttachStage::Setting, AttachEvent::Setting(Ok(base))) => if chars::is_blank(base@) {
            failed(m, "Artifactory 地址未配置，请在设置中配置后重试"@)
        } else {
            (
                AttachModel { stage: AttachStage::Package, ..m },
                quiet(ActionModel::EnsurePackage { env_id: m.env_id, base_url: base@ }),
            )
        },
        (AttachStage::Setting, AttachEvent::Setting(Err(e))) => failed(
            m,
            "读取 Artifactory 设置失败: "@ + e@,
        ),
        (AttachStage::Package, AttachEvent::Package(Ok(home))) => (
            AttachModel { home: home@, stage: AttachStage::CachedJdk, ..m },
            quiet(ActionModel::LookUpJdk { env_id: m.env_id }),
        ),
        (AttachStage::Package, AttachEvent::Package(Err(e))) => failed(
            m,
            "arthas 工具包下发失败: "@ + e@,
        ),
        (AttachStage::CachedJdk, AttachEvent::CachedJdk(Some(home))) => with_java(
            m,
            home@ + "/bin/java"@,
        ),
        (AttachStage::CachedJdk, AttachEvent::CachedJdk(None)) => (
            AttachModel { stage: AttachStage::PathJava, ..m },
            quiet(run_here(FIND_JAVA@, 15)),
        ),
        (AttachStage::PathJava, AttachEvent::PathJava { outcome, valid }) => match java_on_path(
            outcome,
            valid,
        ) {
            Some(java) => with_java(m, java),
            None => (
                AttachModel { stage: AttachStage::Jdk, ..m },
                quiet(ActionModel::EnsureJdk { env_id: m.env_id, java_bin: m.java_bin }),
            ),
        },
        (AttachStage::Jdk, AttachEvent::Jdk(Ok(home))) => with_java(m, home@ + "/bin/java"@),
        (AttachStage::Jdk, AttachEvent::Jdk(Err(e))) => failed(
            m,
            "目标机找不到可用的 java（"@ + e@
                + "）。可用 run_command 确认目标服务的 java 路径后，用 java_bin 参数重试 arthas_open"@,
        ),
        (AttachStage::Users, AttachEvent::Command(outcome)) => after_users(m, outcome),
        (AttachStage::Credential, AttachEvent::Credential(there)) => if there {
            (
                AttachModel { stage: AttachStage::Temporary, ..m },
                quiet(ActionModel::ConnectTemporary),
            )
        } else {
            failed(m, no_credential(m.jvm_user, m.ssh_user))
        },
        (AttachStage::Temporary, AttachEvent::Temporary(Ok(_))) => with_users(
            AttachModel { temporary: true, ..m },
        ),
        (AttachStage::Temporary, AttachEvent::Temporary(Err(e))) => failed(m, e@),
        (AttachStage::Port, AttachEvent::Command(outcome)) => after_port(m, outcome),
        (AttachStage::Config, AttachEvent::Command(outcome)) => after_config(m, outcome),
        (AttachStage::Attach, AttachEvent::Command(outcome)) => after_attach(m, outcome),
        (AttachStage::Probe, AttachEvent::Probe { outcome, late }) => after_probe(
            m,
            outcome,
            late,
        ),
        (AttachStage::Tunnel, AttachEvent::Tunnel(Ok(local_port))) => (
            AttachModel { local_port, stage: AttachStage::Handshake, ..m },
            told(
                "handshake"@,
                "MCP 握手（"@ + local_url(local_port) + "）"@,
                ActionModel::Connect { url: local_url(local_port), token: m.token },
            ),
        ),
        (AttachStage::Tunnel, AttachEvent::Tunnel(Err(e))) => failed(
            m,
            "SSH 隧道建立失败: "@ + e@,
        ),
        (AttachStage::Handshake, AttachEvent::Handshake(Ok(_))) => (
            AttachModel { stage: AttachStage::Over, ..m },
            told(
                "ready"@,
                "arthas 就绪（远端端口 "@ + chars::dec(m.port as nat) + "，本地隧道端口 "@
                    + chars::dec(m.local_port as nat) + "）"@,
                ActionModel::Ready { port: m.port, local_port: m.local_port },
            ),
        ),
        (AttachStage::Handshake, AttachEvent::Handshake(Err(e))) => (
            AttachModel { stage: AttachStage::Over, ..m },
            quiet(
                ActionModel::Fail {
                    error: "arthas MCP 握手失败: "@ + e@,
                    close_tunnel: Some(m.port),
                },
            ),
        ),
        _ => (m, quiet(ActionModel::Ignore)),
    }
}

pub open spec fn started(
    session_id: Seq<char>,
    env_id: Seq<char>,
    pid: i64,
    java_bin: Seq<char>,
    token: Seq<char>,
) -> AttachModel {
    AttachModel {
        session_id,
        env_id,
        pid,
        java_bin,
        token,
        home: Seq::empty(),
        java: Seq::empty(),
        jvm_user: Seq::empty(),
        ssh_user: Seq::empty(),
        temporary: false,
        port: 0,
        local_port: 0,
        stage: AttachStage::Channel,
    }
}

/// Begins the work on a process, with a fresh token for the session.
pub fn attach_arthas(req: &AttachRequest) -> (r: (AttachRun, AttachAction))
    ensures
        ids::is_simple_uuid(r.0.token@),
        r.0@ == started(req.session_id@, req.env_id@, req.pid, req.java_bin@, r.0.token@),
        r.1@ == (ActionModel::GetChannel { env_id: req.env_id@ }),
{
    let run = AttachRun::start(req, attach::generate_token());
    (run, AttachAction::GetChannel { env_id: req.env_id.clone() })
}

fn note(action: AttachAction) -> (r: AttachStep)
    ensures
        r@ == quiet(action@),
{
    AttachStep { progress: None, leave_temporary: false, action }
}

fn tell(stage: &'static str, detail: String, action: AttachAction) -> (r: AttachStep)
    ensures
        r@ == told(stage@, detail@, action@),
{
    AttachStep { progress: Some((stage, detail)), leave_temporary: false, action }
}

fn run_within(command: String, secs: u64) -> (r: AttachAction)
    ensures
        r@ == run_here(command@, secs),
{
    AttachAction::Run { wait_secs: 0, command, secs, temporary: false }
}

fn two(a: &str, b: &str) -> (r: String)
    ensures
        r@ == a@ + b@,
{
    let mut s = text::owned(a);
    s.append(b);
    s
}

fn three(a: &str, b: &str, c: &str) -> (r: String)
    ensures
        r@ == a@ + b@ + c@,
{
    let mut s = two(a, b);
    s.append(c);
    s
}

fn exit_error(what: &str, exit_code: i32, stderr: &str) -> (r: String)
    ensures
        r@ == exit_text(what@, exit_code, stderr@),
{
    let mut s = two(what, "（exit ");
    s.append(text::dec_signed(exit_code as i64).as_str());
    s.append("）: ");
    s.append(stderr);
    s
}

impl AttachRun {
    pub fn start(req: &AttachRequest, token: String) -> (r: Self)
        ensures
            r@ == started(req.session_id@, req.env_id@, req.pid, req.java_bin@, token@),
    {
        let r = AttachRun {
            session_id: req.session_id.clone(),
            env_id: req.env_id.clone(),
            pid: req.pid,
            java_bin: req.java_bin.clone(),
            token,
            home: String::new(),
            java: String::new(),
            jvm_user: String::new(),
            ssh_user: String::new(),
            temporary: false,
            port: 0,
            local_port: 0,
            stage: AttachStage::Channel,
        };
        assert(r@ =~= started(req.session_id@, req.env_id@, req.pid, req.java_bin@, token@));
        r
    }

    fn fail(&mut self, error: String) -> (r: AttachStep)
        ensures
            (final(self)@, r@) == failed(old(self)@, error@),
    {
        let leave_temporary = self.temporary && match self.stage {
            AttachStage::Port | AttachStage::Config | AttachStage::Attach => true,
            _ => false,
        };
        self.stage = AttachStage::Over;
        AttachStep {
            progress: None,
            leave_temporary,
            action: AttachAction::Fail { error, close_tunnel: None },
        }
    }

    fn ask_users(&mut self, java: String) -> (r: AttachStep)
        ensures
            (final(self)@, r@) == with_java(old(self)@, java@),
    {
        self.java = java;
        self.stage = AttachStage::Users;
        tell(
            "check_user",
            text::owned("检查目标 JVM 运行用户"),
            run_within(attach::check_user_command(self.pid), 15),
        )
    }

    fn ask_port(&mut self) -> (r: AttachStep)
        ensures
            (final(self)@, r@) == with_users(old(self)@),
    {
        self.stage = AttachStage::Port;
        tell(
            "allocate_port",
            text::owned("分配 arthas HTTP 端口"),
            run_within(attach::find_free_port_command(ARTHAS_PORT_START, ARTHAS_PORT_CANDIDATES), 20),
        )
    }

    /// Decides once the users are known: whether the connection at hand will do.
    pub fn check_users(&mut self, outcome: RunOutcome) -> (r: AttachStep)
        ensures
            (final(self)@, r@) == after_users(old(self)@, outcome),
    {
        let cmd = attach::check_user_command(self.pid);
        let out = match attach::run_with_timeout(cmd.as_str(), 15, outcome) {
            Ok(o) => o,
            Err(e) => return self.fail(e),
        };
        match attach::parse_user_check(out.stdout.as_str()) {
            Err(e) => {
                let mut m = two("用户对齐检查失败: ", e.as_str());
                m.append("; stderr: ");
                m.append(out.stderr.as_str());
                self.fail(m)
            },
            Ok((jvm_user, ssh_user)) => {
                let shared = text::same(jvm_user.as_str(), ssh_user.as_str()) || text::same(
                    ssh_user.as_str(),
                    "root",
                );
                let mut detail = three("SSH 用户 ", ssh_user.as_str(), " ≠ JVM 用户 ");
                detail.append(jvm_user.as_str());
                detail.append("，使用 ");
                detail.append(jvm_user.as_str());
                detail.append(" 凭证临时连接");
                let user = jvm_user.clone();
                self.jvm_user = jvm_user;
                self.ssh_user = ssh_user;
                if shared {
                    self.ask_port()
                } else {
                    self.stage = AttachStage::Credential;
                    let env_id = self.env_id.clone();
                    tell("check_user", detail, AttachAction::FindCredential { env_id, user })
                }
            },
        }
    }

    /// Decides once a port was looked for.
    pub fn find_free_remote_port(&mut self, outcome: RunOutcome) -> (r: AttachStep)
        ensures
            (final(self)@, r@) == after_port(old(self)@, outcome),
    {
        let cmd = attach::find_free_port_command(ARTHAS_PORT_START, ARTHAS_PORT_CANDIDATES);
        let out = match attach::run_with_timeout(cmd.as_str(), 20, outcome) {
            Ok(o) => o,
            Err(e) => return self.fail(e),
        };
        match attach::parse_free_port(out.stdout.as_str()) {
            Err(e) => self.fail(e),
            Ok(port) => {
                self.port = port;
                self.stage = AttachStage::Config;
                let content = attach::arthas_properties_content(port, self.token.as_str());
                tell(
                    "write_config",
                    three(
                        "写入 arthas.properties（httpPort=",
                        text::dec(port as u64).as_str(),
                        "）",
                    ),
                    run_within(
                        attach::write_properties_command(self.home.as_str(), content.as_str()),
                        15,
                    ),
                )
            },
        }
    }

    /// Decides once the configuration was written.
    pub fn write_properties(&mut self, outcome: RunOutcome) -> (r: AttachStep)
        ensures
            (final(self)@, r@) == after_config(old(self)@, outcome),
    {
        let content = attach::arthas_properties_content(self.port, self.token.as_str());
        let cmd = attach::write_properties_command(self.home.as_str(), content.as_str());
        let out = match attach::run_with_timeout(cmd.as_str(), 15, outcome) {
            Ok(o) => o,
            Err(e) => return self.fail(e),
        };
        if out.exit_code != 0 {
            return self.fail(
                exit_error("写入 arthas.properties 失败", out.exit_code, out.stderr.as_str()),
            );
        }
        self.stage = AttachStage::Attach;
        let mut detail = three(
            "attach arthas 到 PID ",
            text::dec_signed(self.pid).as_str(),
            "（java=",
        );
        detail.append(self.java.as_str());
        detail.append("）");
        let command = attach::attach_command(self.java.as_str(), self.home.as_str(), self.pid);
        tell(
            "attach",
            detail,
            AttachAction::Run { wait_secs: 0, command, secs: 30, temporary: self.temporary },
        )
    }

    /// Decides once arthas was started.
    pub fn run_attach_command(&mut self, outcome: RunOutcome) -> (r: AttachStep)
        ensures
            (final(self)@, r@) == after_attach(old(self)@, outcome),
    {
        let cmd = attach::attach_command(self.java.as_str(), self.home.as_str(), self.pid);
        let out = match attach::run_with_timeout(cmd.as_str(), 30, outcome) {
            Ok(o) => o,
            Err(e) => return self.fail(e),
        };
        if out.exit_code != 0 {
            return self.fail(
                exit_error("arthas attach 命令失败", out.exit_code, out.stderr.as_str()),
            );
        }
        self.stage = AttachStage::Probe;
        AttachStep {
            progress: Some(("probe", text::owned("等待 arthas HTTP 服务就绪"))),
            leave_temporary: self.temporary,
            action: run_within(attach::port_probe_command(self.port), 15),
        }
    }

    /// Decides whether arthas is ready, is waited for, or has taken too long.
    pub fn wait_http_ready(&mut self, outcome: RunOutcome, late: bool) -> (r: AttachStep)
        ensures
            (final(self)@, r@) == after_probe(old(self)@, outcome, late),
    {
        let command = attach::port_probe_command(self.port);
        let out = match attach::run_with_timeout(command.as_str(), 15, outcome) {
            Ok(o) => o,
            Err(e) => return self.fail(two("arthas 探活失败: attach 失败：", e.as_str())),
        };
        if text::same(text::trim(out.stdout.as_str()), "busy") {
            self.stage = AttachStage::Tunnel;
            return tell(
                "tunnel",
                text::owned("建立 SSH 隧道"),
                AttachAction::OpenTunnel { env_id: self.env_id.clone(), port: self.port },
            );
        }
        if late {
            let mut e = three(
                "arthas HTTP 服务在 ",
                text::dec(READY_BUDGET_SECS).as_str(),
                "s 内未就绪（端口 ",
            );
            e.append(text::dec(self.port as u64).as_str());
            e.append(
                "）。可能原因：attach 失败（用户权限/attach 机制被禁用）、目标 JVM 拒绝 attach。可用 run_command 查看 ",
            );
            e.append(ARTHAS_LOG_HINT);
            e.append(" 日志");
            return self.fail(e);
        }
        note(
            AttachAction::Run {
                wait_secs: PROBE_INTERVAL_SECS,
                command,
                secs: 15,
                temporary: false,
            },
        )
    }

    /// Decides where the `java` that starts arthas comes from: from a JDK that is known,
    /// else from the machine itself, else from a JDK that is installed for it.
    pub fn resolve_attach_java(&mut self, event: AttachEvent) -> (r: AttachStep)
        requires
            match event {
                AttachEvent::CachedJdk(_) => old(self).stage == AttachStage::CachedJdk,
                AttachEvent::PathJava { .. } => old(self).stage == AttachStage::PathJava,
                AttachEvent::Jdk(_) => old(self).stage == AttachStage::Jdk,
                _ => false,
            },
        ensures
            (final(self)@, r@) == next(old(self)@, event),
    {
        match event {
            AttachEvent::CachedJdk(Some(home)) => self.ask_users(
                two(home.as_str(), "/bin/java"),
            ),
            AttachEvent::CachedJdk(None) => {
                self.stage = AttachStage::PathJava;
                note(run_within(text::owned(FIND_JAVA), 15))
            },
            AttachEvent::PathJava { outcome, valid } => {
                match outcome {
                    RunOutcome::Output(o) => {
                        if o.exit_code == 0 && !text::is_blank(o.stdout.as_str()) && valid {
                            return self.ask_users(text::owned(text::trim(o.stdout.as_str())));
                        }
                    },
                    _ => {},
                }
                self.stage = AttachStage::Jdk;
                note(
                    AttachAction::EnsureJdk {
                        env_id: self.env_id.clone(),
                        java_bin: self.java_bin.clone(),
                    },
                )
            },
            AttachEvent::Jdk(Ok(home)) => self.ask_users(two(home.as_str(), "/bin/java")),
            AttachEvent::Jdk(Err(e)) => self.fail(
                three(
                    "目标机找不到可用的 java（",
                    e.as_str(),
                    "）。可用 run_command 确认目标服务的 java 路径后，用 java_bin 参数重试 arthas_open",
                ),
            ),
            _ => note(AttachAction::Ignore),
        }
    }

    /// Decides what to do once something was done or found out.
    pub fn step(&mut self, event: AttachEvent) -> (r: AttachStep)
        ensures
            (final(self)@, r@) == next(old(self)@, event),
    {
        match (self.stage, event) {
            (AttachStage::Channel, AttachEvent::Channel(Ok(_))) => {
                self.stage = AttachStage::Setting;
                tell(
                    "ensure_package",
                    text::owned("确保 arthas 工具包"),
                    AttachAction::ReadSetting,
                )
            },
            (AttachStage::Channel, AttachEvent::Channel(Err(e))) => self.fail(
                two("SSH 连接失败: ", e.as_str()),
            ),
            (AttachStage::Setting, AttachEvent::Setting(Ok(base_url))) => {
                if text::is_blank(base_url.as_str()) {
                    self.fail(text::owned("Artifactory 地址未配置，请在设置中配置后重试"))
                } else {
                    self.stage = AttachStage::Package;
                    note(AttachAction::EnsurePackage { env_id: self.env_id.clone(), base_url })
                }
            },
            (AttachStage::Setting, AttachEvent::Setting(Err(e))) => self.fail(
                two("读取 Artifactory 设置失败: ", e.as_str()),
            ),
            (AttachStage::Package, AttachEvent::Package(Ok(home))) => {
                self.home = home;
                self.stage = AttachStage::CachedJdk;
                note(AttachAction::LookUpJdk { env_id: self.env_id.clone() })
            },
            (AttachStage::Package, AttachEvent::Package(Err(e))) => self.fail(
                two("arthas 工具包下发失败: ", e.as_str()),
            ),
            (AttachStage::CachedJdk, AttachEvent::CachedJdk(known)) => self.resolve_attach_java(
                AttachEvent::CachedJdk(known),
            ),
            (
                AttachStage::PathJava,
                AttachEvent::PathJava { outcome, valid },
            ) => self.resolve_attach_java(AttachEvent::PathJava { outcome, valid }),
            (AttachStage::Jdk, AttachEvent::Jdk(home)) => self.resolve_attach_java(
                AttachEvent::Jdk(home),
            ),
            (AttachStage::Users, AttachEvent::Command(outcome)) => self.check_users(outcome),
            (AttachStage::Credential, AttachEvent::Credential(there)) => {
                if there {
                    self.stage = AttachStage::Temporary;
                    note(AttachAction::ConnectTemporary)
                } else {
                    let mut e = three(
                        "目标 JVM 运行用户为 ",
                        self.jvm_user.as_str(),
                        "，当前 SSH 用户为 ",
                    );
                    e.append(self.ssh_user.as_str());
                    e.append(" 且未录入 ");
                    e.append(self.jvm_user.as_str());
                    e.append(" 的凭证。请让用户在环境管理中为该环境添加用户 ");
                    e.append(self.jvm_user.as_str());
                    e.append(" 的凭证后重试");
                    self.fail(e)
                }
            },
            (AttachStage::Temporary, AttachEvent::Temporary(Ok(_))) => {
                self.temporary = true;
                self.ask_port()
            },
            (AttachStage::Temporary, AttachEvent::Temporary(Err(e))) => self.fail(e),
            (AttachStage::Port, AttachEvent::Command(outcome)) => self.find_free_remote_port(
                outcome,
            ),
            (AttachStage::Config, AttachEvent::Command(outcome)) => self.write_properties(
                outcome,
            ),
            (AttachStage::Attach, AttachEvent::Command(outcome)) => self.run_attach_command(
                outcome,
            ),
            (AttachStage::Probe, AttachEvent::Probe { outcome, late }) => self.wait_http_ready(
                outcome,
                late,
            ),
            (AttachStage::Tunnel, AttachEvent::Tunnel(Ok(local_port))) => {
                self.local_port = local_port;
                self.stage = AttachStage::Handshake;
                let url = three(
                    "http://127.0.0.1:",
                    text::dec(local_port as u64).as_str(),
                    "/mcp",
                );
                tell(
                    "handshake",
                    three("MCP 握手（", url.as_str(), "）"),
                    AttachAction::Connect { url, token: self.token.clone() },
                )
            },
            (AttachStage::Tunnel, AttachEvent::Tunnel(Err(e))) => self.fail(
                two("SSH 隧道建立失败: ", e.as_str()),
            ),
            (AttachStage::Handshake, AttachEvent::Handshake(Ok(_))) => {
                self.stage = AttachStage::Over;
                let mut detail = three(
                    "arthas 就绪（远端端口 ",
                    text::dec(self.port as u64).as_str(),
                    "，本地隧道端口 ",
                );
                detail.append(text::dec(self.local_port as u64).as_str());
                detail.append("）");
                tell(
                    "ready",
                    detail,
                    AttachAction::Ready { port: self.port, local_port: self.local_port },
                )
            },
            (AttachStage::Handshake, AttachEvent::Handshake(Err(e))) => {
                self.stage = AttachStage::Over;
                note(
                    AttachAction::Fail {
                        error: two("arthas MCP 握手失败: ", e.as_str()),
                        close_tunnel: Some(self.port),
                    },
                )
            },
            _ => note(AttachAction::Ignore),
        }
    }
}

/// The secret may be used: a password must be there and hold more than blanks.
pub open spec fn usable_secret(auth: AuthModel, secret: Option<Seq<char>>) -> bool {
    auth is Password ==> secret is Some && !chars::is_blank(secret->0)
}

/// The connection as the user of a credential, with the secret of that credential and no
/// other; or why there is none.
pub fn build_temp_transport(
    env_id: &str,
    env: Result<EnvironmentInfo, String>,
    cred: &EnvCredentialRow,
    secret: Result<Option<String>, String>,
) -> (r: Result<SshTransport, String>)
    ensures
        match env {
            Err(e) => r is Err && r->Err_0@ == "环境查询失败: "@ + e@,
            Ok(env) => match auth_of_row(cred.auth_type@, cred.private_key_path.deep_view()) {
                None => r is Err && r->Err_0@ == "用户 "@ + cred.username@ + " 的认证配置无效"@,
                Some(auth) => match secret {
                    Err(e) => r is Err && r->Err_0@ == "读取用户 "@ + cred.username@
                        + " 密钥失败: "@ + e@,
                    Ok(secret) => if usable_secret(auth, secret.deep_view()) {
                        r is Ok && r->Ok_0.reaches(
                            env_id@,
                            match env.host {
                                Some(h) => h@,
                                None => ""@,
                            },
                            match env.port {
                                Some(p) => p,
                                None => 22,
                            },
                            cred.username@,
                            auth,
                        ) && r->Ok_0.secret_override == secret && r->Ok_0.cred_id is None
                    } else {
                        r is Err && r->Err_0@ == "用户 "@ + cred.username@
                            + " 的凭证未存储密码，请在环境管理中补录该用户的密码后重试"@
                    },
                },
            },
        },
{
    let env = match env {
        Ok(env) => env,
        Err(e) => return Err(two("环境查询失败: ", e.as_str())),
    };
    let auth = match SshAuth::from_row(
        cred.auth_type.as_str(),
        text::as_deref(&cred.private_key_path),
    ) {
        Some(auth) => auth,
        None => return Err(three("用户 ", cred.username.as_str(), " 的认证配置无效")),
    };
    let secret = match secret {
        Ok(secret) => secret,
        Err(e) => {
            let mut m = three("读取用户 ", cred.username.as_str(), " 密钥失败: ");
            m.append(e.as_str());
            return Err(m);
        },
    };
    let blank = match &secret {
        Some(s) => text::is_blank(s.as_str()),
        None => true,
    };
    match &auth {
        SshAuth::Password => {
            if blank {
                return Err(
                    three(
                        "用户 ",
                        cred.username.as_str(),
                        " 的凭证未存储密码，请在环境管理中补录该用户的密码后重试",
                    ),
                );
            }
        },
        SshAuth::PrivateKey { .. } => {},
    }
    let host = match &env.host {
        Some(h) => h.as_str(),
        None => "",
    };
    let port: u16 = match env.port {
        Some(p) => p,
        None => 22,
    };
    Ok(SshTransport::with_secret(env_id, host, port, cred.username.as_str(), auth, secret))
}

/// What is said where the connection as another user fails.
pub fn temp_connect_error(username: &str, e: &str) -> (r: String)
    ensures
        r@ == "以用户 "@ + username@ + " 建立连接失败: "@ + e@,
{
    let mut m = three("以用户 ", username, " 建立连接失败: ");
    m.append(e);
    m
}

/// The users are known, and how to start arthas is settled.
pub open spec fn users_known(stage: AttachStage) -> bool {
    stage == AttachStage::Port || stage == AttachStage::Config || stage == AttachStage::Attach
        || stage == AttachStage::Probe || stage == AttachStage::Tunnel || stage
        == AttachStage::Handshake
}

/// A connection of its own is used exactly where the one at hand may not start arthas.
pub open spec fn sound(m: AttachModel) -> bool {
    if users_known(m.stage) {
        m.temporary == !may_attach(m.jvm_user, m.ssh_user)
    } else if m.stage == AttachStage::Credential || m.stage == AttachStage::Temporary {
        !m.temporary && !may_attach(m.jvm_user, m.ssh_user)
    } else if m.stage == AttachStage::Over {
        true
    } else {
        !m.temporary
    }
}

/// Only the command that starts arthas runs on a connection of its own, and it does so
/// exactly where the user who is connected is neither the user of the process nor `root`.
/// That connection is left once, as soon as it is no longer needed: when that command is
/// over, whatever came of it, or when the work fails before. No other connection is left.
pub proof fn law_foreign_process_is_reached_as_its_user(m: AttachModel, e: AttachEvent)
    requires
        sound(m),
    ensures
        sound(started(m.session_id, m.env_id, m.pid, m.java_bin, m.token)),
        sound(next(m, e).0),
        match next(m, e).1.action {
            ActionModel::Run { command, temporary, .. } => temporary == (next(m, e).0.stage
                == AttachStage::Attach && !may_attach(m.jvm_user, m.ssh_user)),
            ActionModel::Fail { .. } => next(m, e).1.leave_temporary == temporary_open(m),
            _ => true,
        },
        next(m, e).1.leave_temporary == (temporary_open(m) && !temporary_open(next(m, e).0)),
        m.stage == AttachStage::Attach && e is Command ==> next(m, e).1.leave_temporary
            == m.temporary && !temporary_open(next(m, e).0),
        next(m, e).0.stage == AttachStage::Over ==> !temporary_open(next(m, e).0),
{
}

/// Whatever happens, the work stays with its request and its token: the connections, the
/// packages, the credential and the tunnel are those of its environment, the JDK is that of
/// its `java`, and the token that arthas is configured with is the one that it is spoken
/// to with.
pub proof fn law_one_token_for_one_process(m: AttachModel, e: AttachEvent)
    ensures
        next(m, e).0.session_id == m.session_id,
        next(m, e).0.env_id == m.env_id,
        next(m, e).0.pid == m.pid,
        next(m, e).0.java_bin == m.java_bin,
        next(m, e).0.token == m.token,
        next(m, e).0.stage == AttachStage::Config && m.stage != AttachStage::Config
            ==> next(m, e).1.action == run_here(
            properties_write(m.home, properties(next(m, e).0.port, m.token)),
            15,
        ),
        match next(m, e).1.action {
            ActionModel::EnsurePackage { env_id, .. } => env_id == m.env_id,
            ActionModel::LookUpJdk { env_id } => env_id == m.env_id,
            ActionModel::EnsureJdk { env_id, java_bin } => env_id == m.env_id && java_bin
                == m.java_bin,
            ActionModel::FindCredential { env_id, .. } => env_id == m.env_id,
            ActionModel::OpenTunnel { env_id, .. } => env_id == m.env_id,
            ActionModel::Connect { token, .. } => token == m.token,
            _ => true,
        },
{
}

/// A tunnel that was opened is closed where the work fails; and only there one is.
pub proof fn law_failure_leaves_no_tunnel(m: AttachModel, e: AttachEvent)
    ensures
        match next(m, e).1.action {
            ActionModel::Fail { close_tunnel, .. } => close_tunnel == (if m.stage
                == AttachStage::Handshake {
                Some(m.port)
            } else {
                None
            }) && next(m, e).0.stage == AttachStage::Over,
            ActionModel::OpenTunnel { port, .. } => port == m.port,
            ActionModel::Ready { port, .. } => m.stage == AttachStage::Handshake && port == m.port,
            _ => true,
        },
        m.stage == AttachStage::Over ==> next(m, e) == (m, quiet(ActionModel::Ignore)),
{
}

} // verus!
