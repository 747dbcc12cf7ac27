//! What putting arthas into a JVM comes to: which `java` is used, what is remembered, what
//! makes the work fail, and in which order it goes.

use crate::arthas::attach::{
    attaching, free_port_in, port_probe, port_search, properties, properties_write, user_check,
    users_in,
};
use crate::arthas::attach_run::{
    next, started, usable_secret, ActionModel, AttachEvent, AttachModel, AttachStage,
};
use crate::chars;
use crate::exec::channel::RunOutcome;
use crate::exec::ssh::AuthModel;
use vstd::prelude::*;

verus! {

/// Whenever the work goes on to ask for the users, it has recorded the `java` that was come
/// by: `bin/java` in the home of a JDK, whether known from before or installed just now, or
/// else what the machine itself said its `java` is.
pub proof fn law_java_is_the_one_come_by(m: AttachModel, e: AttachEvent)
    requires
        m.stage != AttachStage::Users,
        next(m, e).0.stage == AttachStage::Users,
    ensures
        match e {
            AttachEvent::CachedJdk(home) => home is Some && next(m, e).0.java == home->0@
                + "/bin/java"@,
            AttachEvent::Jdk(home) => home is Ok && next(m, e).0.java == home->Ok_0@
                + "/bin/java"@,
            AttachEvent::PathJava { outcome, valid } => {
                &&& valid
                &&& outcome is Output
                &&& outcome->Output_0.exit_code == 0
                &&& next(m, e).0.java == chars::trim(outcome->Output_0.stdout@)
                &&& next(m, e).0.java.len() > 0
            },
            _ => false,
        },
{
}

/// A JDK that was known and one that was installed lead to the same `java`, where they stand
/// in the same place; and no JDK that is at hand is passed over.
pub proof fn law_jdk_of_the_same_place_gives_the_same_java(m: AttachModel, home: String)
    ensures
        ({
            let known = AttachModel { stage: AttachStage::CachedJdk, ..m };
            let missing = AttachModel { stage: AttachStage::Jdk, ..m };
            let a = next(known, AttachEvent::CachedJdk(Some(home)));
            let b = next(missing, AttachEvent::Jdk(Ok(home)));
            &&& a == b
            &&& a.0.stage == AttachStage::Users
            &&& a.0.java.subrange(0, home@.len() as int) == home@
            &&& a.0.java.len() > home@.len()
        }),
{
    reveal_strlit("/bin/java");
    assert((home@ + "/bin/java"@).subrange(0, home@.len() as int) =~= home@);
}

/// What is known of the work changes only where it is found out: the place of arthas when it
/// was installed, the `java` before the users are asked for, the users by what the machine
/// wrote, the port when a free one was found, the local port when the tunnel was opened.
pub proof fn law_nothing_else_is_forgotten(m: AttachModel, e: AttachEvent)
    ensures
        ({
            let n = next(m, e).0;
            &&& n.home == (match e {
                AttachEvent::Package(Ok(home)) if m.stage == AttachStage::Package => home@,
                _ => m.home,
            })
            &&& (n.stage == m.stage || n.stage != AttachStage::Users) ==> n.java == m.java
            &&& m.stage != AttachStage::Users ==> n.jvm_user == m.jvm_user && n.ssh_user
                == m.ssh_user
            &&& (n.stage == m.stage || n.stage != AttachStage::Config) ==> n.port == m.port
            &&& n.local_port == (match e {
                AttachEvent::Tunnel(Ok(port)) if m.stage == AttachStage::Tunnel => port,
                _ => m.local_port,
            })
        }),
{
}

/// The port that arthas is configured with is the one that the machine wrote to be free, and
/// the users are those that it wrote.
pub proof fn law_what_the_machine_wrote_counts(m: AttachModel, outcome: RunOutcome)
    requires
        outcome is Output,
    ensures
        ({
            let n = next(m, AttachEvent::Command(outcome)).0;
            let stdout = outcome->Output_0.stdout@;
            &&& m.stage == AttachStage::Port ==> match free_port_in(stdout) {
                Ok(port) => n.port == port && n.stage == AttachStage::Config,
                Err(_) => n.stage == AttachStage::Over,
            }
            &&& m.stage == AttachStage::Users ==> match users_in(stdout) {
                Ok((jvm, ssh)) => n.jvm_user == jvm && n.ssh_user == ssh && n.stage
                    != AttachStage::Over,
                Err(_) => n.stage == AttachStage::Over,
            }
        }),
{
}

/// A process is started by who is connected where that is the user of the process, or `root`;
/// for any other a credential of the user of the process is looked for, never of another.
pub proof fn law_who_starts_the_process(m: AttachModel, outcome: RunOutcome)
    requires
        m.stage == AttachStage::Users,
        outcome is Output,
        users_in(outcome->Output_0.stdout@) is Ok,
    ensures
        ({
            let (jvm, ssh) = users_in(outcome->Output_0.stdout@)->Ok_0;
            let (n, step) = next(m, AttachEvent::Command(outcome));
            if ssh == jvm || ssh == "root"@ {
                n.stage == AttachStage::Port && !(step.action is FindCredential)
            } else {
                &&& n.stage == AttachStage::Credential
                &&& step.action matches ActionModel::FindCredential { user, env_id } && user == jvm
                    && env_id == m.env_id
            }
        }),
{
}

/// The place of a stage in the order of the work.
pub open spec fn rank(s: AttachStage) -> int {
    match s {
        AttachStage::Channel => 0,
        AttachStage::Setting => 1,
        AttachStage::Package => 2,
        AttachStage::CachedJdk => 3,
        AttachStage::PathJava => 4,
        AttachStage::Jdk => 5,
        AttachStage::Users => 6,
        AttachStage::Credential => 7,
        AttachStage::Temporary => 8,
        AttachStage::Port => 9,
        AttachStage::Config => 10,
        AttachStage::Attach => 11,
        AttachStage::Probe => 12,
        AttachStage::Tunnel => 13,
        AttachStage::Handshake => 14,
        AttachStage::Over => 15,
    }
}

/// The event is one that the work waits for in its stage.
pub open spec fn fits(m: AttachModel, e: AttachEvent) -> bool {
    match m.stage {
        AttachStage::Channel => e is Channel,
        AttachStage::Setting => e is Setting,
        AttachStage::Package => e is Package,
        AttachStage::CachedJdk => e is CachedJdk,
        AttachStage::PathJava => e is PathJava,
        AttachStage::Jdk => e is Jdk,
        AttachStage::Users => e is Command,
        AttachStage::Credential => e is Credential,
        AttachStage::Temporary => e is Temporary,
        AttachStage::Port => e is Command,
        AttachStage::Config => e is Command,
        AttachStage::Attach => e is Command,
        AttachStage::Probe => e is Probe,
        AttachStage::Tunnel => e is Tunnel,
        AttachStage::Handshake => e is Handshake,
        AttachStage::Over => false,
    }
}

/// The command came to nothing: it failed, or took too long.
pub open spec fn no_output(o: RunOutcome) -> bool {
    !(o is Output)
}

/// What happened makes it impossible to go on.
pub open spec fn hopeless(m: AttachModel, e: AttachEvent) -> bool {
    match e {
        AttachEvent::Channel(r) => r is Err,
        AttachEvent::Setting(r) => r is Err || chars::is_blank(r->Ok_0@),
        AttachEvent::Package(r) => r is Err,
        AttachEvent::CachedJdk(_) => false,
        AttachEvent::PathJava { .. } => false,
        AttachEvent::Jdk(r) => r is Err,
        AttachEvent::Command(o) => no_output(o) || match m.stage {
            AttachStage::Users => users_in(o->Output_0.stdout@) is Err,
            AttachStage::Port => free_port_in(o->Output_0.stdout@) is Err,
            _ => o->Output_0.exit_code != 0,
        },
        AttachEvent::Credential(there) => !there,
        AttachEvent::Temporary(r) => r is Err,
        AttachEvent::Probe { outcome, late } => no_output(outcome) || (late && chars::trim(
            outcome->Output_0.stdout@,
        ) != "busy"@),
        AttachEvent::Tunnel(r) => r is Err,
        AttachEvent::Handshake(r) => r is Err,
    }
}

/// The work fails where what happened makes it impossible to go on, and nowhere else. What
/// does not belong to its stage changes nothing.
pub proof fn law_only_the_hopeless_fails(m: AttachModel, e: AttachEvent)
    ensures
        fits(m, e) ==> (next(m, e).1.action is Fail <==> hopeless(m, e)),
        fits(m, e) ==> !(next(m, e).1.action is Ignore),
        !fits(m, e) ==> next(m, e).1.action is Ignore && next(m, e).0 == m,
        next(m, e).1.action is Fail ==> next(m, e).0.stage == AttachStage::Over,
{
}

/// The work goes from stage to stage in its order and never back. It waits longer only for
/// the port, and it is ready only once arthas has answered.
pub proof fn law_work_goes_forward(m: AttachModel, e: AttachEvent)
    requires
        fits(m, e),
    ensures
        rank(next(m, e).0.stage) > rank(m.stage) || (m.stage == AttachStage::Probe
            && next(m, e).0.stage == AttachStage::Probe),
        next(m, e).1.action is Ready <==> m.stage == AttachStage::Handshake && e->Handshake_0 is Ok,
        next(m, e).1.action is Ready ==> next(m, e).1.action->Ready_port == m.port
            && next(m, e).1.action->local_port == m.local_port,
        !(next(m, e).1.action is Fail) ==> match next(m, e).0.stage {
            AttachStage::Config => m.stage == AttachStage::Port,
            AttachStage::Attach => m.stage == AttachStage::Config,
            AttachStage::Probe => m.stage == AttachStage::Attach || m.stage == AttachStage::Probe,
            AttachStage::Tunnel => m.stage == AttachStage::Probe,
            AttachStage::Handshake => m.stage == AttachStage::Tunnel,
            AttachStage::Over => m.stage == AttachStage::Handshake,
            AttachStage::Package => m.stage == AttachStage::Setting,
            AttachStage::CachedJdk => m.stage == AttachStage::Package,
            AttachStage::PathJava => m.stage == AttachStage::CachedJdk,
            AttachStage::Jdk => m.stage == AttachStage::PathJava,
            _ => true,
        },
{
}

/// A tunnel is opened once the port is taken, and only then: until the time is over it is
/// asked again after a pause, on the connection at hand.
pub proof fn law_port_is_waited_for(m: AttachModel, outcome: RunOutcome, late: bool)
    requires
        m.stage == AttachStage::Probe,
        outcome is Output,
    ensures
        ({
            let (n, step) = next(m, AttachEvent::Probe { outcome, late });
            let busy = chars::trim(outcome->Output_0.stdout@) == "busy"@;
            &&& step.action is OpenTunnel <==> busy
            &&& busy ==> step.action->OpenTunnel_port == m.port && n.stage == AttachStage::Tunnel
            &&& !busy && !late ==> n == m && (step.action matches ActionModel::Run {
                wait_secs,
                temporary,
                ..
            } && wait_secs == 3 && !temporary)
        }),
{
}

/// What went wrong is said: the error of a step stands at the end of what the work fails with.
pub proof fn law_failure_says_why(m: AttachModel, e: AttachEvent, why: String)
    requires
        fits(m, e),
        match e {
            AttachEvent::Channel(r) => r == Err::<(), String>(why),
            AttachEvent::Setting(r) => r == Err::<String, String>(why),
            AttachEvent::Package(r) => r == Err::<String, String>(why),
            AttachEvent::Temporary(r) => r == Err::<(), String>(why),
            AttachEvent::Tunnel(r) => r == Err::<u16, String>(why),
            AttachEvent::Handshake(r) => r == Err::<(), String>(why),
            _ => false,
        },
    ensures
        next(m, e).1.action matches ActionModel::Fail { error, .. } && error.len() >= why@.len()
            && error.subrange(error.len() - why@.len(), error.len() as int) == why@,
{
    let error = next(m, e).1.action->error;
    assert(error.subrange(error.len() - why@.len(), error.len() as int) =~= why@);
}

/// Where arthas is to be started, the command goes into the place of arthas and starts it with
/// the `java` and in the process of the work; and what is told of the progress names them too.
pub proof fn law_attach_starts_the_right_process(m: AttachModel, e: AttachEvent)
    requires
        m.stage == AttachStage::Config,
        next(m, e).0.stage == AttachStage::Attach,
    ensures
        ({
            let front = "cd "@ + m.home + " && nohup "@ + m.java + " -jar arthas-boot.jar --pid "@
                + chars::dec_signed(m.pid as int) + " "@;
            next(m, e).1.action matches ActionModel::Run { command, wait_secs, .. } && wait_secs == 0
                && chars::starts_with(command, front)
        }),
{
    reveal_strlit(" < /dev/null >> /tmp/arthas-friday-");
    reveal_strlit(" ");
    let front = "cd "@ + m.home + " && nohup "@ + m.java + " -jar arthas-boot.jar --pid "@
        + chars::dec_signed(m.pid as int) + " "@;
    let command = next(m, e).1.action->command;
    assert(command.subrange(0, front.len() as int) =~= front);
}

/// The stage that is told when the work enters one, in words; `None` where nothing is told.
pub open spec fn stage_word(entered: AttachStage) -> Option<Seq<char>> {
    match entered {
        AttachStage::Setting => Some("ensure_package"@),
        AttachStage::Users => Some("check_user"@),
        AttachStage::Credential => Some("check_user"@),
        AttachStage::Port => Some("allocate_port"@),
        AttachStage::Config => Some("write_config"@),
        AttachStage::Attach => Some("attach"@),
        AttachStage::Probe => Some("probe"@),
        AttachStage::Tunnel => Some("tunnel"@),
        AttachStage::Handshake => Some("handshake"@),
        _ => None,
    }
}

/// Whoever watches is told each stage as it is entered, and in the end that arthas is ready.
pub proof fn law_progress_names_the_stage(m: AttachModel, e: AttachEvent)
    ensures
        ({
            let (n, step) = next(m, e);
            match step.progress {
                Some((word, _)) => if step.action is Ready {
                    word == "ready"@
                } else {
                    n.stage != m.stage && stage_word(n.stage) == Some(word)
                },
                None => step.action is Fail || n.stage == m.stage || stage_word(n.stage) is None,
            }
        }),
{
}

/// The connection of its own is left once: by the step that ends the need for it, when arthas
/// was started or the work failed before that.
pub proof fn law_own_connection_is_left_in_time(m: AttachModel, e: AttachEvent)
    ensures
        ({
            let (n, step) = next(m, e);
            let held = m.temporary && (m.stage == AttachStage::Port || m.stage
                == AttachStage::Config || m.stage == AttachStage::Attach);
            &&& step.leave_temporary <==> held && (step.action is Fail || n.stage
                == AttachStage::Probe)
            &&& n.temporary <==> m.temporary || (m.stage == AttachStage::Temporary && e
                is Temporary && e->Temporary_0 is Ok)
        }),
{
}

/// Each step asks the machine just what it needs, on the connection at hand but for starting
/// arthas: the users of the process, a free port, the writing of the configuration, whether
/// the port is taken.
pub proof fn law_step_asks_what_it_needs(m: AttachModel, e: AttachEvent)
    requires
        fits(m, e),
        !(next(m, e).1.action is Fail),
    ensures
        ({
            let (n, step) = next(m, e);
            &&& n.stage == AttachStage::Users ==> step.action == (ActionModel::Run {
                wait_secs: 0,
                command: user_check(m.pid),
                secs: 15,
                temporary: false,
            })
            &&& n.stage == AttachStage::PathJava ==> step.action == (ActionModel::Run {
                wait_secs: 0,
                command: "command -v java"@,
                secs: 15,
                temporary: false,
            })
            &&& n.stage == AttachStage::Port ==> (step.action matches ActionModel::Run {
                wait_secs,
                command,
                secs,
                temporary,
            } && wait_secs == 0 && secs == 20 && !temporary && chars::starts_with(
                command,
                "for p in $(seq "@ + chars::dec(18563) + " "@ + chars::dec(18572),
            ))
            &&& n.stage == AttachStage::Config ==> step.action == (ActionModel::Run {
                wait_secs: 0,
                command: properties_write(m.home, properties(n.port, m.token)),
                secs: 15,
                temporary: false,
            })
            &&& n.stage == AttachStage::Attach ==> (step.action matches ActionModel::Run {
                secs,
                temporary,
                ..
            } && secs == 30 && temporary == m.temporary)
            &&& n.stage == AttachStage::Probe ==> (step.action matches ActionModel::Run {
                command,
                secs,
                temporary,
                wait_secs,
            } && command == port_probe(m.port) && secs == 15 && !temporary && wait_secs == (
            if m.stage == AttachStage::Probe {
                3u64
            } else {
                0u64
            }))
            &&& n.stage == AttachStage::Setting ==> step.action is ReadSetting
            &&& n.stage == AttachStage::Package ==> step.action == (ActionModel::EnsurePackage {
                env_id: m.env_id,
                base_url: e->Setting_0->Ok_0@,
            })
            &&& n.stage == AttachStage::CachedJdk ==> step.action is LookUpJdk
            &&& n.stage == AttachStage::Jdk ==> step.action is EnsureJdk
            &&& n.stage == AttachStage::Temporary ==> step.action is ConnectTemporary
            &&& n.stage == AttachStage::Tunnel ==> step.action is OpenTunnel
            &&& n.stage == AttachStage::Handshake ==> step.action == (ActionModel::Connect {
                url: "http://127.0.0.1:"@ + chars::dec(n.local_port as nat) + "/mcp"@,
                token: m.token,
            })
        }),
{
    let (n, step) = next(m, e);
    if n.stage == AttachStage::Port {
        let c = crate::arthas::attach_run::port_search_all();
        let a = "for p in $(seq "@ + chars::dec(18563) + " "@ + chars::dec(18572);
        assert(c.subrange(0, a.len() as int) =~= a);
    }
}

/// What the work fails with, in words. The tunnel is closed again where arthas does not answer
/// through it, and only there.
pub proof fn law_failure_is_told_in_words(m: AttachModel, e: AttachEvent)
    requires
        fits(m, e),
        next(m, e).1.action is Fail,
    ensures
        ({
            let error = next(m, e).1.action->error;
            &&& next(m, e).1.action->close_tunnel == (if m.stage == AttachStage::Handshake {
                Some(m.port)
            } else {
                None
            })
            &&& next(m, e).1.progress is None
            &&& match e {
                AttachEvent::Channel(r) => error == "SSH 连接失败: "@ + r->Err_0@,
                AttachEvent::Setting(r) => match r {
                    Ok(_) => error == "Artifactory 地址未配置，请在设置中配置后重试"@,
                    Err(why) => error == "读取 Artifactory 设置失败: "@ + why@,
                },
                AttachEvent::Package(r) => error == "arthas 工具包下发失败: "@ + r->Err_0@,
                AttachEvent::Jdk(r) => error == "目标机找不到可用的 java（"@ + r->Err_0@
                    + "）。可用 run_command 确认目标服务的 java 路径后，用 java_bin 参数重试 arthas_open"@,
                AttachEvent::Credential(_) => error == "目标 JVM 运行用户为 "@ + m.jvm_user
                    + "，当前 SSH 用户为 "@ + m.ssh_user + " 且未录入 "@ + m.jvm_user
                    + " 的凭证。请让用户在环境管理中为该环境添加用户 "@ + m.jvm_user + " 的凭证后重试"@,
                AttachEvent::Temporary(r) => error == r->Err_0@,
                AttachEvent::Tunnel(r) => error == "SSH 隧道建立失败: "@ + r->Err_0@,
                AttachEvent::Handshake(r) => error == "arthas MCP 握手失败: "@ + r->Err_0@,
                AttachEvent::Probe { outcome, .. } => outcome is Output ==> error
                    == "arthas HTTP 服务在 "@ + chars::dec(60) + "s 内未就绪（端口 "@ + chars::dec(
                    m.port as nat,
                )
                    + "）。可能原因：attach 失败（用户权限/attach 机制被禁用）、目标 JVM 拒绝 attach。可用 run_command 查看 "@
                    + "/tmp/arthas-friday-<pid>.log"@ + " 日志"@,
                AttachEvent::Command(outcome) => outcome matches RunOutcome::Output(o)
                    ==> match m.stage {
                    AttachStage::Config => error == "写入 arthas.properties 失败"@ + "（exit "@
                        + chars::dec_signed(o.exit_code as int) + "）: "@ + o.stderr@,
                    AttachStage::Attach => error == "arthas attach 命令失败"@ + "（exit "@
                        + chars::dec_signed(o.exit_code as int) + "）: "@ + o.stderr@,
                    AttachStage::Users => error == "用户对齐检查失败: "@ + users_in(o.stdout@)->Err_0
                        + "; stderr: "@ + o.stderr@,
                    _ => error == free_port_in(o.stdout@)->Err_0,
                },
                _ => false,
            }
        }),
{
}

/// A command that failed, or did not end in time, is named in what the work fails with, and so
/// is the time that it had.
pub proof fn law_failed_command_is_named(m: AttachModel, outcome: RunOutcome, late: bool)
    requires
        !(outcome is Output),
        m.stage == AttachStage::Users || m.stage == AttachStage::Port || m.stage
            == AttachStage::Config || m.stage == AttachStage::Attach || m.stage
            == AttachStage::Probe,
    ensures
        ({
            let e = if m.stage == AttachStage::Probe {
                AttachEvent::Probe { outcome, late }
            } else {
                AttachEvent::Command(outcome)
            };
            let (command, secs): (Seq<char>, nat) = match m.stage {
                AttachStage::Users => (user_check(m.pid), 15),
                AttachStage::Port => (port_search(18563, 18572), 20),
                AttachStage::Config => (
                    properties_write(m.home, properties(m.port, m.token)),
                    15,
                ),
                AttachStage::Attach => (attaching(m.java, m.home, m.pid), 30),
                _ => (port_probe(m.port), 15),
            };
            let front = if m.stage == AttachStage::Probe {
                "arthas 探活失败: attach 失败："@
            } else {
                Seq::empty()
            };
            next(m, e).1.action matches ActionModel::Fail { error, .. } && error == front + (
            match outcome {
                RunOutcome::Failed(why) => "远端命令执行失败: "@ + why@ + "（命令: "@ + command
                    + "）"@,
                _ => "远端命令执行超时（"@ + chars::dec(secs) + "s）: "@ + command,
            })
        }),
{
}

/// The work begins with the connection, for the process and the environment that were asked
/// for, with nothing found out yet and no connection of its own.
pub proof fn law_work_begins_with_what_was_asked(
    session: Seq<char>,
    env: Seq<char>,
    pid: i64,
    java_bin: Seq<char>,
    token: Seq<char>,
)
    ensures
        ({
            let m = started(session, env, pid, java_bin, token);
            &&& m.session_id == session && m.env_id == env && m.pid == pid && m.java_bin == java_bin
                && m.token == token
            &&& m.stage == AttachStage::Channel && !m.temporary
            &&& m.home.len() == 0 && m.java.len() == 0 && m.jvm_user.len() == 0 && m.ssh_user.len()
                == 0
            &&& m.port == 0 && m.local_port == 0
        }),
{
}

/// A password must be there and hold more than blanks; a key may be used without a phrase.
pub proof fn law_secrets_that_may_be_used(secret: Seq<char>, path: Seq<char>)
    ensures
        !usable_secret(AuthModel::Password, None),
        usable_secret(AuthModel::Password, Some(secret)) <==> chars::trim(secret).len() > 0,
        usable_secret((AuthModel::PrivateKey { key_path: path }), None),
        usable_secret((AuthModel::PrivateKey { key_path: path }), Some(secret)),
{
}

/// What is looked up, installed and opened is so for the environment of the work and with what
/// the work knows.
pub proof fn law_work_is_for_its_environment(m: AttachModel, e: AttachEvent)
    ensures
        match next(m, e).1.action {
            ActionModel::EnsurePackage { env_id, .. } => env_id == m.env_id,
            ActionModel::LookUpJdk { env_id } => env_id == m.env_id,
            ActionModel::EnsureJdk { env_id, java_bin } => env_id == m.env_id && java_bin
                == m.java_bin,
            ActionModel::FindCredential { env_id, .. } => env_id == m.env_id,
            ActionModel::OpenTunnel { env_id, port } => env_id == m.env_id && port == m.port,
            ActionModel::Connect { token, .. } => token == m.token,
            _ => true,
        },
{
}

/// What whoever watches is told of a stage, in words.
pub proof fn law_stage_is_told_in_words(m: AttachModel, e: AttachEvent)
    requires
        next(m, e).1.progress is Some,
    ensures
        ({
            let (n, step) = next(m, e);
            let (_, said) = step.progress->0;
            match n.stage {
                AttachStage::Setting => said == "确保 arthas 工具包"@,
                AttachStage::Users => said == "检查目标 JVM 运行用户"@,
                AttachStage::Credential => said == "SSH 用户 "@ + n.ssh_user + " ≠ JVM 用户 "@
                    + n.jvm_user + "，使用 "@ + n.jvm_user + " 凭证临时连接"@,
                AttachStage::Port => said == "分配 arthas HTTP 端口"@,
                AttachStage::Config => said == "写入 arthas.properties（httpPort="@ + chars::dec(
                    n.port as nat,
                ) + "）"@,
                AttachStage::Attach => said == "attach arthas 到 PID "@ + chars::dec_signed(
                    m.pid as int,
                ) + "（java="@ + m.java + "）"@,
                AttachStage::Probe => said == "等待 arthas HTTP 服务就绪"@,
                AttachStage::Tunnel => said == "建立 SSH 隧道"@,
                AttachStage::Handshake => said == "MCP 握手（"@ + ("http://127.0.0.1:"@ + chars::dec(
                    n.local_port as nat,
                ) + "/mcp"@) + "）"@,
                _ => said == "arthas 就绪（远端端口 "@ + chars::dec(m.port as nat)
                    + "，本地隧道端口 "@ + chars::dec(m.local_port as nat) + "）"@,
            }
        }),
{
}

} // verus!
