//! The commands by which arthas is put into a JVM, and what they write.

use crate::chars;
use crate::exec::channel::{ExecOutput, RunOutcome};
use crate::exec::ssh::{quoted, shell_quote_single};
use crate::ids;
use crate::outside;
use crate::text;
use vstd::prelude::*;

verus! {

/// The first port that arthas may listen on.
pub const ARTHAS_PORT_START: u16 = 18563;

/// How many ports are tried.
pub const ARTHAS_PORT_CANDIDATES: u16 = 10;

/// The configuration of arthas.
pub open spec fn properties(http_port: u16, token: Seq<char>) -> Seq<char> {
    "arthas.mcpEndpoint=/mcp\narthas.telnetPort=-1\narthas.httpPort="@ + chars::dec(
        http_port as nat,
    ) + "\narthas.password="@ + token + "\n"@
}

pub fn arthas_properties_content(http_port: u16, token: &str) -> (r: String)
    ensures
        r@ == properties(http_port, token@),
{
    let mut s = text::owned("arthas.mcpEndpoint=/mcp\narthas.telnetPort=-1\narthas.httpPort=");
    s.append(text::dec(http_port as u64).as_str());
    s.append("\narthas.password=");
    s.append(token);
    s.append("\n");
    s
}

pub open spec fn user_check(pid: i64) -> Seq<char> {
    "ps -o user= -p "@ + chars::dec_signed(pid as int) + " 2>/dev/null; echo '---'; id -un"@
}

/// Asks for the user of a process and for the user who asks.
pub fn check_user_command(pid: i64) -> (r: String)
    ensures
        r@ == user_check(pid),
{
    let mut s = text::owned("ps -o user= -p ");
    s.append(text::dec_signed(pid).as_str());
    s.append(" 2>/dev/null; echo '---'; id -un");
    s
}

/// The last line that is not blank, trimmed; nothing where all are.
pub open spec fn last_word(lines: Seq<Seq<char>>) -> Seq<char>
    decreases lines.len(),
{
    if lines.len() == 0 {
        Seq::empty()
    } else if !chars::is_blank(lines.last()) {
        chars::trim(lines.last())
    } else {
        last_word(lines.drop_last())
    }
}

/// The first line, from `i` on, that is not blank, trimmed; nothing where all are.
pub open spec fn first_word(lines: Seq<Seq<char>>, i: int) -> Seq<char>
    decreases lines.len() - i,
{
    if i < 0 || i >= lines.len() {
        Seq::empty()
    } else if !chars::is_blank(lines[i]) {
        chars::trim(lines[i])
    } else {
        first_word(lines, i + 1)
    }
}

/// What stands before the first `---` and what stands behind it.
pub open spec fn halves(stdout: Seq<char>) -> (Seq<char>, Seq<char>) {
    match chars::find(stdout, "---"@) {
        Some(i) => (stdout.subrange(0, i), stdout.subrange(i + 3, stdout.len() as int)),
        None => (stdout, Seq::empty()),
    }
}

/// The user of the process and the user who asked.
pub open spec fn users_in(stdout: Seq<char>) -> Result<(Seq<char>, Seq<char>), Seq<char>> {
    let jvm_user = last_word(chars::lines(halves(stdout).0));
    let ssh_user = last_word(chars::lines(halves(stdout).1));
    if jvm_user.len() == 0 {
        Err("目标进程不存在或已退出（ps 无属主输出）"@)
    } else if ssh_user.len() == 0 {
        Err("无法确定当前 SSH 用户（id -un 无输出）"@)
    } else {
        Ok((jvm_user, ssh_user))
    }
}

fn last_line(s: &str) -> (r: String)
    ensures
        r@ == last_word(chars::lines(s@)),
{
    let lines = text::lines(s);
    let ghost model = lines.deep_view();
    let mut n: usize = lines.len();
    assert(model.take(n as int) =~= model);
    while n > 0
        invariant
            n <= lines@.len(),
            model == lines.deep_view(),
            model == chars::lines(s@),
            last_word(model) == last_word(model.take(n as int)),
        decreases n,
    {
        proof {
            assert(model.take(n as int).last() == model[n - 1]);
            assert(model[n - 1] == lines@[n - 1]@);
            assert(model.take(n as int).drop_last() =~= model.take(n - 1));
        }
        let line = lines[n - 1].as_str();
        if !text::is_blank(line) {
            return text::owned(text::trim(line));
        }
        n = n - 1;
    }
    String::new()
}

fn first_line(s: &str) -> (r: String)
    ensures
        r@ == first_word(chars::lines(s@), 0),
{
    let lines = text::lines(s);
    let ghost model = lines.deep_view();
    let mut i: usize = 0;
    while i < lines.len()
        invariant
            i <= lines@.len(),
            model == lines.deep_view(),
            model == chars::lines(s@),
            first_word(model, 0) == first_word(model, i as int),
        decreases lines@.len() - i,
    {
        assert(model[i as int] == lines@[i as int]@);
        let line = lines[i].as_str();
        if !text::is_blank(line) {
            return text::owned(text::trim(line));
        }
        i = i + 1;
    }
    String::new()
}

/// Reads what `check_user_command` writes: the user of the process and the user who asked.
pub fn parse_user_check(stdout: &str) -> (r: Result<(String, String), String>)
    ensures
        match users_in(stdout@) {
            Ok((jvm, ssh)) => r is Ok && r->Ok_0.0@ == jvm && r->Ok_0.1@ == ssh,
            Err(e) => r is Err && r->Err_0@ == e,
        },
{
    proof {
        reveal_strlit("---");
    }
    let n: usize = stdout.unicode_len();
    let (jvm_raw, ssh_raw) = match text::find(stdout, "---") {
        Some(i) => (text::first(stdout, i), text::last(stdout, n - i - 3)),
        None => (stdout, ""),
    };
    proof {
        reveal_strlit("");
        assert(jvm_raw@ =~= halves(stdout@).0);
        assert(ssh_raw@ =~= halves(stdout@).1);
    }
    let jvm_user = last_line(jvm_raw);
    let ssh_user = last_line(ssh_raw);
    if jvm_user.as_str().unicode_len() == 0 {
        return Err(text::owned("目标进程不存在或已退出（ps 无属主输出）"));
    }
    if ssh_user.as_str().unicode_len() == 0 {
        return Err(text::owned("无法确定当前 SSH 用户（id -un 无输出）"));
    }
    Ok((jvm_user, ssh_user))
}

pub open spec fn port_probe(port: u16) -> Seq<char> {
    "if (exec 3<>/dev/tcp/127.0.0.1/"@ + chars::dec(port as nat)
        + ") 2>/dev/null; then exec 3>&- 3<&-; echo busy; else echo free; fi"@
}

/// Asks whether a port is taken.
pub fn port_probe_command(port: u16) -> (r: String)
    ensures
        r@ == port_probe(port),
{
    let mut s = text::owned("if (exec 3<>/dev/tcp/127.0.0.1/");
    s.append(text::dec(port as u64).as_str());
    s.append(") 2>/dev/null; then exec 3>&- 3<&-; echo busy; else echo free; fi");
    s
}

pub open spec fn port_search(start: u16, end: nat) -> Seq<char> {
    "for p in $(seq "@ + chars::dec(start as nat) + " "@ + chars::dec(end)
        + "); do if (exec 3<>/dev/tcp/127.0.0.1/$p) 2>/dev/null; then exec 3>&- 3<&-; else echo $p; exit 0; fi; done; echo none"@
}

/// Asks for the first free port among `count` ports.
pub fn find_free_port_command(start: u16, count: u16) -> (r: String)
    requires
        1 <= start + count <= u16::MAX,
    ensures
        r@ == port_search(start, (start + count - 1) as nat),
{
    let end: u16 = start + count - 1;
    let mut s = text::owned("for p in $(seq ");
    s.append(text::dec(start as u64).as_str());
    s.append(" ");
    s.append(text::dec(end as u64).as_str());
    s.append(
        "); do if (exec 3<>/dev/tcp/127.0.0.1/$p) 2>/dev/null; then exec 3>&- 3<&-; else echo $p; exit 0; fi; done; echo none",
    );
    s
}

/// The port that was found free.
pub open spec fn free_port_in(stdout: Seq<char>) -> Result<u16, Seq<char>> {
    let first = first_word(chars::lines(stdout), 0);
    if first == "none"@ || first.len() == 0 {
        Err(
            "端口 "@ + chars::dec(ARTHAS_PORT_START as nat) + "~"@ + chars::dec(
                (ARTHAS_PORT_START + ARTHAS_PORT_CANDIDATES - 1) as nat,
            ) + " 均被占用，请减少同机并发 attach 的 JVM 数或稍后重试"@,
        )
    } else {
        match chars::parse_dec(first, 65535) {
            Some(p) => Ok(p as u16),
            None => Err("端口探测输出无法解析: "@ + outside::debugged(stdout)),
        }
    }
}

/// Reads what `find_free_port_command` writes.
pub fn parse_free_port(stdout: &str) -> (r: Result<u16, String>)
    ensures
        match free_port_in(stdout@) {
            Ok(p) => r == Ok::<u16, String>(p),
            Err(e) => r is Err && r->Err_0@ == e,
        },
{
    let first = first_line(stdout);
    if text::same(first.as_str(), "none") || first.as_str().unicode_len() == 0 {
        let mut e = text::owned("端口 ");
        e.append(text::dec(ARTHAS_PORT_START as u64).as_str());
        e.append("~");
        e.append(text::dec((ARTHAS_PORT_START + ARTHAS_PORT_CANDIDATES - 1) as u64).as_str());
        e.append(" 均被占用，请减少同机并发 attach 的 JVM 数或稍后重试");
        return Err(e);
    }
    match text::parse_dec(first.as_str(), 65535) {
        Some(p) => Ok(p as u16),
        None => {
            let mut e = text::owned("端口探测输出无法解析: ");
            e.append(outside::debug_text(stdout).as_str());
            Err(e)
        },
    }
}

pub open spec fn properties_write(home: Seq<char>, content: Seq<char>) -> Seq<char> {
    "printf '%s' "@ + quoted(content) + " > "@ + home + "/arthas.properties && chmod 644 "@ + home
        + "/arthas.properties"@
}

/// Writes the configuration, so that every user can read it.
pub fn write_properties_command(home: &str, content: &str) -> (r: String)
    ensures
        r@ == properties_write(home@, content@),
{
    let mut s = text::owned("printf '%s' ");
    s.append(shell_quote_single(content).as_str());
    s.append(" > ");
    s.append(home);
    s.append("/arthas.properties && chmod 644 ");
    s.append(home);
    s.append("/arthas.properties");
    s
}

pub open spec fn attaching(java: Seq<char>, home: Seq<char>, pid: i64) -> Seq<char> {
    "cd "@ + home + " && nohup "@ + java + " -jar arthas-boot.jar --pid "@ + chars::dec_signed(
        pid as int,
    ) + " < /dev/null >> /tmp/arthas-friday-"@ + chars::dec_signed(pid as int)
        + ".log 2>&1 & echo attach-started"@
}

/// Starts arthas in a process. It reads its configuration from the directory that it is
/// started in; its log goes where every user can write.
pub fn attach_command(java: &str, home: &str, pid: i64) -> (r: String)
    ensures
        r@ == attaching(java@, home@, pid),
{
    let mut s = text::owned("cd ");
    s.append(home);
    s.append(" && nohup ");
    s.append(java);
    s.append(" -jar arthas-boot.jar --pid ");
    s.append(text::dec_signed(pid).as_str());
    s.append(" < /dev/null >> /tmp/arthas-friday-");
    s.append(text::dec_signed(pid).as_str());
    s.append(".log 2>&1 & echo attach-started");
    s
}

pub open spec fn stopping(port: u16, token: Seq<char>) -> Seq<char> {
    "curl -s -m 10 -X POST -H 'Authorization: Bearer "@ + token
        + "' -H 'Content-Type: application/json' -d '{\"action\":\"exec\",\"command\":\"stop\"}' http://127.0.0.1:"@
        + chars::dec(port as nat) + "/api || wget -q -O /dev/null --header='Authorization: Bearer "@
        + token + "' --post-data='{\"action\":\"exec\",\"command\":\"stop\"}' http://127.0.0.1:"@
        + chars::dec(port as nat) + "/api || true"@
}

/// Takes arthas out of its process. It never fails: with neither `curl` nor `wget` nothing
/// happens.
pub fn stop_command(port: u16, token: &str) -> (r: String)
    ensures
        r@ == stopping(port, token@),
{
    let mut s = text::owned("curl -s -m 10 -X POST -H 'Authorization: Bearer ");
    s.append(token);
    s.append(
        "' -H 'Content-Type: application/json' -d '{\"action\":\"exec\",\"command\":\"stop\"}' http://127.0.0.1:",
    );
    s.append(text::dec(port as u64).as_str());
    s.append("/api || wget -q -O /dev/null --header='Authorization: Bearer ");
    s.append(token);
    s.append(
        "' --post-data='{\"action\":\"exec\",\"command\":\"stop\"}' http://127.0.0.1:",
    );
    s.append(text::dec(port as u64).as_str());
    s.append("/api || true");
    s
}

/// A token for one session: 32 hexadecimal digits, none of them special to a shell.
pub fn generate_token() -> (r: String)
    ensures
        ids::is_simple_uuid(r@),
{
    ids::new_simple_uuid()
}

/// What a command that was to end within `secs` seconds wrote, or why there is nothing.
pub open spec fn written(cmd: Seq<char>, secs: u64, outcome: RunOutcome) -> Result<
    ExecOutput,
    Seq<char>,
> {
    match outcome {
        RunOutcome::TimedOut => Err(
            "远端命令执行超时（"@ + chars::dec(secs as nat) + "s）: "@ + cmd,
        ),
        RunOutcome::Failed(e) => Err("远端命令执行失败: "@ + e@ + "（命令: "@ + cmd + "）"@),
        RunOutcome::Output(o) => Ok(o),
    }
}

pub fn run_with_timeout(cmd: &str, secs: u64, outcome: RunOutcome) -> (r: Result<
    ExecOutput,
    String,
>)
    ensures
        match written(cmd@, secs, outcome) {
            Ok(o) => r == Ok::<ExecOutput, String>(o),
            Err(e) => r is Err && r->Err_0@ == e,
        },
{
    match outcome {
        RunOutcome::TimedOut => {
            let mut e = text::owned("远端命令执行超时（");
            e.append(text::dec(secs).as_str());
            e.append("s）: ");
            e.append(cmd);
            Err(e)
        },
        RunOutcome::Failed(m) => {
            let mut e = text::owned("远端命令执行失败: ");
            e.append(m.as_str());
            e.append("（命令: ");
            e.append(cmd);
            e.append("）");
            Err(e)
        },
        RunOutcome::Output(o) => Ok(o),
    }
}

proof fn lemma_digit_plain(n: nat)
    ensures
        forall|i: int| 0 <= i < chars::dec(n).len() ==> chars::is_digit(#[trigger] chars::dec(n)[i]),
    decreases n,
{
    assert(chars::is_digit(chars::digit(n % 10)));
    if n >= 10 {
        lemma_digit_plain(n / 10);
        let front = chars::dec(n / 10);
        assert(chars::dec(n) =~= front.push(chars::digit(n % 10)));
        assert forall|i: int| 0 <= i < chars::dec(n).len() implies chars::is_digit(
            #[trigger] chars::dec(n)[i],
        ) by {
            if i < front.len() {
                assert(chars::dec(n)[i] == front[i]);
            }
        }
    } else {
        assert(chars::dec(n)[0] == chars::digit(n % 10));
    }
}

/// The configuration can stand between single quotes as it is: with a token as this
/// library makes them, it holds neither a single quote nor a dollar sign.
pub proof fn law_configuration_needs_no_escapes(http_port: u16, token: Seq<char>)
    requires
        ids::is_simple_uuid(token),
    ensures
        !properties(http_port, token).contains('\''),
        !properties(http_port, token).contains('$'),
{
    reveal_strlit("arthas.mcpEndpoint=/mcp\narthas.telnetPort=-1\narthas.httpPort=");
    reveal_strlit("\narthas.password=");
    reveal_strlit("\n");
    lemma_digit_plain(http_port as nat);
    let p = properties(http_port, token);
    assert forall|i: int| 0 <= i < p.len() implies #[trigger] p[i] != '\'' && p[i] != '$' by {
        let a = "arthas.mcpEndpoint=/mcp\narthas.telnetPort=-1\narthas.httpPort="@;
        let b = chars::dec(http_port as nat);
        let c = "\narthas.password="@;
        if a.len() <= i < a.len() + b.len() {
            assert(p[i] == b[i - a.len()]);
        }
        let before = a.len() + b.len() + c.len();
        if before <= i < before + token.len() {
            assert(p[i] == token[i - before]);
            assert(ids::is_lower_hex(token[i - before]));
        }
    }
}

} // verus!
