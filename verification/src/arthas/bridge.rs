//! Speaking HTTP with arthas through `curl` on the machine on which it runs.

use crate::chars;
use crate::exec::channel::RunOutcome;
use crate::exec::ssh::{quoted, shell_quote_single};
use crate::outside;
use crate::text;
use vstd::prelude::*;

verus! {

#[derive(Debug)]
pub enum BridgeError {
    Exec(String),
    Curl(String),
}

pub open spec fn bridge_error_text(e: BridgeError) -> Seq<char> {
    match e {
        BridgeError::Exec(m) => "ssh exec 失败: "@ + m@,
        BridgeError::Curl(m) => "目标机 curl 执行失败: "@ + m@,
    }
}

impl BridgeError {
    pub fn message(&self) -> (r: String)
        ensures
            r@ == bridge_error_text(*self),
    {
        match self {
            BridgeError::Exec(m) => {
                let mut s = text::owned("ssh exec 失败: ");
                s.append(m.as_str());
                s
            },
            BridgeError::Curl(m) => {
                let mut s = text::owned("目标机 curl 执行失败: ");
                s.append(m.as_str());
                s
            },
        }
    }
}

/// How much of a body an error message shows.
pub const ERROR_BODY_PREFIX_CHARS: usize = 200;

/// What `curl` writes behind the reply: a line with the status code.
pub const HTTP_CODE_SUFFIX: &'static str = "\\n%{http_code}";

/// An option that adds a header to the request.
pub open spec fn header_option(header: Seq<char>) -> Seq<char> {
    " -H "@ + quoted(header)
}

pub open spec fn auth_option(token: Option<Seq<char>>) -> Seq<char> {
    match token {
        Some(t) => header_option("Authorization: Bearer "@ + t),
        None => ""@,
    }
}

pub open spec fn session_option(session_id: Option<Seq<char>>) -> Seq<char> {
    match session_id {
        Some(id) => header_option("mcp-session-id: "@ + id),
        None => ""@,
    }
}

pub open spec fn post_command(
    uri: Seq<char>,
    token: Option<Seq<char>>,
    session_id: Option<Seq<char>>,
    body: Seq<char>,
    timeout_secs: u64,
) -> Seq<char> {
    "curl -s -S -m "@ + chars::dec(timeout_secs as nat) + " -D - -X POST"@ + auth_option(token)
        + header_option("Content-Type: application/json"@) + header_option(
        "Accept: application/json, text/event-stream"@,
    ) + header_option("Expect:"@) + session_option(session_id) + " --data "@ + quoted(body) + " "@
        + uri + " -w "@ + quoted(HTTP_CODE_SUFFIX@)
}

pub open spec fn delete_command(
    uri: Seq<char>,
    token: Option<Seq<char>>,
    session_id: Seq<char>,
    timeout_secs: u64,
) -> Seq<char> {
    "curl -s -S -m "@ + chars::dec(timeout_secs as nat) + " -D - -X DELETE"@ + auth_option(token)
        + session_option(Some(session_id)) + " "@ + uri + " -w "@ + quoted(HTTP_CODE_SUFFIX@)
}

fn push_header(cmd: &mut String, header: &str)
    ensures
        final(cmd)@ == old(cmd)@ + header_option(header@),
{
    let ghost before = cmd@;
    cmd.append(" -H ");
    cmd.append(shell_quote_single(header).as_str());
    assert(cmd@ =~= before + header_option(header@));
}

fn push_auth(cmd: &mut String, token: Option<&str>)
    ensures
        final(cmd)@ == old(cmd)@ + auth_option(token.deep_view()),
{
    match token {
        Some(t) => {
            let mut h = text::owned("Authorization: Bearer ");
            h.append(t);
            push_header(cmd, h.as_str());
        },
        None => {
            proof {
                reveal_strlit("");
            }
            assert(cmd@ + ""@ =~= cmd@);
        },
    }
}

fn push_session(cmd: &mut String, session_id: Option<&str>)
    ensures
        final(cmd)@ == old(cmd)@ + session_option(session_id.deep_view()),
{
    match session_id {
        Some(id) => {
            let mut h = text::owned("mcp-session-id: ");
            h.append(id);
            push_header(cmd, h.as_str());
        },
        None => {
            proof {
                reveal_strlit("");
            }
            assert(cmd@ + ""@ =~= cmd@);
        },
    }
}

/// The command that posts a body. The headers of the reply come out in front of it, the
/// status code behind it. The empty `Expect` keeps `curl` from asking first.
pub fn build_post_command(
    uri: &str,
    token: Option<&str>,
    session_id: Option<&str>,
    body: &str,
    timeout_secs: u64,
) -> (r: String)
    ensures
        r@ == post_command(
            uri@,
            token.deep_view(),
            session_id.deep_view(),
            body@,
            timeout_secs,
        ),
{
    let mut cmd = text::owned("curl -s -S -m ");
    cmd.append(text::dec(timeout_secs).as_str());
    cmd.append(" -D - -X POST");
    push_auth(&mut cmd, token);
    push_header(&mut cmd, "Content-Type: application/json");
    push_header(&mut cmd, "Accept: application/json, text/event-stream");
    push_header(&mut cmd, "Expect:");
    push_session(&mut cmd, session_id);
    cmd.append(" --data ");
    cmd.append(shell_quote_single(body).as_str());
    cmd.append(" ");
    cmd.append(uri);
    cmd.append(" -w ");
    cmd.append(shell_quote_single(HTTP_CODE_SUFFIX).as_str());
    cmd
}

/// The command that ends a session.
pub fn build_delete_command(
    uri: &str,
    token: Option<&str>,
    session_id: &str,
    timeout_secs: u64,
) -> (r: String)
    ensures
        r@ == delete_command(uri@, token.deep_view(), session_id@, timeout_secs),
{
    let mut cmd = text::owned("curl -s -S -m ");
    cmd.append(text::dec(timeout_secs).as_str());
    cmd.append(" -D - -X DELETE");
    push_auth(&mut cmd, token);
    push_session(&mut cmd, Some(session_id));
    cmd.append(" ");
    cmd.append(uri);
    cmd.append(" -w ");
    cmd.append(shell_quote_single(HTTP_CODE_SUFFIX).as_str());
    cmd
}

/// A text without the line ends at its end.
pub open spec fn trim_line_ends(s: Seq<char>) -> Seq<char>
    decreases s.len(),
{
    if s.len() > 0 && (s.last() == '\r' || s.last() == '\n') {
        trim_line_ends(s.drop_last())
    } else {
        s
    }
}

fn trimmed_line_ends<'a>(s: &'a str) -> (r: &'a str)
    ensures
        r@ == trim_line_ends(s@),
{
    let v = text::to_chars(s);
    let mut n: usize = v.len();
    assert(s@.take(n as int) =~= s@);
    while n > 0 && (v[n - 1] == '\r' || v[n - 1] == '\n')
        invariant
            n <= v@.len(),
            v@ == s@,
            trim_line_ends(s@) == trim_line_ends(s@.take(n as int)),
        decreases n,
    {
        assert(s@.take(n as int).drop_last() =~= s@.take(n - 1));
        assert(s@.take(n as int).last() == s@[n - 1]);
        n = n - 1;
    }
    proof {
        if n > 0 {
            assert(s@.take(n as int).last() == s@[n - 1]);
        }
        assert(s@.take(n as int) =~= s@.subrange(0, n as int));
    }
    text::first(s, n)
}

/// A line of headers that tells the session.
pub open spec fn header_session(header: Seq<char>) -> Option<Seq<char>> {
    match chars::split_once(header, ':') {
        Some((name, value)) => if chars::to_lower_ascii(chars::trim(name))
            == chars::to_lower_ascii("mcp-session-id"@) {
            Some(chars::trim(value))
        } else {
            None
        },
        None => None,
    }
}

/// The session that the first such line, from `i` on and before `end`, tells.
pub open spec fn session_in(lines: Seq<Seq<char>>, i: int, end: int) -> Option<Seq<char>>
    decreases end - i,
{
    if i < 0 || i >= end {
        None
    } else {
        match header_session(lines[i]) {
            Some(id) => Some(id),
            None => session_in(lines, i + 1, end),
        }
    }
}

/// A block of headers begins at this line: a status line behind a blank line, or in front.
pub open spec fn begins_block(lines: Seq<Seq<char>>, i: int) -> bool {
    chars::starts_with(lines[i], "HTTP/"@) && (i == 0 || lines[i - 1].len() == 0)
}

/// The last line before `end` at which a block of headers begins; 0 where none does.
pub open spec fn last_block(lines: Seq<Seq<char>>, end: int) -> int
    decreases end,
{
    if end <= 0 {
        0
    } else if begins_block(lines, end - 1) {
        end - 1
    } else {
        last_block(lines, end - 1)
    }
}

/// The first blank line from `i` on; the number of lines where there is none.
pub open spec fn blank_from(lines: Seq<Seq<char>>, i: int) -> int
    decreases lines.len() - i,
{
    if i < 0 || i >= lines.len() {
        lines.len() as int
    } else if lines[i].len() == 0 {
        i
    } else {
        blank_from(lines, i + 1)
    }
}

/// The session and the body that stand above the status code. The headers are those of
/// the last block: the blocks before it belong to interim replies. Without headers all is
/// body.
pub open spec fn reply_above(parts: Seq<Seq<char>>) -> (Option<Seq<char>>, Seq<char>) {
    let lines = parts.map_values(|l: Seq<char>| chars::strip_cr(l));
    if lines.len() > 0 && chars::starts_with(lines[0], "HTTP/"@) {
        let block = last_block(lines, lines.len() as int);
        let sep = blank_from(lines, block);
        (
            session_in(lines, block, sep),
            if sep < lines.len() {
                chars::join(lines.subrange(sep + 1, lines.len() as int), "\n"@)
            } else {
                Seq::empty()
            },
        )
    } else {
        (None, chars::join(parts, "\n"@))
    }
}

/// The lines of what `curl` wrote: the last one is to tell the status code.
pub open spec fn curl_lines(stdout: Seq<char>) -> Seq<Seq<char>> {
    chars::split(trim_line_ends(stdout), '\n')
}

pub open spec fn lines_above(lines: Seq<Seq<char>>) -> Seq<Seq<char>> {
    if lines.len() <= 1 {
        seq![Seq::<char>::empty()]
    } else {
        lines.drop_last()
    }
}

/// The status code, the session and the body; or why they cannot be told.
pub open spec fn curl_reply(stdout: Seq<char>) -> Result<
    (u16, Option<Seq<char>>, Seq<char>),
    Seq<char>,
> {
    if trim_line_ends(stdout).len() == 0 {
        Err("curl 输出为空（无 http code）"@)
    } else {
        let lines = curl_lines(stdout);
        match chars::parse_dec(chars::trim(lines.last()), 65535) {
            Some(code) => {
                let (session, body) = reply_above(lines_above(lines));
                Ok((code as u16, session, body))
            },
            None => Err("curl 输出末行不是 http code: "@ + outside::debugged(lines.last())),
        }
    }
}

/// The session that the lines tell from `from` on and before `to`.
fn extract_session_id(lines: &Vec<String>, from: usize, to: usize) -> (r: Option<String>)
    requires
        from <= to <= lines@.len(),
    ensures
        r.deep_view() == session_in(lines.deep_view(), from as int, to as int),
{
    let mut i: usize = from;
    let ghost model = lines.deep_view();
    while i < to
        invariant
            from <= i <= to <= lines@.len(),
            model == lines.deep_view(),
            session_in(model, from as int, to as int) == session_in(model, i as int, to as int),
        decreases to - i,
    {
        assert(model[i as int] == lines@[i as int]@);
        match text::split_once(lines[i].as_str(), ':') {
            Some((name, value)) => {
                if text::same_ignoring_ascii_case(text::trim(name), "mcp-session-id") {
                    return Some(text::owned(text::trim(value)));
                }
            },
            None => {},
        }
        i = i + 1;
    }
    None
}

fn strip_crs(parts: &Vec<String>) -> (r: Vec<String>)
    ensures
        r@.len() == parts@.len(),
        r.deep_view() == parts.deep_view().map_values(|l: Seq<char>| chars::strip_cr(l)),
{
    let mut out: Vec<String> = Vec::new();
    let mut i: usize = 0;
    while i < parts.len()
        invariant
            i <= parts@.len(),
            out@.len() == i,
            forall|k: int|
                0 <= k < i ==> (#[trigger] out@[k])@ == chars::strip_cr(parts@[k]@),
        decreases parts@.len() - i,
    {
        let line = strip_cr(parts[i].as_str());
        out.push(text::owned(line));
        i = i + 1;
    }
    assert(out.deep_view() =~= parts.deep_view().map_values(
        |l: Seq<char>| chars::strip_cr(l),
    ));
    out
}

fn strip_cr<'a>(s: &'a str) -> (r: &'a str)
    ensures
        r@ == chars::strip_cr(s@),
{
    if text::ends_with(s, "\r") {
        proof {
            reveal_strlit("\r");
            assert(s@.subrange(s@.len() - 1, s@.len() as int)[0] == s@.last());
        }
        let n: usize = s.unicode_len();
        proof {
            assert(s@.subrange(0, n - 1) =~= s@.drop_last());
        }
        text::first(s, n - 1)
    } else {
        proof {
            reveal_strlit("\r");
            if s@.len() > 0 && s@.last() == '\r' {
                assert(s@.subrange(s@.len() - 1, s@.len() as int) =~= "\r"@);
            }
        }
        s
    }
}

/// Reads what `curl` wrote: the status code in the last line, above it the headers of the
/// reply, where there are any, and its body.
pub fn parse_curl_output(stdout: &str) -> (r: Result<(u16, Option<String>, String), String>)
    ensures
        match curl_reply(stdout@) {
            Ok((code, session, body)) => r is Ok && r->Ok_0.0 == code && r->Ok_0.1.deep_view()
                == session && r->Ok_0.2@ == body,
            Err(e) => r is Err && r->Err_0@ == e,
        },
{
    let trimmed = trimmed_line_ends(stdout);
    if trimmed.unicode_len() == 0 {
        return Err(text::owned("curl 输出为空（无 http code）"));
    }
    let mut parts = text::split(trimmed, '\n');
    let ghost model = parts.deep_view();
    let n: usize = parts.len();
    assert(model.last() == parts@[n - 1]@);
    let code_line = parts[n - 1].clone();
    let code: u16 = match text::parse_dec(text::trim(code_line.as_str()), 65535) {
        Some(c) => c as u16,
        None => {
            let mut e = text::owned("curl 输出末行不是 http code: ");
            e.append(outside::debug_text(code_line.as_str()).as_str());
            return Err(e);
        },
    };
    parts.truncate(n - 1);
    assert(parts.deep_view() =~= model.drop_last());
    if n == 1 {
        parts.push(String::new());
        assert(parts.deep_view() =~= seq![Seq::<char>::empty()]);
    }
    assert(parts.deep_view() == lines_above(model));
    let (session, body) = read_reply(&parts);
    Ok((code, session, body))
}

fn read_reply(parts: &Vec<String>) -> (r: (Option<String>, String))
    requires
        parts@.len() > 0,
    ensures
        r.0.deep_view() == reply_above(parts.deep_view()).0,
        r.1@ == reply_above(parts.deep_view()).1,
{
    let lines = strip_crs(parts);
    let ghost model = lines.deep_view();
    let n: usize = lines.len();
    assert(model[0] == lines@[0]@);
    if !text::starts_with(lines[0].as_str(), "HTTP/") {
        return (None, text::join(parts, "\n"));
    }
    let mut end: usize = n;
    assert(begins_block(model, 0));
    while !(text::starts_with(lines[end - 1].as_str(), "HTTP/") && (end == 1 || lines[end
        - 2].as_str().unicode_len() == 0))
        invariant
            1 <= end <= n,
            n == lines@.len(),
            model == lines.deep_view(),
            begins_block(model, 0),
            last_block(model, n as int) == last_block(model, end as int),
        decreases end,
    {
        proof {
            assert(model[end - 1] == lines@[end - 1]@);
            if end >= 2 {
                assert(model[end - 2] == lines@[end - 2]@);
            }
        }
        end = end - 1;
    }
    proof {
        assert(model[end - 1] == lines@[end - 1]@);
        if end >= 2 {
            assert(model[end - 2] == lines@[end - 2]@);
        }
    }
    let block: usize = end - 1;
    let mut sep: usize = block;
    while sep < n && lines[sep].as_str().unicode_len() != 0
        invariant
            block <= sep <= n,
            n == lines@.len(),
            model == lines.deep_view(),
            blank_from(model, block as int) == blank_from(model, sep as int),
        decreases n - sep,
    {
        assert(model[sep as int] == lines@[sep as int]@);
        sep = sep + 1;
    }
    proof {
        if sep < n {
            assert(model[sep as int] == lines@[sep as int]@);
        }
    }
    let session = extract_session_id(&lines, block, sep);
    let mut rest: Vec<String> = Vec::new();
    if sep < n {
        let mut i: usize = sep + 1;
        while i < n
            invariant
                sep < i <= n,
                n == lines@.len(),
                model == lines.deep_view(),
                rest.deep_view() == model.subrange(sep + 1, i as int),
            decreases n - i,
        {
            let ghost before = rest.deep_view();
            rest.push(lines[i].clone());
            i = i + 1;
            assert(rest.deep_view() =~= model.subrange(sep + 1, i as int)) by {
                assert(rest.deep_view() =~= before.push(lines@[i - 1]@));
            }
        }
    }
    (session, text::join(&rest, "\n"))
}

/// What a line of an event stream carries.
pub open spec fn event_data(line: Seq<char>) -> Option<Seq<char>> {
    let line = chars::strip_cr(line);
    if chars::starts_with(line, "data:"@) {
        let data = line.subrange("data:"@.len() as int, line.len() as int);
        Some(if data.len() > 0 && data[0] == ' ' { data.drop_first() } else { data })
    } else {
        None
    }
}

/// What the lines of an event stream carry.
pub open spec fn events_data(lines: Seq<Seq<char>>) -> Seq<Seq<char>>
    decreases lines.len(),
{
    if lines.len() == 0 {
        Seq::empty()
    } else {
        match event_data(lines.last()) {
            Some(d) => events_data(lines.drop_last()).push(d),
            None => events_data(lines.drop_last()),
        }
    }
}

/// The data of an event stream, its lines joined; `None` where it has none.
pub open spec fn sse_data(body: Seq<char>) -> Option<Seq<char>> {
    let data = events_data(chars::lines(body));
    if data.len() == 0 {
        None
    } else {
        Some(chars::join(data, "\n"@))
    }
}

pub fn sse_data_lines_to_json(body: &str) -> (r: Option<String>)
    ensures
        r.deep_view() == sse_data(body@),
{
    let lines = text::lines(body);
    let ghost model = lines.deep_view();
    let mut parts: Vec<String> = Vec::new();
    let mut i: usize = 0;
    assert(parts.deep_view() =~= events_data(model.take(0)));
    while i < lines.len()
        invariant
            i <= lines@.len(),
            model == lines.deep_view(),
            parts.deep_view() == events_data(model.take(i as int)),
        decreases lines@.len() - i,
    {
        let ghost before = parts.deep_view();
        proof {
            assert(model.take(i + 1).drop_last() =~= model.take(i as int));
            assert(model[i as int] == lines@[i as int]@);
        }
        let line = strip_cr(lines[i].as_str());
        match text::strip_prefix(line, "data:") {
            Some(data) => {
                let kept = match text::strip_prefix(data, " ") {
                    Some(d) => d,
                    None => data,
                };
                proof {
                    reveal_strlit(" ");
                    if chars::starts_with(data@, " "@) {
                        assert(data@.subrange(0, 1)[0] == data@[0]);
                        assert(kept@ =~= data@.drop_first());
                    } else if data@.len() > 0 && data@[0] == ' ' {
                        assert(data@.subrange(0, 1) =~= " "@);
                    }
                }
                let ghost k = kept@;
                parts.push(text::owned(kept));
                assert(parts.deep_view() =~= before.push(k));
            },
            None => {},
        }
        i = i + 1;
    }
    assert(model.take(i as int) =~= model);
    if parts.len() == 0 {
        None
    } else {
        Some(text::join(&parts, "\n"))
    }
}

/// The front of a body, as an error message shows it.
pub open spec fn body_shown(body: Seq<char>) -> Seq<char> {
    if body.len() > ERROR_BODY_PREFIX_CHARS {
        chars::first(body, ERROR_BODY_PREFIX_CHARS as int) + "..."@
    } else {
        body
    }
}

fn body_prefix(body: &str) -> (r: String)
    ensures
        r@ == body_shown(body@),
{
    let mut s = text::owned(text::first(body, ERROR_BODY_PREFIX_CHARS));
    if body.unicode_len() > ERROR_BODY_PREFIX_CHARS {
        s.append("...");
    }
    s
}

/// What the other side answered to a post.
#[derive(Debug)]
pub enum PostReply {
    /// Taken; there is nothing to read.
    Accepted,
    /// A message, and the session.
    Json(String, Option<String>),
    /// A message that came as an event, and the session.
    Sse(String, Option<String>),
    /// Something that cannot be used.
    Unexpected(String),
}

pub enum PostModel {
    Accepted,
    Json(Seq<char>, Option<Seq<char>>),
    Sse(Seq<char>, Option<Seq<char>>),
    Unexpected(Seq<char>),
}

impl View for PostReply {
    type V = PostModel;

    open spec fn view(&self) -> PostModel {
        match self {
            PostReply::Accepted => PostModel::Accepted,
            PostReply::Json(t, s) => PostModel::Json(t@, s.deep_view()),
            PostReply::Sse(t, s) => PostModel::Sse(t@, s.deep_view()),
            PostReply::Unexpected(e) => PostModel::Unexpected(e@),
        }
    }
}

pub open spec fn refused_text(code: u16, body: Seq<char>) -> Seq<char> {
    "HTTP "@ + chars::dec(code as nat) + ": "@ + body_shown(body)
}

/// What a reply to a post means.
pub open spec fn post_meaning(code: u16, session: Option<Seq<char>>, body: Seq<char>) -> PostModel {
    let trimmed = chars::trim(body);
    if code == 202 {
        PostModel::Accepted
    } else if code == 200 {
        if trimmed.len() > 0 && trimmed[0] == '{' {
            PostModel::Json(trimmed, session)
        } else {
            match sse_data(body) {
                Some(json) => PostModel::Sse(json, session),
                None => PostModel::Unexpected("HTTP 200 无法识别的响应体: "@ + body_shown(body)),
            }
        }
    } else if code == 401 {
        PostModel::Unexpected("HTTP 401: 未授权（token 不匹配?）: "@ + body_shown(body))
    } else {
        PostModel::Unexpected(refused_text(code, body))
    }
}

/// Reads the reply to a post.
pub fn post_reply(code: u16, session: Option<String>, body: &str) -> (r: PostReply)
    ensures
        r@ == post_meaning(code, session.deep_view(), body@),
{
    if code == 202 {
        return PostReply::Accepted;
    }
    if code == 200 {
        let trimmed = text::trim(body);
        if trimmed.unicode_len() > 0 && trimmed.get_char(0) == '{' {
            return PostReply::Json(text::owned(trimmed), session);
        }
        return match sse_data_lines_to_json(body) {
            Some(json) => PostReply::Sse(json, session),
            None => {
                let mut e = text::owned("HTTP 200 无法识别的响应体: ");
                e.append(body_prefix(body).as_str());
                PostReply::Unexpected(e)
            },
        };
    }
    if code == 401 {
        let mut e = text::owned("HTTP 401: 未授权（token 不匹配?）: ");
        e.append(body_prefix(body).as_str());
        return PostReply::Unexpected(e);
    }
    PostReply::Unexpected(refused(code, body))
}

fn refused(code: u16, body: &str) -> (r: String)
    ensures
        r@ == refused_text(code, body@),
{
    let mut e = text::owned("HTTP ");
    e.append(text::dec(code as u64).as_str());
    e.append(": ");
    e.append(body_prefix(body).as_str());
    e
}

/// Reads the reply to the request that ends a session.
pub fn delete_reply(code: u16, body: &str) -> (r: Result<(), String>)
    ensures
        r is Ok == (200 <= code < 300),
        r is Err ==> r->Err_0@ == refused_text(code, body@),
{
    if code >= 200 && code < 300 {
        Ok(())
    } else {
        Err(refused(code, body))
    }
}

/// The way to arthas: the number of a channel to its machine, and how long a request may
/// take.
#[derive(Debug)]
pub struct ExecHttpBridge {
    pub channel: u64,
    pub timeout_secs: u64,
}

impl ExecHttpBridge {
    pub fn new(channel: u64, timeout_secs: u64) -> (r: Self)
        ensures
            r.channel == channel,
            r.timeout_secs == timeout_secs,
    {
        ExecHttpBridge { channel, timeout_secs }
    }

    /// What came of a request: the status code, the session and the body.
    pub fn exec_curl(&self, outcome: RunOutcome) -> (r: Result<
        (u16, Option<String>, String),
        BridgeError,
    >)
        ensures
            match outcome {
                RunOutcome::TimedOut => r matches Err(BridgeError::Exec(m)) && m@
                    == "exec 超时（"@ + chars::dec(self.timeout_secs as nat) + "s）"@,
                RunOutcome::Failed(e) => r matches Err(BridgeError::Exec(m)) && m@
                    == "ssh exec 失败: "@ + e@,
                RunOutcome::Output(o) => if o.exit_code != 0 {
                    r matches Err(BridgeError::Curl(m)) && m@ == "curl 退出码 "@
                        + chars::dec_signed(o.exit_code as int)
                        + "（目标 curl 不可用或连接失败）: "@ + chars::trim(o.stderr@)
                } else {
                    match curl_reply(o.stdout@) {
                        Ok((code, session, body)) => r is Ok && r->Ok_0.0 == code
                            && r->Ok_0.1.deep_view() == session && r->Ok_0.2@ == body,
                        Err(e) => r matches Err(BridgeError::Curl(m)) && m@ == e,
                    }
                },
            },
    {
        match outcome {
            RunOutcome::TimedOut => {
                let mut m = text::owned("exec 超时（");
                m.append(text::dec(self.timeout_secs).as_str());
                m.append("s）");
                Err(BridgeError::Exec(m))
            },
            RunOutcome::Failed(e) => {
                let mut m = text::owned("ssh exec 失败: ");
                m.append(e.as_str());
                Err(BridgeError::Exec(m))
            },
            RunOutcome::Output(o) => {
                if o.exit_code != 0 {
                    let mut m = text::owned("curl 退出码 ");
                    m.append(text::dec_signed(o.exit_code as i64).as_str());
                    m.append("（目标 curl 不可用或连接失败）: ");
                    m.append(text::trim(o.stderr.as_str()));
                    return Err(BridgeError::Curl(m));
                }
                match parse_curl_output(o.stdout.as_str()) {
                    Ok(reply) => Ok(reply),
                    Err(e) => Err(BridgeError::Curl(e)),
                }
            },
        }
    }
}

} // verus!
