//! What is asked of the machine on which arthas runs, and what its answers mean.

use crate::arthas::attach::{
    attaching, first_word, free_port_in, last_word, port_probe, port_search, properties,
    properties_write, stopping, user_check, users_in, written,
};
use crate::arthas::bridge::{
    auth_option, begins_block, blank_from, body_shown, bridge_error_text, curl_reply,
    delete_command, event_data, events_data, header_option, header_session, last_block,
    lines_above, post_command, post_meaning, refused_text, reply_above, session_in, session_option,
    sse_data, trim_line_ends, BridgeError, PostModel,
};
use crate::arthas::manager::{manager_error_text, ManagerError};
use crate::chars;
use crate::chars_laws::{
    law_first_place_is_found, law_lines_end_with_line_feeds, law_notation_is_read_back,
    law_pieces_make_the_text, law_splitting_goes_from_left_to_right, law_text_is_cut_at_the_first,
};
use crate::exec::channel::RunOutcome;
use crate::exec::ssh::quoted;
use vstd::prelude::*;

verus! {

proof fn lemma_in_the_middle(a: Seq<char>, b: Seq<char>, c: Seq<char>)
    ensures
        chars::contains(a + b + c, b),
{
    assert((a + b + c).subrange(a.len() as int, (a.len() + b.len()) as int) =~= b);
    assert(chars::occurs_at(a + b + c, b, a.len() as int));
}

/// A post carries the token and the session as headers where there are any, and the body and
/// the address as they are, each as one word of the shell.
#[verifier::rlimit(60)]
#[verifier::spinoff_prover]
pub proof fn law_post_carries_what_it_is_given(
    uri: Seq<char>,
    token: Seq<char>,
    session: Seq<char>,
    body: Seq<char>,
    secs: u64,
    t: Option<Seq<char>>,
    s: Option<Seq<char>>,
)
    ensures
        chars::contains(
            post_command(uri, Some(token), s, body, secs),
            " -H "@ + quoted("Authorization: Bearer "@ + token),
        ),
        chars::contains(
            post_command(uri, t, Some(session), body, secs),
            " -H "@ + quoted("mcp-session-id: "@ + session),
        ),
        chars::contains(
            post_command(uri, t, s, body, secs),
            " --data "@ + quoted(body) + " "@ + uri,
        ),
        chars::contains(
            post_command(uri, t, s, body, secs),
            "curl -s -S -m "@ + chars::dec(secs as nat) + " -D - -X POST"@,
        ),
        chars::contains(
            delete_command(uri, t, session, secs),
            " -H "@ + quoted("mcp-session-id: "@ + session),
        ),
        chars::contains(
            delete_command(uri, Some(token), session, secs),
            " -H "@ + quoted("Authorization: Bearer "@ + token),
        ),
        auth_option(None).len() == ""@.len(),
        session_option(None).len() == ""@.len(),
{
    let start = "curl -s -S -m "@ + chars::dec(secs as nat) + " -D - -X POST"@;
    let fixed = header_option("Content-Type: application/json"@) + header_option(
        "Accept: application/json, text/event-stream"@,
    ) + header_option("Expect:"@);
    let data = " --data "@ + quoted(body) + " "@ + uri;
    let end = " -w "@ + quoted(crate::arthas::bridge::HTTP_CODE_SUFFIX@);
    lemma_post(uri, Some(token), s, body, secs);
    lemma_post(uri, t, Some(session), body, secs);
    lemma_post(uri, t, s, body, secs);
    let none = Seq::<char>::empty();
    lemma_in_the_middle(
        start,
        auth_option(Some(token)),
        fixed + session_option(s) + data + end,
    );
    lemma_in_the_middle(
        start + auth_option(t) + fixed,
        session_option(Some(session)),
        data + end,
    );
    lemma_in_the_middle(start + auth_option(t) + fixed + session_option(s), data, end);
    lemma_in_the_middle(none, start, auth_option(t) + fixed + session_option(s) + data + end);
    assert(start + auth_option(Some(token)) + (fixed + session_option(s) + data + end) =~= start
        + auth_option(Some(token)) + fixed + session_option(s) + data + end);
    assert((start + auth_option(t) + fixed) + session_option(Some(session)) + (data + end) =~= start
        + auth_option(t) + fixed + session_option(Some(session)) + data + end);
    assert(none + start + (auth_option(t) + fixed + session_option(s) + data + end) =~= start
        + auth_option(t) + fixed + session_option(s) + data + end);
    let front = "curl -s -S -m "@ + chars::dec(secs as nat) + " -D - -X DELETE"@;
    let tail = " "@ + uri + end;
    lemma_in_the_middle(front + auth_option(t), session_option(Some(session)), tail);
    lemma_in_the_middle(
        front,
        auth_option(Some(token)),
        session_option(Some(session)) + tail,
    );
    assert(delete_command(uri, t, session, secs) =~= front + auth_option(t) + session_option(
        Some(session),
    ) + tail);
    assert(delete_command(uri, Some(token), session, secs) =~= front + auth_option(Some(token)) + (
    session_option(Some(session)) + tail));
}

proof fn lemma_post(
    uri: Seq<char>,
    t: Option<Seq<char>>,
    s: Option<Seq<char>>,
    body: Seq<char>,
    secs: u64,
)
    ensures
        post_command(uri, t, s, body, secs) == "curl -s -S -m "@ + chars::dec(secs as nat)
            + " -D - -X POST"@ + auth_option(t) + (header_option("Content-Type: application/json"@)
            + header_option("Accept: application/json, text/event-stream"@) + header_option(
            "Expect:"@,
        )) + session_option(s) + (" --data "@ + quoted(body) + " "@ + uri) + (" -w "@ + quoted(
            crate::arthas::bridge::HTTP_CODE_SUFFIX@,
        )),
{
    assert(post_command(uri, t, s, body, secs) =~= "curl -s -S -m "@ + chars::dec(secs as nat)
        + " -D - -X POST"@ + auth_option(t) + (header_option("Content-Type: application/json"@)
        + header_option("Accept: application/json, text/event-stream"@) + header_option(
        "Expect:"@,
    )) + session_option(s) + (" --data "@ + quoted(body) + " "@ + uri) + (" -w "@ + quoted(
        crate::arthas::bridge::HTTP_CODE_SUFFIX@,
    )));
}

proof fn lemma_digits_stay(d: Seq<char>)
    requires
        d.len() > 0,
        chars::all_digits(d),
    ensures
        chars::trim(d) == d,
        !d.contains('\n'),
{
    assert(chars::is_digit(d[0]));
    assert(chars::is_digit(d[d.len() - 1]));
    if d.contains('\n') {
        let i = choose|i: int| 0 <= i < d.len() && d[i] == '\n';
        assert(chars::is_digit(d[i]));
    }
}

/// What stands above the status code is the body, word for word, where no headers came with
/// it.
pub proof fn law_body_is_read_back(body: Seq<char>, code: u16)
    requires
        !chars::starts_with(body, "HTTP/"@),
    ensures
        curl_reply(body.push('\n') + chars::dec(code as nat)) == Ok::<
            (u16, Option<Seq<char>>, Seq<char>),
            Seq<char>,
        >((code, None, body)),
{
    reveal_strlit("HTTP/");
    let d = chars::dec(code as nat);
    law_notation_is_read_back(code as nat, 65535);
    lemma_digits_stay(d);
    let s = body.push('\n') + d;
    assert(s.last() == d[d.len() - 1]);
    assert(chars::is_digit(d[d.len() - 1]));
    assert(trim_line_ends(s) == s);
    law_splitting_goes_from_left_to_right(body, d, '\n');
    law_splitting_goes_from_left_to_right(d, body, '\n');
    law_pieces_make_the_text(body, '\n');
    let parts = chars::split(body, '\n');
    let lines = chars::split(s, '\n');
    assert(lines =~= parts.push(d));
    assert(lines_above(lines) =~= parts);
    lemma_front_piece(body, '\n');
    let stripped = parts.map_values(|l: Seq<char>| chars::strip_cr(l));
    if chars::starts_with(stripped[0], "HTTP/"@) {
        let first = parts[0];
        assert(stripped[0] == chars::strip_cr(first));
        assert(stripped[0].subrange(0, 5) =~= first.subrange(0, 5));
        assert(body.subrange(0, 5) =~= first.subrange(0, 5)) by {
            assert forall|i: int| 0 <= i < 5 implies body[i] == first[i] by {
                assert(body.subrange(0, first.len() as int)[i] == first[i]);
            }
        }
    }
    assert("\n"@ =~= seq!['\n']) by {
        reveal_strlit("\n");
    }
}

proof fn lemma_front_piece(s: Seq<char>, c: char)
    ensures
        chars::split(s, c).len() > 0,
        chars::split(s, c)[0].len() <= s.len(),
        s.subrange(0, chars::split(s, c)[0].len() as int) == chars::split(s, c)[0],
{
    law_text_is_cut_at_the_first(s, c);
    law_pieces_make_the_text(s, c);
    match chars::split_once(s, c) {
        Some((a, b)) => {
            law_splitting_goes_from_left_to_right(a, b, c);
            assert(chars::split(s, c)[0] == a);
            assert(s.subrange(0, a.len() as int) =~= a);
        },
        None => {
            law_splitting_goes_from_left_to_right(s, Seq::empty(), c);
            assert(s.subrange(0, s.len() as int) =~= s);
        },
    }
}

/// What does not end with a number is no reply, and neither is nothing.
pub proof fn law_reply_ends_with_its_code(stdout: Seq<char>)
    ensures
        trim_line_ends(stdout).len() == 0 ==> curl_reply(stdout) is Err,
        curl_reply(stdout) is Ok ==> chars::parse_dec(
            chars::trim(chars::split(trim_line_ends(stdout), '\n').last()),
            65535,
        ) == Some(curl_reply(stdout)->Ok_0.0 as nat),
        curl_reply(stdout.push('\n')) == curl_reply(stdout),
        curl_reply(stdout.push('\r')) == curl_reply(stdout),
{
    assert(stdout.push('\n').drop_last() =~= stdout);
    assert(stdout.push('\r').drop_last() =~= stdout);
}

proof fn lemma_blank_from(lines: Seq<Seq<char>>, i: int, k: int)
    requires
        0 <= i <= k <= lines.len(),
        forall|j: int| i <= j < k ==> (#[trigger] lines[j]).len() > 0,
        k < lines.len() ==> lines[k].len() == 0,
    ensures
        blank_from(lines, i) == k,
    decreases k - i,
{
    if i < k {
        lemma_blank_from(lines, i + 1, k);
    }
}

proof fn lemma_last_block(lines: Seq<Seq<char>>, at: int, end: int)
    requires
        0 <= at < end <= lines.len(),
        begins_block(lines, at),
        forall|j: int| at < j < end ==> !#[trigger] begins_block(lines, j),
    ensures
        last_block(lines, end) == at,
    decreases end,
{
    if end - 1 > at {
        assert(!begins_block(lines, end - 1));
        lemma_last_block(lines, at, end - 1);
    }
}

/// The headers of a reply end at the first blank line; what stands behind that is the body,
/// and the session is told by the headers. An interim reply in front of it does not count.
pub proof fn law_headers_end_at_the_blank_line(
    interim: Seq<Seq<char>>,
    headers: Seq<Seq<char>>,
    body: Seq<Seq<char>>,
)
    requires
        headers.len() > 0,
        chars::starts_with(headers[0], "HTTP/"@),
        forall|i: int|
            0 <= i < headers.len() ==> (#[trigger] headers[i]).len() > 0 && headers[i].last()
                != '\r',
        forall|i: int|
            0 <= i < body.len() ==> !chars::starts_with(#[trigger] body[i], "HTTP/"@) && (
            body[i].len() > 0 ==> body[i].last() != '\r'),
        forall|i: int|
            0 <= i < interim.len() ==> ((#[trigger] interim[i]).len() > 0 ==> interim[i].last()
                != '\r'),
        interim.len() > 0 ==> chars::starts_with(interim[0], "HTTP/"@) && interim.last().len() == 0,
    ensures
        ({
            let blank = Seq::<char>::empty();
            let parts = interim + headers.push(blank) + body;
            let (session, text) = reply_above(parts);
            &&& text == chars::join(body, "\n"@)
            &&& session == session_in(headers, 0, headers.len() as int)
        }),
{
    reveal_strlit("HTTP/");
    let blank = Seq::<char>::empty();
    let parts = interim + headers.push(blank) + body;
    let lines = parts.map_values(|l: Seq<char>| chars::strip_cr(l));
    let n = interim.len() as int;
    let h = headers.len() as int;
    assert forall|i: int| 0 <= i < parts.len() implies lines[i] == #[trigger] parts[i] by {
        if i < n {
            assert(parts[i] == interim[i]);
        } else if i < n + h {
            assert(parts[i] == headers[i - n]);
        } else if i > n + h {
            assert(parts[i] == body[i - n - h - 1]);
        }
    }
    assert(lines =~= parts);
    assert(parts[n] == headers[0]);
    if n > 0 {
        assert(parts[n - 1] == interim.last());
        assert(parts[0] == interim[0]);
    }
    assert(begins_block(parts, n));
    assert forall|j: int| n < j < parts.len() implies !#[trigger] begins_block(parts, j) by {
        if j < n + h {
            assert(parts[j - 1] == headers[j - n - 1]);
        } else if j == n + h {
            assert(parts[j] == blank);
        } else {
            assert(parts[j] == body[j - n - h - 1]);
        }
    }
    lemma_last_block(parts, n, parts.len() as int);
    assert(parts[n + h] == blank);
    assert forall|j: int| n <= j < n + h implies (#[trigger] parts[j]).len() > 0 by {
        assert(parts[j] == headers[j - n]);
    }
    lemma_blank_from(parts, n, n + h);
    assert(parts.subrange(n + h + 1, parts.len() as int) =~= body);
    lemma_session_in(parts, headers, n, 0);
}

proof fn lemma_session_in(parts: Seq<Seq<char>>, headers: Seq<Seq<char>>, n: int, i: int)
    requires
        0 <= n,
        0 <= i <= headers.len(),
        n + headers.len() <= parts.len(),
        forall|j: int| 0 <= j < headers.len() ==> parts[n + j] == #[trigger] headers[j],
    ensures
        session_in(parts, n + i, n + headers.len()) == session_in(
            headers,
            i,
            headers.len() as int,
        ),
    decreases headers.len() - i,
{
    if i < headers.len() {
        assert(parts[n + i] == headers[i]);
        lemma_session_in(parts, headers, n, i + 1);
    }
}

/// The first header counts that tells a session, and its value without blanks around it.
pub proof fn law_first_session_counts(lines: Seq<Seq<char>>, i: int, end: int)
    requires
        0 <= i,
    ensures
        match session_in(lines, i, end) {
            Some(id) => exists|k: int|
                i <= k < end && #[trigger] header_session(lines[k]) == Some(id) && forall|j: int|
                    i <= j < k ==> #[trigger] header_session(lines[j]) is None,
            None => forall|j: int| i <= j < end ==> #[trigger] header_session(lines[j]) is None,
        },
    decreases end - i,
{
    if i < end {
        if header_session(lines[i]) is Some {
            assert(header_session(lines[i]) == session_in(lines, i, end));
        } else {
            law_first_session_counts(lines, i + 1, end);
            if session_in(lines, i + 1, end) is Some {
                let id = session_in(lines, i + 1, end)->0;
                let k = choose|k: int|
                    i + 1 <= k < end && #[trigger] header_session(lines[k]) == Some(id) && forall|
                        j: int,
                    |
                        i + 1 <= j < k ==> #[trigger] header_session(lines[j]) is None;
                assert(header_session(lines[k]) == Some(id));
            }
        }
    }
}

/// A header tells the session by its name, in whatever letters, and by what stands behind
/// the colon.
pub proof fn law_header_tells_the_session(name: Seq<char>, value: Seq<char>)
    requires
        !name.contains(':'),
    ensures
        chars::to_lower_ascii(chars::trim(name)) == chars::to_lower_ascii("mcp-session-id"@)
            ==> header_session(name.push(':') + value) == Some(chars::trim(value)),
        chars::to_lower_ascii(chars::trim(name)) != chars::to_lower_ascii("mcp-session-id"@)
            ==> header_session(name.push(':') + value) is None,
        header_session(name) is None,
{
    let h = name.push(':') + value;
    law_text_is_cut_at_the_first(h, ':');
    law_text_is_cut_at_the_first(name, ':');
    assert(h[name.len() as int] == ':');
    match chars::split_once(h, ':') {
        Some((a, b)) => {
            if a.len() < name.len() {
                assert(h[a.len() as int] == ':');
                assert(name[a.len() as int] == ':');
                assert(name.contains(':'));
            }
            if a.len() > name.len() {
                assert(a[name.len() as int] == h[name.len() as int]);
                assert(a.contains(':'));
            }
            assert(a =~= name) by {
                assert forall|i: int| 0 <= i < name.len() implies a[i] == name[i] by {
                    assert(h[i] == a[i]);
                }
            }
            assert(b =~= value) by {
                assert forall|i: int| 0 <= i < value.len() implies b[i] == value[i] by {
                    assert(h[a.len() + 1 + i] == b[i]);
                }
            }
        },
        None => {
            assert(h.contains(':'));
        },
    }
}

/// A line of data carries what stands behind `data:`, without the one blank in front of it.
pub proof fn law_event_carries_its_data(d: Seq<char>, line: Seq<char>)
    requires
        d.len() == 0 || d.last() != '\r',
    ensures
        event_data("data: "@ + d) == Some(d),
        d.len() > 0 && d[0] != ' ' ==> event_data("data:"@ + d) == Some(d),
        line.len() == 0 || line[0] != 'd' ==> event_data(line) is None,
        event_data(("data: "@ + d).push('\r')) == Some(d),
{
    reveal_strlit("data:");
    reveal_strlit("data: ");
    let a = "data: "@ + d;
    let b = "data:"@ + d;
    assert(a.last() != '\r') by {
        if d.len() > 0 {
            assert(a.last() == d.last());
        } else {
            assert(a.last() == ' ');
        }
    }
    if d.len() > 0 {
        assert(b.last() == d.last());
    }
    assert(a.subrange(0, 5) =~= "data:"@);
    assert(b.subrange(0, 5) =~= "data:"@);
    assert(a.subrange(5, a.len() as int).drop_first() =~= d);
    assert(b.subrange(5, b.len() as int) =~= d);
    assert(a.push('\r').drop_last() =~= a);
    let l = chars::strip_cr(line);
    if chars::starts_with(l, "data:"@) {
        assert(l.subrange(0, 5)[0] == 'd');
        assert(l[0] == line[0]);
    }
}

/// The data of an event stream come in the order of their lines; a stream without any tells
/// nothing.
pub proof fn law_data_in_order(a: Seq<Seq<char>>, b: Seq<Seq<char>>)
    ensures
        events_data(a + b) == events_data(a) + events_data(b),
        a.len() == 1 && event_data(a[0]) is Some ==> events_data(a) == seq![event_data(a[0])->0],
        a.len() == 1 && event_data(a[0]) is None ==> events_data(a).len() == 0,
    decreases b.len(),
{
    if a.len() == 1 {
        assert(a.drop_last() =~= Seq::<Seq<char>>::empty());
        assert(events_data(a.drop_last()) =~= Seq::<Seq<char>>::empty());
    }
    if b.len() == 0 {
        assert(a + b =~= a);
        assert(events_data(a + b) =~= events_data(a) + events_data(b));
    } else {
        law_data_in_order(a, b.drop_last());
        assert((a + b).drop_last() =~= a + b.drop_last());
        assert((a + b).last() == b.last());
        assert(events_data(a + b) =~= events_data(a) + events_data(b));
    }
}

/// An error shows a body up to 200 characters, and of a longer one the first 200.
pub proof fn law_error_shows_the_front(body: Seq<char>)
    ensures
        body.len() <= 200 ==> body_shown(body) == body,
        body.len() > 200 ==> chars::starts_with(body_shown(body), body.subrange(0, 200))
            && body_shown(body) == body.subrange(0, 200) + "..."@,
{
    if body.len() > 200 {
        let f = body.subrange(0, 200);
        assert((f + "..."@).subrange(0, 200) =~= f);
    }
}

/// What a reply to a post means is told by its code: 202 is taken with nothing to read; 200
/// brings a message, in itself or in events, and the session; all else cannot be used.
pub proof fn law_meaning_of_a_reply(code: u16, session: Option<Seq<char>>, body: Seq<char>)
    ensures
        ({
            let m = post_meaning(code, session, body);
            let t = chars::trim(body);
            &&& m is Accepted <==> code == 202
            &&& m is Json <==> code == 200 && t.len() > 0 && t[0] == '{'
            &&& m is Json ==> m == PostModel::Json(t, session)
            &&& m is Sse <==> code == 200 && !(t.len() > 0 && t[0] == '{') && sse_data(body) is Some
            &&& m is Sse ==> m == PostModel::Sse(sse_data(body)->0, session)
            &&& m matches PostModel::Unexpected(e) ==> chars::ends_with(e, body_shown(body))
        }),
{
    let b = body_shown(body);
    let x = "HTTP 200 无法识别的响应体: "@ + b;
    let y = "HTTP 401: 未授权（token 不匹配?）: "@ + b;
    let z = "HTTP "@ + chars::dec(code as nat) + ": "@ + b;
    assert(x.subrange(x.len() - b.len(), x.len() as int) =~= b);
    assert(y.subrange(y.len() - b.len(), y.len() as int) =~= b);
    assert(z.subrange(z.len() - b.len(), z.len() as int) =~= b);
}

/// The last line counts that is not blank, and the first one, each without blanks around it.
pub proof fn law_lines_that_count(lines: Seq<Seq<char>>, line: Seq<char>)
    ensures
        chars::trim(line).len() > 0 ==> last_word(lines.push(line)) == chars::trim(line)
            && first_word(seq![line] + lines, 0) == chars::trim(line),
        chars::trim(line).len() == 0 ==> last_word(lines.push(line)) == last_word(lines)
            && first_word(seq![line] + lines, 0) == first_word(lines, 0),
        last_word(Seq::empty()).len() == 0,
        first_word(Seq::empty(), 0).len() == 0,
{
    assert(lines.push(line).drop_last() =~= lines);
    let s = seq![line] + lines;
    lemma_first_word(s, lines, 0);
}

proof fn lemma_first_word(s: Seq<Seq<char>>, lines: Seq<Seq<char>>, i: int)
    requires
        0 <= i,
        s.len() == lines.len() + 1,
        forall|k: int| 0 <= k < lines.len() ==> s[k + 1] == #[trigger] lines[k],
    ensures
        first_word(s, i + 1) == first_word(lines, i),
    decreases lines.len() - i,
{
    if i < lines.len() {
        assert(s[i + 1] == lines[i]);
        lemma_first_word(s, lines, i + 1);
    }
}

/// The two users are read back from what the command writes: the one of the process stands
/// above the line, the one who asked below it.
pub proof fn law_users_are_read_back(jvm: Seq<char>, ssh: Seq<char>)
    requires
        chars::trim(jvm) == jvm && jvm.len() > 0 && !jvm.contains('\n') && !chars::contains(
            jvm,
            "---"@,
        ),
        chars::trim(ssh) == ssh && ssh.len() > 0 && !ssh.contains('\n'),
    ensures
        users_in(jvm.push('\n') + "---"@ + (seq!['\n'] + ssh.push('\n'))) == Ok::<
            (Seq<char>, Seq<char>),
            Seq<char>,
        >((jvm, ssh)),
{
    reveal_strlit("---");
    let none = Seq::<char>::empty();
    let s = jvm.push('\n') + "---"@ + (seq!['\n'] + ssh.push('\n'));
    let n = jvm.len() as int + 1;
    assert(s.subrange(n, n + 3) =~= "---"@);
    assert(chars::occurs_at(s, "---"@, n));
    assert forall|j: int| 0 <= j < n implies !#[trigger] chars::occurs_at(s, "---"@, j) by {
        if chars::occurs_at(s, "---"@, j) {
            if j + 3 <= jvm.len() {
                assert(jvm.subrange(j, j + 3) =~= s.subrange(j, j + 3));
                assert(chars::occurs_at(jvm, "---"@, j));
            } else {
                assert(s.subrange(j, j + 3)[jvm.len() - j] == '-');
                assert(s[jvm.len() as int] == '\n');
            }
        }
    }
    law_first_place_is_found(s, "---"@);
    assert(chars::find(s, "---"@) == Some(n)) by {
        let k = chars::find(s, "---"@)->0;
        if k < n {
            assert(!chars::occurs_at(s, "---"@, k));
        }
        if n < k {
            assert(!chars::occurs_at(s, "---"@, n));
        }
    }
    let above = s.subrange(0, n);
    let below = s.subrange(n + 3, s.len() as int);
    assert(above =~= jvm.push('\n') + none);
    assert(below =~= none.push('\n') + (ssh.push('\n') + none));
    assert(!none.contains('\n'));
    law_lines_end_with_line_feeds(jvm, none);
    law_lines_end_with_line_feeds(ssh, none);
    law_lines_end_with_line_feeds(none, none);
    law_lines_end_with_line_feeds(none, ssh.push('\n') + none);
    lemma_no_return(jvm);
    lemma_no_return(ssh);
    let la = chars::lines(above);
    let lb = chars::lines(below);
    assert(la =~= Seq::<Seq<char>>::empty().push(jvm));
    assert(lb =~= seq![chars::strip_cr(none)].push(ssh));
    law_lines_that_count(Seq::empty(), jvm);
    law_lines_that_count(seq![chars::strip_cr(none)], ssh);
}

proof fn lemma_no_return(s: Seq<char>)
    requires
        chars::trim(s) == s,
        s.len() > 0,
    ensures
        s.last() != '\r',
        chars::strip_cr(s) == s,
{
    let r = crate::chars_laws::law_trimming_takes_white_space(s);
}

/// A port that was found free is read back; where none was, or nothing was written, that is
/// an error.
pub proof fn law_free_port_is_read_back(port: u16)
    ensures
        free_port_in(chars::dec(port as nat).push('\n')) == Ok::<u16, Seq<char>>(port),
        free_port_in("none\n"@) is Err,
        free_port_in(Seq::empty()) is Err,
{
    let none = Seq::<char>::empty();
    let d = chars::dec(port as nat);
    law_notation_is_read_back(port as nat, 65535);
    lemma_digits_stay(d);
    lemma_no_return(d);
    law_lines_end_with_line_feeds(d, none);
    assert(!none.contains('\n'));
    law_lines_end_with_line_feeds(none, none);
    assert(d.push('\n') =~= d.push('\n') + none);
    law_lines_that_count(none_lines(), d);
    assert(chars::lines(d.push('\n')) =~= seq![d] + none_lines());
    reveal_strlit("none");
    reveal_strlit("none\n");
    let w = "none"@;
    if d == w {
        assert(chars::is_digit(d[0]));
    }
    assert("none\n"@ =~= w.push('\n') + none);
    assert(!w.contains('\n'));
    law_lines_end_with_line_feeds(w, none);
    assert(!chars::is_white(w[0]) && !chars::is_white(w[3]));
    assert(chars::trim(w) == w);
    law_lines_that_count(none_lines(), w);
    assert(chars::lines("none\n"@) =~= seq![w] + none_lines());
    law_lines_that_count(none_lines(), none);
    assert(chars::lines(none) =~= none_lines());
}

spec fn none_lines() -> Seq<Seq<char>> {
    Seq::empty()
}

/// arthas is started with the `java` and in the directory that it is told, for the process
/// that it is told.
pub proof fn law_arthas_is_started_for_the_process(java: Seq<char>, home: Seq<char>, pid: i64)
    ensures
        chars::starts_with(attaching(java, home, pid), "cd "@ + home + " && nohup "@ + java),
        chars::contains(
            attaching(java, home, pid),
            " -jar arthas-boot.jar --pid "@ + chars::dec_signed(pid as int) + " < /dev/null"@,
        ),
{
    reveal_strlit(" < /dev/null");
    reveal_strlit(" < /dev/null >> /tmp/arthas-friday-");
    let front = "cd "@ + home + " && nohup "@ + java;
    let d = chars::dec_signed(pid as int);
    let log = " < /dev/null >> /tmp/arthas-friday-"@;
    let more = log.subrange(12, log.len() as int);
    assert(log =~= " < /dev/null"@ + more);
    let mid = " -jar arthas-boot.jar --pid "@ + d + " < /dev/null"@;
    let rest = more + d + ".log 2>&1 & echo attach-started"@;
    let s = attaching(java, home, pid);
    assert(s =~= front + mid + rest);
    assert(s.subrange(0, front.len() as int) =~= front);
    lemma_in_the_middle(front, mid, rest);
}

/// arthas is told to stop at its own port, with its own token, whichever of the two programs
/// is there.
pub proof fn law_arthas_is_stopped_at_its_port(port: u16, token: Seq<char>)
    ensures
        chars::starts_with(
            stopping(port, token),
            "curl -s -m 10 -X POST -H 'Authorization: Bearer "@ + token,
        ),
        chars::contains(
            stopping(port, token),
            " http://127.0.0.1:"@ + chars::dec(port as nat)
                + "/api || wget -q -O /dev/null --header='Authorization: Bearer "@ + token,
        ),
        chars::contains(
            stopping(port, token),
            " http://127.0.0.1:"@ + chars::dec(port as nat) + "/api || true"@,
        ),
{
    let d = chars::dec(port as nat);
    let a = "curl -s -m 10 -X POST -H 'Authorization: Bearer "@ + token;
    let json =
        "' -H 'Content-Type: application/json' -d '{\"action\":\"exec\",\"command\":\"stop\"}' http://127.0.0.1:"@;
    let post = "' --post-data='{\"action\":\"exec\",\"command\":\"stop\"}' http://127.0.0.1:"@;
    let wget = "/api || wget -q -O /dev/null --header='Authorization: Bearer "@;
    let at = " http://127.0.0.1:"@;
    reveal_strlit(
        "' -H 'Content-Type: application/json' -d '{\"action\":\"exec\",\"command\":\"stop\"}' http://127.0.0.1:",
    );
    reveal_strlit(
        "' --post-data='{\"action\":\"exec\",\"command\":\"stop\"}' http://127.0.0.1:",
    );
    reveal_strlit(" http://127.0.0.1:");
    let j = json.subrange(0, json.len() - at.len());
    let p = post.subrange(0, post.len() - at.len());
    assert(json =~= j + at);
    assert(post =~= p + at);
    let s = stopping(port, token);
    let end = "/api || true"@;
    lemma_stop_pieces(a, j, at, d, wget, token, p, end);
    assert(s =~= a + j + at + d + wget + token + p + at + d + end);
}

proof fn lemma_stop_pieces(
    a: Seq<char>,
    j: Seq<char>,
    at: Seq<char>,
    d: Seq<char>,
    wget: Seq<char>,
    token: Seq<char>,
    p: Seq<char>,
    end: Seq<char>,
)
    ensures
        ({
            let s = a + j + at + d + wget + token + p + at + d + end;
            &&& chars::starts_with(s, a)
            &&& chars::contains(s, at + d + wget + token)
            &&& chars::contains(s, at + d + end)
        }),
{
    let s = a + j + at + d + wget + token + p + at + d + end;
    assert(s.subrange(0, a.len() as int) =~= a);
    assert(s =~= (a + j) + (at + d + wget + token) + (p + at + d + end));
    lemma_in_the_middle(a + j, at + d + wget + token, p + at + d + end);
    assert(s =~= (a + j + at + d + wget + token + p) + (at + d + end) + Seq::<char>::empty());
    lemma_in_the_middle(a + j + at + d + wget + token + p, at + d + end, Seq::empty());
}

/// The configuration names the port and the token.
pub proof fn law_configuration_names_port_and_token(port: u16, token: Seq<char>)
    ensures
        chars::contains(
            properties(port, token),
            "\narthas.httpPort="@ + chars::dec(port as nat) + "\narthas.password="@ + token + "\n"@,
        ),
{
    reveal_strlit("arthas.mcpEndpoint=/mcp\narthas.telnetPort=-1\narthas.httpPort=");
    reveal_strlit("\narthas.httpPort=");
    let front = "arthas.mcpEndpoint=/mcp\narthas.telnetPort=-1\narthas.httpPort="@;
    let key = "\narthas.httpPort="@;
    let head = front.subrange(0, front.len() - key.len());
    assert(front =~= head + key);
    let line = key + chars::dec(port as nat) + "\narthas.password="@ + token + "\n"@;
    assert(properties(port, token) =~= head + line + Seq::<char>::empty());
    lemma_in_the_middle(head, line, Seq::empty());
}

/// What a command wrote is handed on; that it took too long, or did not run, is told with the
/// command.
pub proof fn law_output_is_handed_on(cmd: Seq<char>, secs: u64, outcome: RunOutcome)
    ensures
        written(cmd, secs, outcome) is Ok <==> outcome is Output,
        outcome matches RunOutcome::Output(o) ==> written(cmd, secs, outcome)->Ok_0 == o,
        outcome is TimedOut ==> chars::ends_with(written(cmd, secs, outcome)->Err_0, cmd),
        outcome matches RunOutcome::Failed(e) ==> chars::contains(
            written(cmd, secs, outcome)->Err_0,
            e@ + "（命令: "@ + cmd,
        ),
{
    let a = "远端命令执行超时（"@ + chars::dec(secs as nat) + "s）: "@ + cmd;
    assert(a.subrange(a.len() - cmd.len(), a.len() as int) =~= cmd);
    if outcome is Failed {
        let e = outcome->Failed_0;
        let b = e@ + "（命令: "@ + cmd;
        lemma_in_the_middle("远端命令执行失败: "@, b, "）"@);
        assert("远端命令执行失败: "@ + e@ + "（命令: "@ + cmd + "）"@ =~= "远端命令执行失败: "@ + b
            + "）"@);
    }
}

/// The machine is asked for the user of the process that is meant, for the ports from the
/// first to the last, and for the port that is meant.
pub proof fn law_questions_name_their_subject(pid: i64, start: u16, end: nat, port: u16)
    ensures
        chars::starts_with(user_check(pid), "ps -o user= -p "@ + chars::dec_signed(pid as int) + " "@),
        chars::ends_with(user_check(pid), "echo '---'; id -un"@),
        chars::starts_with(
            port_search(start, end),
            "for p in $(seq "@ + chars::dec(start as nat) + " "@ + chars::dec(end) + "); do "@,
        ),
        chars::contains(port_probe(port), "/dev/tcp/127.0.0.1/"@ + chars::dec(port as nat) + ")"@),
{
    reveal_strlit(" ");
    reveal_strlit(" 2>/dev/null; echo '---'; id -un");
    reveal_strlit("echo '---'; id -un");
    let u = user_check(pid);
    let a = "ps -o user= -p "@ + chars::dec_signed(pid as int) + " "@;
    let z = "echo '---'; id -un"@;
    assert(u.subrange(0, a.len() as int) =~= a);
    assert(u.subrange(u.len() - z.len(), u.len() as int) =~= z);
    reveal_strlit("); do ");
    reveal_strlit(
        "); do if (exec 3<>/dev/tcp/127.0.0.1/$p) 2>/dev/null; then exec 3>&- 3<&-; else echo $p; exit 0; fi; done; echo none",
    );
    let s = port_search(start, end);
    let b = "for p in $(seq "@ + chars::dec(start as nat) + " "@ + chars::dec(end) + "); do "@;
    assert(s.subrange(0, b.len() as int) =~= b);
    reveal_strlit("if (exec 3<>/dev/tcp/127.0.0.1/");
    reveal_strlit("/dev/tcp/127.0.0.1/");
    reveal_strlit(")");
    reveal_strlit(") 2>/dev/null; then exec 3>&- 3<&-; echo busy; else echo free; fi");
    let p = port_probe(port);
    let c = "/dev/tcp/127.0.0.1/"@ + chars::dec(port as nat) + ")"@;
    assert(p.subrange(12, 12 + c.len() as int) =~= c);
    assert(chars::occurs_at(p, c, 12));
}

/// The configuration is written as it is into the directory of arthas, and made readable for
/// all.
pub proof fn law_configuration_is_written(home: Seq<char>, content: Seq<char>)
    ensures
        chars::starts_with(
            properties_write(home, content),
            "printf '%s' "@ + quoted(content) + " > "@ + home + "/arthas.properties && "@,
        ),
        chars::ends_with(
            properties_write(home, content),
            "chmod 644 "@ + home + "/arthas.properties"@,
        ),
{
    reveal_strlit("/arthas.properties && chmod 644 ");
    reveal_strlit("/arthas.properties && ");
    reveal_strlit("chmod 644 ");
    let s = properties_write(home, content);
    let a = "printf '%s' "@ + quoted(content) + " > "@ + home + "/arthas.properties && "@;
    let z = "chmod 644 "@ + home + "/arthas.properties"@;
    assert(s.subrange(0, a.len() as int) =~= a);
    assert(s.subrange(s.len() - z.len(), s.len() as int) =~= z);
}

/// An error keeps the words that came with it; one that took too long says how long.
pub proof fn law_error_keeps_its_words(m: String, secs: u64, code: u16, body: Seq<char>)
    ensures
        chars::ends_with(bridge_error_text(BridgeError::Exec(m)), m@),
        chars::ends_with(bridge_error_text(BridgeError::Curl(m)), m@),
        chars::ends_with(manager_error_text(ManagerError::Attach(m)), m@),
        chars::ends_with(manager_error_text(ManagerError::Transport(m)), m@),
        manager_error_text(ManagerError::Upstream(m)) == m@,
        chars::contains(manager_error_text(ManagerError::Timeout(secs)), chars::dec(secs as nat)),
        chars::starts_with(refused_text(code, body), "HTTP "@ + chars::dec(code as nat) + ": "@),
        chars::ends_with(refused_text(code, body), body_shown(body)),
{
    let w = m@;
    let a = bridge_error_text(BridgeError::Exec(m));
    let b = bridge_error_text(BridgeError::Curl(m));
    let c = manager_error_text(ManagerError::Attach(m));
    let d = manager_error_text(ManagerError::Transport(m));
    assert(a.subrange(a.len() - w.len(), a.len() as int) =~= w);
    assert(b.subrange(b.len() - w.len(), b.len() as int) =~= w);
    assert(c.subrange(c.len() - w.len(), c.len() as int) =~= w);
    assert(d.subrange(d.len() - w.len(), d.len() as int) =~= w);
    lemma_in_the_middle("arthas 调用超时（"@, chars::dec(secs as nat), "s）"@);
    let r = refused_text(code, body);
    let h = "HTTP "@ + chars::dec(code as nat) + ": "@;
    let t = body_shown(body);
    assert(r.subrange(0, h.len() as int) =~= h);
    assert(r.subrange(r.len() - t.len(), r.len() as int) =~= t);
}

/// What a reply that means nothing is told as: with the code that it came with; that of a
/// refused token with what may be wrong.
pub proof fn law_unexpected_reply_in_words(code: u16, session: Option<Seq<char>>, body: Seq<char>)
    ensures
        ({
            let m = post_meaning(code, session, body);
            let shown = body_shown(body);
            &&& code == 401 ==> m == PostModel::Unexpected(
                "HTTP 401: 未授权（token 不匹配?）: "@ + shown,
            )
            &&& code != 200 && code != 202 && code != 401 ==> m == PostModel::Unexpected(
                "HTTP "@ + chars::dec(code as nat) + ": "@ + shown,
            )
            &&& code == 200 && m is Unexpected ==> m == PostModel::Unexpected(
                "HTTP 200 无法识别的响应体: "@ + shown,
            )
        }),
{
}

/// The lines of data in a stream are put together with a line feed between them; a stream
/// without any has none.
pub proof fn law_data_is_put_together(body: Seq<char>, a: Seq<char>, b: Seq<char>)
    ensures
        events_data(chars::lines(body)).len() == 0 <==> sse_data(body) is None,
        events_data(chars::lines(body)) == seq![a] ==> sse_data(body) == Some(a),
        events_data(chars::lines(body)) == seq![a, b] ==> sse_data(body) == Some(a.push('\n') + b),
{
    reveal_strlit("\n");
    let one = seq![a];
    let two = seq![a, b];
    assert(one.drop_last() =~= Seq::<Seq<char>>::empty());
    assert(two.drop_last() =~= one);
    reveal_with_fuel(chars::join, 3);
    assert(chars::join(one, "\n"@) =~= a);
    assert(chars::join(two, "\n"@) =~= a.push('\n') + b);
}

/// What is missing is said where the users cannot be told: that of the process, or who asked.
pub proof fn law_missing_user_in_words(stdout: Seq<char>)
    ensures
        users_in(stdout) matches Err(why) ==> why == "目标进程不存在或已退出（ps 无属主输出）"@ || why
            == "无法确定当前 SSH 用户（id -un 无输出）"@,
        users_in(stdout) matches Ok((jvm, ssh)) ==> jvm.len() > 0 && ssh.len() > 0,
{
}

/// The words of the errors of a session.
pub proof fn law_session_errors_in_words(m: String, secs: u64, attaching: bool)
    ensures
        manager_error_text(ManagerError::Attach(m)) == "attach 失败："@ + m@,
        manager_error_text(ManagerError::Transport(m)) == "arthas 通道传输错误："@ + m@,
        manager_error_text(ManagerError::NotOpen { attaching }) == "该 JVM 尚未 attach arthas"@,
        manager_error_text(ManagerError::Timeout(secs)) == "arthas 调用超时（"@ + chars::dec(
            secs as nat,
        ) + "s）"@,
{
}

/// The questions to the machine, word for word: who runs the process and who asks, and whether
/// the port is taken.
pub proof fn law_questions_word_for_word(pid: i64, port: u16)
    ensures
        user_check(pid) == "ps -o user= -p "@ + chars::dec_signed(pid as int)
            + " 2>/dev/null; echo '---'; id -un"@,
        port_probe(port) == "if (exec 3<>/dev/tcp/127.0.0.1/"@ + chars::dec(port as nat)
            + ") 2>/dev/null; then exec 3>&- 3<&-; echo busy; else echo free; fi"@,
{
}

} // verus!
