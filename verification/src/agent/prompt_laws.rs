//! What an agent is told, and with what it is started.

use crate::agent::prompt::{
    experience_text, experiences_prompt, experiences_text, history_prompt, outcome_label,
    plain_prompt, preamble, system_prompt, FRIDAY_SYSTEM_PROMPT, TOOL_GUIDANCE,
};
use crate::agent::spawn::{
    advertised, agent_args, agent_exe, chosen_prompt, flag_candidates, is_plan, native_exe,
    native_name, native_of, resolved_flag, session_flag, told_history, ActiveAgent, SpawnError,
    SpawnPlan,
};
use crate::agent::stream::recent_history;
use crate::app::session::{messages, MessageRow};
use crate::chars;
use crate::infra::pathname::{file_part, Platform};
use crate::knowledge::{ExperienceModel, Outcome};
use vstd::prelude::*;

verus! {

proof fn lemma_front(a: Seq<char>, b: Seq<char>)
    ensures
        chars::starts_with(a + b, a),
        chars::ends_with(a + b, b),
{
    assert((a + b).subrange(0, a.len() as int) =~= a);
    assert((a + b).subrange(a.len() as int, (a + b).len() as int) =~= b);
}

proof fn lemma_middle(a: Seq<char>, b: Seq<char>, c: Seq<char>)
    ensures
        chars::occurs_at(a + b + c, b, a.len() as int),
{
    assert((a + b + c).subrange(a.len() as int, (a.len() + b.len()) as int) =~= b);
}

/// The file that replaces the system prompt replaces it just where it is not blank.
pub proof fn law_override_replaces_the_system_prompt(text: Seq<char>)
    ensures
        system_prompt(None) == FRIDAY_SYSTEM_PROMPT@,
        chars::trim(text).len() == 0 ==> system_prompt(Some(text)) == system_prompt(None),
        chars::trim(text).len() > 0 ==> system_prompt(Some(text)) == text,
{
}

/// What every prompt starts with says who the agent is, how it uses its tools and in which
/// session.
pub proof fn law_prompt_says_who_and_where(override_text: Option<Seq<char>>, session_id: Seq<char>)
    ensures
        ({
            let head = preamble(override_text, session_id);
            &&& chars::starts_with(head, system_prompt(override_text))
            &&& chars::contains(head, TOOL_GUIDANCE@)
            &&& chars::contains(head, "session_id："@ + session_id + "\n"@)
        }),
{
    let head = preamble(override_text, session_id);
    let sys = system_prompt(override_text);
    let bar = "\n\n---\n\n"@;
    reveal_strlit("\n\n---\n\n");
    reveal_strlit("\n- 当前会话的 session_id：");
    reveal_strlit("session_id：");
    reveal_strlit("\n");
    let note = "\n- 当前会话的 session_id："@;
    assert(head =~= sys + (bar + TOOL_GUIDANCE@ + note + session_id + bar));
    lemma_front(sys, bar + TOOL_GUIDANCE@ + note + session_id + bar);
    assert(head =~= (sys + bar) + TOOL_GUIDANCE@ + (note + session_id + bar));
    lemma_middle(sys + bar, TOOL_GUIDANCE@, note + session_id + bar);
    let short = note.subrange(0, note.len() - "session_id："@.len());
    let rest = bar.subrange(1, bar.len() as int);
    let key = "session_id："@ + session_id + "\n"@;
    assert(note =~= short + "session_id："@);
    assert(bar =~= "\n"@ + rest);
    assert(head =~= (sys + bar + TOOL_GUIDANCE@ + short) + key + rest);
    lemma_middle(sys + bar + TOOL_GUIDANCE@ + short, key, rest);
}

/// A prompt ends with the message of the user; with history, that stands in front of it.
pub proof fn law_prompt_ends_with_the_message(
    message: Seq<char>,
    override_text: Option<Seq<char>>,
    session_id: Seq<char>,
    history: Seq<char>,
)
    ensures
        ({
            let head = preamble(override_text, session_id);
            let plain = plain_prompt(message, override_text, session_id);
            let h = history_prompt(message, override_text, session_id, history);
            &&& chars::starts_with(plain, head)
            &&& chars::ends_with(plain, "用户消息："@ + message)
            &&& chars::starts_with(h, head)
            &&& chars::ends_with(h, "用户消息："@ + message)
            &&& chars::contains(h, history)
        }),
{
    let head = preamble(override_text, session_id);
    let ask = "用户消息："@;
    let said = ask + message;
    reveal_strlit("用户消息：");
    reveal_strlit("\n\n---\n\n用户消息：");
    assert(plain_prompt(message, override_text, session_id) =~= head + said);
    lemma_front(head, said);
    let told =
        "## 此前对话记录\n（底层 CLI 会话恢复失败，已开启新会话；以下记录来自 Friday 本地存储，请基于它继续对话。）\n\n"@;
    let tail = "\n\n---\n\n用户消息："@;
    let bar = tail.subrange(0, tail.len() - ask.len());
    assert(tail =~= bar + ask);
    let h = history_prompt(message, override_text, session_id, history);
    assert(h =~= head + (told + history + tail + message));
    lemma_front(head, told + history + tail + message);
    assert(h =~= (head + told) + history + (tail + message));
    lemma_middle(head + told, history, tail + message);
    assert(h =~= (head + told + history + bar) + said);
    lemma_front(head + told + history + bar, said);
}

/// With experiences, these stand in front of the message; without any, the prompt is a plain
/// one.
pub proof fn law_experiences_stand_in_the_prompt(
    message: Seq<char>,
    override_text: Option<Seq<char>>,
    session_id: Seq<char>,
    es: Seq<ExperienceModel>,
)
    ensures
        ({
            let e = experiences_prompt(message, override_text, session_id, es);
            &&& chars::starts_with(e, preamble(override_text, session_id))
            &&& chars::ends_with(e, "用户消息："@ + message)
            &&& es.len() > 0 ==> chars::contains(e, experiences_text(es, es.len() as int))
            &&& es.len() == 0 ==> e == plain_prompt(message, override_text, session_id)
        }),
{
    if es.len() > 0 {
        let head = preamble(override_text, session_id);
        let ask = "用户消息："@;
        reveal_strlit("用户消息：");
        reveal_strlit("\n---\n\n用户消息：");
        let e = experiences_prompt(message, override_text, session_id, es);
        let t = experiences_text(es, es.len() as int);
        let end = "\n---\n\n用户消息："@;
        let line = end.subrange(0, end.len() - ask.len());
        assert(end =~= line + ask);
        assert(e =~= head + (t + end + message));
        lemma_front(head, t + end + message);
        assert(e =~= head + t + (end + message));
        lemma_middle(head, t, end + message);
        assert(e =~= (head + t + line) + (ask + message));
        lemma_front(head + t + line, ask + message);
    } else {
        law_prompt_ends_with_the_message(message, override_text, session_id, message);
    }
}

/// The experiences are told in their order, each with its number, counted from 1.
pub proof fn law_experiences_in_order(es: Seq<ExperienceModel>, n: int, m: int)
    requires
        0 <= n <= m <= es.len(),
    ensures
        chars::starts_with(experiences_text(es, m), experiences_text(es, n)),
        n < m ==> chars::occurs_at(
            experiences_text(es, m),
            experience_text(es[n], n),
            experiences_text(es, n).len() as int,
        ),
    decreases m - n,
{
    let a = experiences_text(es, n);
    if n == m {
        assert(a.subrange(0, a.len() as int) =~= a);
    } else {
        law_experiences_in_order(es, n, m - 1);
        let b = experiences_text(es, m - 1);
        let c = experiences_text(es, m);
        assert(c.subrange(0, a.len() as int) =~= b.subrange(0, a.len() as int));
        let t = experience_text(es[n], n);
        let z = (a.len() + t.len()) as int;
        if n == m - 1 {
            assert(c.subrange(a.len() as int, z) =~= t);
        } else {
            assert(c.subrange(a.len() as int, z) =~= b.subrange(a.len() as int, z));
        }
    }
}

/// An experience tells how it turned out, of which service, its symptom, how it was looked
/// into, its cause where it is known, and its lesson where there is one.
pub proof fn law_experience_tells_all_of_it(e: ExperienceModel, i: int)
    requires
        0 <= i,
    ensures
        ({
            let t = experience_text(e, i);
            &&& chars::starts_with(t, "### 经验 "@ + chars::dec((i + 1) as nat) + "（"@)
            &&& e.outcome == Outcome::Positive ==> chars::contains(t, "（"@ + "成功"@ + "）："@)
            &&& e.outcome == Outcome::Negative ==> chars::contains(t, "（"@ + "未成功"@ + "）："@)
            &&& e.outcome == Outcome::Uncertain ==> chars::contains(t, "（"@ + "不确定"@ + "）："@)
            &&& chars::contains(t, "）："@ + e.service + " "@ + e.symptom + "\n"@)
            &&& chars::contains(t, "症状："@ + e.symptom + "\n"@)
            &&& chars::contains(t, "排查路径："@ + e.investigation_path + "\n"@)
            &&& e.root_cause is Some ==> chars::contains(t, "根因："@ + e.root_cause->0 + "\n"@)
            &&& e.experience_lesson.len() > 0 ==> chars::contains(
                t,
                "经验："@ + e.experience_lesson + "\n"@,
            )
            &&& chars::ends_with(t, "\n"@)
        }),
{
    let number = "### 经验 "@ + chars::dec((i + 1) as nat);
    let label = outcome_label(e.outcome);
    let named = e.service + " "@ + e.symptom + "\n"@;
    let head = "### 经验 "@ + chars::dec((i + 1) as nat) + "（"@ + label + "）："@ + e.service + " "@
        + e.symptom + "\n"@;
    let symptom = "症状："@ + e.symptom + "\n"@;
    let cause = match e.root_cause {
        Some(c) => "根因："@ + c + "\n"@,
        None => Seq::empty(),
    };
    let path = "排查路径："@ + e.investigation_path + "\n"@;
    let lesson = if e.experience_lesson.len() > 0 {
        "经验："@ + e.experience_lesson + "\n"@
    } else {
        Seq::empty()
    };
    assert(head =~= number + "（"@ + label + "）："@ + named);
    assert("）："@ + e.service + " "@ + e.symptom + "\n"@ =~= "）："@ + named);
    lemma_head(number, "（"@, label, "）："@, named);
    lemma_pieces(head, symptom, cause, path, lesson, "\n"@);
    lemma_longer(head, symptom + cause + path + lesson + "\n"@, number + "（"@);
    lemma_longer(head, symptom + cause + path + lesson + "\n"@, "（"@ + label + "）："@);
    lemma_longer(head, symptom + cause + path + lesson + "\n"@, "）："@ + named);
    assert(experience_text(e, i) =~= head + (symptom + cause + path + lesson + "\n"@));
}

proof fn lemma_head(
    number: Seq<char>,
    left: Seq<char>,
    label: Seq<char>,
    right: Seq<char>,
    named: Seq<char>,
)
    ensures
        ({
            let t = number + left + label + right + named;
            &&& chars::starts_with(t, number + left)
            &&& chars::contains(t, left + label + right)
            &&& chars::contains(t, right + named)
        }),
{
    let t = number + left + label + right + named;
    assert(t =~= (number + left) + (label + right + named));
    lemma_front(number + left, label + right + named);
    assert(t =~= number + (left + label + right) + named);
    lemma_middle(number, left + label + right, named);
    assert(t =~= (number + left + label) + (right + named) + Seq::<char>::empty());
    lemma_middle(number + left + label, right + named, Seq::empty());
}

proof fn lemma_longer(a: Seq<char>, b: Seq<char>, p: Seq<char>)
    ensures
        chars::contains(a, p) ==> chars::contains(a + b, p),
        chars::starts_with(a, p) ==> chars::starts_with(a + b, p),
{
    if chars::contains(a, p) {
        let i = choose|i: int| chars::occurs_at(a, p, i);
        assert((a + b).subrange(i, i + p.len()) =~= a.subrange(i, i + p.len()));
        assert(chars::occurs_at(a + b, p, i));
    }
    if chars::starts_with(a, p) {
        assert((a + b).subrange(0, p.len() as int) =~= a.subrange(0, p.len() as int));
    }
}

proof fn lemma_pieces(
    h: Seq<char>,
    s: Seq<char>,
    c: Seq<char>,
    p: Seq<char>,
    l: Seq<char>,
    n: Seq<char>,
)
    ensures
        ({
            let t = h + s + c + p + l + n;
            &&& chars::contains(t, s)
            &&& chars::contains(t, c)
            &&& chars::contains(t, p)
            &&& chars::contains(t, l)
            &&& chars::ends_with(t, n)
        }),
{
    let t = h + s + c + p + l + n;
    assert(t =~= h + s + (c + p + l + n));
    lemma_middle(h, s, c + p + l + n);
    assert(t =~= (h + s) + c + (p + l + n));
    lemma_middle(h + s, c, p + l + n);
    assert(t =~= (h + s + c) + p + (l + n));
    lemma_middle(h + s + c, p, l + n);
    lemma_middle(h + s + c + p, l, n);
    lemma_front(h + s + c + p + l, n);
}

/// Experiences go before history, and history before a plain message.
pub proof fn law_experiences_go_before_history(
    message: Seq<char>,
    override_text: Option<Seq<char>>,
    session_id: Seq<char>,
    es: Seq<ExperienceModel>,
    history: Option<Seq<char>>,
    h: Seq<char>,
)
    ensures
        es.len() > 0 ==> chosen_prompt(message, override_text, session_id, Some(es), history)
            == experiences_prompt(message, override_text, session_id, es),
        chosen_prompt(message, override_text, session_id, Some(Seq::empty()), history)
            == chosen_prompt(message, override_text, session_id, None, history),
        chosen_prompt(message, override_text, session_id, None, Some(h)) == history_prompt(
            message,
            override_text,
            session_id,
            h,
        ),
        chosen_prompt(message, override_text, session_id, None, None) == plain_prompt(
            message,
            override_text,
            session_id,
        ),
{
}

/// To resume a session adds its flag and its id at the end of the arguments, and changes
/// nothing else. An agent never asks for permissions, and answers in JSON.
pub proof fn law_resuming_adds_the_session(provider: Seq<char>, flag: Seq<char>, id: Seq<char>)
    ensures
        agent_args(provider, Some((flag, id))) == agent_args(provider, None) + seq![flag, id],
        agent_args(provider, None).last() == "--dangerously-skip-permissions"@,
        provider == "codeagentcli"@ ==> agent_args(provider, None)[0] == "-p"@ && agent_args(
            provider,
            None,
        )[2] == "stream-json"@,
        provider != "codeagentcli"@ ==> agent_args(provider, None)[0] == "run"@ && agent_args(
            provider,
            None,
        )[2] == "json"@,
{
    assert(agent_args(provider, Some((flag, id))) =~= agent_args(provider, None) + seq![flag, id]);
}

proof fn lemma_advertised(help: Seq<char>, flags: Seq<Seq<char>>, i: int)
    requires
        0 <= i,
    ensures
        match advertised(help, flags, i) {
            Some(f) => exists|k: int|
                i <= k < flags.len() && #[trigger] flags[k] == f && chars::contains(help, f)
                    && forall|j: int| i <= j < k ==> !chars::contains(help, #[trigger] flags[j]),
            None => forall|j: int|
                i <= j < flags.len() ==> !chars::contains(help, #[trigger] flags[j]),
        },
    decreases flags.len() - i,
{
    if i < flags.len() {
        if chars::contains(help, flags[i]) {
            assert(flags[i] == advertised(help, flags, i)->0);
        } else {
            lemma_advertised(help, flags, i + 1);
            if advertised(help, flags, i + 1) is Some {
                let f = advertised(help, flags, i + 1)->0;
                let k = choose|k: int|
                    i + 1 <= k < flags.len() && #[trigger] flags[k] == f && chars::contains(help, f)
                        && forall|j: int|
                        i + 1 <= j < k ==> !chars::contains(help, #[trigger] flags[j]);
                assert(flags[k] == f);
            }
        }
    }
}

/// The first flag is picked that the help text mentions; none is just where it mentions none.
pub proof fn law_first_mentioned_flag_is_picked(help: Seq<char>, flags: Seq<Seq<char>>)
    ensures
        match advertised(help, flags, 0) {
            Some(f) => exists|k: int|
                0 <= k < flags.len() && #[trigger] flags[k] == f && chars::contains(help, f)
                    && forall|j: int| 0 <= j < k ==> !chars::contains(help, #[trigger] flags[j]),
            None => forall|j: int|
                0 <= j < flags.len() ==> !chars::contains(help, #[trigger] flags[j]),
        },
{
    lemma_advertised(help, flags, 0);
}

/// A session of codeagentcli is resumed with the flag that its help text mentions, of two the
/// one preferred; without a help text, or with one that mentions neither, with the one
/// preferred. Any other agent has one flag, whatever its help text says.
pub proof fn law_flag_that_resumes(help: Seq<char>, provider: Seq<char>, preferred: Seq<char>)
    ensures
        provider != "codeagentcli"@ ==> resolved_flag(provider, preferred, Some(help)) == preferred,
        resolved_flag(provider, preferred, None) == preferred,
        chars::contains(help, preferred) ==> resolved_flag(provider, preferred, Some(help))
            == preferred,
        provider == "codeagentcli"@ && !chars::contains(help, "--sessions"@) && chars::contains(
            help,
            "--session-id"@,
        ) ==> resolved_flag(provider, "--sessions"@, Some(help)) == "--session-id"@,
        !chars::contains(help, "--sessions"@) && !chars::contains(help, "--session-id"@)
            && !chars::contains(help, preferred) ==> resolved_flag(provider, preferred, Some(help))
            == preferred,
        session_flag("codeagentcli"@) == "--sessions"@,
        provider != "codeagentcli"@ ==> session_flag(provider) == "--session"@,
{
    let c = flag_candidates(preferred);
    lemma_advertised(help, c, 0);
    assert(c[0] == preferred);
    let d = flag_candidates("--sessions"@);
    lemma_advertised(help, d, 0);
    assert(d[1] == "--session-id"@);
}

/// On Windows the first native program that is there is started in place of the shim; a path
/// that names a program, and any path elsewhere, is started as it is.
pub proof fn law_native_program_is_started(path: Seq<char>, p: Platform, present: Seq<bool>)
    ensures
        p != Platform::Windows ==> native_exe(path, p, present) == path,
        chars::ends_with(file_part(path, p), ".exe"@) && file_part(path, p).len() > 4
            ==> native_exe(path, p, present) == path,
        (forall|i: int| 0 <= i < present.len() ==> !#[trigger] present[i]) ==> native_exe(
            path,
            p,
            present,
        ) == path,
        forall|i: int|
            #![trigger present[i]]
            p == Platform::Windows && file_part(path, p).len() > 0 && !chars::ends_with(
                file_part(path, p),
                ".exe"@,
            ) && 0 <= i < 3 && i < present.len() && present[i] && (forall|j: int|
                0 <= j < i ==> !#[trigger] present[j]) ==> native_exe(path, p, present)
                == native_of(path, i, p),
{
    assert forall|i: int|
        #![trigger present[i]]
        p == Platform::Windows && file_part(path, p).len() > 0 && !chars::ends_with(
            file_part(path, p),
            ".exe"@,
        ) && 0 <= i < 3 && i < present.len() && present[i] && (forall|j: int|
            0 <= j < i ==> !#[trigger] present[j]) implies native_exe(path, p, present)
        == native_of(path, i, p) by {
        if i > 0 {
            assert(!present[0]);
        }
        if i > 1 {
            assert(!present[1]);
        }
    }
}

/// Only codeagentcli is started at its own path; for any other agent the program behind the
/// path is looked for.
pub proof fn law_program_of_an_agent(a: ActiveAgent, p: Platform)
    ensures
        a.provider@ == "codeagentcli"@ ==> agent_exe(a, p) == a.path@,
        a.provider@ != "codeagentcli"@ ==> agent_exe(a, p) == native_exe(
            a.path@,
            p,
            a.native_present@,
        ),
{
}

/// The arguments of the two kinds of agents, word for word.
pub proof fn law_arguments_word_for_word(provider: Seq<char>)
    ensures
        agent_args("codeagentcli"@, None) == seq![
            "-p"@,
            "--output-format"@,
            "stream-json"@,
            "--verbose"@,
            "--skip-safe-check"@,
            "--dangerously-skip-permissions"@,
        ],
        provider != "codeagentcli"@ ==> agent_args(provider, None) == seq![
            "run"@,
            "--format"@,
            "json"@,
            "--dangerously-skip-permissions"@,
        ],
{
    assert(agent_args("codeagentcli"@, None) =~= seq![
        "-p"@,
        "--output-format"@,
        "stream-json"@,
        "--verbose"@,
        "--skip-safe-check"@,
        "--dangerously-skip-permissions"@,
    ]);
    if provider != "codeagentcli"@ {
        assert(agent_args(provider, None) =~= seq![
            "run"@,
            "--format"@,
            "json"@,
            "--dangerously-skip-permissions"@,
        ]);
    }
}

/// An agent is started just where one is active and its program is there: with that program,
/// with the session that it is to resume at the end of its arguments, and with the prompt.
pub proof fn law_agents_that_are_started(
    r: Result<SpawnPlan, SpawnError>,
    agent: Option<ActiveAgent>,
    p: Platform,
    resume: Option<(Seq<char>, Seq<char>)>,
    text: Seq<char>,
)
    requires
        is_plan(r, agent, p, resume, text),
    ensures
        r is Ok <==> agent is Some && agent->0.exists,
        agent is None <==> r is Err && r->Err_0 is NoActiveAgent,
        r matches Err(SpawnError::BinaryMissing { path }) ==> agent is Some && path@
            == agent->0.path@,
        r matches Ok(plan) ==> plan.exe@ == agent_exe(agent->0, p) && plan.prompt@ == text,
        r matches Ok(plan) ==> (resume is None ==> plan.args.deep_view().last()
            == "--dangerously-skip-permissions"@),
        r matches Ok(plan) ==> (resume matches Some((flag, id)) ==> plan.args.deep_view().last()
            == id && plan.args.deep_view()[plan.args.deep_view().len() - 2] == flag),
{
}

/// An agent that starts afresh is told what was said, where that can be read.
pub proof fn law_what_was_said_is_told(m: Option<&[MessageRow]>, id: Seq<char>)
    ensures
        m is None ==> told_history(m, id) is None,
        m is Some ==> told_history(m, id) == recent_history(messages(m->0@), id),
{
}

/// The three native programs that are tried are those for x64, for x64 without newer
/// instructions, and for arm64, in this order.
pub proof fn law_native_programs()
    ensures
        chars::contains(native_name(0), "opencode-windows-x64\\bin\\opencode.exe"@),
        chars::contains(native_name(1), "opencode-windows-x64-baseline\\bin\\opencode.exe"@),
        chars::contains(native_name(2), "opencode-windows-arm64\\bin\\opencode.exe"@),
{
    reveal_strlit("node_modules\\opencode-ai\\node_modules\\opencode-windows-x64\\bin\\opencode.exe");
    reveal_strlit(
        "node_modules\\opencode-ai\\node_modules\\opencode-windows-x64-baseline\\bin\\opencode.exe",
    );
    reveal_strlit("node_modules\\opencode-ai\\node_modules\\opencode-windows-arm64\\bin\\opencode.exe");
    reveal_strlit("opencode-windows-x64\\bin\\opencode.exe");
    reveal_strlit("opencode-windows-x64-baseline\\bin\\opencode.exe");
    reveal_strlit("opencode-windows-arm64\\bin\\opencode.exe");
    let a = native_name(0);
    let b = native_name(1);
    let c = native_name(2);
    assert(a.subrange(38, a.len() as int) =~= "opencode-windows-x64\\bin\\opencode.exe"@);
    assert(chars::occurs_at(a, "opencode-windows-x64\\bin\\opencode.exe"@, 38));
    assert(b.subrange(38, b.len() as int) =~= "opencode-windows-x64-baseline\\bin\\opencode.exe"@);
    assert(chars::occurs_at(b, "opencode-windows-x64-baseline\\bin\\opencode.exe"@, 38));
    assert(c.subrange(38, c.len() as int) =~= "opencode-windows-arm64\\bin\\opencode.exe"@);
    assert(chars::occurs_at(c, "opencode-windows-arm64\\bin\\opencode.exe"@, 38));
}

} // verus!
