//! What an agent that starts afresh is told of the conversation.

use crate::agent::stream::{
    full_history, message_history, part_history, parts_history, position, recent_history,
    truncated, HISTORY_TOTAL_MAX_CHARS,
};
use crate::app::session::{MessageModel, PartModel};
use crate::chars;
use vstd::prelude::*;

verus! {

/// The history only grows at its end: that of the first messages is the front of that of more
/// of them, and what the next message adds follows right behind it.
pub proof fn law_history_grows_at_its_end(ms: Seq<MessageModel>, n: int, m: int)
    requires
        0 <= n <= m <= ms.len(),
    ensures
        chars::starts_with(full_history(ms, m), full_history(ms, n)),
        n < m ==> chars::occurs_at(
            full_history(ms, m),
            message_history(ms[n]),
            full_history(ms, n).len() as int,
        ),
        n == 0 ==> full_history(ms, n).len() == 0,
    decreases m - n,
{
    let a = full_history(ms, n);
    if n == m {
        assert(a.subrange(0, a.len() as int) =~= a);
    } else {
        law_history_grows_at_its_end(ms, n, m - 1);
        let b = full_history(ms, m - 1);
        let c = full_history(ms, m);
        assert(c =~= b + message_history(ms[m - 1]));
        assert(c.subrange(0, a.len() as int) =~= b.subrange(0, a.len() as int));
        let add = message_history(ms[n]);
        if n == m - 1 {
            assert(c.subrange(a.len() as int, (a.len() + add.len()) as int) =~= add);
        } else {
            assert(c.subrange(a.len() as int, (a.len() + add.len()) as int) =~= b.subrange(
                a.len() as int,
                (a.len() + add.len()) as int,
            ));
        }
    }
}

/// In the message of an agent the parts are told in their order, too.
pub proof fn law_parts_are_told_in_order(parts: Seq<PartModel>, n: int, m: int)
    requires
        0 <= n <= m <= parts.len(),
    ensures
        chars::starts_with(parts_history(parts, m), parts_history(parts, n)),
        n < m ==> chars::occurs_at(
            parts_history(parts, m),
            part_history(parts[n]),
            parts_history(parts, n).len() as int,
        ),
        n == 0 ==> parts_history(parts, n).len() == 0,
    decreases m - n,
{
    let a = parts_history(parts, n);
    if n == m {
        assert(a.subrange(0, a.len() as int) =~= a);
    } else {
        law_parts_are_told_in_order(parts, n, m - 1);
        let b = parts_history(parts, m - 1);
        let c = parts_history(parts, m);
        let add = part_history(parts[n]);
        assert(c =~= b + part_history(parts[m - 1]));
        assert(c.subrange(0, a.len() as int) =~= b.subrange(0, a.len() as int));
        if n == m - 1 {
            assert(c.subrange(a.len() as int, (a.len() + add.len()) as int) =~= add);
        } else {
            assert(c.subrange(a.len() as int, (a.len() + add.len()) as int) =~= b.subrange(
                a.len() as int,
                (a.len() + add.len()) as int,
            ));
        }
    }
}

/// Of a conversation that is short enough, every message before the exchange in flight is
/// told, the earlier one before the later one.
pub proof fn law_earlier_message_is_told_first(
    ms: Seq<MessageModel>,
    id: Seq<char>,
    i: int,
    j: int,
)
    requires
        position(ms, id, 0) is Some,
        0 <= i < j < position(ms, id, 0)->0 - 1,
        full_history(ms, position(ms, id, 0)->0 - 1).len() <= HISTORY_TOTAL_MAX_CHARS,
        message_history(ms[i]).len() > 0,
    ensures
        recent_history(ms, id) is Some,
        exists|x: int, y: int|
            x + message_history(ms[i]).len() <= y && #[trigger] chars::occurs_at(
                recent_history(ms, id)->0,
                message_history(ms[i]),
                x,
            ) && #[trigger] chars::occurs_at(
                recent_history(ms, id)->0,
                message_history(ms[j]),
                y,
            ),
{
    lemma_position(ms, id, 0);
    let end = position(ms, id, 0)->0 - 1;
    let all = full_history(ms, end);
    law_history_grows_at_its_end(ms, i, end);
    law_history_grows_at_its_end(ms, j, end);
    law_history_grows_at_its_end(ms, i + 1, j);
    law_history_grows_at_its_end(ms, i, i + 1);
    let x = full_history(ms, i).len() as int;
    let y = full_history(ms, j).len() as int;
    assert(full_history(ms, i + 1) =~= full_history(ms, i) + message_history(ms[i]));
    assert(chars::occurs_at(all, message_history(ms[i]), x));
    assert(chars::occurs_at(all, message_history(ms[j]), y));
    assert(recent_history(ms, id) == Some(all));
    assert(full_history(ms, i + 1).len() <= full_history(ms, j).len());
    assert(x + message_history(ms[i]).len() <= y && chars::occurs_at(
        recent_history(ms, id)->0,
        message_history(ms[i]),
        x,
    ) && chars::occurs_at(recent_history(ms, id)->0, message_history(ms[j]), y));
}

proof fn lemma_position(ms: Seq<MessageModel>, id: Seq<char>, i: int)
    requires
        0 <= i,
    ensures
        position(ms, id, i) matches Some(p) ==> i <= p < ms.len() && ms[p].id == id && forall|k: int|
            i <= k < p ==> (#[trigger] ms[k]).id != id,
        position(ms, id, i) is None ==> forall|k: int|
            i <= k < ms.len() ==> (#[trigger] ms[k]).id != id,
    decreases ms.len() - i,
{
    if i < ms.len() && ms[i].id != id {
        lemma_position(ms, id, i + 1);
    }
}

proof fn lemma_position_is(ms: Seq<MessageModel>, id: Seq<char>, i: int, p: int)
    requires
        0 <= i <= p < ms.len(),
        ms[p].id == id,
        forall|k: int| i <= k < p ==> (#[trigger] ms[k]).id != id,
    ensures
        position(ms, id, i) == Some(p),
    decreases p - i,
{
    if i < p {
        lemma_position_is(ms, id, i + 1, p);
    }
}

proof fn lemma_same_front(a: Seq<MessageModel>, b: Seq<MessageModel>, n: int)
    requires
        n <= a.len(),
        n <= b.len(),
        forall|k: int| 0 <= k < n ==> #[trigger] a[k] == b[k],
    ensures
        full_history(a, n) == full_history(b, n),
    decreases n,
{
    if n > 0 {
        lemma_same_front(a, b, n - 1);
    }
}

/// What is said in the exchange in flight, and behind it, is not part of the history: two
/// conversations that agree on all before it have the same history.
pub proof fn law_exchange_in_flight_is_not_told(
    a: Seq<MessageModel>,
    b: Seq<MessageModel>,
    id: Seq<char>,
    p: int,
)
    requires
        1 <= p < a.len(),
        p < b.len(),
        a[p].id == id,
        b[p].id == id,
        forall|k: int| 0 <= k < p ==> (#[trigger] a[k]).id != id && b[k].id != id,
        forall|k: int| 0 <= k < p - 1 ==> #[trigger] a[k] == b[k],
    ensures
        recent_history(a, id) == recent_history(b, id),
{
    assert forall|k: int| 0 <= k < p implies (#[trigger] b[k]).id != id by {
        assert(a[k].id != id);
    }
    lemma_position_is(a, id, 0, p);
    lemma_position_is(b, id, 0, p);
    lemma_same_front(a, b, p - 1);
}

/// Without a message before the exchange in flight, and for a message that is not there,
/// nothing is told.
pub proof fn law_nothing_to_tell(ms: Seq<MessageModel>, id: Seq<char>)
    ensures
        (forall|k: int| 0 <= k < ms.len() ==> (#[trigger] ms[k]).id != id) ==> recent_history(
            ms,
            id,
        ) is None,
        ms.len() > 0 && ms[0].id == id ==> recent_history(ms, id) is None,
        ms.len() > 1 && ms[1].id == id && ms[0].id != id ==> recent_history(ms, id) is None,
{
    lemma_position(ms, id, 0);
    if ms.len() > 1 && ms[1].id == id && ms[0].id != id {
        lemma_position_is(ms, id, 0, 1);
    }
}

/// Of a conversation that is too long the latest part is kept: the history ends with the last
/// message that is told, and holds no more than its limit and the note that says so.
pub proof fn law_latest_is_kept(ms: Seq<MessageModel>, id: Seq<char>)
    requires
        position(ms, id, 0) is Some,
        position(ms, id, 0)->0 >= 2,
        0 < message_history(ms[position(ms, id, 0)->0 - 2]).len() <= HISTORY_TOTAL_MAX_CHARS,
    ensures
        recent_history(ms, id) is Some,
        chars::ends_with(
            recent_history(ms, id)->0,
            message_history(ms[position(ms, id, 0)->0 - 2]),
        ),
        recent_history(ms, id)->0.len() <= HISTORY_TOTAL_MAX_CHARS + "（更早的对话已省略）\n"@.len(),
{
    lemma_position(ms, id, 0);
    let p = position(ms, id, 0)->0;
    let all = full_history(ms, p - 1);
    let add = message_history(ms[p - 2]);
    assert(all =~= full_history(ms, p - 2) + add);
    let r = recent_history(ms, id)->0;
    assert(r.subrange(r.len() - add.len(), r.len() as int) =~= add);
}

/// A message of the user, or of an agent without parts, is told by its words, behind who said
/// them; a blank one is not told. A longer one is told by its beginning.
pub proof fn law_message_is_told_by_its_words(m: MessageModel, words: Seq<char>)
    requires
        m.content == Some(words),
        m.role == "user"@ || (m.role == "agent"@ && m.parts.len() == 0),
    ensures
        ({
            let max = if m.role == "user"@ {
                2000int
            } else {
                1000int
            };
            let label = if m.role == "user"@ {
                "[用户] "@
            } else {
                "[助手] "@
            };
            if chars::is_blank(words) {
                message_history(m).len() == 0
            } else {
                &&& chars::starts_with(message_history(m), label + chars::first(words, max))
                &&& chars::ends_with(message_history(m), "\n"@)
                &&& words.len() <= max ==> message_history(m) == label + words + "\n"@
            }
        }),
{
    reveal_strlit("user");
    reveal_strlit("agent");
    assert("user"@.len() != "agent"@.len());
    reveal_strlit("\n");
    let max = if m.role == "user"@ {
        2000int
    } else {
        1000int
    };
    let label = if m.role == "user"@ {
        "[用户] "@
    } else {
        "[助手] "@
    };
    let h = message_history(m);
    let f = label + chars::first(words, max);
    if !chars::is_blank(words) {
        assert(h == label + truncated(words, max) + "\n"@);
        assert(h.subrange(0, f.len() as int) =~= f);
        assert(h.subrange(h.len() - 1, h.len() as int) =~= "\n"@);
    }
}

/// The text of an agent is told by its words; of a tool only its name and how it ended are.
pub proof fn law_part_is_told(p: PartModel, words: Seq<char>)
    ensures
        p.part_type == "text"@ && p.text == Some(words) && !chars::is_blank(words) && words.len()
            <= 1000 ==> part_history(p) == "[助手] "@ + words + "\n"@,
        p.part_type == "tool"@ && p.tool_name == Some(words) ==> chars::starts_with(
            part_history(p),
            "[工具] "@ + words + "（"@,
        ),
        p.part_type == "tool"@ && p.tool_status == Some(words) ==> chars::ends_with(
            part_history(p),
            "（"@ + words + "）\n"@,
        ),
        p.part_type == "tool"@ ==> part_history(p)
            == part_history(
            PartModel { text: None, tool_args: None, tool_output: None, ..p },
        ),
        p.part_type != "text"@ && p.part_type != "tool"@ ==> part_history(
            p,
        ).len() == 0,
{
    reveal_strlit("text");
    reveal_strlit("tool");
    assert("text"@[1] != "tool"@[1]);
    reveal_strlit("）");
    reveal_strlit("\n");
    reveal_strlit("）\n");
    let h = part_history(p);
    let f = "[工具] "@ + words + "（"@;
    let g = "（"@ + words + "）\n"@;
    assert("）\n"@ =~= "）"@ + "\n"@);
    if p.part_type == "tool"@ && p.tool_name == Some(words) {
        assert(h.subrange(0, f.len() as int) =~= f);
    }
    if p.part_type == "tool"@ && p.tool_status == Some(words) {
        assert(h.subrange(h.len() - g.len(), h.len() as int) =~= g);
    }
}

/// The message of an agent with parts is told by its parts and nothing else; who is neither
/// the user nor the agent is not told.
pub proof fn law_parts_stand_for_the_message(m: MessageModel)
    ensures
        m.role == "agent"@ && m.parts.len() == 1 ==> message_history(m)
            == part_history(m.parts[0]),
        m.role == "agent"@ && m.parts.len() > 0 ==> message_history(m) == message_history(
            MessageModel { content: None, ..m },
        ),
        m.role != "user"@ && m.role != "agent"@ ==> message_history(m).len() == 0,
{
    reveal_strlit("user");
    reveal_strlit("agent");
    assert("user"@.len() != "agent"@.len());
    if m.parts.len() == 1 {
        assert(parts_history(m.parts, 1) =~= parts_history(m.parts, 0)
            + part_history(m.parts[0]));
    }
}

} // verus!
