//! What is read from JSON values and put into them, and how rows are ordered.

use crate::chars;
use crate::json::{field, field_from, inner, items, natural, place_of, put, string, JsonModel};
use crate::order::{before, is_order, lemma_order_is_complete, precedes, OrderKeyModel};
use vstd::prelude::*;

verus! {

proof fn lemma_field_from(fs: Seq<(Seq<char>, JsonModel)>, name: Seq<char>, i: int)
    requires
        0 <= i,
    ensures
        match field_from(fs, name, i) {
            Some(v) => exists|k: int|
                i <= k < fs.len() && #[trigger] fs[k] == (name, v) && forall|j: int|
                    i <= j < k ==> (#[trigger] fs[j]).0 != name,
            None => forall|j: int| i <= j < fs.len() ==> (#[trigger] fs[j]).0 != name,
        },
    decreases fs.len() - i,
{
    if i < fs.len() {
        if fs[i].0 == name {
            assert(fs[i] == (name, fs[i].1));
        } else {
            lemma_field_from(fs, name, i + 1);
            if field_from(fs, name, i + 1) is Some {
                let v = field_from(fs, name, i + 1)->0;
                let k = choose|k: int|
                    i + 1 <= k < fs.len() && #[trigger] fs[k] == (name, v) && forall|j: int|
                        i + 1 <= j < k ==> (#[trigger] fs[j]).0 != name;
                assert(fs[k] == (name, v));
            }
        }
    }
}

proof fn lemma_place_of(fs: Seq<(Seq<char>, JsonModel)>, name: Seq<char>, i: int)
    requires
        0 <= i,
    ensures
        match place_of(fs, name, i) {
            Some(k) => i <= k < fs.len() && fs[k].0 == name && forall|j: int|
                i <= j < k ==> (#[trigger] fs[j]).0 != name,
            None => forall|j: int| i <= j < fs.len() ==> (#[trigger] fs[j]).0 != name,
        },
    decreases fs.len() - i,
{
    if i < fs.len() && fs[i].0 != name {
        lemma_place_of(fs, name, i + 1);
    }
}

/// A field is the first one with its name; what is no object has none.
pub proof fn law_first_field_counts(j: JsonModel, name: Seq<char>)
    ensures
        !(j is Object) ==> field(j, name) is None,
        j matches JsonModel::Object(fs) ==> match field(j, name) {
            Some(v) => exists|k: int|
                0 <= k < fs.len() && #[trigger] fs[k] == (name, v) && forall|i: int|
                    0 <= i < k ==> (#[trigger] fs[i]).0 != name,
            None => forall|i: int| 0 <= i < fs.len() ==> (#[trigger] fs[i]).0 != name,
        },
        inner(Some(j), name) == field(j, name),
        inner(None, name) is None,
{
    match j {
        JsonModel::Object(fs) => lemma_field_from(fs, name, 0),
        _ => {},
    }
}

proof fn lemma_field_is(fs: Seq<(Seq<char>, JsonModel)>, name: Seq<char>, i: int, k: int)
    requires
        0 <= i <= k < fs.len(),
        fs[k].0 == name,
        forall|j: int| i <= j < k ==> (#[trigger] fs[j]).0 != name,
    ensures
        field_from(fs, name, i) == Some(fs[k].1),
    decreases k - i,
{
    if i < k {
        lemma_field_is(fs, name, i + 1, k);
    }
}

proof fn lemma_other_field(
    fs: Seq<(Seq<char>, JsonModel)>,
    gs: Seq<(Seq<char>, JsonModel)>,
    name: Seq<char>,
    other: Seq<char>,
    i: int,
)
    requires
        0 <= i <= fs.len(),
        other != name,
        fs.len() <= gs.len() <= fs.len() + 1,
        forall|k: int|
            0 <= k < fs.len() ==> gs[k] == #[trigger] fs[k] || (gs[k].0 == name && fs[k].0 == name),
        gs.len() > fs.len() ==> gs.last().0 == name,
    ensures
        field_from(gs, other, i) == field_from(fs, other, i),
    decreases fs.len() - i,
{
    if i < fs.len() {
        assert(gs[i] == fs[i] || (gs[i].0 == name && fs[i].0 == name));
        lemma_other_field(fs, gs, name, other, i + 1);
    } else if i < gs.len() {
        assert(gs[i] == gs.last());
        assert(field_from(gs, other, i + 1) is None);
    }
}

/// A field that is put into an object is read back, and the others are read as before; what
/// is no object stays as it is.
pub proof fn law_field_is_read_back(
    j: JsonModel,
    name: Seq<char>,
    value: JsonModel,
    other: Seq<char>,
)
    ensures
        j is Object ==> field(put(j, name, value), name) == Some(value),
        other != name ==> field(put(j, name, value), other) == field(j, other),
        !(j is Object) ==> put(j, name, value) == j,
        j is Object ==> put(j, name, value) is Object,
{
    match j {
        JsonModel::Object(fs) => {
            lemma_place_of(fs, name, 0);
            let gs = put(j, name, value)->Object_0;
            match place_of(fs, name, 0) {
                Some(k) => {
                    assert forall|i: int| 0 <= i < k implies (#[trigger] gs[i]).0 != name by {
                        assert(gs[i] == fs[i]);
                    }
                    lemma_field_is(gs, name, 0, k);
                },
                None => {
                    assert forall|i: int| 0 <= i < fs.len() implies (#[trigger] gs[i]).0 != name by {
                        assert(gs[i] == fs[i]);
                    }
                    lemma_field_is(gs, name, 0, fs.len() as int);
                },
            }
            if other != name {
                lemma_other_field(fs, gs, name, other, 0);
            }
        },
        _ => {},
    }
}

/// Only a string has characters, only an array has items, and only a row of digits is a
/// natural number.
pub proof fn law_each_kind_gives_its_own(
    s: Seq<char>,
    a: Seq<JsonModel>,
    n: u64,
    v: JsonModel,
)
    ensures
        string(Some(JsonModel::Str(s))) == Some(s),
        !(v is Str) ==> string(Some(v)) is None,
        items(Some(JsonModel::Array(a))) == Some(a),
        !(v is Array) ==> items(Some(v)) is None,
        natural(Some(JsonModel::Number(chars::dec(n as nat)))) == Some(n),
        natural(Some(JsonModel::Number(seq!['-'] + s))) is None,
        !(v is Number) ==> natural(Some(v)) is None,
        string(None) is None && items(None) is None && natural(None) is None,
{
    crate::chars_laws::law_notation_is_read_back(n as nat, u64::MAX as nat);
    let m = seq!['-'] + s;
    if chars::all_digits(m) {
        assert(chars::is_digit(m[0]));
    }
}

/// Rows are ordered by rank, then by text, from the least or from the greatest on; rows that
/// are equal in both stay as they were, and every row has its place.
pub proof fn law_rows_are_in_order(
    keys: Seq<OrderKeyModel>,
    latest_first: bool,
    o: Seq<usize>,
    i: int,
    j: int,
    x: int,
)
    requires
        is_order(keys, latest_first, o),
        0 <= i < j < o.len(),
        0 <= x < keys.len(),
    ensures
        o.len() == keys.len(),
        exists|at: int| 0 <= at < o.len() && #[trigger] o[at] == x,
        ({
            let a = keys[o[i] as int];
            let b = keys[o[j] as int];
            &&& a.rank <= b.rank
            &&& a.rank == b.rank && !latest_first ==> !chars::less(b.text, a.text)
            &&& a.rank == b.rank && latest_first ==> !chars::less(a.text, b.text)
            &&& a == b ==> o[i] < o[j]
        }),
{
    let at = lemma_order_is_complete(keys, latest_first, o, x);
    assert(o[at] == x);
    assert(precedes(keys, latest_first, o[i] as int, o[j] as int));
    chars::lemma_less_total(keys[o[i] as int].text, keys[o[j] as int].text);
}

/// A lower rank comes first whatever the texts are; with the same rank the lesser text does, or
/// the greater one where the latest is to come first. Of two rows at most one is before the
/// other.
pub proof fn law_rank_comes_before_text(a: OrderKeyModel, b: OrderKeyModel)
    ensures
        a.rank < b.rank ==> before(a, b, false) && before(a, b, true) && !before(b, a, false)
            && !before(b, a, true),
        a.rank == b.rank ==> (before(a, b, false) <==> chars::less(a.text, b.text)) && (before(
            a,
            b,
            true,
        ) <==> chars::less(b.text, a.text)),
        a.rank == b.rank ==> before(a, b, true) == before(b, a, false),
{
}

} // verus!
