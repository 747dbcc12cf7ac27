//! Putting rows in order.

use crate::chars;
use crate::text;
use vstd::prelude::*;

verus! {

/// By what a row is ordered: first by its rank, then by a text.
#[derive(Debug)]
pub struct OrderKey {
    pub rank: u64,
    pub text: String,
}

#[verifier::ext_equal]
pub struct OrderKeyModel {
    pub rank: u64,
    pub text: Seq<char>,
}

impl View for OrderKey {
    type V = OrderKeyModel;

    open spec fn view(&self) -> OrderKeyModel {
        OrderKeyModel { rank: self.rank, text: self.text@ }
    }
}

pub open spec fn key_models(keys: Seq<OrderKey>) -> Seq<OrderKeyModel> {
    keys.map_values(|k: OrderKey| k@)
}

/// The row with key `a` stands before the one with key `b`: it has a lower rank, or the
/// same rank and the lesser text (with `latest_first`, the greater one).
pub open spec fn before(a: OrderKeyModel, b: OrderKeyModel, latest_first: bool) -> bool {
    a.rank < b.rank || (a.rank == b.rank && if latest_first {
        chars::less(b.text, a.text)
    } else {
        chars::less(a.text, b.text)
    })
}

/// Row `x` stands before row `y`; rows with equal keys stay as they were.
pub open spec fn precedes(keys: Seq<OrderKeyModel>, latest_first: bool, x: int, y: int) -> bool {
    before(keys[x], keys[y], latest_first) || (!before(keys[y], keys[x], latest_first) && x < y)
}

/// `r` lists each row once, each before those that it precedes.
pub open spec fn is_order(keys: Seq<OrderKeyModel>, latest_first: bool, r: Seq<usize>) -> bool {
    &&& r.len() == keys.len()
    &&& forall|i: int| 0 <= i < r.len() ==> (#[trigger] r[i]) < keys.len()
    &&& forall|i: int, j: int|
        0 <= i < j < r.len() ==> precedes(
            keys,
            latest_first,
            #[trigger] r[i] as int,
            #[trigger] r[j] as int,
        )
}

proof fn lemma_precedes_transitive(
    keys: Seq<OrderKeyModel>,
    latest_first: bool,
    x: int,
    y: int,
    z: int,
)
    requires
        precedes(keys, latest_first, x, y),
        precedes(keys, latest_first, y, z),
    ensures
        precedes(keys, latest_first, x, z),
{
    let a = keys[x].text;
    let b = keys[y].text;
    let c = keys[z].text;
    chars::lemma_less_total(a, b);
    chars::lemma_less_total(b, c);
    chars::lemma_less_total(a, c);
    if chars::less(a, b) && chars::less(b, c) {
        chars::lemma_less_transitive(a, b, c);
    }
    if chars::less(c, b) && chars::less(b, a) {
        chars::lemma_less_transitive(c, b, a);
    }
}

fn is_before(a: &OrderKey, b: &OrderKey, latest_first: bool) -> (r: bool)
    ensures
        r == before(a@, b@, latest_first),
{
    if a.rank != b.rank {
        a.rank < b.rank
    } else if latest_first {
        text::less(b.text.as_str(), a.text.as_str())
    } else {
        text::less(a.text.as_str(), b.text.as_str())
    }
}

/// The rows in order, by their numbers.
pub fn order(keys: &Vec<OrderKey>, latest_first: bool) -> (r: Vec<usize>)
    ensures
        is_order(key_models(keys@), latest_first, r@),
{
    let ghost ks = key_models(keys@);
    let mut out: Vec<usize> = Vec::new();
    let mut n: usize = 0;
    while n < keys.len()
        invariant
            n <= keys@.len(),
            ks == key_models(keys@),
            out@.len() == n,
            forall|i: int| 0 <= i < out@.len() ==> (#[trigger] out@[i]) < n,
            forall|i: int, j: int|
                0 <= i < j < out@.len() ==> precedes(
                    ks,
                    latest_first,
                    #[trigger] out@[i] as int,
                    #[trigger] out@[j] as int,
                ),
        decreases keys@.len() - n,
    {
        let mut p: usize = n;
        while p > 0 && is_before(&keys[n], &keys[out[p - 1]], latest_first)
            invariant
                p <= n < keys@.len(),
                ks == key_models(keys@),
                out@.len() == n,
                forall|i: int| 0 <= i < out@.len() ==> (#[trigger] out@[i]) < n,
                forall|i: int|
                    p <= i < n ==> before(ks[n as int], ks[#[trigger] out@[i] as int], latest_first),
            decreases p,
        {
            assert(ks[out@[p - 1] as int] == keys@[out@[p - 1] as int]@);
            p = p - 1;
        }
        proof {
            let m = n as int;
            assert forall|i: int| 0 <= i < p implies precedes(
                ks,
                latest_first,
                #[trigger] out@[i] as int,
                m,
            ) by {
                let last = out@[p - 1] as int;
                assert(ks[last] == keys@[last]@);
                assert(precedes(ks, latest_first, last, m));
                if i < p - 1 {
                    lemma_precedes_transitive(ks, latest_first, out@[i] as int, last, m);
                }
            }
        }
        let ghost was = out@;
        out.insert(p, n);
        proof {
            assert(out@ =~= was.insert(p as int, n));
            assert forall|i: int, j: int| 0 <= i < j < out@.len() implies precedes(
                ks,
                latest_first,
                #[trigger] out@[i] as int,
                #[trigger] out@[j] as int,
            ) by {
                let a = if i < p { i } else { i - 1 };
                let b = if j < p { j } else { j - 1 };
                if i != p && j != p {
                    assert(out@[i] == was[a] && out@[j] == was[b]);
                } else if i == p {
                    assert(out@[j] == was[b]);
                } else {
                    assert(out@[i] == was[a]);
                }
            }
        }
        n = n + 1;
    }
    out
}

/// Every row has a place in an order.
pub proof fn lemma_order_is_complete(
    keys: Seq<OrderKeyModel>,
    latest_first: bool,
    r: Seq<usize>,
    x: int,
) -> (at: int)
    requires
        is_order(keys, latest_first, r),
        0 <= x < keys.len(),
    ensures
        0 <= at < r.len(),
        r[at] == x,
{
    let places = Seq::new(r.len(), |i: int| r[i] as int);
    let all = vstd::set_lib::set_int_range(0, keys.len() as int);
    assert forall|i: int, j: int| 0 <= i < j < places.len() implies places[i] != places[j] by {
        assert(precedes(keys, latest_first, r[i] as int, r[j] as int));
        chars::lemma_less_total(keys[r[i] as int].text, keys[r[j] as int].text);
    }
    assert(places.no_duplicates());
    places.unique_seq_to_set();
    vstd::set_lib::lemma_int_range(0, keys.len() as int);
    assert(places.to_set().subset_of(all)) by {
        assert forall|v: int| places.to_set().contains(v) implies all.contains(v) by {
            let i = choose|i: int| 0 <= i < places.len() && places[i] == v;
            assert(r[i] < keys.len());
        }
    }
    vstd::seq_lib::seq_to_set_is_finite(places);
    vstd::set_lib::lemma_subset_equality(places.to_set(), all);
    assert(places.to_set().contains(x));
    choose|i: int| 0 <= i < places.len() && places[i] == x
}

} // verus!
