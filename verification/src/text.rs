//! Executable operations on text, each proved equal to its model in `crate::chars`.

use crate::chars;
use vstd::prelude::*;

verus! {

/// `String::push` appends the character at the end of the string.
pub assume_specification[ String::push ](s: &mut String, c: char)
    ensures
        final(s)@ == old(s)@.push(c),
;

/// A text of its own with the same characters.
pub fn owned(s: &str) -> (r: String)
    ensures
        r@ == s@,
{
    String::from_str(s)
}

/// The text inside, borrowed.
pub fn as_deref<'a>(o: &'a Option<String>) -> (r: Option<&'a str>)
    ensures
        r.deep_view() == o.deep_view(),
{
    match o {
        Some(s) => Some(s.as_str()),
        None => None,
    }
}

/// The text inside, as a text of its own.
pub fn to_owned_opt(o: Option<&str>) -> (r: Option<String>)
    ensures
        r.deep_view() == o.deep_view(),
{
    match o {
        Some(s) => Some(owned(s)),
        None => None,
    }
}

/// A copy of an optional text.
pub fn clone_opt(o: &Option<String>) -> (r: Option<String>)
    ensures
        r == *o,
{
    match o {
        Some(s) => Some(s.clone()),
        None => None,
    }
}

/// The characters of a text.
pub fn to_chars(s: &str) -> (v: Vec<char>)
    ensures
        v@ == s@,
{
    let mut v: Vec<char> = Vec::new();
    for c in it: s.chars()
        invariant
            v@ == it.seq().take(it.index() as int),
            it.seq() == s@,
    {
        v.push(c);
    }
    v
}

/// The text with the characters from `from` up to `to`.
pub fn from_chars(v: &Vec<char>, from: usize, to: usize) -> (s: String)
    requires
        from <= to <= v@.len(),
    ensures
        s@ == v@.subrange(from as int, to as int),
{
    let mut s = String::new();
    let mut i: usize = from;
    while i < to
        invariant
            from <= i <= to <= v@.len(),
            s@ == v@.subrange(from as int, i as int),
        decreases to - i,
    {
        s.push(v[i]);
        i = i + 1;
        assert(s@ =~= v@.subrange(from as int, i as int));
    }
    s
}

/// Whether two texts are the same.
pub fn same(a: &str, b: &str) -> (r: bool)
    ensures
        r == (a@ == b@),
{
    let x = to_chars(a);
    let y = to_chars(b);
    if x.len() != y.len() {
        return false;
    }
    let mut i: usize = 0;
    while i < x.len()
        invariant
            i <= x@.len(),
            x@.len() == y@.len(),
            x@ == a@,
            y@ == b@,
            forall|j: int| 0 <= j < i ==> x@[j] == y@[j],
        decreases x@.len() - i,
    {
        if x[i] != y[i] {
            return false;
        }
        i = i + 1;
    }
    assert(a@ =~= b@);
    true
}

pub fn is_white(c: char) -> (r: bool)
    ensures
        r == chars::is_white(c),
{
    (c >= '\u{9}' && c <= '\u{d}') || c == ' ' || c == '\u{85}' || c == '\u{a0}' || c == '\u{1680}'
        || (c >= '\u{2000}' && c <= '\u{200a}') || c == '\u{2028}' || c == '\u{2029}' || c
        == '\u{202f}' || c == '\u{205f}' || c == '\u{3000}'
}

pub fn is_digit(c: char) -> (r: bool)
    ensures
        r == chars::is_digit(c),
{
    c >= '0' && c <= '9'
}

pub fn is_hex(c: char) -> (r: bool)
    ensures
        r == chars::is_hex(c),
{
    (c >= '0' && c <= '9') || (c >= 'a' && c <= 'f') || (c >= 'A' && c <= 'F')
}

pub fn all_digits(s: &str) -> (r: bool)
    ensures
        r == chars::all_digits(s@),
{
    let v = to_chars(s);
    let mut i: usize = 0;
    while i < v.len()
        invariant
            i <= v@.len(),
            v@ == s@,
            forall|j: int| 0 <= j < i ==> chars::is_digit(#[trigger] s@[j]),
        decreases v@.len() - i,
    {
        if !is_digit(v[i]) {
            return false;
        }
        i = i + 1;
    }
    true
}

pub fn all_hex(s: &str) -> (r: bool)
    ensures
        r == chars::all_hex(s@),
{
    let v = to_chars(s);
    let mut i: usize = 0;
    while i < v.len()
        invariant
            i <= v@.len(),
            v@ == s@,
            forall|j: int| 0 <= j < i ==> chars::is_hex(#[trigger] s@[j]),
        decreases v@.len() - i,
    {
        if !is_hex(v[i]) {
            return false;
        }
        i = i + 1;
    }
    true
}

/// Where the text starts, white space at its front left out.
fn start_of(v: &Vec<char>) -> (lo: usize)
    ensures
        lo <= v@.len(),
        chars::trim_start(v@) == v@.subrange(lo as int, v@.len() as int),
        lo < v@.len() ==> !chars::is_white(v@[lo as int]),
{
    let mut lo: usize = 0;
    assert(v@.subrange(0, v@.len() as int) =~= v@);
    while lo < v.len() && is_white(v[lo])
        invariant
            lo <= v@.len(),
            chars::trim_start(v@) == chars::trim_start(v@.subrange(lo as int, v@.len() as int)),
        decreases v@.len() - lo,
    {
        proof {
            let rest = v@.subrange(lo as int, v@.len() as int);
            assert(rest.drop_first() =~= v@.subrange(lo as int + 1, v@.len() as int));
        }
        lo = lo + 1;
    }
    lo
}

/// Where the part of the text from `lo` on ends, white space at its end left out.
fn end_of(v: &Vec<char>, lo: usize) -> (hi: usize)
    requires
        lo <= v@.len(),
    ensures
        lo <= hi <= v@.len(),
        chars::trim_end(v@.subrange(lo as int, v@.len() as int)) == v@.subrange(
            lo as int,
            hi as int,
        ),
{
    let mut hi: usize = v.len();
    while hi > lo && is_white(v[hi - 1])
        invariant
            lo <= hi <= v@.len(),
            chars::trim_end(v@.subrange(lo as int, v@.len() as int)) == chars::trim_end(
                v@.subrange(lo as int, hi as int),
            ),
        decreases hi,
    {
        proof {
            let part = v@.subrange(lo as int, hi as int);
            assert(part.drop_last() =~= v@.subrange(lo as int, hi - 1));
        }
        hi = hi - 1;
    }
    hi
}

/// The text without white space at its ends.
pub fn trim<'a>(s: &'a str) -> (r: &'a str)
    ensures
        r@ == chars::trim(s@),
{
    let v = to_chars(s);
    let lo = start_of(&v);
    let hi = end_of(&v, lo);
    s.substring_char(lo, hi)
}

/// The text without white space at its front.
pub fn trim_start<'a>(s: &'a str) -> (r: &'a str)
    ensures
        r@ == chars::trim_start(s@),
{
    let v = to_chars(s);
    let lo = start_of(&v);
    s.substring_char(lo, v.len())
}

/// The text without white space at its end.
pub fn trim_end<'a>(s: &'a str) -> (r: &'a str)
    ensures
        r@ == chars::trim_end(s@),
{
    let v = to_chars(s);
    let hi = end_of(&v, 0);
    assert(v@.subrange(0, v@.len() as int) =~= v@);
    s.substring_char(0, hi)
}

/// Whether there is nothing but white space.
pub fn is_blank(s: &str) -> (r: bool)
    ensures
        r == chars::is_blank(s@),
{
    trim(s).is_empty()
}

/// The text without the copies of `c` at its end.
pub fn trim_end_char<'a>(s: &'a str, c: char) -> (r: &'a str)
    ensures
        r@ == chars::trim_end_char(s@, c),
{
    let v = to_chars(s);
    let mut hi: usize = v.len();
    assert(v@.subrange(0, hi as int) =~= s@);
    while hi > 0 && v[hi - 1] == c
        invariant
            hi <= v@.len(),
            v@ == s@,
            chars::trim_end_char(s@, c) == chars::trim_end_char(v@.subrange(0, hi as int), c),
        decreases hi,
    {
        proof {
            let part = v@.subrange(0, hi as int);
            assert(part.drop_last() =~= v@.subrange(0, hi - 1));
        }
        hi = hi - 1;
    }
    s.substring_char(0, hi)
}

/// Whether `p` stands in `v` at `i`.
fn occurs_at(v: &Vec<char>, p: &Vec<char>, i: usize) -> (r: bool)
    ensures
        r == chars::occurs_at(v@, p@, i as int),
{
    if i > v.len() || p.len() > v.len() - i {
        return false;
    }
    let mut j: usize = 0;
    while j < p.len()
        invariant
            j <= p@.len(),
            i + p@.len() <= v@.len() <= usize::MAX,
            forall|k: int| 0 <= k < j ==> v@[i + k] == p@[k],
        decreases p@.len() - j,
    {
        if v[i + j] != p[j] {
            assert(v@.subrange(i as int, i + p@.len())[j as int] != p@[j as int]);
            return false;
        }
        j = j + 1;
    }
    assert(v@.subrange(i as int, i + p@.len()) =~= p@);
    true
}

pub fn starts_with(s: &str, p: &str) -> (r: bool)
    ensures
        r == chars::starts_with(s@, p@),
{
    occurs_at(&to_chars(s), &to_chars(p), 0)
}

pub fn ends_with(s: &str, p: &str) -> (r: bool)
    ensures
        r == chars::ends_with(s@, p@),
{
    let v = to_chars(s);
    let q = to_chars(p);
    if q.len() > v.len() {
        return false;
    }
    assert(v@.len() - q@.len() + q@.len() == v@.len());
    occurs_at(&v, &q, v.len() - q.len())
}

/// The rest of the text behind the front part `p`, where it starts with `p`.
pub fn strip_prefix<'a>(s: &'a str, p: &str) -> (r: Option<&'a str>)
    ensures
        r is Some == chars::starts_with(s@, p@),
        r is Some ==> r->0@ == s@.subrange(p@.len() as int, s@.len() as int),
{
    let v = to_chars(s);
    let q = to_chars(p);
    if occurs_at(&v, &q, 0) {
        Some(s.substring_char(q.len(), v.len()))
    } else {
        None
    }
}

/// The first position of `p` in the text.
pub fn find(s: &str, p: &str) -> (r: Option<usize>)
    ensures
        match r {
            Some(i) => chars::find(s@, p@) == Some(i as int),
            None => chars::find(s@, p@) is None,
        },
        r is Some ==> r->0 + p@.len() <= s@.len(),
        r is Some == chars::contains(s@, p@),
{
    let v = to_chars(s);
    let q = to_chars(p);
    if q.len() > v.len() {
        return None;
    }
    let end: usize = v.len() - q.len();
    let mut i: usize = 0;
    while i < end
        invariant
            i <= end,
            end == v@.len() - q@.len(),
            v@ == s@,
            q@ == p@,
            chars::find(s@, p@) == chars::find_from(s@, p@, i as int),
            forall|j: int| 0 <= j < i ==> !chars::occurs_at(s@, p@, j),
        decreases end - i,
    {
        if occurs_at(&v, &q, i) {
            return Some(i);
        }
        i = i + 1;
    }
    if occurs_at(&v, &q, end) {
        Some(end)
    } else {
        assert(chars::find_from(s@, p@, end + 1) is None);
        None
    }
}

pub fn contains(s: &str, p: &str) -> (r: bool)
    ensures
        r == chars::contains(s@, p@),
{
    find(s, p).is_some()
}

/// The first position of the character `c`, from `from` on.
pub fn find_char_from(v: &Vec<char>, c: char, from: usize) -> (r: Option<usize>)
    ensures
        match r {
            Some(i) => chars::find_char_from(v@, c, from as int) == Some(i as int) && from <= i
                < v@.len() && v@[i as int] == c,
            None => chars::find_char_from(v@, c, from as int) is None,
        },
{
    let mut i: usize = from;
    while i < v.len()
        invariant
            from <= i,
            chars::find_char_from(v@, c, from as int) == chars::find_char_from(v@, c, i as int),
        decreases v@.len() - i,
    {
        if v[i] == c {
            return Some(i);
        }
        i = i + 1;
    }
    None
}

pub fn contains_char(s: &str, c: char) -> (r: bool)
    ensures
        r == s@.contains(c),
{
    let v = to_chars(s);
    let mut i: usize = 0;
    while i < v.len()
        invariant
            i <= v@.len(),
            v@ == s@,
            forall|j: int| 0 <= j < i ==> s@[j] != c,
        decreases v@.len() - i,
    {
        if v[i] == c {
            assert(s@[i as int] == c);
            return true;
        }
        i = i + 1;
    }
    false
}

/// What stands before the first `c` and what stands behind it.
pub fn split_once<'a>(s: &'a str, c: char) -> (r: Option<(&'a str, &'a str)>)
    ensures
        match r {
            Some(p) => chars::split_once(s@, c) == Some((p.0@, p.1@)),
            None => chars::split_once(s@, c) is None,
        },
{
    let v = to_chars(s);
    let n: usize = v.len();
    match find_char_from(&v, c, 0) {
        Some(i) => Some((s.substring_char(0, i), s.substring_char(i + 1, n))),
        None => None,
    }
}

/// The pieces between the copies of `c`.
pub fn split(s: &str, c: char) -> (r: Vec<String>)
    ensures
        r.deep_view() == chars::split(s@, c),
        r@.len() > 0,
{
    let v = to_chars(s);
    let mut parts: Vec<String> = Vec::new();
    let mut piece = String::new();
    let mut i: usize = 0;
    proof {
        assert(s@.take(0) =~= Seq::<char>::empty());
        assert(parts.deep_view().push(piece@) =~= seq![Seq::<char>::empty()]);
    }
    while i < v.len()
        invariant
            i <= v@.len(),
            v@ == s@,
            parts.deep_view().push(piece@) == chars::split(s@.take(i as int), c),
        decreases v@.len() - i,
    {
        let ghost before = parts.deep_view().push(piece@);
        proof {
            assert(s@.take(i + 1).drop_last() =~= s@.take(i as int));
            assert(before.drop_last() =~= parts.deep_view());
        }
        if v[i] == c {
            parts.push(piece);
            piece = String::new();
            assert(parts.deep_view() =~= before);
        } else {
            piece.push(v[i]);
        }
        i = i + 1;
        assert(parts.deep_view().push(piece@) =~= chars::split(s@.take(i as int), c));
    }
    assert(s@.take(i as int) =~= s@);
    let ghost front = parts.deep_view();
    let ghost tail = piece@;
    parts.push(piece);
    assert(parts.deep_view() =~= front.push(tail));
    parts
}

/// The lines, without their line ends.
pub fn lines(s: &str) -> (r: Vec<String>)
    ensures
        r.deep_view() == chars::lines(s@),
{
    let parts = split(s, '\n');
    let ghost model = chars::split(s@, '\n');
    let n: usize = parts.len() - 1;
    let mut out: Vec<String> = Vec::new();
    let mut i: usize = 0;
    while i < n
        invariant
            i <= n,
            n == parts@.len() - 1,
            parts.deep_view() == model,
            out.deep_view() == Seq::new(i as nat, |j: int| chars::strip_cr(model[j])),
        decreases n - i,
    {
        assert(model[i as int] == parts@[i as int]@);
        let v = to_chars(parts[i].as_str());
        let m: usize = v.len();
        let line = if m > 0 && v[m - 1] == '\r' {
            from_chars(&v, 0, m - 1)
        } else {
            from_chars(&v, 0, m)
        };
        proof {
            assert(v@.subrange(0, m as int) =~= v@);
            if m > 0 {
                assert(v@.subrange(0, m - 1) =~= v@.drop_last());
            }
        }
        let ghost front = out.deep_view();
        let ghost last = line@;
        out.push(line);
        i = i + 1;
        assert(out.deep_view() =~= front.push(last));
        assert(out.deep_view() =~= Seq::new(i as nat, |j: int| chars::strip_cr(model[j])));
    }
    assert(model.last() == parts@[n as int]@);
    if !parts[n].as_str().is_empty() {
        let ghost front = out.deep_view();
        out.push(parts[n].clone());
        assert(out.deep_view() =~= front.push(model.last()));
    }
    out
}

/// The texts one behind the other, with `sep` between neighbours.
pub fn join(parts: &Vec<String>, sep: &str) -> (r: String)
    ensures
        r@ == chars::join(parts.deep_view(), sep@),
{
    let mut out = String::new();
    let ghost model = parts.deep_view();
    let mut i: usize = 0;
    assert(model.take(0) =~= Seq::<Seq<char>>::empty());
    while i < parts.len()
        invariant
            i <= parts@.len(),
            model == parts.deep_view(),
            out@ == chars::join(model.take(i as int), sep@),
        decreases parts@.len() - i,
    {
        proof {
            assert(model.take(i + 1).drop_last() =~= model.take(i as int));
            assert(model[i as int] == parts@[i as int]@);
        }
        if i > 0 {
            out.append(sep);
        }
        out.append(parts[i].as_str());
        proof {
            if i == 0 {
                assert(out@ =~= parts@[0]@);
            }
        }
        i = i + 1;
    }
    assert(model.take(i as int) =~= model);
    out
}

/// The text with every `c` replaced by `with`.
pub fn replace_char(s: &str, c: char, with: &str) -> (r: String)
    ensures
        r@ == chars::replace_char(s@, c, with@),
{
    let v = to_chars(s);
    let mut out = String::new();
    let mut i: usize = 0;
    assert(s@.take(0) =~= Seq::<char>::empty());
    while i < v.len()
        invariant
            i <= v@.len(),
            v@ == s@,
            out@ == chars::replace_char(s@.take(i as int), c, with@),
        decreases v@.len() - i,
    {
        assert(s@.take(i + 1).drop_last() =~= s@.take(i as int));
        if v[i] == c {
            out.append(with);
        } else {
            out.push(v[i]);
        }
        i = i + 1;
    }
    assert(s@.take(i as int) =~= s@);
    out
}

pub fn lower_ascii(c: char) -> (r: char)
    ensures
        r == chars::lower_ascii(c),
{
    if c >= 'A' && c <= 'Z' {
        ((c as u32 + 32) as u8) as char
    } else {
        c
    }
}

/// The text with its upper case ASCII letters made lower case.
pub fn to_lower_ascii(s: &str) -> (r: String)
    ensures
        r@ == chars::to_lower_ascii(s@),
{
    let v = to_chars(s);
    let mut out = String::new();
    let mut i: usize = 0;
    while i < v.len()
        invariant
            i <= v@.len(),
            v@ == s@,
            out@ == chars::to_lower_ascii(s@.take(i as int)),
        decreases v@.len() - i,
    {
        out.push(lower_ascii(v[i]));
        i = i + 1;
        assert(out@ =~= chars::to_lower_ascii(s@.take(i as int)));
    }
    assert(s@.take(i as int) =~= s@);
    out
}

/// Whether two texts are the same but for the case of ASCII letters.
pub fn same_ignoring_ascii_case(a: &str, b: &str) -> (r: bool)
    ensures
        r == (chars::to_lower_ascii(a@) == chars::to_lower_ascii(b@)),
{
    same(to_lower_ascii(a).as_str(), to_lower_ascii(b).as_str())
}

/// The decimal notation of a number.
pub fn dec(n: u64) -> (r: String)
    ensures
        r@ == chars::dec(n as nat),
    decreases n,
{
    if n < 10 {
        let mut out = String::new();
        out.push((48u8 + n as u8) as char);
        assert(out@ =~= seq![chars::digit(n as nat)]);
        out
    } else {
        let mut out = dec(n / 10);
        out.push((48u8 + (n % 10) as u8) as char);
        out
    }
}

/// The decimal notation of a number that may be negative.
pub fn dec_signed(n: i64) -> (r: String)
    ensures
        r@ == chars::dec_signed(n as int),
{
    if n >= 0 {
        dec(n as u64)
    } else {
        let mut out = owned("-");
        out.append(dec((-(n as i128)) as u64).as_str());
        proof {
            reveal_strlit("-");
        }
        assert(out@ =~= seq!['-'] + chars::dec((-n) as nat));
        out
    }
}

/// Reading the digits of a decimal notation never exceeds the number they denote.
proof fn lemma_value_of_front(s: Seq<char>, k: int)
    requires
        chars::all_digits(s),
        0 <= k <= s.len(),
    ensures
        chars::value(s.take(k)) <= chars::value(s),
    decreases s.len() - k,
{
    if k < s.len() {
        lemma_value_of_front(s, k + 1);
        assert(s.take(k + 1).drop_last() =~= s.take(k));
        assert(chars::is_digit(s[k]));
        assert(s.take(k + 1).last() == s[k]);
    } else {
        assert(s.take(k) =~= s);
    }
}

/// A row of decimal digits, after an optional `+`, as a number up to `max`.
pub fn parse_dec(s: &str, max: u64) -> (r: Option<u64>)
    ensures
        match r {
            Some(n) => chars::parse_dec(s@, max as nat) == Some(n as nat),
            None => chars::parse_dec(s@, max as nat) is None,
        },
{
    let whole = to_chars(s);
    let from: usize = if whole.len() > 0 && whole[0] == '+' { 1 } else { 0 };
    let ghost d = s@.subrange(from as int, s@.len() as int);
    proof {
        assert(from == 0 ==> d =~= s@);
        assert(from == 1 ==> d =~= s@.drop_first());
    }
    if whole.len() == from {
        return None;
    }
    let mut acc: u64 = 0;
    let mut i: usize = from;
    assert(d.take(0) =~= Seq::<char>::empty());
    while i < whole.len()
        invariant
            from <= i <= whole@.len(),
            whole@ == s@,
            d == s@.subrange(from as int, s@.len() as int),
            d == (if s@.len() > 0 && s@[0] == '+' { s@.drop_first() } else { s@ }),
            d.len() > 0,
            forall|j: int| 0 <= j < i - from ==> chars::is_digit(#[trigger] d[j]),
            acc == chars::value(d.take(i - from)),
            acc <= max,
        decreases whole@.len() - i,
    {
        let c = whole[i];
        assert(d[i - from] == c);
        if !is_digit(c) {
            return None;
        }
        let x: u64 = (c as u32 - 48) as u64;
        proof {
            assert(d.take(i - from + 1).drop_last() =~= d.take(i - from));
            assert(d.take(i - from + 1).last() == c);
            if chars::all_digits(d) {
                lemma_value_of_front(d, i - from + 1);
            }
        }
        if x > max || acc > max / 10 || acc * 10 > max - x {
            return None;
        }
        acc = acc * 10 + x;
        i = i + 1;
    }
    assert(d.take(i - from) =~= d);
    Some(acc)
}

/// At most the first `n` characters.
pub fn first<'a>(s: &'a str, n: usize) -> (r: &'a str)
    ensures
        r@ == chars::first(s@, n as int),
{
    let len: usize = s.unicode_len();
    if len <= n {
        s
    } else {
        s.substring_char(0, n)
    }
}

/// At most the last `n` characters.
pub fn last<'a>(s: &'a str, n: usize) -> (r: &'a str)
    ensures
        r@ == chars::last(s@, n as int),
{
    let len: usize = s.unicode_len();
    if len <= n {
        s
    } else {
        s.substring_char(len - n, len)
    }
}

/// Whether `a` stands before `b` in the order of their characters.
pub fn less(a: &str, b: &str) -> (r: bool)
    ensures
        r == chars::less(a@, b@),
{
    let x = to_chars(a);
    let y = to_chars(b);
    let mut i: usize = 0;
    assert(a@.skip(0) =~= a@);
    assert(b@.skip(0) =~= b@);
    while i < x.len() && i < y.len()
        invariant
            i <= x@.len(),
            i <= y@.len(),
            x@ == a@,
            y@ == b@,
            chars::less(a@, b@) == chars::less(a@.skip(i as int), b@.skip(i as int)),
        decreases x@.len() - i,
    {
        assert(a@.skip(i as int).drop_first() =~= a@.skip(i + 1));
        assert(b@.skip(i as int).drop_first() =~= b@.skip(i + 1));
        if x[i] != y[i] {
            return x[i] < y[i];
        }
        i = i + 1;
    }
    i < y.len()
}

} // verus!
