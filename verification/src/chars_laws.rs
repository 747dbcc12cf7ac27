//! What the operations on text do, each told by what holds of its result.

use crate::chars::{
    all_digits, contains, dec, dec_signed, digit, ends_with, find, find_char, find_char_from,
    find_from, first, is_blank, is_digit, is_hex, is_white, join, last, less, lines, lower_ascii,
    occurs_at, parse_dec, replace_char, split, split_once, starts_with, strip_cr, take_while, trim,
    trim_end, trim_end_char, trim_start, value,
};
use vstd::prelude::*;

verus! {

pub open spec fn all_white(s: Seq<char>) -> bool {
    forall|i: int| 0 <= i < s.len() ==> is_white(#[trigger] s[i])
}

proof fn lemma_trim_start(s: Seq<char>) -> (a: Seq<char>)
    ensures
        all_white(a),
        s == a + trim_start(s),
        trim_start(s).len() > 0 ==> !is_white(trim_start(s)[0]),
    decreases s.len(),
{
    if s.len() > 0 && is_white(s[0]) {
        let b = lemma_trim_start(s.drop_first());
        let a = seq![s[0]] + b;
        assert(s =~= seq![s[0]] + s.drop_first());
        assert(s =~= a + trim_start(s));
        a
    } else {
        assert(s =~= Seq::<char>::empty() + s);
        Seq::empty()
    }
}

proof fn lemma_trim_end(s: Seq<char>) -> (b: Seq<char>)
    ensures
        all_white(b),
        s == trim_end(s) + b,
        trim_end(s).len() > 0 ==> !is_white(trim_end(s).last()),
    decreases s.len(),
{
    if s.len() > 0 && is_white(s.last()) {
        let a = lemma_trim_end(s.drop_last());
        let b = a.push(s.last());
        assert(s =~= s.drop_last().push(s.last()));
        assert(s =~= trim_end(s) + b);
        b
    } else {
        assert(s =~= s + Seq::<char>::empty());
        Seq::empty()
    }
}

/// Trimming takes white space off at both ends, and all of it: what is left is empty, or
/// neither starts nor ends with white space.
pub proof fn law_trimming_takes_white_space(s: Seq<char>) -> (r: (Seq<char>, Seq<char>))
    ensures
        all_white(r.0),
        all_white(r.1),
        s == r.0 + trim(s) + r.1,
        trim(s).len() > 0 ==> !is_white(trim(s)[0]) && !is_white(trim(s).last()),
        is_blank(s) <==> all_white(s),
{
    let a = lemma_trim_start(s);
    let b = lemma_trim_end(trim_start(s));
    assert(s =~= a + trim(s) + b);
    let t = trim_start(s);
    if trim(s).len() > 0 {
        assert(trim(s)[0] == t[0]);
        assert(s[a.len() as int] == t[0]);
        assert(!all_white(s));
    } else {
        assert(t =~= b);
        assert(b.len() == 0);
    }
    (a, b)
}

/// White space of ASCII is the blank and the characters from tab to carriage return.
pub proof fn law_white_space_of_ascii(c: char)
    requires
        c < '\u{80}',
    ensures
        is_white(c) <==> c == ' ' || ('\t' <= c && c <= '\r'),
{
}

proof fn lemma_split(s: Seq<char>, c: char)
    ensures
        split(s, c).len() > 0,
        forall|k: int| 0 <= k < split(s, c).len() ==> !(#[trigger] split(s, c)[k]).contains(c),
        join(split(s, c), seq![c]) == s,
    decreases s.len(),
{
    if s.len() == 0 {
        assert(join(split(s, c), seq![c]) =~= s);
    } else {
        let t = s.drop_last();
        lemma_split(t, c);
        let f = split(t, c);
        let r = split(s, c);
        if s.last() == c {
            assert(r.drop_last() =~= f);
            assert(join(r, seq![c]) =~= join(f, seq![c]) + seq![c]);
            assert(s =~= t + seq![c]);
        } else {
            assert(r.drop_last() =~= f.drop_last());
            assert forall|k: int| 0 <= k < r.len() implies !(#[trigger] r[k]).contains(c) by {
                if k < r.len() - 1 {
                    assert(r[k] == f[k]);
                } else {
                    let l = f.last();
                    assert(!f[f.len() - 1].contains(c));
                    assert forall|i: int| 0 <= i < r[k].len() implies r[k][i] != c by {
                        if i < l.len() {
                            assert(l[i] != c) by {
                                if l[i] == c {
                                    assert(l.contains(c));
                                }
                            }
                        }
                    }
                }
            }
            if f.len() == 1 {
                assert(join(f, seq![c]) == f[0]);
                assert(join(r, seq![c]) == r[0]);
                assert(s =~= f[0].push(s.last()));
            } else {
                assert(join(f, seq![c]) =~= join(f.drop_last(), seq![c]) + seq![c] + f.last());
                assert(join(r, seq![c]) =~= join(f.drop_last(), seq![c]) + seq![c]
                    + f.last().push(s.last()));
                let front = join(f.drop_last(), seq![c]) + seq![c];
                assert(t == front + f.last());
                assert(s =~= t.push(s.last()));
                assert((front + f.last()).push(s.last()) =~= front + f.last().push(s.last()));
            }
        }
    }
}

/// Splitting cuts at every copy of the character, and at nothing else: no piece holds it, and
/// the pieces with it between them are the text again.
pub proof fn law_pieces_make_the_text(s: Seq<char>, c: char)
    ensures
        split(s, c).len() > 0,
        forall|k: int| 0 <= k < split(s, c).len() ==> !(#[trigger] split(s, c)[k]).contains(c),
        join(split(s, c), seq![c]) == s,
{
    lemma_split(s, c);
}

/// The pieces of two texts with the character between them are the pieces of the one and
/// then those of the other.
pub proof fn law_splitting_goes_from_left_to_right(a: Seq<char>, b: Seq<char>, c: char)
    ensures
        split(a.push(c) + b, c) == split(a, c) + split(b, c),
        !a.contains(c) ==> split(a, c) == seq![a],
    decreases b.len(),
{
    if !a.contains(c) {
        lemma_unsplit(a, c);
    }
    let s = a.push(c) + b;
    if b.len() == 0 {
        assert(s =~= a.push(c));
        assert(s.drop_last() =~= a);
        assert(split(s, c) =~= split(a, c) + split(b, c));
    } else {
        let t = b.drop_last();
        law_splitting_goes_from_left_to_right(a, t, c);
        lemma_split(t, c);
        assert(s.drop_last() =~= a.push(c) + t);
        assert(s.last() == b.last());
        let f = split(a.push(c) + t, c);
        assert(f.last() == split(t, c).last());
        assert(split(s, c) =~= split(a, c) + split(b, c));
    }
}

proof fn lemma_unsplit(a: Seq<char>, c: char)
    requires
        !a.contains(c),
    ensures
        split(a, c) == seq![a],
    decreases a.len(),
{
    if a.len() == 0 {
        assert(a =~= Seq::<char>::empty());
    } else {
        let t = a.drop_last();
        assert(!t.contains(c)) by {
            if t.contains(c) {
                let i = choose|i: int| 0 <= i < t.len() && t[i] == c;
                assert(a[i] == c);
            }
        }
        assert(a[a.len() - 1] != c);
        lemma_unsplit(t, c);
        assert(a =~= t.push(a.last()));
        assert(split(a, c) =~= seq![a]);
    }
}

/// A text without a line feed is one line, the empty one none; what stands before the first
/// line feed is the first line, without the carriage return that ends it, and what stands
/// behind it are the others.
pub proof fn law_lines_end_with_line_feeds(a: Seq<char>, b: Seq<char>)
    requires
        !a.contains('\n'),
    ensures
        a.len() == 0 ==> lines(a) == Seq::<Seq<char>>::empty(),
        a.len() > 0 ==> lines(a) == seq![a],
        lines(a.push('\n') + b) == seq![strip_cr(a)] + lines(b),
        strip_cr(a.push('\r')) == a,
        a.len() > 0 && a.last() != '\r' ==> strip_cr(a) == a,
{
    law_splitting_goes_from_left_to_right(a, b, '\n');
    lemma_unsplit(a, '\n');
    lemma_split(b, '\n');
    assert(a.push('\r').drop_last() =~= a);
    let s = a.push('\n') + b;
    let p = split(s, '\n');
    let q = split(b, '\n');
    assert(p =~= seq![a] + q);
    assert(p.last() == q.last());
    assert(lines(a) =~= if a.len() == 0 {
        Seq::<Seq<char>>::empty()
    } else {
        seq![a]
    });
    assert(lines(s) =~= seq![strip_cr(a)] + lines(b));
}

/// Joining puts the separator between neighbours and nowhere else.
pub proof fn law_joining_two_rows(a: Seq<Seq<char>>, b: Seq<Seq<char>>, sep: Seq<char>)
    ensures
        a.len() > 0 && b.len() > 0 ==> join(a + b, sep) == join(a, sep) + sep + join(b, sep),
        a.len() == 1 ==> join(a, sep) == a[0],
        a.len() == 0 ==> join(a, sep).len() == 0,
    decreases b.len(),
{
    if a.len() > 0 && b.len() > 0 {
        let s = a + b;
        assert(s.drop_last() =~= a + b.drop_last());
        assert(s.last() == b.last());
        if b.len() == 1 {
            assert(b.drop_last() =~= Seq::<Seq<char>>::empty());
            assert(s.drop_last() =~= a);
            assert(join(s, sep) =~= join(a, sep) + sep + b[0]);
        } else {
            law_joining_two_rows(a, b.drop_last(), sep);
            assert(join(s, sep) =~= join(a, sep) + sep + join(b, sep));
        }
    }
}

/// Replacing a character goes through the text: every copy gives way to the text that
/// replaces it, and every other character stays.
pub proof fn law_replacing_goes_through_the_text(
    a: Seq<char>,
    b: Seq<char>,
    c: char,
    d: char,
    with: Seq<char>,
)
    ensures
        replace_char(a + b, c, with) == replace_char(a, c, with) + replace_char(b, c, with),
        replace_char(seq![c], c, with) == with,
        d != c ==> replace_char(seq![d], c, with) == seq![d],
        !a.contains(c) ==> replace_char(a, c, with) == a,
    decreases b.len(),
{
    let none = Seq::<char>::empty();
    assert(seq![c].drop_last() =~= none);
    assert(seq![d].drop_last() =~= none);
    assert(replace_char(none, c, with) =~= none);
    assert(replace_char(seq![c], c, with) =~= with);
    if d != c {
        assert(replace_char(seq![d], c, with) =~= seq![d]);
    }
    lemma_nothing_to_replace(a, c, with);
    let s = a + b;
    if b.len() == 0 {
        assert(s =~= a);
        assert(replace_char(s, c, with) =~= replace_char(a, c, with) + replace_char(b, c, with));
    } else {
        law_replacing_goes_through_the_text(a, b.drop_last(), c, d, with);
        assert(s.drop_last() =~= a + b.drop_last());
        assert(s.last() == b.last());
        assert(replace_char(s, c, with) =~= replace_char(a, c, with) + replace_char(b, c, with));
    }
}

proof fn lemma_nothing_to_replace(a: Seq<char>, c: char, with: Seq<char>)
    ensures
        !a.contains(c) ==> replace_char(a, c, with) == a,
    decreases a.len(),
{
    if a.len() > 0 && !a.contains(c) {
        let t = a.drop_last();
        assert(a[a.len() - 1] != c);
        assert(!t.contains(c)) by {
            if t.contains(c) {
                let i = choose|i: int| 0 <= i < t.len() && t[i] == c;
                assert(a[i] == c);
            }
        }
        lemma_nothing_to_replace(t, c, with);
        assert(a =~= t.push(a.last()));
    }
}

/// The decimal notation of a number has digits only, no zero at its front, and denotes the
/// number: reading it gives the number back.
pub proof fn law_notation_is_read_back(n: nat, max: nat)
    ensures
        dec(n).len() > 0,
        all_digits(dec(n)),
        value(dec(n)) == n,
        dec(n)[0] == '0' ==> n == 0 && dec(n).len() == 1,
        n <= max ==> parse_dec(dec(n), max) == Some(n),
        n > max ==> parse_dec(dec(n), max) is None,
        parse_dec(dec(n), max) == parse_dec(seq!['+'] + dec(n), max),
{
    lemma_dec(n);
    let d = dec(n);
    assert(is_digit(d[0]));
    assert((seq!['+'] + d).drop_first() =~= d);
}

proof fn lemma_dec(n: nat)
    ensures
        dec(n).len() > 0,
        all_digits(dec(n)),
        value(dec(n)) == n,
        dec(n)[0] == '0' ==> n == 0 && dec(n).len() == 1,
    decreases n,
{
    if n < 10 {
        let d = dec(n);
        assert(d =~= seq![digit(n)]);
        assert(d.drop_last() =~= Seq::<char>::empty());
        assert(value(d.drop_last()) == 0);
        assert(digit(n) as int == 48 + n);
    } else {
        lemma_dec(n / 10);
        let d = dec(n);
        assert(d.drop_last() =~= dec(n / 10));
        assert(digit(n % 10) as int == 48 + n % 10);
        assert(d.last() as int == 48 + n % 10);
        assert forall|i: int| 0 <= i < d.len() implies is_digit(#[trigger] d[i]) by {
            if i < d.len() - 1 {
                assert(d[i] == dec(n / 10)[i]);
            }
        }
        assert(d[0] == dec(n / 10)[0]);
    }
}

/// A negative number is written as the positive one behind a hyphen.
pub proof fn law_sign_stands_in_front(n: nat)
    ensures
        dec_signed(n as int) == dec(n),
        n > 0 ==> dec_signed(-n) == seq!['-'] + dec(n),
{
}

proof fn lemma_find_from(s: Seq<char>, p: Seq<char>, i: int)
    requires
        0 <= i,
    ensures
        match find_from(s, p, i) {
            Some(k) => i <= k && occurs_at(s, p, k) && forall|j: int|
                i <= j < k ==> !#[trigger] occurs_at(s, p, j),
            None => forall|j: int| i <= j ==> !#[trigger] occurs_at(s, p, j),
        },
    decreases s.len() - i + 1,
{
    if i + p.len() <= s.len() && !occurs_at(s, p, i) {
        lemma_find_from(s, p, i + 1);
    }
}

proof fn lemma_find_char_from(s: Seq<char>, c: char, i: int)
    requires
        0 <= i,
    ensures
        match find_char_from(s, c, i) {
            Some(k) => i <= k < s.len() && s[k] == c && forall|j: int|
                i <= j < k ==> #[trigger] s[j] != c,
            None => forall|j: int| i <= j < s.len() ==> #[trigger] s[j] != c,
        },
    decreases s.len() - i,
{
    if i < s.len() && s[i] != c {
        lemma_find_char_from(s, c, i + 1);
    }
}

/// A text is found where it stands for the first time, and is not found just where it does
/// not stand anywhere.
pub proof fn law_first_place_is_found(s: Seq<char>, p: Seq<char>)
    ensures
        match find(s, p) {
            Some(k) => occurs_at(s, p, k) && forall|j: int|
                0 <= j < k ==> !#[trigger] occurs_at(s, p, j),
            None => forall|j: int| !#[trigger] occurs_at(s, p, j),
        },
{
    lemma_find_from(s, p, 0);
}

/// A text is cut at the first copy of the character.
pub proof fn law_text_is_cut_at_the_first(s: Seq<char>, c: char)
    ensures
        match split_once(s, c) {
            Some((a, b)) => s == a.push(c) + b && !a.contains(c),
            None => !s.contains(c),
        },
        find_char(s, c) is Some <==> s.contains(c),
{
    lemma_find_char_from(s, c, 0);
    match find_char(s, c) {
        Some(i) => {
            assert(s[i] == c);
            let a = s.subrange(0, i);
            let b = s.subrange(i + 1, s.len() as int);
            assert(s =~= a.push(c) + b);
            assert forall|j: int| 0 <= j < a.len() implies a[j] != c by {
                assert(s[j] != c);
            }
        },
        None => {},
    }
}

/// The longest front part is taken whose characters all satisfy the condition.
pub proof fn law_longest_front_is_taken(s: Seq<char>, p: spec_fn(char) -> bool)
    ensures
        take_while(s, p).len() <= s.len(),
        s.subrange(0, take_while(s, p).len() as int) == take_while(s, p),
        forall|i: int| 0 <= i < take_while(s, p).len() ==> p(#[trigger] take_while(s, p)[i]),
        take_while(s, p).len() < s.len() ==> !p(s[take_while(s, p).len() as int]),
    decreases s.len(),
{
    if s.len() > 0 && p(s[0]) {
        let t = s.drop_first();
        law_longest_front_is_taken(t, p);
        let w = take_while(t, p);
        let r = take_while(s, p);
        assert(r =~= seq![s[0]] + w);
        assert forall|i: int| 0 <= i < r.len() implies r[i] == s[i] && p(#[trigger] r[i]) by {
            if i > 0 {
                assert(r[i] == w[i - 1]);
                assert(t.subrange(0, w.len() as int)[i - 1] == w[i - 1]);
            }
        }
        assert(s.subrange(0, r.len() as int) =~= r);
        if r.len() < s.len() {
            assert(s[r.len() as int] == t[w.len() as int]);
        }
    } else {
        assert(s.subrange(0, 0) =~= Seq::<char>::empty());
    }
}

/// The first and the last characters of a text are as many as were asked for, or all of it.
pub proof fn law_ends_of_a_text(a: Seq<char>, b: Seq<char>)
    ensures
        first(a + b, a.len() as int) == a,
        last(a + b, b.len() as int) == b,
        first(a, (a.len() + b.len()) as int) == a,
        last(a, (a.len() + b.len()) as int) == a,
{
    assert(first(a + b, a.len() as int) =~= a);
    assert(last(a + b, b.len() as int) =~= b);
}

/// All copies of the character at the end go, and nothing else does.
pub proof fn law_copies_at_the_end_go(s: Seq<char>, c: char)
    ensures
        trim_end_char(s, c).len() <= s.len(),
        s.subrange(0, trim_end_char(s, c).len() as int) == trim_end_char(s, c),
        trim_end_char(s, c).len() > 0 ==> trim_end_char(s, c).last() != c,
        forall|i: int| trim_end_char(s, c).len() <= i < s.len() ==> #[trigger] s[i] == c,
    decreases s.len(),
{
    if s.len() > 0 && s.last() == c {
        let t = s.drop_last();
        law_copies_at_the_end_go(t, c);
        let r = trim_end_char(s, c);
        assert(s.subrange(0, r.len() as int) =~= t.subrange(0, r.len() as int));
        assert forall|i: int| r.len() <= i < s.len() implies #[trigger] s[i] == c by {
            if i < s.len() - 1 {
                assert(t[i] == c);
            }
        }
    } else {
        assert(s.subrange(0, s.len() as int) =~= s);
    }
}

/// Capital letters of ASCII become the small ones, every other character stays.
pub proof fn law_capitals_become_small(c: char)
    ensures
        'A' <= c <= 'Z' ==> lower_ascii(c) as int == c as int + ('a' as int - 'A' as int),
        !('A' <= c && c <= 'Z') ==> lower_ascii(c) == c,
        lower_ascii(lower_ascii(c)) == lower_ascii(c),
{
}

/// A text stands before those that go on where it ends, and the first character that differs
/// decides.
pub proof fn law_first_difference_decides(
    common: Seq<char>,
    a: Seq<char>,
    b: Seq<char>,
)
    ensures
        b.len() > 0 ==> less(common, common + b),
        !less(common + b, common),
        a.len() > 0 && b.len() > 0 && a[0] < b[0] ==> less(common + a, common + b) && !less(
            common + b,
            common + a,
        ),
    decreases common.len(),
{
    let x = common + a;
    let y = common + b;
    if common.len() > 0 {
        let t = common.drop_first();
        law_first_difference_decides(t, a, b);
        assert(x.drop_first() =~= t + a);
        assert(y.drop_first() =~= t + b);
    } else {
        assert(x =~= a);
        assert(y =~= b);
    }
}

/// White space is what Unicode calls so: from the tab to the carriage return, the blanks, the
/// next line, the separators of lines and of paragraphs.
pub proof fn law_white_space_characters(c: char)
    ensures
        is_white(c) <==> {
            let n = c as int;
            n == 9 || n == 10 || n == 11 || n == 12 || n == 13 || n == 32 || n == 133 || n == 160
                || n == 5760 || (8192 <= n && n < 8203) || n == 8232 || n == 8233 || n == 8239 || n
                == 8287 || n == 12288
        },
{
}

/// The hexadecimal digits, small and capital, are the digits and six letters.
pub proof fn law_hexadecimal_digits(c: char)
    ensures
        is_hex(c) <==> "0123456789abcdefABCDEF"@.contains(c),
{
    reveal_strlit("0123456789abcdefABCDEF");
    let s = "0123456789abcdefABCDEF"@;
    if is_hex(c) {
        let i = if c <= '9' {
            c as int - 48
        } else if c >= 'a' {
            c as int - 97 + 10
        } else {
            c as int - 65 + 16
        };
        assert(s[i] == c);
    }
}

/// A text starts with another, or ends with it, where it is that one and something more.
pub proof fn law_front_and_end(s: Seq<char>, p: Seq<char>, rest: Seq<char>)
    ensures
        starts_with(p + rest, p),
        ends_with(rest + p, p),
        starts_with(s, p) ==> s == p + s.subrange(p.len() as int, s.len() as int),
        ends_with(s, p) ==> s == s.subrange(0, s.len() - p.len()) + p,
{
    assert((p + rest).subrange(0, p.len() as int) =~= p);
    assert((rest + p).subrange(rest.len() as int, (rest + p).len() as int) =~= p);
    if starts_with(s, p) {
        assert(s =~= s.subrange(0, p.len() as int) + s.subrange(p.len() as int, s.len() as int));
    }
    if ends_with(s, p) {
        assert(s =~= s.subrange(0, s.len() - p.len()) + s.subrange(
            s.len() - p.len(),
            s.len() as int,
        ));
    }
}

/// A text stands where it was put, be it in the middle, at the front or at the end.
pub proof fn law_text_stands_where_it_was_put(a: Seq<char>, p: Seq<char>, b: Seq<char>)
    ensures
        occurs_at(a + p + b, p, a.len() as int),
{
    assert((a + p + b).subrange(a.len() as int, (a.len() + p.len()) as int) =~= p);
}

/// Where a text stands in another, the whole is what is before it, it, and what is behind.
pub proof fn law_text_parts_the_whole(s: Seq<char>, p: Seq<char>, i: int)
    requires
        occurs_at(s, p, i),
    ensures
        0 <= i && i + p.len() <= s.len(),
        s == s.subrange(0, i) + p + s.subrange(i + p.len(), s.len() as int),
{
    assert(s =~= s.subrange(0, i) + s.subrange(i, i + p.len()) + s.subrange(
        i + p.len(),
        s.len() as int,
    ));
}

} // verus!
