//! Names of files and directories.

use crate::chars;
use crate::text;
use vstd::prelude::*;

verus! {

/// The family of systems whose rules a path follows.
#[derive(Clone, Copy, Debug, PartialEq, Eq, Structural)]
pub enum Platform {
    Windows,
    Unix,
}

/// A character that separates the components of a path.
pub open spec fn is_sep(c: char, p: Platform) -> bool {
    c == '/' || (p == Platform::Windows && c == '\\')
}

pub fn is_separator(c: char, p: Platform) -> (r: bool)
    ensures
        r == is_sep(c, p),
{
    c == '/' || (p == Platform::Windows && c == '\\')
}

/// The path without separators at its end.
pub open spec fn trim_seps(s: Seq<char>, p: Platform) -> Seq<char>
    decreases s.len(),
{
    if s.len() > 0 && is_sep(s.last(), p) {
        trim_seps(s.drop_last(), p)
    } else {
        s
    }
}

/// How many characters there are up to and including the last separator.
pub open spec fn dir_len(s: Seq<char>, p: Platform) -> nat
    decreases s.len(),
{
    if s.len() == 0 {
        0
    } else if is_sep(s.last(), p) {
        s.len()
    } else {
        dir_len(s.drop_last(), p)
    }
}

/// The path without what adds nothing at its end: separators, and `.` behind one.
pub open spec fn bare(s: Seq<char>, p: Platform) -> Seq<char>
    decreases s.len(),
{
    if s.len() > 0 && is_sep(s.last(), p) {
        bare(s.drop_last(), p)
    } else if s.len() > 1 && s.last() == '.' && is_sep(s[s.len() - 2], p) {
        bare(s.drop_last(), p)
    } else {
        s
    }
}

/// The directory of a file, with the separator at its end.
pub open spec fn dir_part(s: Seq<char>, p: Platform) -> Seq<char> {
    let t = bare(s, p);
    t.subrange(0, dir_len(t, p) as int)
}

/// The last component of a path.
pub open spec fn file_part(s: Seq<char>, p: Platform) -> Seq<char> {
    let t = bare(s, p);
    t.subrange(dir_len(t, p) as int, t.len() as int)
}

pub open spec fn is_ascii_letter(c: char) -> bool {
    ('a' <= c <= 'z') || ('A' <= c <= 'Z')
}

/// The path starts with the letter of a drive.
pub open spec fn has_drive(s: Seq<char>) -> bool {
    s.len() >= 2 && s[1] == ':' && is_ascii_letter(s[0])
}

pub fn starts_with_drive(v: &Vec<char>) -> (r: bool)
    ensures
        r == has_drive(v@),
{
    v.len() >= 2 && v[1] == ':' && (('a' <= v[0] && v[0] <= 'z') || ('A' <= v[0] && v[0] <= 'Z'))
}

/// The path starts with the name of a server.
pub open spec fn has_server(s: Seq<char>, p: Platform) -> bool {
    s.len() >= 2 && is_sep(s[0], p) && is_sep(s[1], p)
}

/// Where the first separator stands, from `i` on; the length without one.
pub open spec fn next_sep(s: Seq<char>, i: int, p: Platform) -> int
    decreases s.len() - i,
{
    if i >= s.len() {
        s.len() as int
    } else if i < 0 || is_sep(s[i], p) {
        i
    } else {
        next_sep(s, i + 1, p)
    }
}

/// How long the drive at the front of a path is, or the server and its share.
pub open spec fn prefix_len(s: Seq<char>, p: Platform) -> int {
    if has_drive(s) {
        2
    } else if has_server(s, p) {
        let server = next_sep(s, 2, p);
        if server < s.len() {
            next_sep(s, server + 1, p)
        } else {
            server
        }
    } else {
        0
    }
}

/// The separator that is put between the parts of a path.
pub open spec fn main_sep(p: Platform) -> Seq<char> {
    match p {
        Platform::Windows => "\\"@,
        Platform::Unix => "/"@,
    }
}

/// `name` inside the directory `base`; `name` itself where it starts at the root. On
/// Windows, one that starts at the root stays on the drive of `base`, and one with a drive
/// or a server of its own stands for itself.
pub open spec fn joined(base: Seq<char>, name: Seq<char>, p: Platform) -> Seq<char> {
    if p == Platform::Windows && (has_drive(name) || has_server(name, p)) {
        name
    } else if name.len() > 0 && is_sep(name[0], p) {
        if p == Platform::Windows {
            base.take(prefix_len(base, p)) + name
        } else {
            name
        }
    } else if base.len() == 0 || is_sep(base.last(), p) || (p == Platform::Windows && has_drive(
        base,
    ) && base.len() == 2) {
        base + name
    } else {
        base + main_sep(p) + name
    }
}

/// The lengths of the directory and of the whole path, without what adds nothing at its
/// end.
fn split_point(v: &Vec<char>, p: Platform) -> (r: (usize, usize))
    ensures
        r.0 <= r.1 <= v@.len(),
        bare(v@, p) == v@.subrange(0, r.1 as int),
        dir_len(bare(v@, p), p) == r.0,
{
    let mut hi: usize = v.len();
    assert(v@.subrange(0, hi as int) =~= v@);
    while hi > 0 && (is_separator(v[hi - 1], p) || (hi > 1 && v[hi - 1] == '.' && is_separator(
        v[hi - 2],
        p,
    )))
        invariant
            hi <= v@.len(),
            bare(v@, p) == bare(v@.subrange(0, hi as int), p),
        decreases hi,
    {
        assert(v@.subrange(0, hi as int).drop_last() =~= v@.subrange(0, hi - 1));
        hi = hi - 1;
    }
    let mut lo: usize = hi;
    while lo > 0 && !is_separator(v[lo - 1], p)
        invariant
            lo <= hi <= v@.len(),
            dir_len(v@.subrange(0, hi as int), p) == dir_len(v@.subrange(0, lo as int), p),
        decreases lo,
    {
        assert(v@.subrange(0, lo as int).drop_last() =~= v@.subrange(0, lo - 1));
        lo = lo - 1;
    }
    (lo, hi)
}

/// The directory of a file, with the separator at its end.
pub fn directory<'a>(s: &'a str, p: Platform) -> (r: &'a str)
    ensures
        r@ == dir_part(s@, p),
{
    let v = text::to_chars(s);
    let (lo, hi) = split_point(&v, p);
    assert(v@.subrange(0, hi as int).subrange(0, lo as int) =~= v@.subrange(0, lo as int));
    s.substring_char(0, lo)
}

/// The last component of a path.
pub fn file_name<'a>(s: &'a str, p: Platform) -> (r: &'a str)
    ensures
        r@ == file_part(s@, p),
{
    let v = text::to_chars(s);
    let (lo, hi) = split_point(&v, p);
    assert(v@.subrange(0, hi as int).subrange(lo as int, hi as int) =~= v@.subrange(
        lo as int,
        hi as int,
    ));
    s.substring_char(lo, hi)
}

fn find_sep(v: &Vec<char>, from: usize, p: Platform) -> (r: usize)
    ensures
        r == next_sep(v@, from as int, p),
        r <= v@.len(),
{
    let mut i: usize = if from < v.len() { from } else { v.len() };
    while i < v.len() && !is_separator(v[i], p)
        invariant
            i <= v@.len(),
            next_sep(v@, from as int, p) == next_sep(v@, i as int, p),
        decreases v@.len() - i,
    {
        i = i + 1;
    }
    i
}

fn length_of_prefix(v: &Vec<char>, p: Platform) -> (r: usize)
    ensures
        r == prefix_len(v@, p),
        r <= v@.len(),
{
    if starts_with_drive(v) {
        2
    } else if v.len() >= 2 && is_separator(v[0], p) && is_separator(v[1], p) {
        let server = find_sep(v, 2, p);
        if server < v.len() {
            find_sep(v, server + 1, p)
        } else {
            server
        }
    } else {
        0
    }
}

/// `name` inside the directory `base`.
pub fn join(base: &str, name: &str, p: Platform) -> (r: String)
    ensures
        r@ == joined(base@, name@, p),
{
    let b = text::to_chars(base);
    let n = text::to_chars(name);
    let m: usize = b.len();
    match p {
        Platform::Windows => {
            if starts_with_drive(&n) || (n.len() >= 2 && is_separator(n[0], p) && is_separator(
                n[1],
                p,
            )) {
                return text::owned(name);
            }
            if n.len() > 0 && is_separator(n[0], p) {
                let mut out = text::from_chars(&b, 0, length_of_prefix(&b, p));
                assert(out@ =~= base@.take(prefix_len(base@, p)));
                out.append(name);
                return out;
            }
            let mut out = text::owned(base);
            if m > 0 && !is_separator(b[m - 1], p) && !(m == 2 && starts_with_drive(&b)) {
                out.append("\\");
            }
            out.append(name);
            out
        },
        Platform::Unix => {
            if n.len() > 0 && is_separator(n[0], p) {
                return text::owned(name);
            }
            let mut out = text::owned(base);
            if m > 0 && !is_separator(b[m - 1], p) {
                out.append("/");
            }
            out.append(name);
            out
        },
    }
}

/// The directory that a path is in, as a path: without the separator at its end, but for
/// that of the root.
pub open spec fn parent_of(s: Seq<char>, p: Platform) -> Seq<char> {
    let d = dir_part(s, p);
    let t = trim_seps(d, p);
    if t.len() < d.len() && (t.len() == 0 || (p == Platform::Windows && has_drive(t) && t.len()
        == 2)) {
        d.take(t.len() as int + 1)
    } else {
        t
    }
}

pub fn parent(s: &str, p: Platform) -> (r: String)
    ensures
        r@ == parent_of(s@, p),
{
    let d = text::to_chars(directory(s, p));
    let mut n: usize = d.len();
    assert(d@.take(n as int) =~= d@);
    while n > 0 && is_separator(d[n - 1], p)
        invariant
            n <= d@.len(),
            trim_seps(d@, p) == trim_seps(d@.take(n as int), p),
        decreases n,
    {
        assert(d@.take(n as int).drop_last() =~= d@.take(n - 1));
        assert(d@.take(n as int).last() == d@[n - 1]);
        n = n - 1;
    }
    let ghost t = trim_seps(d@, p);
    assert(t == d@.take(n as int)) by {
        if n > 0 {
            assert(d@.take(n as int).last() == d@[n - 1]);
        }
    }
    let drive = match p {
        Platform::Windows => n == 2 && starts_with_drive(&d),
        Platform::Unix => false,
    };
    if n < d.len() && (n == 0 || drive) {
        n = n + 1;
    }
    text::from_chars(&d, 0, n)
}

/// The components of a path, in order: what stands between separators, without the empty
/// ones and without `.`, but for one at its front. On Windows the letter of a drive counts
/// as a small one.
pub open spec fn components(s: Seq<char>, p: Platform) -> Seq<Seq<char>> {
    let parts = named_only(pieces(s, p));
    if pieces(s, p)[0] == "."@ {
        seq!["."@] + parts
    } else if p == Platform::Windows && has_drive(s) && parts.len() > 0 {
        parts.update(0, small(parts[0]))
    } else {
        parts
    }
}

/// The text with its first letter as a small one.
pub open spec fn small(s: Seq<char>) -> Seq<char> {
    if s.len() > 0 {
        s.update(0, chars::lower_ascii(s[0]))
    } else {
        s
    }
}

/// What stands between the separators of a path.
pub open spec fn pieces(s: Seq<char>, p: Platform) -> Seq<Seq<char>>
    decreases s.len(),
{
    if s.len() == 0 {
        seq![Seq::<char>::empty()]
    } else if is_sep(s.last(), p) {
        pieces(s.drop_last(), p).push(Seq::<char>::empty())
    } else {
        let front = pieces(s.drop_last(), p);
        front.drop_last().push(front.last().push(s.last()))
    }
}

pub open spec fn named_only(parts: Seq<Seq<char>>) -> Seq<Seq<char>>
    decreases parts.len(),
{
    if parts.len() == 0 {
        Seq::empty()
    } else if parts.last().len() == 0 || parts.last() == "."@ {
        named_only(parts.drop_last())
    } else {
        named_only(parts.drop_last()).push(parts.last())
    }
}

/// The path starts at the root.
pub open spec fn is_rooted(s: Seq<char>, p: Platform) -> bool {
    s.len() > 0 && is_sep(s[0], p)
}

/// The path is the directory itself or lies below it, component by component. Every path
/// lies below one that is empty.
pub open spec fn is_under(s: Seq<char>, dir: Seq<char>, p: Platform) -> bool {
    let a = components(s, p);
    let b = components(dir, p);
    &&& is_rooted(s, p) == is_rooted(dir, p) || (b.len() == 0 && !is_rooted(dir, p))
    &&& b.len() <= a.len()
    &&& a.subrange(0, b.len() as int) == b
}

/// What stands between separators, without the empty ones and without `.`; and whether a
/// `.` stands at the front.
pub fn split_named(s: &str, p: Platform) -> (r: (Vec<String>, bool))
    ensures
        r.0.deep_view() == named_only(pieces(s@, p)),
        r.1 == (pieces(s@, p)[0] == "."@),
{
    let v = text::to_chars(s);
    let mut parts: Vec<String> = Vec::new();
    let mut piece = String::new();
    let mut i: usize = 0;
    proof {
        assert(s@.take(0) =~= Seq::<char>::empty());
        assert(parts.deep_view().push(piece@) =~= seq![Seq::<char>::empty()]);
    }
    while i < v.len()
        invariant
            i <= v@.len(),
            v@ == s@,
            parts.deep_view().push(piece@) == pieces(s@.take(i as int), p),
        decreases v@.len() - i,
    {
        let ghost before = parts.deep_view().push(piece@);
        proof {
            assert(s@.take(i + 1).drop_last() =~= s@.take(i as int));
            assert(before.drop_last() =~= parts.deep_view());
        }
        if is_separator(v[i], p) {
            parts.push(piece);
            piece = String::new();
            assert(parts.deep_view() =~= before);
        } else {
            piece.push(v[i]);
        }
        i = i + 1;
        assert(parts.deep_view().push(piece@) =~= pieces(s@.take(i as int), p));
    }
    assert(s@.take(i as int) =~= s@);
    let ghost front = parts.deep_view();
    let ghost tail = piece@;
    parts.push(piece);
    assert(parts.deep_view() =~= front.push(tail));
    let ghost all = parts.deep_view();
    let mut out: Vec<String> = Vec::new();
    let mut k: usize = 0;
    assert(out.deep_view() =~= named_only(all.take(0)));
    while k < parts.len()
        invariant
            k <= parts@.len(),
            all == parts.deep_view(),
            out.deep_view() == named_only(all.take(k as int)),
        decreases parts@.len() - k,
    {
        assert(all[k as int] == parts@[k as int]@);
        assert(all.take(k + 1).drop_last() =~= all.take(k as int));
        if !parts[k].as_str().is_empty() && !text::same(parts[k].as_str(), ".") {
            let ghost before = out.deep_view();
            out.push(parts[k].clone());
            assert(out.deep_view() =~= before.push(all[k as int]));
        }
        k = k + 1;
    }
    assert(all.take(k as int) =~= all);
    assert(parts.deep_view()[0] == parts@[0]@);
    let dotted = text::same(parts[0].as_str(), ".");
    (out, dotted)
}

pub fn split_components(s: &str, p: Platform) -> (r: Vec<String>)
    ensures
        r.deep_view() == components(s@, p),
{
    let v = text::to_chars(s);
    let (mut out, dotted) = split_named(s, p);
    let ghost named = out.deep_view();
    if dotted {
        out.insert(0, text::owned("."));
        assert(out.deep_view() =~= seq!["."@] + named);
        return out;
    }
    match p {
        Platform::Windows => {
            if starts_with_drive(&v) && out.len() > 0 {
                assert(named[0] == out@[0]@);
                let first = with_small_letter(out[0].as_str());
                out.set(0, first);
                assert(out.deep_view() =~= named.update(0, small(named[0])));
            }
        },
        Platform::Unix => {},
    }
    out
}

/// The text with its first letter as a small one.
pub fn with_small_letter(s: &str) -> (r: String)
    ensures
        r@ == small(s@),
{
    let v = text::to_chars(s);
    if v.len() == 0 {
        return String::new();
    }
    let mut out = String::new();
    out.push(text::lower_ascii(v[0]));
    out.append(text::from_chars(&v, 1, v.len()).as_str());
    assert(out@ =~= small(s@));
    out
}

pub fn starts_at_root(s: &str, p: Platform) -> (r: bool)
    ensures
        r == is_rooted(s@, p),
{
    let v = text::to_chars(s);
    v.len() > 0 && is_separator(v[0], p)
}

/// Whether the path is the directory itself or lies below it. A sibling whose
/// name merely starts with the name of the directory does not.
pub fn lies_under(s: &str, dir: &str, p: Platform) -> (r: bool)
    ensures
        r == is_under(s@, dir@, p),
{
    let a = split_components(s, p);
    let b = split_components(dir, p);
    let ghost x = a.deep_view();
    let ghost y = b.deep_view();
    let apart = starts_at_root(s, p) != starts_at_root(dir, p);
    if (apart && (b.len() > 0 || starts_at_root(dir, p))) || b.len() > a.len() {
        return false;
    }
    let mut i: usize = 0;
    while i < b.len()
        invariant
            i <= b@.len() <= a@.len(),
            x == a.deep_view(),
            x == components(s@, p),
            y == b.deep_view(),
            y == components(dir@, p),
            forall|k: int| 0 <= k < i ==> x[k] == y[k],
        decreases b@.len() - i,
    {
        assert(x[i as int] == a@[i as int]@ && y[i as int] == b@[i as int]@);
        if !text::same(a[i].as_str(), b[i].as_str()) {
            assert(x.subrange(0, y.len() as int)[i as int] != y[i as int]);
            return false;
        }
        i = i + 1;
    }
    assert(x.subrange(0, y.len() as int) =~= y);
    true
}

/// Two ways to write one path: the same components, from the same start.
pub open spec fn same(a: Seq<char>, b: Seq<char>, p: Platform) -> bool {
    is_rooted(a, p) == is_rooted(b, p) && components(a, p) == components(b, p)
}

pub fn same_path(a: &str, b: &str, p: Platform) -> (r: bool)
    ensures
        r == same(a@, b@, p),
{
    let x = split_components(a, p);
    let y = split_components(b, p);
    let ghost u = x.deep_view();
    let ghost v = y.deep_view();
    assert(u.len() == x@.len() && v.len() == y@.len());
    if starts_at_root(a, p) != starts_at_root(b, p) || x.len() != y.len() {
        return false;
    }
    let mut i: usize = 0;
    while i < x.len()
        invariant
            i <= x@.len(),
            x@.len() == y@.len(),
            u == x.deep_view(),
            u == components(a@, p),
            v == y.deep_view(),
            v == components(b@, p),
            forall|k: int| 0 <= k < i ==> u[k] == v[k],
        decreases x@.len() - i,
    {
        assert(u[i as int] == x@[i as int]@ && v[i as int] == y@[i as int]@);
        if !text::same(x[i].as_str(), y[i].as_str()) {
            return false;
        }
        i = i + 1;
    }
    assert(u =~= v);
    true
}

/// What stands behind the last dot of the name of a file; `None` without a dot, or where the
/// name begins with its only dot. What stands for the directory above has none.
pub open spec fn extension_of(s: Seq<char>, p: Platform) -> Option<Seq<char>> {
    let name = file_part(s, p);
    let dot = last_dot(name);
    if dot <= 0 || name == ".."@ {
        None
    } else {
        Some(name.subrange(dot + 1, name.len() as int))
    }
}

/// The position of the last dot; -1 where there is none.
pub open spec fn last_dot(s: Seq<char>) -> int
    decreases s.len(),
{
    if s.len() == 0 {
        -1
    } else if s.last() == '.' {
        s.len() - 1
    } else {
        last_dot(s.drop_last())
    }
}

/// The extension of the name of a file.
pub fn extension<'a>(s: &'a str, p: Platform) -> (r: Option<&'a str>)
    ensures
        r.deep_view() == extension_of(s@, p),
{
    let name = file_name(s, p);
    let v = text::to_chars(name);
    let mut n: usize = v.len();
    assert(name@.take(n as int) =~= name@);
    while n > 0 && v[n - 1] != '.'
        invariant
            n <= v@.len(),
            v@ == name@,
            last_dot(name@) == last_dot(name@.take(n as int)),
        decreases n,
    {
        assert(name@.take(n as int).drop_last() =~= name@.take(n - 1));
        assert(name@.take(n as int).last() == name@[n - 1]);
        n = n - 1;
    }
    proof {
        if n > 0 {
            assert(name@.take(n as int).last() == name@[n - 1]);
        }
        assert(last_dot(name@) == n - 1);
    }
    if n <= 1 || text::same(name, "..") {
        None
    } else {
        Some(name.substring_char(n, v.len()))
    }
}

} // verus!
