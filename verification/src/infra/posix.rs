//! Absolute paths, as POSIX reads them.

use crate::infra::pathname;
use crate::infra::pathname::{is_rooted, joined, named_only, pieces, Platform};
use crate::text;
use vstd::prelude::*;

verus! {

/// What a path names, part by part: `.` and what is empty between slashes name nothing.
pub open spec fn parts_of(s: Seq<char>) -> Seq<Seq<char>> {
    named_only(pieces(s, Platform::Unix))
}

/// `base` with the parts behind it.
pub open spec fn with_parts(base: Seq<char>, parts: Seq<Seq<char>>) -> Seq<char>
    decreases parts.len(),
{
    if parts.len() == 0 {
        base
    } else {
        joined(with_parts(base, parts.drop_last()), parts.last(), Platform::Unix)
    }
}

/// The root that a path starts at. Exactly two slashes are a root of their own; more are
/// one.
pub open spec fn root_of(s: Seq<char>) -> Seq<char> {
    if s.len() >= 2 && s[1] == '/' && (s.len() == 2 || s[2] != '/') {
        "//"@
    } else {
        "/"@
    }
}

/// The path with a slash at its end, where one is wanted.
pub open spec fn ended(s: Seq<char>, slash: bool) -> Seq<char> {
    if slash && s.len() > 0 && s.last() != '/' {
        s + "/"@
    } else {
        s
    }
}

pub open spec fn ends_in_slash(s: Seq<char>) -> bool {
    s.len() > 0 && s.last() == '/'
}

/// The path made absolute, from the directory `cwd` where it does not start at the root.
/// Slashes that repeat and `.` are left out; `..` and a slash at the end stay, as they
/// matter where there are links.
pub open spec fn absolute_from(cwd: Seq<char>, s: Seq<char>) -> Seq<char> {
    let start = if is_rooted(s, Platform::Unix) {
        root_of(s)
    } else {
        cwd
    };
    ended(with_parts(start, parts_of(s)), ends_in_slash(s))
}

pub fn make_absolute(cwd: &str, s: &str) -> (r: String)
    ensures
        r@ == absolute_from(cwd@, s@),
{
    let v = text::to_chars(s);
    let n: usize = v.len();
    let mut out = if pathname::starts_at_root(s, Platform::Unix) {
        if n >= 2 && v[1] == '/' && (n == 2 || v[2] != '/') {
            text::owned("//")
        } else {
            text::owned("/")
        }
    } else {
        text::owned(cwd)
    };
    let ghost start = out@;
    let (parts, _dotted) = pathname::split_named(s, Platform::Unix);
    let ghost all = parts.deep_view();
    let mut i: usize = 0;
    assert(all.take(0) =~= Seq::<Seq<char>>::empty());
    while i < parts.len()
        invariant
            i <= parts@.len(),
            all == parts.deep_view(),
            out@ == with_parts(start, all.take(i as int)),
        decreases parts@.len() - i,
    {
        proof {
            assert(all.take(i + 1).drop_last() =~= all.take(i as int));
            assert(all.take(i + 1).last() == parts@[i as int]@);
        }
        out = pathname::join(out.as_str(), parts[i].as_str(), Platform::Unix);
        i = i + 1;
    }
    assert(all.take(i as int) =~= all);
    if n > 0 && v[n - 1] == '/' {
        let w = text::to_chars(out.as_str());
        let m: usize = w.len();
        if m > 0 && w[m - 1] != '/' {
            out.append("/");
        }
    }
    out
}

/// A part that names something: not empty, not `.`, and without a slash.
pub open spec fn is_part(s: Seq<char>) -> bool {
    &&& s.len() > 0
    &&& s != "."@
    &&& forall|i: int| 0 <= i < s.len() ==> #[trigger] s[i] != '/'
}

pub open spec fn are_parts(ps: Seq<Seq<char>>) -> bool {
    forall|i: int| 0 <= i < ps.len() ==> is_part(#[trigger] ps[i])
}

proof fn lemma_pieces_are_plain(s: Seq<char>)
    ensures
        pieces(s, Platform::Unix).len() > 0,
        forall|k: int, i: int|
            #![trigger pieces(s, Platform::Unix)[k][i]]
            0 <= k < pieces(s, Platform::Unix).len() && 0 <= i < pieces(
                s,
                Platform::Unix,
            )[k].len() ==> pieces(s, Platform::Unix)[k][i] != '/',
    decreases s.len(),
{
    if s.len() > 0 {
        lemma_pieces_are_plain(s.drop_last());
    }
}

proof fn lemma_named(ps: Seq<Seq<char>>)
    requires
        forall|k: int, i: int|
            #![trigger ps[k][i]]
            0 <= k < ps.len() && 0 <= i < ps[k].len() ==> ps[k][i] != '/',
    ensures
        are_parts(named_only(ps)),
    decreases ps.len(),
{
    if ps.len() > 0 {
        let front = ps.drop_last();
        assert forall|k: int, i: int|
            #![trigger front[k][i]]
            0 <= k < front.len() && 0 <= i < front[k].len() implies front[k][i] != '/' by {
            assert(front[k] == ps[k]);
            assert(ps[k][i] != '/');
        }
        lemma_named(front);
        let last = ps.len() - 1;
        assert forall|i: int| 0 <= i < ps.last().len() implies #[trigger] ps.last()[i] != '/' by {
            assert(ps[last][i] != '/');
        }
    }
}

proof fn lemma_parts(s: Seq<char>)
    ensures
        are_parts(parts_of(s)),
{
    lemma_pieces_are_plain(s);
    lemma_named(pieces(s, Platform::Unix));
}

proof fn lemma_named_apart(a: Seq<Seq<char>>, b: Seq<Seq<char>>)
    ensures
        named_only(a + b) == named_only(a) + named_only(b),
    decreases b.len(),
{
    if b.len() == 0 {
        assert(a + b =~= a);
        assert(named_only(a) + named_only(b) =~= named_only(a));
    } else {
        lemma_named_apart(a, b.drop_last());
        assert((a + b).drop_last() =~= a + b.drop_last());
        assert((a + b).last() == b.last());
        assert(named_only(a + b) =~= named_only(a) + named_only(b));
    }
}

proof fn lemma_pieces_apart(a: Seq<char>, b: Seq<char>)
    ensures
        pieces(a + "/"@ + b, Platform::Unix) == pieces(a, Platform::Unix) + pieces(
            b,
            Platform::Unix,
        ),
    decreases b.len(),
{
    reveal_strlit("/");
    let p = Platform::Unix;
    let whole = a + "/"@ + b;
    lemma_pieces_are_plain(b);
    if b.len() == 0 {
        assert(whole.drop_last() =~= a);
        assert(whole.last() == '/');
        assert(pieces(whole, p) =~= pieces(a, p) + pieces(b, p));
    } else {
        lemma_pieces_apart(a, b.drop_last());
        lemma_pieces_are_plain(b.drop_last());
        assert(whole.drop_last() =~= a + "/"@ + b.drop_last());
        assert(whole.last() == b.last());
        assert(pieces(whole, p) =~= pieces(a, p) + pieces(b, p));
    }
}

/// The parts of two texts with a slash between them.
proof fn lemma_parts_apart(a: Seq<char>, b: Seq<char>)
    ensures
        parts_of(a + "/"@ + b) == parts_of(a) + parts_of(b),
{
    lemma_pieces_apart(a, b);
    lemma_named_apart(pieces(a, Platform::Unix), pieces(b, Platform::Unix));
}

proof fn lemma_one_piece(s: Seq<char>)
    requires
        forall|i: int| 0 <= i < s.len() ==> #[trigger] s[i] != '/',
    ensures
        pieces(s, Platform::Unix) == seq![s],
    decreases s.len(),
{
    if s.len() > 0 {
        let front = s.drop_last();
        assert forall|i: int| 0 <= i < front.len() implies #[trigger] front[i] != '/' by {
            assert(front[i] == s[i]);
        }
        lemma_one_piece(front);
        assert(front.push(s.last()) =~= s);
        assert(pieces(s, Platform::Unix) =~= seq![s]);
    } else {
        assert(s =~= Seq::<char>::empty());
    }
}

proof fn lemma_no_parts()
    ensures
        parts_of(Seq::<char>::empty()) == Seq::<Seq<char>>::empty(),
        parts_of("/"@) == Seq::<Seq<char>>::empty(),
        parts_of("//"@) == Seq::<Seq<char>>::empty(),
        parts_of("."@) == Seq::<Seq<char>>::empty(),
{
    reveal_strlit("/");
    reveal_strlit("//");
    reveal_strlit(".");
    let e = Seq::<char>::empty();
    assert(seq![e].drop_last() =~= Seq::<Seq<char>>::empty());
    assert(named_only(seq![e]) == named_only(Seq::<Seq<char>>::empty()));
    assert(parts_of(e) =~= Seq::<Seq<char>>::empty());
    lemma_parts_apart(e, e);
    assert(e + "/"@ + e =~= "/"@);
    lemma_parts_apart("/"@, e);
    assert("/"@ + "/"@ + e =~= "//"@);
    lemma_one_piece("."@);
    assert(seq!["."@].drop_last() =~= Seq::<Seq<char>>::empty());
    assert(named_only(seq!["."@]) == named_only(Seq::<Seq<char>>::empty()));
}

proof fn lemma_one_part(s: Seq<char>)
    requires
        is_part(s),
    ensures
        parts_of(s) == seq![s],
{
    lemma_one_piece(s);
    assert(seq![s].drop_last() =~= Seq::<Seq<char>>::empty());
    assert(named_only(Seq::<Seq<char>>::empty()) =~= Seq::<Seq<char>>::empty());
    assert(named_only(seq![s]) =~= seq![s]);
}

/// A slash at the end adds no part.
proof fn lemma_slash_adds_nothing(s: Seq<char>)
    ensures
        parts_of(s + "/"@) == parts_of(s),
{
    let e = Seq::<char>::empty();
    lemma_parts_apart(s, e);
    lemma_no_parts();
    assert(s + "/"@ + e =~= s + "/"@);
    assert(parts_of(s) + parts_of(e) =~= parts_of(s));
}

/// The parts of a base with a part behind it.
proof fn lemma_parts_joined(base: Seq<char>, part: Seq<char>)
    requires
        is_part(part),
        base.len() > 0,
    ensures
        parts_of(joined(base, part, Platform::Unix)) == parts_of(base).push(part),
{
    reveal_strlit("/");
    lemma_one_part(part);
    if base.last() == '/' {
        let front = base.drop_last();
        assert(front + "/"@ =~= base);
        lemma_slash_adds_nothing(front);
        lemma_parts_apart(front, part);
        assert(joined(base, part, Platform::Unix) =~= front + "/"@ + part);
        assert(parts_of(front) + seq![part] =~= parts_of(base).push(part));
    } else {
        lemma_parts_apart(base, part);
        assert(joined(base, part, Platform::Unix) =~= base + "/"@ + part);
        assert(parts_of(base) + seq![part] =~= parts_of(base).push(part));
    }
}

/// A base stays in front, the character behind it is no slash, and there is none at the
/// end but that of the base.
proof fn lemma_with_parts(base: Seq<char>, ps: Seq<Seq<char>>)
    requires
        are_parts(ps),
        base.len() > 0,
    ensures
        ({
            let w = with_parts(base, ps);
            &&& w.len() >= base.len()
            &&& w.take(base.len() as int) == base
            &&& ps.len() == 0 ==> w == base
            &&& ps.len() > 0 ==> w.len() > base.len() && w.last() != '/'
            &&& ps.len() > 0 && base.last() == '/' ==> w[base.len() as int] != '/'
            &&& parts_of(w) == parts_of(base) + ps
        }),
    decreases ps.len(),
{
    let w = with_parts(base, ps);
    if ps.len() == 0 {
        assert(base.take(base.len() as int) =~= base);
        assert(parts_of(base) + ps =~= parts_of(base));
    } else {
        reveal_strlit("/");
        let front = ps.drop_last();
        assert forall|i: int| 0 <= i < front.len() implies is_part(#[trigger] front[i]) by {
            assert(front[i] == ps[i]);
        }
        lemma_with_parts(base, front);
        let u = with_parts(base, front);
        let part = ps.last();
        assert(is_part(ps[ps.len() - 1]));
        lemma_parts_joined(u, part);
        assert(part[0] != '/');
        assert(part[part.len() - 1] != '/');
        assert(w.last() == part.last());
        assert(w.take(base.len() as int) =~= u.take(base.len() as int));
        if front.len() > 0 {
            assert(w[base.len() as int] == u[base.len() as int]);
        } else if base.last() == '/' {
            assert(w[base.len() as int] == part[0]);
        }
        assert((parts_of(base) + front).push(part) =~= parts_of(base) + ps);
    }
}

proof fn lemma_parts_in_turn(base: Seq<char>, a: Seq<Seq<char>>, b: Seq<Seq<char>>)
    ensures
        with_parts(with_parts(base, a), b) == with_parts(base, a + b),
    decreases b.len(),
{
    if b.len() == 0 {
        assert(a + b =~= a);
    } else {
        lemma_parts_in_turn(base, a, b.drop_last());
        assert((a + b).drop_last() =~= a + b.drop_last());
        assert((a + b).last() == b.last());
    }
}

proof fn lemma_parts_behind_slash(base: Seq<char>, ps: Seq<Seq<char>>)
    requires
        are_parts(ps),
        ps.len() > 0,
        base.len() > 0,
        base.last() != '/',
    ensures
        with_parts(base + "/"@, ps) == with_parts(base, ps),
    decreases ps.len(),
{
    reveal_strlit("/");
    reveal_with_fuel(with_parts, 2);
    let front = ps.drop_last();
    assert(is_part(ps[ps.len() - 1]));
    if front.len() > 0 {
        assert forall|i: int| 0 <= i < front.len() implies is_part(#[trigger] front[i]) by {
            assert(front[i] == ps[i]);
        }
        lemma_parts_behind_slash(base, front);
    } else {
        assert(with_parts(base + "/"@, ps) =~= with_parts(base, ps));
    }
}

/// One of the two roots.
pub open spec fn is_root(s: Seq<char>) -> bool {
    s == "/"@ || s == "//"@
}

/// What is made of parts behind a root stays as it is when it is made absolute.
proof fn lemma_normal(root: Seq<char>, ps: Seq<Seq<char>>, slash: bool, cwd: Seq<char>)
    requires
        is_root(root),
        are_parts(ps),
    ensures
        ({
            let r = ended(with_parts(root, ps), slash);
            &&& is_rooted(r, Platform::Unix)
            &&& root_of(r) == root
            &&& parts_of(r) == ps
            &&& absolute_from(cwd, r) == r
        }),
{
    reveal_strlit("/");
    reveal_strlit("//");
    lemma_no_parts();
    lemma_with_parts(root, ps);
    let w = with_parts(root, ps);
    let r = ended(w, slash);
    assert(parts_of(root) + ps =~= ps);
    lemma_slash_adds_nothing(w);
    assert(w.take(root.len() as int)[0] == root[0]);
    if root == "//"@ {
        assert(w.take(root.len() as int)[1] == root[1]);
    }
    assert(r[0] == '/');
    if ps.len() > 0 {
        assert(r[root.len() as int] == w[root.len() as int]);
    } else {
        assert(w == root);
    }
    assert(root_of(r) == root);
    assert(absolute_from(cwd, r) =~= r);
}

/// The directory is written as the system writes it: absolute, and with nothing to leave
/// out.
pub open spec fn is_clean(cwd: Seq<char>) -> bool {
    is_rooted(cwd, Platform::Unix) && absolute_from(Seq::empty(), cwd) == cwd
}

/// A path that was made absolute starts at the root, and making it absolute once more
/// changes nothing, from whatever directory. One that starts at the root does not depend
/// on the directory.
pub proof fn law_absolute_is_stable(cwd: Seq<char>, s: Seq<char>, elsewhere: Seq<char>)
    requires
        is_rooted(s, Platform::Unix) || is_clean(cwd),
    ensures
        is_rooted(absolute_from(cwd, s), Platform::Unix),
        absolute_from(elsewhere, absolute_from(cwd, s)) == absolute_from(cwd, s),
        is_rooted(s, Platform::Unix) ==> absolute_from(elsewhere, s) == absolute_from(cwd, s),
{
    let ps = parts_of(s);
    lemma_parts(s);
    if is_rooted(s, Platform::Unix) {
        lemma_normal(root_of(s), ps, ends_in_slash(s), elsewhere);
    } else {
        reveal_strlit("/");
        reveal_strlit("//");
        let root = root_of(cwd);
        let dir = parts_of(cwd);
        lemma_parts(cwd);
        lemma_with_parts(root, dir);
        let w = with_parts(root, dir);
        assert(cwd == ended(w, ends_in_slash(cwd)));
        if ps.len() > 0 {
            if cwd != w {
                lemma_parts_behind_slash(w, ps);
            }
            lemma_parts_in_turn(root, dir, ps);
            assert forall|i: int| 0 <= i < (dir + ps).len() implies is_part(
                #[trigger] (dir + ps)[i],
            ) by {
                if i < dir.len() {
                    assert(is_part(dir[i]));
                } else {
                    assert(is_part(ps[i - dir.len()]));
                }
            }
            lemma_normal(root, dir + ps, ends_in_slash(s), elsewhere);
        } else {
            assert(absolute_from(cwd, s) =~= ended(w, ends_in_slash(cwd) || ends_in_slash(s)));
            lemma_normal(root, dir, ends_in_slash(cwd) || ends_in_slash(s), elsewhere);
        }
    }
}

/// A `.` between two slashes of an absolute path does not matter.
pub proof fn law_dot_does_not_matter(cwd: Seq<char>, a: Seq<char>, b: Seq<char>)
    requires
        a.len() == 0 || a[0] == '/',
        b.len() > 0,
        b[0] != '/',
    ensures
        absolute_from(cwd, a + "/"@ + "."@ + "/"@ + b) == absolute_from(cwd, a + "/"@ + b),
{
    reveal_strlit("/");
    reveal_strlit(".");
    let dotted = a + "/"@ + "."@ + "/"@ + b;
    let plain = a + "/"@ + b;
    lemma_no_parts();
    lemma_parts_apart(a, b);
    lemma_parts_apart(a + "/"@ + "."@, b);
    lemma_parts_apart(a, "."@);
    assert(parts_of(a) + parts_of("."@) =~= parts_of(a));
    assert(parts_of(dotted) == parts_of(plain));
    assert(dotted.last() == b.last() && plain.last() == b.last());
    assert(is_rooted(dotted, Platform::Unix) && is_rooted(plain, Platform::Unix));
    assert(root_of(dotted) == root_of(plain));
}

} // verus!
