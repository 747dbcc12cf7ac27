//! What paths are made of.

use crate::chars;
use crate::infra::db::column_query;
use crate::infra::logging::is_old;
use crate::infra::pathname::{
    bare, components, dir_len, dir_part, extension_of, file_part, has_drive, has_server, is_sep,
    is_under, joined, last_dot, named_only, parent_of, pieces, prefix_len, same, small, trim_seps,
    Platform,
};
use crate::infra::ssh_paths::expanded;
use vstd::prelude::*;

verus! {

pub open spec fn no_seps(s: Seq<char>, p: Platform) -> bool {
    forall|i: int| 0 <= i < s.len() ==> !is_sep(#[trigger] s[i], p)
}

/// A name is put behind its directory with one separator between them; one that starts at the
/// root stands for itself.
pub proof fn law_name_goes_behind_its_directory(dir: Seq<char>, name: Seq<char>)
    requires
        name.len() > 0,
    ensures
        name[0] != '/' && dir.len() > 0 && dir.last() != '/' ==> joined(dir, name, Platform::Unix)
            == dir + "/"@ + name,
        name[0] != '/' && dir.len() > 0 && dir.last() == '/' ==> joined(dir, name, Platform::Unix)
            == dir + name,
        name[0] == '/' ==> joined(dir, name, Platform::Unix) == name,
        name[0] != '/' && dir.len() == 0 ==> joined(dir, name, Platform::Unix) == name,
{
    if dir.len() == 0 {
        assert(dir + name =~= name);
    }
}

proof fn lemma_dir_len(front: Seq<char>, name: Seq<char>, p: Platform)
    requires
        front.len() > 0,
        is_sep(front.last(), p),
        no_seps(name, p),
    ensures
        dir_len(front + name, p) == front.len(),
    decreases name.len(),
{
    let s = front + name;
    if name.len() == 0 {
        assert(s =~= front);
    } else {
        let t = name.drop_last();
        assert(s.last() == name[name.len() - 1]);
        assert(s.drop_last() =~= front + t);
        assert forall|i: int| 0 <= i < t.len() implies !is_sep(#[trigger] t[i], p) by {
            assert(t[i] == name[i]);
        }
        lemma_dir_len(front, t, p);
    }
}

/// The last component of a path is what stands behind its last separator.
pub proof fn law_name_stands_behind_the_last_separator(
    front: Seq<char>,
    name: Seq<char>,
    p: Platform,
)
    requires
        front.len() > 0,
        is_sep(front.last(), p),
        name.len() > 0,
        no_seps(name, p),
        name != "."@,
    ensures
        file_part(front + name, p) == name,
        file_part(front + name + "/"@, p) == name,
{
    reveal_strlit(".");
    reveal_strlit("/");
    let s = front + name;
    assert(s.last() == name[name.len() - 1]);
    if s.last() == '.' && is_sep(s[s.len() - 2], p) {
        if name.len() > 1 {
            assert(s[s.len() - 2] == name[name.len() - 2]);
        } else {
            assert(name =~= "."@);
        }
    }
    assert(bare(s, p) == s);
    lemma_dir_len(front, name, p);
    assert(s.subrange(front.len() as int, s.len() as int) =~= name);
    let t = s + "/"@;
    assert(t.drop_last() =~= s);
    assert(t.last() == '/');
}

proof fn lemma_last_dot(stem: Seq<char>, ext: Seq<char>)
    requires
        !ext.contains('.'),
    ensures
        last_dot(stem.push('.') + ext) == stem.len(),
    decreases ext.len(),
{
    let s = stem.push('.') + ext;
    if ext.len() == 0 {
        assert(s =~= stem.push('.'));
    } else {
        let t = ext.drop_last();
        assert(s.last() == ext[ext.len() - 1]);
        assert(ext[ext.len() - 1] != '.') by {
            if ext[ext.len() - 1] == '.' {
                assert(ext.contains('.'));
            }
        }
        assert(s.drop_last() =~= stem.push('.') + t);
        assert(!t.contains('.')) by {
            if t.contains('.') {
                let i = choose|i: int| 0 <= i < t.len() && t[i] == '.';
                assert(ext[i] == '.');
            }
        }
        lemma_last_dot(stem, t);
    }
}

/// The extension of a file is what stands behind the last dot of its name.
pub proof fn law_extension_stands_behind_the_last_dot(
    front: Seq<char>,
    stem: Seq<char>,
    ext: Seq<char>,
    p: Platform,
)
    requires
        front.len() > 0,
        is_sep(front.last(), p),
        stem.len() > 0,
        no_seps(stem, p),
        no_seps(ext, p),
        ext.len() > 0,
        !ext.contains('.'),
    ensures
        extension_of(front + (stem.push('.') + ext), p) == Some(ext),
{
    reveal_strlit(".");
    reveal_strlit("..");
    let name = stem.push('.') + ext;
    assert forall|i: int| 0 <= i < name.len() implies !is_sep(#[trigger] name[i], p) by {
        if i < stem.len() {
            assert(name[i] == stem[i]);
        } else if i > stem.len() {
            assert(name[i] == ext[i - stem.len() - 1]);
        }
    }
    law_name_stands_behind_the_last_separator(front, name, p);
    lemma_last_dot(stem, ext);
    assert(name.len() > 2);
    assert(name.subrange(stem.len() as int + 1, name.len() as int) =~= ext);
}

/// A path is cut at its separators.
pub proof fn law_path_is_cut_at_separators(a: Seq<char>, c: char, b: Seq<char>, p: Platform)
    requires
        is_sep(c, p),
    ensures
        pieces(a.push(c) + b, p) == pieces(a, p) + pieces(b, p),
        no_seps(a, p) ==> pieces(a, p) == seq![a],
        pieces(a, p).len() > 0,
    decreases a.len() + b.len(),
{
    lemma_pieces(a, p);
    let s = a.push(c) + b;
    if b.len() == 0 {
        assert(s =~= a.push(c));
        assert(s.drop_last() =~= a);
        assert(pieces(s, p) =~= pieces(a, p) + pieces(b, p));
    } else {
        let t = b.drop_last();
        law_path_is_cut_at_separators(a, c, t, p);
        lemma_pieces(t, p);
        assert(s.drop_last() =~= a.push(c) + t);
        assert(s.last() == b.last());
        let f = pieces(a.push(c) + t, p);
        assert(f.last() == pieces(t, p).last());
        assert(pieces(s, p) =~= pieces(a, p) + pieces(b, p));
    }
}

proof fn lemma_pieces(a: Seq<char>, p: Platform)
    ensures
        pieces(a, p).len() > 0,
        no_seps(a, p) ==> pieces(a, p) == seq![a],
    decreases a.len(),
{
    if a.len() == 0 {
        assert(a =~= Seq::<char>::empty());
    } else {
        let t = a.drop_last();
        lemma_pieces(t, p);
        if no_seps(a, p) {
            assert forall|i: int| 0 <= i < t.len() implies !is_sep(#[trigger] t[i], p) by {
                assert(t[i] == a[i]);
            }
            assert(!is_sep(a[a.len() - 1], p));
            assert(a =~= t.push(a.last()));
            assert(pieces(a, p) =~= seq![a]);
        }
    }
}

proof fn lemma_named(a: Seq<Seq<char>>, b: Seq<Seq<char>>)
    ensures
        named_only(a + b) == named_only(a) + named_only(b),
    decreases b.len(),
{
    if b.len() == 0 {
        assert(a + b =~= a);
        assert(named_only(a + b) =~= named_only(a) + named_only(b));
    } else {
        lemma_named(a, b.drop_last());
        assert((a + b).drop_last() =~= a + b.drop_last());
        assert((a + b).last() == b.last());
        assert(named_only(a + b) =~= named_only(a) + named_only(b));
    }
}

/// What stands behind a directory lies under it, and so does the directory itself; nothing
/// lies under what lies below it but as one and the same path.
pub proof fn law_below_is_under(dir: Seq<char>, rest: Seq<char>)
    requires
        dir.len() > 0,
    ensures
        is_under(dir, dir, Platform::Unix),
        is_under(dir.push('/') + rest, dir, Platform::Unix),
        is_under(dir, dir.push('/') + rest, Platform::Unix) ==> same(
            dir,
            dir.push('/') + rest,
            Platform::Unix,
        ),
{
    let p = Platform::Unix;
    let s = dir.push('/') + rest;
    law_path_is_cut_at_separators(dir, '/', rest, p);
    lemma_named(pieces(dir, p), pieces(rest, p));
    assert(pieces(s, p)[0] == pieces(dir, p)[0]);
    let a = components(s, p);
    let b = components(dir, p);
    assert(a =~= b + named_only(pieces(rest, p)));
    assert(a.subrange(0, b.len() as int) =~= b);
    assert(b.subrange(0, b.len() as int) =~= b);
    assert(s[0] == dir[0]);
    if a.len() == b.len() {
        assert(a =~= b);
    }
}

/// Separators at the end go, and nothing else does.
pub proof fn law_separators_at_the_end_go(s: Seq<char>, p: Platform)
    ensures
        trim_seps(s, p).len() <= s.len(),
        s.subrange(0, trim_seps(s, p).len() as int) == trim_seps(s, p),
        trim_seps(s, p).len() > 0 ==> !is_sep(trim_seps(s, p).last(), p),
        forall|i: int| trim_seps(s, p).len() <= i < s.len() ==> is_sep(#[trigger] s[i], p),
    decreases s.len(),
{
    if s.len() > 0 && is_sep(s.last(), p) {
        let t = s.drop_last();
        law_separators_at_the_end_go(t, p);
        let r = trim_seps(s, p);
        assert(s.subrange(0, r.len() as int) =~= t.subrange(0, r.len() as int));
        assert forall|i: int| r.len() <= i < s.len() implies is_sep(#[trigger] s[i], p) by {
            if i < s.len() - 1 {
                assert(t[i] == s[i]);
            }
        }
    } else {
        assert(s.subrange(0, s.len() as int) =~= s);
    }
}

/// A path in the home directory is put behind that, where it is known; any other stays.
pub proof fn law_home_is_filled_in(rest: Seq<char>, home: Seq<char>, path: Seq<char>, p: Platform)
    ensures
        expanded("~/"@ + rest, Some(home), p) == joined(home, rest, p),
        expanded("~\\"@ + rest, Some(home), p) == joined(home, rest, p),
        expanded(path, None, p) == path,
        path.len() == 0 || path[0] != '~' ==> expanded(path, Some(home), p) == path,
        path.len() == 1 ==> expanded(path, Some(home), p) == path,
{
    reveal_strlit("~/");
    reveal_strlit("~\\");
    let a = "~/"@ + rest;
    let b = "~\\"@ + rest;
    assert(a.subrange(0, 2) =~= "~/"@);
    assert(b.subrange(0, 2) =~= "~\\"@);
    assert(a.subrange(2, a.len() as int) =~= rest);
    assert(b.subrange(2, b.len() as int) =~= rest);
    if chars::starts_with(path, "~/"@) {
        assert(path.subrange(0, 2)[0] == '~');
    }
    if chars::starts_with(path, "~\\"@) {
        assert(path.subrange(0, 2)[0] == '~');
    }
}

/// A log is old once more days have passed than are allowed, to the millisecond.
pub proof fn law_log_gets_old(modified_ms: int, now_ms: int, max_days: int)
    ensures
        is_old(modified_ms, now_ms, max_days) <==> now_ms - modified_ms > 86400000 * max_days,
        is_old(modified_ms, now_ms, max_days) ==> is_old(modified_ms, now_ms + 1, max_days),
{
    assert(max_days * crate::infra::logging::DAY_MS == 86400000 * max_days);
}

/// On Windows a name is put behind its directory with a backslash; one with a drive of its own
/// stands for itself, one that starts at the root stays on the drive.
pub proof fn law_name_goes_behind_its_directory_on_windows(dir: Seq<char>, name: Seq<char>)
    requires
        name.len() > 0,
        dir.len() > 2,
        !is_sep(dir.last(), Platform::Windows),
    ensures
        ({
            let p = Platform::Windows;
            &&& !is_sep(name[0], p) && !has_drive(name) ==> joined(dir, name, p) == dir + "\\"@
                + name
            &&& has_drive(name) ==> joined(dir, name, p) == name
            &&& is_sep(name[0], p) && !has_server(name, p) && has_drive(dir) ==> joined(dir, name, p)
                == dir.take(2) + name
        }),
{
}

/// The directory and the name of a path make up the path.
pub proof fn law_directory_and_name_make_the_path(front: Seq<char>, name: Seq<char>, p: Platform)
    requires
        front.len() > 0,
        is_sep(front.last(), p),
        name.len() > 0,
        no_seps(name, p),
        name != "."@,
    ensures
        dir_part(front + name, p) == front,
        dir_part(front + name, p) + file_part(front + name, p) == front + name,
        front.len() > 1 && !is_sep(front[front.len() - 2], p) && !(p == Platform::Windows
            && front.len() == 3) ==> parent_of(front + name, p) == front.drop_last(),
        front.len() == 1 ==> parent_of(front + name, p) == front,
{
    reveal_strlit(".");
    law_name_stands_behind_the_last_separator(front, name, p);
    let s = front + name;
    assert(s.last() == name[name.len() - 1]);
    if s.last() == '.' && is_sep(s[s.len() - 2], p) {
        if name.len() > 1 {
            assert(s[s.len() - 2] == name[name.len() - 2]);
        } else {
            assert(name =~= "."@);
        }
    }
    assert(bare(s, p) == s);
    lemma_dir_len(front, name, p);
    assert(s.subrange(0, front.len() as int) =~= front);
    let t = front.drop_last();
    if front.len() > 1 && !is_sep(front[front.len() - 2], p) {
        assert(t.last() == front[front.len() - 2]);
        assert(trim_seps(t, p) == t);
        assert(trim_seps(front, p) == t);
    }
    if front.len() == 1 {
        assert(trim_seps(t, p) == t);
        assert(trim_seps(front, p) == t);
        assert(front.take(1) =~= front);
    }
}

/// Only the first letter becomes a small one.
pub proof fn law_first_letter_becomes_small(c: char, rest: Seq<char>)
    ensures
        small(seq![c] + rest) == seq![chars::lower_ascii(c)] + rest,
        small(Seq::empty()).len() == 0,
{
    assert(small(seq![c] + rest) =~= seq![chars::lower_ascii(c)] + rest);
}

/// A path starts with a drive just where a letter and a colon stand at its front.
pub proof fn law_drives_have_letters(c: char, rest: Seq<char>)
    ensures
        has_drive(seq![c, ':'] + rest) <==> ('a' <= c && c <= 'z') || ('A' <= c && c <= 'Z'),
        !has_drive(seq![c]),
{
}

/// The query asks for the column in the table.
pub proof fn law_query_names_table_and_column(table: Seq<char>, column: Seq<char>)
    ensures
        chars::contains(column_query(table, column), "('"@ + table + "')"@),
        chars::ends_with(column_query(table, column), "name = '"@ + column + "'"@),
{
    reveal_strlit("SELECT COUNT(*) FROM pragma_table_info('");
    reveal_strlit("('");
    reveal_strlit("') WHERE name = '");
    reveal_strlit("')");
    reveal_strlit("name = '");
    let a = "SELECT COUNT(*) FROM pragma_table_info('"@;
    let b = "') WHERE name = '"@;
    let s = column_query(table, column);
    let x = "('"@ + table + "')"@;
    let at = a.len() as int - 2;
    assert(s.subrange(at, at + x.len()) =~= x);
    assert(chars::occurs_at(s, x, at));
    let y = "name = '"@ + column + "'"@;
    assert(s.subrange(s.len() - y.len(), s.len() as int) =~= y);
}

/// The last dot is a dot, and none stands behind it.
pub proof fn law_last_dot(s: Seq<char>)
    ensures
        -1 <= last_dot(s) < s.len(),
        last_dot(s) >= 0 ==> s[last_dot(s)] == '.',
        forall|j: int| last_dot(s) < j < s.len() ==> #[trigger] s[j] != '.',
    decreases s.len(),
{
    if s.len() > 0 && s.last() != '.' {
        let t = s.drop_last();
        law_last_dot(t);
        assert forall|j: int| last_dot(s) < j < s.len() implies #[trigger] s[j] != '.' by {
            if j < t.len() {
                assert(t[j] == s[j]);
            }
        }
    }
}

/// A name has an extension where a dot stands in it behind its first character, unless it is
/// that of the directory above: a name that only begins with a dot has none.
pub proof fn law_names_with_an_extension(s: Seq<char>, p: Platform)
    ensures
        ({
            let name = file_part(s, p);
            extension_of(s, p) is Some <==> name != ".."@ && exists|j: int|
                0 < j < name.len() && #[trigger] name[j] == '.'
        }),
{
    let name = file_part(s, p);
    law_last_dot(name);
    if last_dot(name) > 0 {
        assert(name[last_dot(name)] == '.');
    }
}

/// The prefix of a path with a drive is its letter and its colon.
pub proof fn law_drive_is_the_prefix(s: Seq<char>, p: Platform)
    requires
        has_drive(s),
    ensures
        prefix_len(s, p) == 2,
        s.len() >= 2 && s[1] == ':',
{
}

} // verus!
