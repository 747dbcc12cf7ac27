//! Finding a `java` that the analyzer can run on.

use crate::chars;
use crate::infra::pathname;
use crate::infra::pathname::{joined, same, Platform};
use crate::text;
use vstd::prelude::*;

verus! {

#[derive(Debug)]
pub struct JavaInfo {
    pub path: String,
    pub major: u32,
}

/// The first line, from `i` on, that tells a version.
pub open spec fn version_line(lines: Seq<Seq<char>>, i: int) -> Option<Seq<char>>
    decreases lines.len() - i,
{
    if i < 0 || i >= lines.len() {
        None
    } else if chars::contains(lines[i], "version \""@) {
        Some(lines[i])
    } else {
        version_line(lines, i + 1)
    }
}

/// What stands behind the first `version`, up to the next one.
pub open spec fn behind_version(line: Seq<char>) -> Option<Seq<char>> {
    match chars::find(line, "version"@) {
        Some(i) => {
            let tail = line.subrange(i + "version"@.len(), line.len() as int);
            match chars::find(tail, "version"@) {
                Some(j) => Some(tail.subrange(0, j)),
                None => Some(tail),
            }
        },
        None => None,
    }
}

/// The number of a version: the part before its first dot; after `1.`, as old versions
/// have it, the digits that follow.
pub open spec fn major_of(version: Seq<char>) -> Option<u32> {
    let parts = chars::split(version, '.');
    match chars::parse_dec(parts[0], u32::MAX as nat) {
        Some(first) => if first == 1 {
            if parts.len() < 2 {
                None
            } else {
                let digits = chars::take_while(parts[1], |c: char| chars::is_digit(c));
                match chars::parse_dec(digits, u32::MAX as nat) {
                    Some(v) => if v == 0 {
                        None
                    } else {
                        Some(v as u32)
                    },
                    None => None,
                }
            }
        } else {
            Some(first as u32)
        },
        None => None,
    }
}

/// The number of the version that `java -version` tells.
pub open spec fn java_version(output: Seq<char>) -> Option<u32> {
    match version_line(chars::lines(output), 0) {
        Some(line) => match behind_version(line) {
            Some(rest) => {
                let quoted = chars::split(rest, '"');
                if quoted.len() < 2 || quoted[1].len() == 0 {
                    None
                } else {
                    major_of(quoted[1])
                }
            },
            None => None,
        },
        None => None,
    }
}

fn leading_digits<'a>(s: &'a str) -> (r: &'a str)
    ensures
        r@ == chars::take_while(s@, |c: char| chars::is_digit(c)),
{
    let v = text::to_chars(s);
    let ghost p = |c: char| chars::is_digit(c);
    let mut i: usize = 0;
    proof {
        assert(s@.skip(0) =~= s@);
        assert(s@.take(0) + chars::take_while(s@, p) =~= chars::take_while(s@, p));
    }
    while i < v.len() && text::is_digit(v[i])
        invariant
            i <= v@.len(),
            v@ == s@,
            p == |c: char| chars::is_digit(c),
            chars::take_while(s@, p) == s@.take(i as int) + chars::take_while(
                s@.skip(i as int),
                p,
            ),
        decreases v@.len() - i,
    {
        proof {
            let rest = s@.skip(i as int);
            assert(rest[0] == s@[i as int]);
            assert(rest.drop_first() =~= s@.skip(i + 1));
            assert(s@.take(i as int) + (seq![rest[0]] + chars::take_while(rest.drop_first(), p))
                =~= s@.take(i + 1) + chars::take_while(s@.skip(i + 1), p));
        }
        i = i + 1;
    }
    proof {
        let rest = s@.skip(i as int);
        if i < s@.len() {
            assert(rest[0] == s@[i as int]);
        }
        assert(s@.take(i as int) + chars::take_while(rest, p) =~= s@.subrange(0, i as int));
    }
    text::first(s, i)
}

fn parse_major(version: &str) -> (r: Option<u32>)
    ensures
        r == major_of(version@),
{
    let parts = text::split(version, '.');
    let ghost model = parts.deep_view();
    assert(model[0] == parts@[0]@);
    match text::parse_dec(parts[0].as_str(), 4294967295) {
        Some(first) => {
            if first != 1 {
                return Some(first as u32);
            }
            if parts.len() < 2 {
                return None;
            }
            assert(model[1] == parts@[1]@);
            match text::parse_dec(leading_digits(parts[1].as_str()), 4294967295) {
                Some(v) => {
                    if v == 0 {
                        None
                    } else {
                        Some(v as u32)
                    }
                },
                None => None,
            }
        },
        None => None,
    }
}

/// Reads the number of the version from what `java -version` writes.
pub fn parse_java_version(output: &str) -> (r: Option<u32>)
    ensures
        r == java_version(output@),
{
    let lines = text::lines(output);
    let ghost model = lines.deep_view();
    let mut i: usize = 0;
    while i < lines.len() && !text::contains(lines[i].as_str(), "version \"")
        invariant
            i <= lines@.len(),
            model == lines.deep_view(),
            version_line(model, 0) == version_line(model, i as int),
        decreases lines@.len() - i,
    {
        assert(model[i as int] == lines@[i as int]@);
        i = i + 1;
    }
    if i >= lines.len() {
        return None;
    }
    assert(model[i as int] == lines@[i as int]@);
    let line = lines[i].as_str();
    proof {
        reveal_strlit("version");
    }
    let n: usize = line.unicode_len();
    let tail = match text::find(line, "version") {
        Some(k) => line.substring_char(k + 7, n),
        None => {
            return None;
        },
    };
    let rest = match text::find(tail, "version") {
        Some(k) => tail.substring_char(0, k),
        None => tail,
    };
    let quoted = text::split(rest, '"');
    let ghost marks = quoted.deep_view();
    if quoted.len() < 2 {
        return None;
    }
    assert(marks[1] == quoted@[1]@);
    if quoted[1].as_str().unicode_len() == 0 {
        return None;
    }
    parse_major(quoted[1].as_str())
}

/// The `java` of a JDK or JRE that is installed in this directory.
pub open spec fn java_in(home: Seq<char>, p: Platform) -> Seq<char> {
    joined(
        joined(home, "bin"@, p),
        if p == Platform::Windows {
            "java.exe"@
        } else {
            "java"@
        },
        p,
    )
}

pub fn java_home_exe(home: &str, p: Platform) -> (r: String)
    ensures
        r@ == java_in(home@, p),
{
    let bin = pathname::join(home, "bin", p);
    let exe = match p {
        Platform::Windows => "java.exe",
        Platform::Unix => "java",
    };
    pathname::join(bin.as_str(), exe, p)
}

/// The places to try: the `java` of `JAVA_HOME`, where that file is there, before the one
/// that is found by its name. None is tried twice.
pub fn java_candidates(
    java_home: Option<&str>,
    present: bool,
    on_path: Option<&str>,
    p: Platform,
) -> (r: Vec<String>)
    ensures
        ({
            let first = if java_home is Some && present {
                seq![java_in(java_home->0@, p)]
            } else {
                Seq::empty()
            };
            r.deep_view() == (match on_path {
                Some(path) => if first.len() > 0 && same(first[0], path@, p) {
                    first
                } else {
                    first.push(path@)
                },
                None => first,
            })
        }),
{
    let mut out: Vec<String> = Vec::new();
    let ghost mut first = Seq::<Seq<char>>::empty();
    match java_home {
        Some(home) => {
            if present {
                out.push(java_home_exe(home, p));
                proof {
                    first = seq![java_in(home@, p)];
                }
            }
        },
        None => {},
    }
    assert(out.deep_view() =~= first);
    match on_path {
        Some(path) => {
            let known = out.len() > 0 && pathname::same_path(out[0].as_str(), path, p);
            assert(out@.len() > 0 ==> first[0] == out@[0]@);
            if !known {
                out.push(text::owned(path));
                assert(out.deep_view() =~= first.push(path@));
            }
        },
        None => {},
    }
    out
}

/// The least version that will do.
pub const LEAST_JAVA: u32 = 21;

/// What running `java -version` at a place came to: what it wrote, or why it did not run.
#[derive(Debug)]
pub struct JavaProbe {
    pub path: String,
    pub output: Result<String, String>,
}

/// Why a place will not do; `None` where it will.
pub open spec fn reason_against(p: JavaProbe) -> Option<Seq<char>> {
    match p.output {
        Ok(output) => match java_version(output@) {
            Some(v) => if v >= LEAST_JAVA {
                None
            } else {
                Some(
                    "找到 "@ + p.path@ + " 但为 Java "@ + chars::dec(v as nat) + "，需要 21+"@,
                )
            },
            None => Some("无法解析 "@ + p.path@ + " 的版本输出"@),
        },
        Err(e) => Some("执行 "@ + p.path@ + " -version 失败: "@ + e@),
    }
}

/// Judges a place.
pub fn judge(p: &JavaProbe) -> (r: Result<JavaInfo, String>)
    ensures
        match reason_against(*p) {
            None => r is Ok && r->Ok_0.path@ == p.path@ && java_version(p.output->Ok_0@) == Some(
                r->Ok_0.major,
            ),
            Some(e) => r is Err && r->Err_0@ == e,
        },
{
    match &p.output {
        Ok(output) => {
            match parse_java_version(output.as_str()) {
                Some(v) => {
                    if v >= LEAST_JAVA {
                        Ok(JavaInfo { path: p.path.clone(), major: v })
                    } else {
                        let mut e = text::owned("找到 ");
                        e.append(p.path.as_str());
                        e.append(" 但为 Java ");
                        e.append(text::dec(v as u64).as_str());
                        e.append("，需要 21+");
                        Err(e)
                    }
                },
                None => {
                    let mut e = text::owned("无法解析 ");
                    e.append(p.path.as_str());
                    e.append(" 的版本输出");
                    Err(e)
                },
            }
        },
        Err(m) => {
            let mut e = text::owned("执行 ");
            e.append(p.path.as_str());
            e.append(" -version 失败: ");
            e.append(m.as_str());
            Err(e)
        },
    }
}

/// The first place, from `i` on, that will do.
pub open spec fn first_good(probes: Seq<JavaProbe>, i: int) -> Option<int>
    decreases probes.len() - i,
{
    if i < 0 || i >= probes.len() {
        None
    } else if reason_against(probes[i]) is None {
        Some(i)
    } else {
        first_good(probes, i + 1)
    }
}

/// What is said where there is no place to try.
pub open spec fn no_java() -> Seq<char> {
    "未找到 java 可执行文件（已检查 JAVA_HOME 与 PATH）"@
}

/// The first place that will do; else what speaks against the last one.
pub fn detect_java(probes: &Vec<JavaProbe>) -> (r: Result<JavaInfo, String>)
    ensures
        match first_good(probes@, 0) {
            Some(i) => r is Ok && r->Ok_0.path@ == probes@[i].path@ && java_version(
                probes@[i].output->Ok_0@,
            ) == Some(r->Ok_0.major),
            None => r is Err && r->Err_0@ == (if probes@.len() == 0 {
                no_java()
            } else {
                reason_against(probes@.last())->0
            }),
        },
{
    let mut last_err = text::owned("未找到 java 可执行文件（已检查 JAVA_HOME 与 PATH）");
    let mut i: usize = 0;
    while i < probes.len()
        invariant
            i <= probes@.len(),
            first_good(probes@, 0) == first_good(probes@, i as int),
            last_err@ == (if i == 0 {
                no_java()
            } else {
                reason_against(probes@[i - 1])->0
            }),
        decreases probes@.len() - i,
    {
        match judge(&probes[i]) {
            Ok(info) => {
                return Ok(info);
            },
            Err(e) => {
                last_err = e;
            },
        }
        i = i + 1;
    }
    Err(last_err)
}

} // verus!
