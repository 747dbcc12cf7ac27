//! Settings of the assistant.

use crate::chars;
use crate::text;
use vstd::prelude::*;

verus! {

pub const KEY_ARTIFACTORY_BASE_URL: &'static str = "artifactory_base_url";

pub const DEFAULT_ARTIFACTORY_BASE_URL: &'static str =
    "https://cmc-szver-artifactory.cmc.tools.huawei.com/artifactory/cmc-software-release";

pub const KEY_AUTO_APPROVE_TOOLS: &'static str = "auto_approve_tools";

/// A character that a base URL may have.
pub open spec fn url_char(c: char) -> bool {
    ||| '0' <= c <= '9'
    ||| 'a' <= c <= 'z'
    ||| 'A' <= c <= 'Z'
    ||| c == ':'
    ||| c == '/'
    ||| c == '.'
    ||| c == '-'
    ||| c == '_'
    ||| c == '~'
    ||| c == '+'
}

pub open spec fn all_url_chars(s: Seq<char>) -> bool {
    forall|i: int| 0 <= i < s.len() ==> url_char(#[trigger] s[i])
}

/// The URL without white space at its ends and without slashes at its end.
pub open spec fn bare_url(input: Seq<char>) -> Seq<char> {
    chars::trim_end_char(chars::trim(input), '/')
}

/// The base URL in its normal form, or what is wrong with it.
pub open spec fn normal_url(input: Seq<char>) -> Result<Seq<char>, Seq<char>> {
    let url = bare_url(input);
    if url.len() == 0 {
        Err("base url cannot be empty"@)
    } else if !chars::starts_with(url, "http://"@) && !chars::starts_with(url, "https://"@) {
        Err("base url must start with http:// or https://"@)
    } else if !all_url_chars(url) {
        Err(
            "base url contains unsupported characters (allowed: alphanumerics and : / . - _ ~ +)"@,
        )
    } else {
        Ok(url)
    }
}

pub open spec fn result_view(r: Result<String, String>) -> Result<Seq<char>, Seq<char>> {
    match r {
        Ok(s) => Ok(s@),
        Err(e) => Err(e@),
    }
}

fn is_url_char(c: char) -> (r: bool)
    ensures
        r == url_char(c),
{
    (c >= '0' && c <= '9') || (c >= 'a' && c <= 'z') || (c >= 'A' && c <= 'Z') || c == ':' || c
        == '/' || c == '.' || c == '-' || c == '_' || c == '~' || c == '+'
}

/// Checks a base URL and brings it into its normal form.
pub fn normalize_base_url(input: &str) -> (r: Result<String, String>)
    ensures
        result_view(r) == normal_url(input@),
{
    let url = text::trim_end_char(text::trim(input), '/');
    if url.is_empty() {
        return Err(text::owned("base url cannot be empty"));
    }
    if !text::starts_with(url, "http://") && !text::starts_with(url, "https://") {
        return Err(text::owned("base url must start with http:// or https://"));
    }
    let v = text::to_chars(url);
    let mut i: usize = 0;
    while i < v.len()
        invariant
            i <= v@.len(),
            v@ == url@,
            url@ == bare_url(input@),
            url@.len() > 0,
            chars::starts_with(url@, "http://"@) || chars::starts_with(url@, "https://"@),
            forall|k: int| 0 <= k < i ==> url_char(#[trigger] url@[k]),
        decreases v@.len() - i,
    {
        if !is_url_char(v[i]) {
            assert(!url_char(url@[i as int]));
            return Err(
                text::owned(
                    "base url contains unsupported characters (allowed: alphanumerics and : / . - _ ~ +)",
                ),
            );
        }
        i = i + 1;
    }
    Ok(text::owned(url))
}

proof fn lemma_bare(s: Seq<char>)
    ensures
        chars::trim_end_char(s, '/').len() > 0 ==> chars::trim_end_char(s, '/').last() != '/',
    decreases s.len(),
{
    if s.len() > 0 && s.last() == '/' {
        lemma_bare(s.drop_last());
    }
}

/// The normal form of a base URL is its own normal form.
pub proof fn law_normal_url_is_stable(input: Seq<char>)
    requires
        normal_url(input) is Ok,
    ensures
        normal_url(normal_url(input)->Ok_0) == normal_url(input),
{
    let url = normal_url(input)->Ok_0;
    lemma_bare(chars::trim(input));
    assert(url_char(url[0]) && url_char(url[url.len() - 1]));
    assert(chars::trim_start(url) == url);
    assert(chars::trim_end(url) == url);
    assert(bare_url(url) == url);
}

/// One setting as it is stored.
#[derive(Debug)]
pub struct Setting {
    pub key: String,
    pub value: String,
    pub updated_at: String,
}

#[verifier::ext_equal]
pub struct SettingModel {
    pub key: Seq<char>,
    pub value: Seq<char>,
    pub updated_at: Seq<char>,
}

impl View for Setting {
    type V = SettingModel;

    open spec fn view(&self) -> SettingModel {
        SettingModel { key: self.key@, value: self.value@, updated_at: self.updated_at@ }
    }
}

pub open spec fn settings(s: Seq<Setting>) -> Seq<SettingModel> {
    s.map_values(|r: Setting| r@)
}

/// No key occurs twice.
pub open spec fn keys_apart(rows: Seq<SettingModel>) -> bool {
    forall|i: int, j: int|
        0 <= i < j < rows.len() ==> (#[trigger] rows[i]).key != (#[trigger] rows[j]).key
}

/// The row of the first setting with this key, from `i` on; behind the last without one.
pub open spec fn row_of(rows: Seq<SettingModel>, key: Seq<char>, i: int) -> int
    decreases rows.len() - i,
{
    if i < 0 || i >= rows.len() || rows[i].key == key {
        i
    } else {
        row_of(rows, key, i + 1)
    }
}

/// The value of a setting.
pub open spec fn value_of(rows: Seq<SettingModel>, key: Seq<char>) -> Option<Seq<char>> {
    let at = row_of(rows, key, 0);
    if at < rows.len() {
        Some(rows[at].value)
    } else {
        None
    }
}

/// The settings with one of them set: in its row, or in a new one.
pub open spec fn with_setting(
    rows: Seq<SettingModel>,
    key: Seq<char>,
    value: Seq<char>,
    now: Seq<char>,
) -> Seq<SettingModel> {
    let at = row_of(rows, key, 0);
    let row = SettingModel { key, value, updated_at: now };
    if at < rows.len() {
        rows.update(at, row)
    } else {
        rows.push(row)
    }
}

fn find(rows: &Vec<Setting>, key: &str) -> (r: usize)
    ensures
        r == row_of(settings(rows@), key@, 0),
        r <= rows@.len(),
        r < rows@.len() ==> rows@[r as int].key@ == key@,
{
    let ghost all = settings(rows@);
    let mut i: usize = 0;
    while i < rows.len()
        invariant
            i <= rows@.len(),
            all == settings(rows@),
            row_of(all, key@, 0) == row_of(all, key@, i as int),
        decreases rows@.len() - i,
    {
        assert(all[i as int] == rows@[i as int]@);
        if text::same(rows[i].key.as_str(), key) {
            return i;
        }
        i = i + 1;
    }
    i
}

/// The value of a setting, where it is set.
pub fn get_setting(rows: &Vec<Setting>, key: &str) -> (r: Option<String>)
    ensures
        r.deep_view() == value_of(settings(rows@), key@),
{
    let i = find(rows, key);
    if i < rows.len() {
        assert(settings(rows@)[i as int] == rows@[i as int]@);
        Some(rows[i].value.clone())
    } else {
        None
    }
}

/// Sets a setting, whether it was set before or not.
pub fn set_setting(rows: &mut Vec<Setting>, key: &str, value: &str, now: &str)
    ensures
        settings(final(rows)@) == with_setting(settings(old(rows)@), key@, value@, now@),
{
    let ghost all = settings(rows@);
    let i = find(rows, key);
    if i < rows.len() {
        rows[i].value = text::owned(value);
        rows[i].updated_at = text::owned(now);
    } else {
        rows.push(
            Setting {
                key: text::owned(key),
                value: text::owned(value),
                updated_at: text::owned(now),
            },
        );
    }
    assert(settings(rows@) =~= with_setting(all, key@, value@, now@));
}

proof fn lemma_row_of(rows: Seq<SettingModel>, key: Seq<char>, i: int)
    requires
        0 <= i <= rows.len(),
    ensures
        i <= row_of(rows, key, i) <= rows.len(),
        row_of(rows, key, i) < rows.len() ==> rows[row_of(rows, key, i)].key == key,
        forall|k: int| i <= k < row_of(rows, key, i) ==> (#[trigger] rows[k]).key != key,
    decreases rows.len() - i,
{
    if i < rows.len() && rows[i].key != key {
        lemma_row_of(rows, key, i + 1);
    }
}

/// A row that has the key, with none before it that does, is the one that is found.
proof fn lemma_row_is(rows: Seq<SettingModel>, key: Seq<char>, i: int, at: int)
    requires
        0 <= i <= at <= rows.len(),
        at < rows.len() ==> rows[at].key == key,
        forall|k: int| i <= k < at ==> (#[trigger] rows[k]).key != key,
    ensures
        row_of(rows, key, i) == at,
    decreases at - i,
{
    if i < at {
        lemma_row_is(rows, key, i + 1, at);
    }
}

/// What is set is read back. Every other setting stays, and no key comes to occur twice.
pub proof fn law_setting_reads_back(
    rows: Seq<SettingModel>,
    key: Seq<char>,
    value: Seq<char>,
    now: Seq<char>,
    other: Seq<char>,
)
    ensures
        value_of(with_setting(rows, key, value, now), key) == Some(value),
        other != key ==> value_of(with_setting(rows, key, value, now), other) == value_of(
            rows,
            other,
        ),
        keys_apart(rows) ==> keys_apart(with_setting(rows, key, value, now)),
{
    let at = row_of(rows, key, 0);
    let o = row_of(rows, other, 0);
    let next = with_setting(rows, key, value, now);
    lemma_row_of(rows, key, 0);
    lemma_row_of(rows, other, 0);
    lemma_row_is(next, key, 0, at);
    if other != key && o < rows.len() {
        lemma_row_is(next, other, 0, o);
    } else if other != key {
        lemma_row_is(next, other, 0, next.len() as int);
    }
}

/// The base URL that is set, or the default.
pub fn artifactory_base_url(rows: &Vec<Setting>) -> (r: String)
    ensures
        r@ == match value_of(settings(rows@), KEY_ARTIFACTORY_BASE_URL@) {
            Some(url) => url,
            None => DEFAULT_ARTIFACTORY_BASE_URL@,
        },
{
    match get_setting(rows, KEY_ARTIFACTORY_BASE_URL) {
        Some(url) => url,
        None => text::owned(DEFAULT_ARTIFACTORY_BASE_URL),
    }
}

/// Sets the base URL, in its normal form. One that has none is refused.
pub fn set_artifactory_base_url_cmd(rows: &mut Vec<Setting>, url: &str, now: &str) -> (r: Result<
    (),
    String,
>)
    ensures
        match normal_url(url@) {
            Ok(u) => r is Ok && settings(final(rows)@) == with_setting(
                settings(old(rows)@),
                KEY_ARTIFACTORY_BASE_URL@,
                u,
                now@,
            ),
            Err(e) => r is Err && r->Err_0@ == e && final(rows)@ == old(rows)@,
        },
{
    match normalize_base_url(url) {
        Ok(u) => {
            set_setting(rows, KEY_ARTIFACTORY_BASE_URL, u.as_str(), now);
            Ok(())
        },
        Err(e) => Err(e),
    }
}

/// A base URL that is set is read back in its normal form.
pub proof fn law_base_url_reads_back(rows: Seq<SettingModel>, url: Seq<char>, now: Seq<char>)
    requires
        normal_url(url) is Ok,
    ensures
        value_of(
            with_setting(rows, KEY_ARTIFACTORY_BASE_URL@, normal_url(url)->Ok_0, now),
            KEY_ARTIFACTORY_BASE_URL@,
        ) == Some(normal_url(url)->Ok_0),
{
    let key = KEY_ARTIFACTORY_BASE_URL@;
    law_setting_reads_back(rows, key, normal_url(url)->Ok_0, now, key);
}

/// Whether tools run without being confirmed. Only the value `true` says so: a setting
/// that is missing or unknown, or settings that cannot be read, say no.
pub fn auto_approve_tools(rows: &Result<Vec<Setting>, String>) -> (r: bool)
    ensures
        r == match rows {
            Ok(rows) => value_of(settings(rows@), KEY_AUTO_APPROVE_TOOLS@) == Some("true"@),
            Err(_) => false,
        },
{
    match rows {
        Ok(rows) => match get_setting(rows, KEY_AUTO_APPROVE_TOOLS) {
            Some(v) => text::same(v.as_str(), "true"),
            None => false,
        },
        Err(_) => false,
    }
}

/// The value that is stored for the switch.
pub open spec fn switch_value(enabled: bool) -> Seq<char> {
    if enabled {
        "true"@
    } else {
        "false"@
    }
}

/// Stores the switch.
pub fn set_auto_approve_tools_cmd(rows: &mut Vec<Setting>, enabled: bool, now: &str)
    ensures
        settings(final(rows)@) == with_setting(
            settings(old(rows)@),
            KEY_AUTO_APPROVE_TOOLS@,
            switch_value(enabled),
            now@,
        ),
{
    let value = if enabled {
        "true"
    } else {
        "false"
    };
    set_setting(rows, KEY_AUTO_APPROVE_TOOLS, value, now);
}

/// What is stored for the switch is read back as it was set.
pub proof fn law_switch_reads_back(rows: Seq<SettingModel>, enabled: bool, now: Seq<char>)
    ensures
        (value_of(
            with_setting(rows, KEY_AUTO_APPROVE_TOOLS@, switch_value(enabled), now),
            KEY_AUTO_APPROVE_TOOLS@,
        ) == Some("true"@)) == enabled,
{
    let key = KEY_AUTO_APPROVE_TOOLS@;
    law_setting_reads_back(rows, key, switch_value(enabled), now, key);
    reveal_strlit("true");
    reveal_strlit("false");
    assert("true"@.len() == 4 && "false"@.len() == 5);
}

} // verus!
