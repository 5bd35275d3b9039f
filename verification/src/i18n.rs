//! Shell localisation.
//!
//! The shell follows DSH's own `locale.preference` from `settings.yaml`, the
//! same document it reads its configuration from. Strings are held in a struct
//! rather than looked up by key, so a missing translation is a compile error
//! instead of a blank label at runtime.

use crate::document;
use crate::text;
use vstd::prelude::*;

verus! {

/// The languages the shell speaks.
#[derive(Debug, Clone, Copy, PartialEq, Eq, Structural)]
pub enum Locale {
    Zh,
    En,
}

impl Default for Locale {
    /// English, because a machine with no DSH home has no stated preference and
    /// English is the safer default for an unknown reader.
    fn default() -> (locale: Self)
        ensures
            locale == Locale::En,
    {
        Locale::En
    }
}

/// What stands before the first `-` or `_`.
pub open spec fn primary_subtag(id: Seq<char>) -> Seq<char>
    decreases id.len(),
{
    if id.len() == 0 || id[0] == '-' || id[0] == '_' {
        Seq::<char>::empty()
    } else {
        seq![id[0]] + primary_subtag(id.skip(1))
    }
}

/// The locale a DSH locale id names, a region suffix (`zh-CN`, `en_US`) set
/// aside.
pub open spec fn locale_named(id: Seq<char>) -> Option<Locale> {
    let primary = text::lowered(primary_subtag(text::trimmed(id)));
    if primary == "zh"@ {
        Some(Locale::Zh)
    } else if primary == "en"@ {
        Some(Locale::En)
    } else {
        None
    }
}

/// The text under `key` in the section `section` of a settings document.
pub open spec fn setting(document: Option<document::Tree>, section: Seq<char>, key: Seq<char>) -> Option<
    Seq<char>,
> {
    match document {
        Some(tree) => match document::member(tree, section) {
            Some(inner) => match document::member(inner, key) {
                Some(document::Tree::Text(s)) => Some(s),
                _ => None,
            },
            None => None,
        },
        None => None,
    }
}

/// The text under `key` in the section `section` of a settings document.
pub fn read_setting(yaml: &str, section: &str, key: &str) -> (value: Option<String>)
    ensures
        text::held(value) == setting(document::yaml_parsed(yaml@), section@, key@),
{
    match document::parse_yaml(yaml) {
        Some(root) => match document::yaml_get(&root, section) {
            Some(inner) => match document::yaml_get(inner, key) {
                Some(value) => document::yaml_text(value),
                None => None,
            },
            None => None,
        },
        None => None,
    }
}

fn primary(id: &str) -> (subtag: String)
    ensures
        subtag@ == primary_subtag(id@),
{
    let v = text::chars_of(id);
    let mut i: usize = 0;
    assert(v@.skip(0) == v@);
    assert(v@.take(0) + primary_subtag(v@) =~= primary_subtag(v@));
    while i < v.len() && v[i] != '-' && v[i] != '_'
        invariant
            i <= v@.len(),
            v@.take(i as int) + primary_subtag(v@.skip(i as int)) == primary_subtag(v@),
        decreases v@.len() - i,
    {
        let ghost rest = v@.skip(i as int);
        assert(rest.skip(1) == v@.skip(i + 1));
        assert(v@.take(i + 1) == v@.take(i as int).push(v@[i as int]));
        assert(v@.take(i as int) + (seq![rest[0]] + primary_subtag(rest.skip(1))) =~= v@.take(i + 1)
            + primary_subtag(v@.skip(i + 1)));
        i += 1;
    }
    assert(v@.take(i as int) + primary_subtag(v@.skip(i as int)) =~= v@.take(i as int));
    assert(v@.subrange(0, i as int) == v@.take(i as int));
    text::slice(&v, 0, i)
}

impl Locale {
    /// Parse a DSH locale id, tolerating a region suffix (`zh-CN`, `en_US`).
    pub fn parse(id: &str) -> (locale: Option<Locale>)
        ensures
            locale == locale_named(id@),
    {
        let trimmed = text::trim(id);
        let subtag = primary(trimmed.as_str());
        let name = text::lower(subtag.as_str());
        if text::same(name.as_str(), "zh") {
            Some(Locale::Zh)
        } else if text::same(name.as_str(), "en") {
            Some(Locale::En)
        } else {
            None
        }
    }

    /// Read DSH's `locale.preference` from the settings document.
    pub fn from_settings_yaml(yaml: &str) -> (locale: Option<Locale>)
        ensures
            locale == (match setting(
                document::yaml_parsed(yaml@),
                "locale"@,
                "preference"@,
            ) {
                Some(preference) => locale_named(preference),
                None => None,
            }),
    {
        match read_setting(yaml, "locale", "preference") {
            Some(preference) => Locale::parse(preference.as_str()),
            None => None,
        }
    }

    /// The strings of this language.
    pub fn strings(self) -> (strings: Strings)
        ensures
            strings == strings_of(self),
    {
        match self {
            Locale::En => Strings {
                show_window: "Show Window",
                settings: "Settings…",
                check_for_updates: "Check for DSH Updates…",
                quit: "Quit",
                agent_prefix: "Agent",
                agent_idle: "idle",
                agent_working: "working",
                agent_failed: "failed",
                menu_edit: "Edit",
                menu_view: "View",
                menu_window: "Window",
                menu_about: "About {app}",
                menu_hide: "Hide {app}",
                menu_reload: "Reload",
                menu_close_window: "Close Window",
                notify_finished: "DSH: {session} finished",
                notify_failed: "DSH: {session} failed",
                notify_done: "The agent is done.",
                notify_errored: "The agent hit an error.",
                notify_stopped: "Stopped: {reason}",
                notification_app: "DSH Shell",
                settings_window_title: "DSH Shell Settings",
                boot_failed: "Could not start the local runtime",
            },
            Locale::Zh => Strings {
                show_window: "显示窗口",
                settings: "设置…",
                check_for_updates: "检查 DSH 更新…",
                quit: "退出",
                agent_prefix: "代理",
                agent_idle: "空闲",
                agent_working: "工作中",
                agent_failed: "失败",
                menu_edit: "编辑",
                menu_view: "显示",
                menu_window: "窗口",
                menu_about: "关于 {app}",
                menu_hide: "隐藏 {app}",
                menu_reload: "重新加载",
                menu_close_window: "关闭窗口",
                notify_finished: "DSH：{session} 已完成",
                notify_failed: "DSH：{session} 失败",
                notify_done: "代理已完成。",
                notify_errored: "代理遇到错误。",
                notify_stopped: "已停止：{reason}",
                notification_app: "DSH Shell",
                settings_window_title: "DSH Shell 设置",
                boot_failed: "无法启动本地运行时",
            },
        }
    }

    /// The id the pages receive, matching DSH's own vocabulary.
    pub fn id(self) -> (id: &'static str)
        ensures
            id@ == locale_id(self),
    {
        match self {
            Locale::En => "en",
            Locale::Zh => "zh",
        }
    }
}

/// The id of a locale.
pub open spec fn locale_id(locale: Locale) -> Seq<char> {
    match locale {
        Locale::En => "en"@,
        Locale::Zh => "zh"@,
    }
}

/// Every string the native chrome needs.
#[derive(Debug, Clone, Copy)]
pub struct Strings {
    // Tray
    pub show_window: &'static str,
    pub settings: &'static str,
    pub check_for_updates: &'static str,
    pub quit: &'static str,
    pub agent_prefix: &'static str,
    pub agent_idle: &'static str,
    pub agent_working: &'static str,
    pub agent_failed: &'static str,
    // Application menu
    pub menu_edit: &'static str,
    pub menu_view: &'static str,
    pub menu_window: &'static str,
    pub menu_about: &'static str,
    pub menu_hide: &'static str,
    pub menu_reload: &'static str,
    pub menu_close_window: &'static str,
    // Notifications
    pub notify_finished: &'static str,
    pub notify_failed: &'static str,
    pub notify_done: &'static str,
    pub notify_errored: &'static str,
    pub notify_stopped: &'static str,
    pub notification_app: &'static str,
    // Windows
    pub settings_window_title: &'static str,
    // Boot screen
    pub boot_failed: &'static str,
}

/// The strings of each language.
pub open spec fn strings_of(locale: Locale) -> Strings {
    match locale {
        Locale::En => Strings {
            show_window: "Show Window",
            settings: "Settings…",
            check_for_updates: "Check for DSH Updates…",
            quit: "Quit",
            agent_prefix: "Agent",
            agent_idle: "idle",
            agent_working: "working",
            agent_failed: "failed",
            menu_edit: "Edit",
            menu_view: "View",
            menu_window: "Window",
            menu_about: "About {app}",
            menu_hide: "Hide {app}",
            menu_reload: "Reload",
            menu_close_window: "Close Window",
            notify_finished: "DSH: {session} finished",
            notify_failed: "DSH: {session} failed",
            notify_done: "The agent is done.",
            notify_errored: "The agent hit an error.",
            notify_stopped: "Stopped: {reason}",
            notification_app: "DSH Shell",
            settings_window_title: "DSH Shell Settings",
            boot_failed: "Could not start the local runtime",
        },
        Locale::Zh => Strings {
            show_window: "显示窗口",
            settings: "设置…",
            check_for_updates: "检查 DSH 更新…",
            quit: "退出",
            agent_prefix: "代理",
            agent_idle: "空闲",
            agent_working: "工作中",
            agent_failed: "失败",
            menu_edit: "编辑",
            menu_view: "显示",
            menu_window: "窗口",
            menu_about: "关于 {app}",
            menu_hide: "隐藏 {app}",
            menu_reload: "重新加载",
            menu_close_window: "关闭窗口",
            notify_finished: "DSH：{session} 已完成",
            notify_failed: "DSH：{session} 失败",
            notify_done: "代理已完成。",
            notify_errored: "代理遇到错误。",
            notify_stopped: "已停止：{reason}",
            notification_app: "DSH Shell",
            settings_window_title: "DSH Shell 设置",
            boot_failed: "无法启动本地运行时",
        },
    }
}

/// A placeholder as it stands in a template.
pub open spec fn placeholder(key: Seq<char>) -> Seq<char> {
    seq!['{'] + key + seq!['}']
}

/// Fill a `{placeholder}` in a template.
///
/// A missing placeholder leaves the template visible rather than failing.
pub fn fill(template: &str, key: &str, value: &str) -> (filled: String)
    ensures
        filled@ == text::replaced(template@, placeholder(key@), value@),
{
    let mut pattern = String::new();
    pattern.push('{');
    pattern.append(key);
    pattern.push('}');
    assert(pattern@ =~= placeholder(key@));
    text::replace(template, pattern.as_str(), value)
}

// --------------------------------------------------------------------- laws

/// Whether a template has a place for `key`.
pub open spec fn has_place(template: &str, key: &str) -> bool {
    text::position(template@, placeholder(key@)) is Some
}

proof fn lemma_has_place(template: &str, key: &str, at: int)
    requires
        text::occurs_at(template@, placeholder(key@), at),
    ensures
        has_place(template, key),
{
    text::lemma_find(template@, placeholder(key@), 0);
}

/// Every template keeps its placeholder in every language: a translation that
/// dropped it would silently lose the identifying part of the message.
pub proof fn templates_keep_their_placeholders(locale: Locale)
    ensures
        has_place(strings_of(locale).notify_finished, "session"),
        has_place(strings_of(locale).notify_failed, "session"),
        has_place(strings_of(locale).notify_stopped, "reason"),
        has_place(strings_of(locale).menu_about, "app"),
        has_place(strings_of(locale).menu_hide, "app"),
{
    reveal_strlit("session");
    reveal_strlit("reason");
    reveal_strlit("app");
    let s = strings_of(locale);
    match locale {
        Locale::En => {
            reveal_strlit("DSH: {session} finished");
            reveal_strlit("DSH: {session} failed");
            reveal_strlit("Stopped: {reason}");
            reveal_strlit("About {app}");
            reveal_strlit("Hide {app}");
            assert(s.notify_finished@.subrange(5, 14) =~= placeholder("session"@));
            assert(s.notify_failed@.subrange(5, 14) =~= placeholder("session"@));
            assert(s.notify_stopped@.subrange(9, 17) =~= placeholder("reason"@));
            assert(s.menu_about@.subrange(6, 11) =~= placeholder("app"@));
            assert(s.menu_hide@.subrange(5, 10) =~= placeholder("app"@));
            lemma_has_place(s.notify_finished, "session", 5);
            lemma_has_place(s.notify_failed, "session", 5);
            lemma_has_place(s.notify_stopped, "reason", 9);
            lemma_has_place(s.menu_about, "app", 6);
            lemma_has_place(s.menu_hide, "app", 5);
        },
        Locale::Zh => {
            reveal_strlit("DSH：{session} 已完成");
            reveal_strlit("DSH：{session} 失败");
            reveal_strlit("已停止：{reason}");
            reveal_strlit("关于 {app}");
            reveal_strlit("隐藏 {app}");
            assert(s.notify_finished@.subrange(4, 13) =~= placeholder("session"@));
            assert(s.notify_failed@.subrange(4, 13) =~= placeholder("session"@));
            assert(s.notify_stopped@.subrange(4, 12) =~= placeholder("reason"@));
            assert(s.menu_about@.subrange(3, 8) =~= placeholder("app"@));
            assert(s.menu_hide@.subrange(3, 8) =~= placeholder("app"@));
            lemma_has_place(s.notify_finished, "session", 4);
            lemma_has_place(s.notify_failed, "session", 4);
            lemma_has_place(s.notify_stopped, "reason", 4);
            lemma_has_place(s.menu_about, "app", 3);
            lemma_has_place(s.menu_hide, "app", 3);
        },
    }
}

/// A locale's id names the locale.
pub proof fn locale_ids_round_trip(locale: Locale)
    ensures
        locale_named(locale_id(locale)) == Some(locale),
{
    reveal_strlit("en");
    reveal_strlit("zh");
    let id = locale_id(locale);
    assert(text::trimmed(id) == id);
    reveal_with_fuel(primary_subtag, 3);
    assert(id.skip(1).skip(1) =~= Seq::<char>::empty());
    assert(primary_subtag(id) =~= id);
    assert(text::lowered(id) =~= id);
    assert("en"@[0] == 'e' && "zh"@[0] == 'z');
}

/// Filling a template that has one place for a value puts the value there and leaves the
/// rest as it is; a template without the place stays as it is.
pub proof fn values_fill_their_place(
    template: Seq<char>,
    front: Seq<char>,
    key: Seq<char>,
    back: Seq<char>,
    value: Seq<char>,
)
    requires
        !front.contains('{'),
        !back.contains('{'),
    ensures
        template == front + seq!['{'] + key + seq!['}'] + back ==> text::replaced(
            template,
            placeholder(key),
            value,
        ) == front + value + back,
        template == front ==> text::replaced(template, placeholder(key), value) == template,
{
    let pat = placeholder(key);
    assert(pat.len() > 0 && pat[0] == '{');
    lemma_no_place(front, pat);
    lemma_no_place(back, pat);
    text::every_place_is_replaced(front, pat, value, 0);
    text::every_place_is_replaced(back, pat, value, 0);
    if template == front + seq!['{'] + key + seq!['}'] + back {
        let i = front.len() as int;
        assert(template.subrange(i, i + pat.len()) =~= pat);
        assert(text::occurs_at(template, pat, i));
        assert forall|j: int| 0 <= j < i implies !text::occurs_at(template, pat, j) by {
            if text::occurs_at(template, pat, j) {
                assert(template.subrange(j, j + pat.len())[0] == template[j]);
                assert(template[j] == front[j]);
                assert(front.contains(front[j]));
            }
        }
        text::lemma_found(template, pat, 0, i);
        text::every_place_is_replaced(template, pat, value, i);
        assert(template.take(i) =~= front);
        assert(template.skip(i + pat.len()) =~= back);
    }
}

proof fn lemma_no_place(s: Seq<char>, pat: Seq<char>)
    requires
        pat.len() > 0,
        !s.contains(pat[0]),
    ensures
        text::position(s, pat) is None,
{
    text::lemma_find(s, pat, 0);
    if let Some(i) = text::position(s, pat) {
        assert(s.subrange(i, i + pat.len())[0] == s[i]);
        assert(s.contains(s[i]));
    }
}

/// Which ids name a language: those whose part before the first dash or underscore is `zh`
/// or `en`, in letters of either case and with any white space around the id.
pub proof fn regions_do_not_matter(
    id: &str,
    locale: Option<Locale>,
    language: Seq<char>,
    region: Seq<char>,
)
    requires
        call_ensures(Locale::parse, (id,), locale),
        !language.contains('-'),
        !language.contains('_'),
        text::trimmed(id@) == language || text::trimmed(id@) == language.push('-') + region
            || text::trimmed(id@) == language.push('_') + region,
    ensures
        locale == Some(Locale::Zh) <==> text::lowered(language) == "zh"@,
        locale == Some(Locale::En) <==> text::lowered(language) == "en"@,
{
    reveal_strlit("zh");
    reveal_strlit("en");
    assert("zh"@[0] == 'z' && "en"@[0] == 'e');
    let s = text::trimmed(id@);
    let tail = if s == language {
        Seq::<char>::empty()
    } else if s == language.push('-') + region {
        seq!['-'] + region
    } else {
        seq!['_'] + region
    };
    assert(s =~= language + tail);
    lemma_primary(language, tail);
}

proof fn lemma_primary(language: Seq<char>, tail: Seq<char>)
    requires
        !language.contains('-'),
        !language.contains('_'),
        tail.len() == 0 || tail[0] == '-' || tail[0] == '_',
    ensures
        primary_subtag(language + tail) == language,
    decreases language.len(),
{
    let s = language + tail;
    if language.len() == 0 {
        assert(s =~= tail);
        assert(primary_subtag(s) =~= language);
    } else {
        assert(language.contains(language[0]));
        let rest = language.skip(1);
        assert forall|c: char| rest.contains(c) implies language.contains(c) by {
            let k = choose|k: int| 0 <= k < rest.len() && rest[k] == c;
            assert(language[k + 1] == c);
        }
        lemma_primary(rest, tail);
        assert(s.skip(1) =~= rest + tail);
        assert(s[0] == language[0]);
        assert(seq![language[0]] + rest =~= language);
    }
}

/// The language is the one that `locale.preference` of the settings document names; a
/// document that cannot be read, or has no such text, names none.
pub proof fn the_preference_names_the_language(
    yaml: &str,
    root: Map<Seq<char>, document::Tree>,
    section: Map<Seq<char>, document::Tree>,
    preference: Seq<char>,
    locale: Option<Locale>,
)
    requires
        call_ensures(Locale::from_settings_yaml, (yaml,), locale),
    ensures
        document::yaml_parsed(yaml@) is None ==> locale is None,
        document::yaml_parsed(yaml@) == Some(document::Tree::Members(root)) && !root.dom().contains(
            "locale"@,
        ) ==> locale is None,
        document::yaml_parsed(yaml@) == Some(document::Tree::Members(root)) && root.dom().contains(
            "locale"@,
        ) && root["locale"@] == document::Tree::Members(section) && section.dom().contains(
            "preference"@,
        ) && section["preference"@] == document::Tree::Text(preference) ==> locale
            == locale_named(preference),
{
}

/// The two languages have different words for everything that is said in words.
pub proof fn the_languages_differ()
    ensures
        ({
            let en = strings_of(Locale::En);
            let zh = strings_of(Locale::Zh);
            &&& en.show_window@ != zh.show_window@
            &&& en.settings@ != zh.settings@
            &&& en.check_for_updates@ != zh.check_for_updates@
            &&& en.quit@ != zh.quit@
            &&& en.agent_prefix@ != zh.agent_prefix@
            &&& en.agent_idle@ != zh.agent_idle@
            &&& en.agent_working@ != zh.agent_working@
            &&& en.agent_failed@ != zh.agent_failed@
            &&& en.notify_done@ != zh.notify_done@
            &&& en.notify_errored@ != zh.notify_errored@
            &&& en.boot_failed@ != zh.boot_failed@
        }),
{
    reveal_strlit("Show Window");
    reveal_strlit("显示窗口");
    reveal_strlit("Settings…");
    reveal_strlit("设置…");
    reveal_strlit("Check for DSH Updates…");
    reveal_strlit("检查 DSH 更新…");
    reveal_strlit("Quit");
    reveal_strlit("退出");
    reveal_strlit("Agent");
    reveal_strlit("代理");
    reveal_strlit("idle");
    reveal_strlit("空闲");
    reveal_strlit("working");
    reveal_strlit("工作中");
    reveal_strlit("failed");
    reveal_strlit("失败");
    reveal_strlit("The agent is done.");
    reveal_strlit("代理已完成。");
    reveal_strlit("The agent hit an error.");
    reveal_strlit("代理遇到错误。");
    reveal_strlit("Could not start the local runtime");
    reveal_strlit("无法启动本地运行时");
    assert("Show Window"@[0] == 'S' && "显示窗口"@[0] == '显');
    assert("Settings…"@[0] == 'S' && "设置…"@[0] == '设');
    assert("Check for DSH Updates…"@[0] == 'C' && "检查 DSH 更新…"@[0] == '检');
    assert("Quit"@[0] == 'Q' && "退出"@[0] == '退');
    assert("Agent"@[0] == 'A' && "代理"@[0] == '代');
    assert("idle"@[0] == 'i' && "空闲"@[0] == '空');
    assert("working"@[0] == 'w' && "工作中"@[0] == '工');
    assert("failed"@[0] == 'f' && "失败"@[0] == '失');
    assert("The agent is done."@[0] == 'T' && "代理已完成。"@[0] == '代');
    assert("The agent hit an error."@[0] == 'T' && "代理遇到错误。"@[0] == '代');
    assert("Could not start the local runtime"@[0] == 'C' && "无法启动本地运行时"@[0] == '无');
}

/// What the shell says in each language.
pub proof fn the_shell_speaks_both_languages(locale: Locale, s: Strings)
    requires
        call_ensures(Locale::strings, (locale,), s),
    ensures
        locale is En ==> {
            &&& s.show_window@ == "Show Window"@ && s.settings@ == "Settings…"@
            &&& s.check_for_updates@ == "Check for DSH Updates…"@ && s.quit@ == "Quit"@
            &&& s.agent_prefix@ == "Agent"@ && s.agent_idle@ == "idle"@
            &&& s.agent_working@ == "working"@ && s.agent_failed@ == "failed"@
            &&& s.notify_done@ == "The agent is done."@
            &&& s.notify_errored@ == "The agent hit an error."@
            &&& s.notification_app@ == "DSH Shell"@
            &&& s.settings_window_title@ == "DSH Shell Settings"@
            &&& s.boot_failed@ == "Could not start the local runtime"@
        },
        locale is Zh ==> {
            &&& s.show_window@ == "显示窗口"@ && s.settings@ == "设置…"@
            &&& s.check_for_updates@ == "检查 DSH 更新…"@ && s.quit@ == "退出"@
            &&& s.agent_prefix@ == "代理"@ && s.agent_idle@ == "空闲"@
            &&& s.agent_working@ == "工作中"@ && s.agent_failed@ == "失败"@
            &&& s.notify_done@ == "代理已完成。"@
            &&& s.notify_errored@ == "代理遇到错误。"@
            &&& s.notification_app@ == "DSH Shell"@
            &&& s.settings_window_title@ == "DSH Shell 设置"@
            &&& s.boot_failed@ == "无法启动本地运行时"@
        },
{
}

/// The id that the pages receive names the language it came from.
pub proof fn ids_name_their_language(
    locale: Locale,
    id: &'static str,
    text: &str,
    parsed: Option<Locale>,
)
    requires
        call_ensures(Locale::id, (locale,), id),
        call_ensures(Locale::parse, (text,), parsed),
        text@ == id@,
    ensures
        parsed == Some(locale),
        id@ == "zh"@ <==> locale is Zh,
        id@ == "en"@ <==> locale is En,
{
    locale_ids_round_trip(locale);
    reveal_strlit("en");
    reveal_strlit("zh");
    assert("en"@[0] == 'e' && "zh"@[0] == 'z');
}

/// Filling a template puts the value in the place of its key and leaves the rest as it is.
pub proof fn filling_puts_the_value_in_place(
    template: &str,
    key: &str,
    value: &str,
    filled: String,
    front: Seq<char>,
    back: Seq<char>,
)
    requires
        call_ensures(fill, (template, key, value), filled),
        !front.contains('{'),
        !back.contains('{'),
    ensures
        template@ == front + seq!['{'] + key@ + seq!['}'] + back ==> filled@ == front + value@
            + back,
        template@ == front ==> filled@ == template@,
{
    values_fill_their_place(template@, front, key@, back, value@);
}

} // verus!
