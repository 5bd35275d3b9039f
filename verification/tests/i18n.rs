use dsh_shell::i18n::{fill, read_setting, Locale};

#[test]
fn parses_dsh_locale_ids() {
    assert_eq!(Locale::parse("zh"), Some(Locale::Zh));
    assert_eq!(Locale::parse("en"), Some(Locale::En));
    // Region suffixes are tolerated so `zh-CN` does not fall through to the default
    // and silently give a Chinese user an English shell.
    assert_eq!(Locale::parse("zh-CN"), Some(Locale::Zh));
    assert_eq!(Locale::parse("en_US"), Some(Locale::En));
    assert_eq!(Locale::parse(" zh "), Some(Locale::Zh));
    assert_eq!(Locale::parse("fr"), None);
    assert_eq!(Locale::parse(""), None);
    for locale in [Locale::En, Locale::Zh] {
        assert_eq!(Locale::parse(locale.id()), Some(locale));
    }
    assert_eq!(Locale::default(), Locale::En);
}

#[test]
fn reads_the_preference_from_a_real_document() {
    let document = "\
locale:
  preference: zh
ui-theme:
  preference: light
dsh-shell:
  hotkey: meta+shift+D
";
    assert_eq!(Locale::from_settings_yaml(document), Some(Locale::Zh));
}

#[test]
fn a_missing_or_unknown_locale_is_not_an_error() {
    assert_eq!(Locale::from_settings_yaml("ui-theme:\n  preference: dark\n"), None);
    assert_eq!(Locale::from_settings_yaml(""), None);
    // A language the shell does not speak falls back rather than failing.
    assert_eq!(Locale::from_settings_yaml("locale:\n  preference: fr\n"), None);
}

#[test]
fn a_setting_is_read_only_where_it_is_text() {
    let read = |yaml: &str| read_setting(yaml, "a", "b");
    assert_eq!(read("a:\n  b: text\n").as_deref(), Some("text"));
    assert_eq!(read("a:\n  b: 'x: y'\n").as_deref(), Some("x: y"));
    assert_eq!(read("a:\n  b: 7\n"), None);
    assert_eq!(read("a:\n  b: [text]\n"), None);
    assert_eq!(read("a: text\n"), None);
    assert_eq!(read("b: text\n"), None);
    assert_eq!(read("a: {b: text"), None);
}

#[test]
fn both_locales_are_complete() {
    // Every field is a `&'static str` in a struct, so a missing translation is a
    // compile error. This asserts the two are genuinely different, so a copy-paste
    // that left English in the Chinese table is caught.
    let en = Locale::En.strings();
    let zh = Locale::Zh.strings();
    assert_ne!(en.quit, zh.quit);
    assert_ne!(en.show_window, zh.show_window);
    assert_eq!(en.check_for_updates, "Check for DSH Updates…");
    assert_ne!(en.check_for_updates, zh.check_for_updates);
    assert_ne!(en.menu_edit, zh.menu_edit);
    assert_ne!(en.notify_done, zh.notify_done);
    assert_ne!(en.settings_window_title, zh.settings_window_title);
}

#[test]
fn placeholders_are_filled() {
    let en = Locale::En.strings();
    assert_eq!(fill(en.notify_finished, "session", "abc123"), "DSH: abc123 finished");
    let zh = Locale::Zh.strings();
    assert_eq!(fill(zh.notify_finished, "session", "abc123"), "DSH：abc123 已完成");
    assert_eq!(fill("{a}{b}{a}", "a", "{b}"), "{b}{b}{b}");
    assert_eq!(fill("nothing here", "a", "x"), "nothing here");
}

#[test]
fn every_template_keeps_its_placeholder() {
    // A translation that drops `{session}` or `{app}` would silently lose the only
    // identifying part of the message.
    for locale in [Locale::En, Locale::Zh] {
        let s = locale.strings();
        assert!(s.notify_finished.contains("{session}"), "{locale:?}");
        assert!(s.notify_failed.contains("{session}"), "{locale:?}");
        assert!(s.notify_stopped.contains("{reason}"), "{locale:?}");
        assert!(s.menu_about.contains("{app}"), "{locale:?}");
        assert!(s.menu_hide.contains("{app}"), "{locale:?}");
    }
}
