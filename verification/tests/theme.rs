use dsh_shell::i18n::Locale;
use dsh_shell::theme::{
    is_watched, settings_path_from, watch_dir, Appearance, ColorHex, Palette, Theme, ThemeSource,
};

#[test]
fn injected_css_carries_tokens_and_caption_height() {
    let mut theme = Theme::default();
    theme.light.accent = ColorHex(0xff0000);
    theme.light.caption_height = 40;
    theme.custom_css = "/* custom */".into();

    let css = theme.injected_css(false);
    assert!(css.contains("#ff0000"), "accent must appear: {css}");
    assert!(css.contains("--dsh-shell-caption-height: 40px"), "{css}");
    assert!(css.contains("padding-top: var(--dsh-shell-caption-height)"), "{css}");
    // custom_css must be last so it can override the generated rules.
    assert!(css.trim_end().ends_with("/* custom */"), "{css}");
}

#[test]
fn the_injected_block_is_exact() {
    let mut theme = Theme::default();
    theme.custom_css = "a{}".into();
    let css = theme.injected_css(true);
    assert!(css.starts_with(
        ":root {\n  color-scheme: dark;\n  --dsh-shell-background: #151517;\n  \
         --dsh-shell-surface: #2c2c2e;\n  --dsh-shell-border: #3f3f42;\n  \
         --dsh-shell-text: #f9fafb;\n  --dsh-shell-muted: #adb2b8;\n  \
         --dsh-shell-accent: #4176e6;\n  --dsh-shell-caption-height: 34px;\n}\n\
         html, body {\n  background: #151517 !important;\n}\n"
    ));
    assert!(css.ends_with("  -webkit-user-select: none;\n}\na{}\n"), "{css}");
}

#[test]
fn appearance_selects_the_matching_palette() {
    let mut theme = Theme::default();

    // Default is `system`, so the OS decides.
    assert_eq!(theme.appearance, Appearance::System);
    assert_eq!(
        theme.palette_for(true).background.0,
        0x151517,
        "system + dark must resolve to the DeepSeek dark background"
    );
    assert_eq!(
        theme.palette_for(false).background.0,
        0xffffff,
        "system + light must resolve to the DeepSeek light background"
    );

    // An explicit preference pins it regardless of the OS.
    theme.appearance = Appearance::Dark;
    assert_eq!(theme.palette_for(false).background.0, 0x151517);
    theme.appearance = Appearance::Light;
    assert_eq!(theme.palette_for(true).background.0, 0xffffff);
}

#[test]
fn css_reports_the_resolved_color_scheme() {
    let theme = Theme::default();
    assert!(theme.injected_css(true).contains("color-scheme: dark"));
    assert!(theme.injected_css(false).contains("color-scheme: light"));
}

#[test]
fn palettes_use_deepseek_source_colors() {
    // These come from DSH's own boot theme CSS. Regressing them would reintroduce a
    // visible seam between the window chrome and the page.
    let dark = Palette::deepseek_dark();
    assert_eq!(dark.background.0, 0x151517);
    assert_eq!(dark.text.0, 0xf9fafb);
    assert_eq!(dark.text_muted.0, 0xadb2b8);

    let light = Palette::deepseek_light();
    assert_eq!(light.background.0, 0xffffff);
    assert_eq!(light.text.0, 0x0f1115);
    assert_eq!(light.text_muted.0, 0x81858c);
    assert_eq!(Palette::default(), light);
}

#[test]
fn reload_reports_only_real_changes() {
    let mut src = ThemeSource::new();
    assert!(
        src.reload(Ok(Theme::default())).is_none(),
        "unchanged file must not report a change"
    );

    let mut t = Theme::default();
    t.light.accent = ColorHex(0x00ff00);
    let got = src.reload(Ok(t)).expect("change must be reported");
    assert_eq!(got.light.accent.0, 0x00ff00);

    // A broken edit must be rejected and the last good theme retained.
    assert!(src.reload(Err("broken".into())).is_none(), "broken file must be rejected");
    assert_eq!(src.current().light.accent.0, 0x00ff00, "last good retained");

    // What the host pushes is taken the same way.
    assert!(src.apply_pushed(got.clone()).is_none());
    assert_eq!(src.apply_pushed(Theme::default()), Some(Theme::default()));
}

#[test]
fn every_part_of_a_theme_counts_as_a_change() {
    let changes: [fn(&mut Theme); 6] = [
        |t| t.appearance = Appearance::Dark,
        |t| t.light.caption_height = 1,
        |t| t.dark.border = ColorHex(1),
        |t| t.hotkey = "alt+K".into(),
        |t| t.custom_css = "x".into(),
        |t| t.update_channel = "alpha".into(),
    ];
    for change in changes {
        let mut theme = Theme::default();
        change(&mut theme);
        assert_ne!(theme, Theme::default());
        assert_eq!(theme, theme.clone());
        let mut src = ThemeSource::new();
        assert_eq!(src.reload(Ok(theme.clone())), Some(theme));
    }
}

#[test]
fn the_source_follows_the_preferences_of_the_document() {
    let mut src = ThemeSource::new();
    assert_eq!(src.locale(), Locale::En);
    src.set_locale(Some(Locale::Zh));
    assert_eq!(src.locale(), Locale::Zh);
    src.set_locale(None);
    assert_eq!(src.locale(), Locale::En);
    assert!(src.is_dark(true) && !src.is_dark(false));
    src.apply_pushed(Theme { appearance: Appearance::Dark, ..Theme::default() });
    assert!(src.is_dark(false));
    src.apply_pushed(Theme { appearance: Appearance::Light, ..Theme::default() });
    assert!(!src.is_dark(true));

    let read = Appearance::from_settings_yaml;
    assert_eq!(read("ui-theme:\n  preference: light\n"), Some(Appearance::Light));
    assert_eq!(read("ui-theme:\n  preference: dark\n"), Some(Appearance::Dark));
    assert_eq!(read("ui-theme:\n  preference: system\n"), Some(Appearance::System));
    assert_eq!(read("ui-theme:\n  preference: Dark\n"), None);
    assert_eq!(read("locale:\n  preference: zh\n"), None);
    assert_eq!(Appearance::default(), Appearance::System);
}

#[test]
fn colors_are_strict() {
    let read = |text: &str| ColorHex::try_from(text.to_string());
    assert_eq!(read("#1a1b26"), Ok(ColorHex(0x1a1b26)));
    assert_eq!(read(" ABCDEF\n"), Ok(ColorHex(0xabcdef)));
    assert_eq!(read("##00ff00"), Ok(ColorHex(0x00ff00)));
    assert_eq!(
        read("#zzz").unwrap_err(),
        "expected a 6-digit hex color like \"#1a1b26\", got \"#zzz\""
    );
    assert_eq!(read("#zzzzzz").unwrap_err(), "\"#zzzzzz\" is not valid hexadecimal");
    assert_eq!(read("éééa").unwrap_err().contains("6-digit"), true);
    assert_eq!(read("éééx").is_err(), true);
    assert_eq!(read("中中").unwrap_err(), "\"中中\" is not valid hexadecimal");
    assert!(read("+12345").is_err());
    for color in [0, 0xf, 0x16161e, 0xffffff] {
        let css = ColorHex(color).css();
        assert_eq!(css, format!("#{color:06x}"));
        assert_eq!(read(&css), Ok(ColorHex(color)));
    }
    assert_eq!(ColorHex(0x1234567).css(), "#1234567");
}

#[test]
fn the_settings_document_is_found_and_watched() {
    let path = |explicit: Option<&str>, dsh: Option<&str>, home: Option<&str>| {
        settings_path_from(
            explicit.map(str::to_string),
            dsh.map(str::to_string),
            home.map(str::to_string),
        )
    };
    assert_eq!(path(Some("/x.yaml"), Some("/d"), Some("/h")).as_deref(), Some("/x.yaml"));
    assert_eq!(path(None, Some("/d"), Some("/h")).as_deref(), Some("/d/settings.yaml"));
    assert_eq!(path(None, None, Some("/h")).as_deref(), Some("/h/.dsh/settings.yaml"));
    assert_eq!(path(None, None, None), None);
    assert_eq!(watch_dir("/d/settings.yaml"), "/d");
    assert_eq!(watch_dir("/"), ".");
    let changed = |files: &[&str]| {
        let files: Vec<String> = files.iter().map(|f| f.to_string()).collect();
        is_watched(&files, "/d/settings.yaml")
    };
    assert!(changed(&["/d/other", "/d/settings.yaml"]));
    assert!(!changed(&["/d/settings.yaml.swp"]));
    assert!(!changed(&[]));
    assert!(!is_watched(&vec!["/".into()], "/"));
}

#[test]
fn rejects_bad_colors() {
    assert!(ColorHex::try_from("#ffffff".into()).is_ok());
    assert!(ColorHex::try_from("#zzz".into()).is_err(), "bad hex must be rejected");
}

#[test]
fn a_pinned_appearance_decides_the_scheme() {
    let theme = Theme { appearance: Appearance::Dark, ..Theme::default() };
    let css = theme.injected_css(false);
    assert!(css.contains("color-scheme: dark") && !css.contains("color-scheme: light"), "{css}");
    assert!(css.contains("--dsh-shell-background: #151517;"), "{css}");
    let theme = Theme { appearance: Appearance::Light, ..Theme::default() };
    assert!(theme.injected_css(true).contains("color-scheme: light"));
}
