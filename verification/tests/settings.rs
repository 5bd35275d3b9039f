use dsh_shell::i18n::Locale;
use dsh_shell::settings::{
    handle_request, malformed_message, page, validate, SaveOutcome, SettingsAction,
    SettingsRequest, HOST_PLACE, LOCALE_PLACE, THEME_PLACE, UPDATE_PLACE,
};
use dsh_shell::theme::{ColorHex, Palette, Theme};
use serde_json::Value;

/// A page with every place that something is put in.
fn template() -> String {
    format!(
        "<script>const initial = {THEME_PLACE};\nconst update = {UPDATE_PLACE};\n\
         const connected = {HOST_PLACE};\nconst locale = {LOCALE_PLACE};</script>"
    )
}

fn build(theme: &str, connected: bool, locale: Locale, update: &str) -> String {
    page(&template(), theme, connected, locale, update)
}

#[test]
fn the_page_embeds_the_locale() {
    let html = build("{}", true, Locale::Zh, "{}");
    assert!(html.contains("\"zh\""), "locale was not injected into the page");
    assert!(
        !html.contains("window.__DSH_LOCALE__ || 'en'"),
        "locale placeholder was not substituted"
    );
}

#[test]
fn the_page_embeds_the_live_theme() {
    let theme = r##"{"hotkey":"meta+alt+K","light":{"accent":"#123456"}}"##;
    let html = build(theme, true, Locale::En, "{}");
    assert!(html.contains("meta+alt+K"), "hotkey missing from the page");
    assert!(html.contains("#123456"), "accent missing from the page");
    assert!(
        html.contains("__DSH_HOST_CONNECTED__ || true") || html.contains("= true"),
        "connection flag was not substituted"
    );
    // The placeholder must be gone, or the page would fall back to {}.
    assert!(
        !html.contains("window.__DSH_INITIAL__ || {}"),
        "placeholder was not substituted"
    );
}

#[test]
fn the_page_receives_the_update_status_as_an_object() {
    let update = r#"{"current":"0.1.5-rc.2","phase":"available","channel":"alpha"}"#;
    let html = build("{}", true, Locale::En, update);
    assert!(
        !html.contains("window.__DSH_UPDATE__ || { phase: 'unknown' }"),
        "the update placeholder was not substituted"
    );
    // An object literal, not a quoted string: the page reads `.phase` off it.
    assert!(
        html.contains("{\"") && html.contains("\"current\":\"0.1.5-rc.2\""),
        "the status should be injected as a JSON object, not a quoted string"
    );
    assert!(html.contains("\"phase\":\"available\""));
    assert!(html.contains("\"channel\":\"alpha\""));
}

#[test]
fn a_theme_containing_a_script_tag_cannot_break_out() {
    // custom_css is free text and can contain "</script>".
    let theme = r#"{"customCss":"/* </script><script>alert(1)</script> */"}"#;
    let html = build(theme, false, Locale::En, "{}");
    assert!(
        !html.contains("</script><script>alert(1)"),
        "a script tag in custom_css escaped the injection block"
    );
    assert_eq!(html.matches("</").count(), 1, "only the block's own end is left: {html}");
}

#[test]
fn the_page_is_exact() {
    assert_eq!(
        build("{\"a\":\"</b>\"}", false, Locale::En, "{\"phase\":\"current\"}"),
        "<script>const initial = {\"a\":\"<\\/b>\"};\nconst update = {\"phase\":\"current\"};\n\
         const connected = false;\nconst locale = \"en\";</script>"
    );
}

#[test]
fn accepts_the_default_configuration() {
    let theme = validate(Ok(Theme::default())).expect("default must validate");
    // Validation must round-trip the document, not merely accept it: a dropped field
    // would silently save a truncated configuration.
    assert_eq!(theme, Theme::default());
}

#[test]
fn rejects_a_bad_colour() {
    let bad = ColorHex::try_from("#zzzzzz".to_string()).unwrap_err();
    let err = validate(Err(bad)).unwrap_err();
    assert!(err.contains("invalid configuration"), "unexpected: {err}");
    assert_eq!(err, "invalid configuration: \"#zzzzzz\" is not valid hexadecimal");
}

#[test]
fn rejects_an_unparseable_hotkey() {
    let config = Theme { hotkey: "nonsense".into(), ..Theme::default() };
    let err = validate(Ok(config)).unwrap_err();
    assert!(err.contains("invalid shortcut"), "unexpected: {err}");
}

#[test]
fn rejects_a_hotkey_without_a_modifier() {
    // Must be caught here, not silently downgraded to the default.
    let config = Theme { hotkey: "D".into(), ..Theme::default() };
    let err = validate(Ok(config)).unwrap_err();
    assert!(err.contains("no modifier"), "unexpected: {err}");
}

#[test]
fn rejects_oversized_custom_css() {
    let config = Theme { custom_css: "x".repeat(70 * 1024), ..Theme::default() };
    assert!(validate(Ok(config)).unwrap_err().contains("64 KB"));
    // The limit is in bytes, and is itself allowed.
    let config = |css: String| Theme { custom_css: css, ..Theme::default() };
    assert!(validate(Ok(config("x".repeat(64 * 1024)))).is_ok());
    assert!(validate(Ok(config("é".repeat(32 * 1024 + 1)))).is_err());
}

#[test]
fn the_update_channel_is_saved_with_the_rest_of_the_configuration() {
    // The channel lives in the document rather than travelling with the check, so the
    // stored value and the checked value cannot disagree.
    let config = Theme { update_channel: "alpha".into(), ..Theme::default() };
    let theme = validate(Ok(config)).expect("alpha is a valid channel");
    assert_eq!(theme.update_channel, "alpha");
}

#[test]
fn a_request_leads_to_its_action() {
    let save = |config| handle_request(SettingsRequest::Save { config });
    assert!(matches!(save(Ok(Theme::default())), SettingsAction::Persist(theme)
        if theme == Theme::default()));
    assert!(matches!(save(Err("no object".into())), SettingsAction::Refuse(outcome)
        if outcome == SaveOutcome {
            ok: false,
            error: Some("invalid configuration: no object".into()),
        }));
    assert!(matches!(handle_request(SettingsRequest::CheckUpdate), SettingsAction::CheckUpdate));
    assert!(matches!(
        handle_request(SettingsRequest::InstallUpdate),
        SettingsAction::InstallUpdate
    ));
    assert_eq!(malformed_message("eof"), "malformed settings message: eof");
}

#[test]
fn an_outcome_is_reported_as_a_call() {
    let script = |ok, error: Option<&str>| {
        SaveOutcome { ok, error: error.map(str::to_string) }.to_script()
    };
    assert_eq!(
        script(true, None),
        "window.__dshSettings && window.__dshSettings.saved(true, null);"
    );
    assert_eq!(
        script(false, Some("a \"b\"\n\\ \u{1f}é\t\r\u{8}\u{c}\u{7f}</x>")),
        "window.__dshSettings && window.__dshSettings.saved(false, \
         \"a \\\"b\\\"\\n\\\\ \\u001fé\\t\\r\\b\\f\u{7f}</x>\");"
    );
}

/// A palette as a JSON object.
fn palette_json(palette: &Palette) -> Value {
    let mut object = serde_json::Map::new();
    for (name, color) in [
        ("background", palette.background),
        ("surface", palette.surface),
        ("surfaceHover", palette.surface_hover),
        ("border", palette.border),
        ("text", palette.text),
        ("textMuted", palette.text_muted),
        ("accent", palette.accent),
    ] {
        object.insert(name.into(), Value::from(color.css()));
    }
    Value::Object(object)
}

fn palette_from(value: &Value, layout: &Palette) -> Result<Palette, String> {
    let color = |name: &str| {
        let text = value.get(name).and_then(|color| color.as_str()).unwrap_or_default();
        ColorHex::try_from(text.to_string())
    };
    Ok(Palette {
        background: color("background")?,
        surface: color("surface")?,
        surface_hover: color("surfaceHover")?,
        border: color("border")?,
        text: color("text")?,
        text_muted: color("textMuted")?,
        accent: color("accent")?,
        caption_height: layout.caption_height,
    })
}

/// A configuration as the text that crosses the wire.
fn to_json(theme: &Theme) -> String {
    let mut object = serde_json::Map::new();
    object.insert("light".into(), palette_json(&theme.light));
    object.insert("dark".into(), palette_json(&theme.dark));
    object.insert("hotkey".into(), Value::from(theme.hotkey.clone()));
    object.insert("customCss".into(), Value::from(theme.custom_css.clone()));
    object.insert("updateChannel".into(), Value::from(theme.update_channel.clone()));
    Value::Object(object).to_string()
}

fn from_json(text: &str) -> Result<Theme, String> {
    let value: Value = serde_json::from_str(text).map_err(|err| err.to_string())?;
    let shipped = Theme::default();
    let read = |name: &str| value.get(name).and_then(|v| v.as_str()).map(String::from);
    Ok(Theme {
        light: palette_from(&value["light"], &shipped.light)?,
        dark: palette_from(&value["dark"], &shipped.dark)?,
        hotkey: read("hotkey").unwrap_or_default(),
        custom_css: read("customCss").unwrap_or_default(),
        update_channel: read("updateChannel").unwrap_or_default(),
        ..shipped
    })
}

#[test]
fn a_valid_configuration_survives_a_json_round_trip() {
    // The settings page sends JSON; the result is what is forwarded to be persisted.
    let theme = validate(from_json(&to_json(&Theme::default()))).expect("default must validate");
    assert_eq!(theme, Theme::default());
    // And back out again, as the canonical form is pushed to the page.
    assert_eq!(validate(from_json(&to_json(&theme))).unwrap(), theme);
    assert!(validate(from_json("not json")).is_err());
}
