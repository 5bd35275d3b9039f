use dsh_shell::bridge::BridgeEvent;
use dsh_shell::i18n::Locale;
use dsh_shell::shell::{
    badge_text, boot_appearance_script, boot_failure_script, boot_page, boot_step, capture_geometry,
    close_action, geometry_is_due, hex_to_rgba, inject_script, is_watched, notification,
    page_command, plugin_title, port_from, rewrite_style_script, settings_update_script,
    short_session, update_status_script, BootStep, CloseAction, Geometry, HostNews, PageCommand,
    Unseen, WindowChrome,
    DRAG_MESSAGE, READY_MESSAGE, ZOOM_MESSAGE,
};
use dsh_shell::theme::{ColorHex, Theme};

#[test]
fn css_is_embedded_as_a_safe_js_literal() {
    let mut t = Theme::default();
    // A quote and a newline are the cases that would break naive string interpolation
    // into the script.
    t.custom_css = "body { content: \"a\\\"b\"; }\n/* x */".into();
    let script = inject_script(&t, false);

    // The payload must be JSON-escaped, not raw.
    assert!(script.contains("\\\"a\\\\\\\"b\\\""), "expected escaping: {script}");
    assert!(!script.contains("\nbody {"), "raw newline leaked into script");
}

#[test]
fn the_boot_page_carries_the_locale() {
    let template = "<html><script>const locale = {locale};</script></html>";
    let zh = boot_page(template, Locale::Zh);
    assert!(zh.contains("\"zh\""), "locale missing from the boot page");
    assert!(!zh.contains("{locale}"), "boot page placeholder was not substituted");
    let en = boot_page(template, Locale::En);
    assert!(en.contains("\"en\""));
    assert_eq!(en, "<html><script>const locale = \"en\";</script></html>");
}

#[test]
fn rgba_conversion_matches_byte_order() {
    assert_eq!(hex_to_rgba(0x16161e), (0x16, 0x16, 0x1e, 255));
    assert_eq!(hex_to_rgba(0xff0000), (0xff, 0x00, 0x00, 255));
    assert_eq!(hex_to_rgba(0x12345678), (0x34, 0x56, 0x78, 255));
}

#[test]
fn injected_script_installs_the_drag_region() {
    let script = inject_script(&Theme::default(), false);
    // The strip must be created and wired to IPC, or the window cannot be moved at all
    // once the system titlebar is hidden.
    assert!(script.contains("__dsh_shell_drag"), "drag element missing");
    assert!(script.contains(DRAG_MESSAGE), "drag message not posted");
    assert!(script.contains(ZOOM_MESSAGE), "zoom message not posted");
    assert!(script.contains("pointerdown"), "no pointer handler");
    // Only the primary button may start a drag, so right-click menus work.
    assert!(script.contains("event.button !== 0"), "button guard missing");
    assert!(script.contains("window.ipc.postMessage(\"dsh-shell:drag-ready\");"));
    assert!(script.starts_with("(function() {\n  var apply = function() {\n"));
    assert!(script.ends_with("  }\n})();"));
}

#[test]
fn drag_strip_css_is_injected() {
    let css = Theme::default().injected_css(false);
    assert!(css.contains("#__dsh_shell_drag"), "drag strip CSS missing");
    // The strip must be topmost, or DSH's own chrome would cover it.
    assert!(css.contains("z-index: 2147483647"), "strip not on top");
    // It must span the caption strip only, never the whole page.
    assert!(
        css.contains("height: var(--dsh-shell-caption-height)"),
        "strip height not tied to the caption strip"
    );
}

#[test]
fn theme_tokens_reach_the_script() {
    // Resolve light explicitly so the assertion does not depend on the machine's
    // current appearance.
    let mut t = Theme::default();
    t.light.accent = ColorHex(0x123456);
    let script = inject_script(&t, false);
    assert!(script.contains("#123456"), "accent missing from script");
    let script = rewrite_style_script(&t, false);
    assert!(script.contains("#123456"));
    assert!(script.starts_with("(function() {\n  var el = document.getElementById("));
    assert!(script.ends_with("\\n\";\n})();"), "{script}");
}

#[test]
fn scripts_for_the_pages_are_exact() {
    assert_eq!(
        boot_appearance_script(true),
        "window.__dshBoot && window.__dshBoot.setAppearance(true);"
    );
    assert_eq!(
        boot_failure_script("no \"dsh\"\n", Locale::Zh),
        "window.__dshBoot && window.__dshBoot.fail(\"无法启动本地运行时\", \"no \\\"dsh\\\"\\n\");"
    );
    assert_eq!(
        boot_failure_script("x", Locale::En),
        "window.__dshBoot && window.__dshBoot.fail(\"Could not start the local runtime\", \"x\");"
    );
    assert_eq!(
        settings_update_script("{\"a\":1}"),
        "window.__dshSettings && window.__dshSettings.update({\"a\":1});"
    );
    assert_eq!(
        update_status_script("{}"),
        "window.__dshUpdate && window.__dshUpdate.set({});"
    );
}

#[test]
fn messages_of_the_page_are_told_apart() {
    assert_eq!(page_command(DRAG_MESSAGE), Some(PageCommand::Drag));
    assert_eq!(page_command(ZOOM_MESSAGE), Some(PageCommand::Zoom));
    assert_eq!(page_command(READY_MESSAGE), Some(PageCommand::Ready));
    assert_eq!(page_command("dsh-shell:other"), None);
    assert_eq!(page_command(""), None);
}

// -------------------------------------------------------------- notifications

fn event(kind: &str) -> BridgeEvent {
    BridgeEvent {
        kind: kind.into(),
        session_id: Some("0123456789".into()),
        status: None,
        message: None,
        reason: None,
    }
}

fn shown(event: &BridgeEvent) -> (String, String) {
    notification(event, Locale::En).expect("a notification")
}

#[test]
fn notifications_say_what_happened_to_which_session() {
    assert_eq!(
        shown(&event("turn-stopping")),
        ("DSH: 01234567… finished".into(), "The agent is done.".into())
    );
    let reason = BridgeEvent { reason: Some("end_turn".into()), ..event("turn-stopping") };
    assert_eq!(shown(&reason).1, "Stopped: end_turn");
    // An explicit reason says more than a generic message.
    let both = BridgeEvent { message: Some("cancelled".into()), ..reason };
    assert_eq!(shown(&both).1, "Stopped: end_turn");
    let message = BridgeEvent { reason: None, ..both };
    assert_eq!(shown(&message).1, "Stopped: cancelled");
    let nameless = BridgeEvent { session_id: None, ..event("request-error") };
    assert_eq!(
        shown(&nameless),
        ("DSH: session failed".into(), "The agent hit an error.".into())
    );
    let error = BridgeEvent { message: Some("503".into()), ..nameless };
    assert_eq!(shown(&error).1, "503");
    assert_eq!(
        notification(&error, Locale::Zh).unwrap().0,
        "DSH：session 失败"
    );
    assert_eq!(notification(&event("status"), Locale::En), None);
}

#[test]
fn long_session_ids_are_shortened() {
    assert_eq!(short_session("01234567"), "01234567");
    assert_eq!(short_session("012345678"), "01234567…");
    assert_eq!(short_session(""), "");
    assert_eq!(plugin_title(None), "DSH");
    assert_eq!(plugin_title(Some("Build".into())), "Build");
}

#[test]
fn turns_that_were_not_seen_are_counted_until_the_window_is_back() {
    let mut unseen = Unseen::new();
    assert_eq!(unseen.turn_finished(true), None);
    assert_eq!(unseen.tick(false), None);
    assert_eq!(unseen.turn_finished(false), Some(1));
    assert_eq!(unseen.turn_finished(false), Some(2));
    assert_eq!(unseen.count(), 2);
    assert_eq!(unseen.tick(false), None);
    assert_eq!(unseen.tick(true), Some(0));
    assert_eq!(unseen.tick(true), None);
    assert_eq!(unseen.count(), 0);
    assert_eq!(badge_text(0), "");
    assert_eq!(badge_text(12), "12");
}

#[test]
fn the_window_is_watched_where_it_is_visible_and_in_front() {
    assert!(is_watched(Some(true), false, true));
    assert!(!is_watched(Some(false), true, true));
    assert!(is_watched(None, true, true));
    assert!(!is_watched(None, false, true));
    assert!(!is_watched(Some(true), true, false));
}

// ----------------------------------------------------------------- the window

#[test]
fn closing_hides_where_there_is_a_way_back() {
    assert_eq!(close_action(true, true), CloseAction::Hide);
    assert_eq!(close_action(true, false), CloseAction::Quit);
    assert_eq!(close_action(false, true), CloseAction::DropSettings);
    assert_eq!(close_action(false, false), CloseAction::DropSettings);
}

#[test]
fn geometry_is_written_at_most_twice_a_second() {
    assert!(geometry_is_due(true, 500));
    assert!(!geometry_is_due(true, 499));
    assert!(!geometry_is_due(false, 10_000));
}

#[test]
fn the_border_is_subtracted_and_never_wraps() {
    let chrome = WindowChrome::measure((1300, 868), (1280, 840));
    assert_eq!(chrome, WindowChrome { width: 20, height: 28 });
    assert_eq!(chrome.content_size((1300, 868)), (1280, 840));
    assert_eq!(chrome.content_size((10, 30)), (0, 2));
    assert_eq!(WindowChrome::measure((1, 1), (5, 5)), WindowChrome { width: 0, height: 0 });
}

#[test]
fn a_maximized_window_keeps_its_size() {
    let previous =
        Geometry { width: 900.0, height: 600.0, x: Some(1.0), y: Some(2.0), maximized: false };
    let next = capture_geometry(previous, true, false, (1920.0, 1080.0), Some((0.0, 25.0)));
    assert_eq!(
        next,
        Geometry { width: 900.0, height: 600.0, x: Some(0.0), y: Some(25.0), maximized: true }
    );
    let full = capture_geometry(previous, false, true, (1920.0, 1080.0), None);
    assert_eq!(full, previous);
    let next = capture_geometry(next, false, false, (1000.0, 700.0), None);
    assert_eq!(
        next,
        Geometry { width: 1000.0, height: 700.0, x: Some(0.0), y: Some(25.0), maximized: false }
    );
}

#[test]
fn the_port_is_zero_where_none_is_named() {
    let port = |text: &str| port_from(Some(text.to_string()));
    assert_eq!(port("4180"), 4180);
    assert_eq!(port("65535"), 65535);
    assert_eq!(port("65536"), 0);
    assert_eq!(port(" 4180"), 0);
    assert_eq!(port("+80"), 80);
    assert_eq!(port(""), 0);
    assert_eq!(port_from(None), 0);
}

#[test]
fn news_of_the_host_ends_the_wait_once() {
    assert_eq!(boot_step(HostNews::Pending, Locale::En), BootStep::Wait);
    assert_eq!(
        boot_step(HostNews::Ready("http://127.0.0.1:1/".into()), Locale::En),
        BootStep::Load("http://127.0.0.1:1/".into())
    );
    assert_eq!(
        boot_step(HostNews::Failed("no \"dsh\"".into()), Locale::Zh),
        BootStep::Explain(boot_failure_script("no \"dsh\"", Locale::Zh))
    );
    assert_eq!(boot_step(HostNews::Gone, Locale::En), BootStep::Stay);
}

/// Where the string literal that begins at `start` ends, read as a script would.
fn literal_end(script: &str, start: usize) -> usize {
    let bytes = script.as_bytes();
    assert_eq!(bytes[start], b'"');
    let mut i = start + 1;
    while bytes[i] != b'"' {
        i += if bytes[i] == b'\\' { 2 } else { 1 };
    }
    i
}

#[test]
fn nothing_in_a_text_ends_its_literal() {
    for text in ["", "\"", "\\", "a\\\"b\\", "\u{1}\u{1f}\"\n\r\t\u{8}\u{c}", "末尾\\"] {
        let script = boot_failure_script(text, Locale::Zh);
        let start = script.find(", ").unwrap() + 2;
        assert_eq!(literal_end(&script, start), script.len() - ");".len() - 1, "{script}");
    }
}

#[test]
fn coming_back_clears_whatever_finished_meanwhile() {
    let mut unseen = Unseen::new();
    assert_eq!(unseen.tick(false), None);
    for watched in [false, true, false, false] {
        unseen.turn_finished(watched);
    }
    assert_eq!(unseen.count(), 3);
    assert_eq!(unseen.tick(true), Some(0));
    // Turns that finish in sight leave the badge alone.
    for _ in 0..3 {
        assert_eq!(unseen.turn_finished(true), None);
    }
    assert_eq!(unseen.count(), 0);
}
