use dsh_shell::i18n::Locale;
use dsh_shell::native::{
    icon_rgba, sanitize_label, system_is_dark, tray_command, AgentState, Tray, TrayCommand,
    TrayItems,
};
use dsh_shell::outline::{flatten_path, number_token, tokenize_path, Point, Spot, CURVE_SEGMENTS};

#[test]
fn maps_status_strings_to_states() {
    assert_eq!(AgentState::from_event("status", Some("working")), Some(AgentState::Working));
    assert_eq!(AgentState::from_event("status", Some("idle")), Some(AgentState::Idle));
    // An unrecognised status must degrade to idle, not panic.
    assert_eq!(AgentState::from_event("status", Some("something-new")), Some(AgentState::Idle));
    assert_eq!(AgentState::from_event("status", None), Some(AgentState::Idle));
    for busy in ["running", "busy", "streaming"] {
        assert_eq!(AgentState::from_event("status", Some(busy)), Some(AgentState::Working));
    }
    for failed in ["failed", "error"] {
        assert_eq!(AgentState::from_event("status", Some(failed)), Some(AgentState::Failed));
    }
}

#[test]
fn error_state_persists_until_the_next_turn() {
    assert_eq!(AgentState::from_event("request-error", None), Some(AgentState::Failed));
    assert_eq!(AgentState::from_event("turn-stopping", None), Some(AgentState::Idle));
}

#[test]
fn unrelated_events_do_not_change_the_tray() {
    assert_eq!(AgentState::from_event("disposed", None), None);
    assert_eq!(AgentState::from_event("unknown-kind", None), None);
}

#[test]
fn plugin_labels_are_sanitised() {
    // A plugin-supplied label must not break the tooltip layout or flood it.
    let long = "x".repeat(200);
    let cleaned = sanitize_label(Some(long));
    let cleaned = cleaned.expect("long label survives, truncated");
    assert!(cleaned.chars().count() <= 60, "label not truncated: {}", cleaned.len());
    assert_eq!(cleaned, format!("{}…", "x".repeat(59)));

    // Newlines would break the single-line menu text.
    let multiline = sanitize_label(Some("a\nb\tc".into())).unwrap();
    assert!(!multiline.contains('\n') && !multiline.contains('\t'), "{multiline:?}");
    assert_eq!(multiline, "a b c");

    // Whitespace-only and empty labels clear the field rather than showing an empty
    // separator in the menu.
    assert_eq!(sanitize_label(Some("   ".into())), None);
    assert_eq!(sanitize_label(Some(String::new())), None);
    assert_eq!(sanitize_label(None), None);
    let just = "y".repeat(60);
    assert_eq!(sanitize_label(Some(just.clone())), Some(just));
}

#[test]
fn the_tray_shows_the_agent_and_the_label() {
    let mut tray = Tray::new(Locale::En);
    assert_eq!(tray.text(), "Agent: idle");
    assert!(tray.set_state(AgentState::Working));
    assert!(!tray.set_state(AgentState::Working));
    assert_eq!(tray.state(), AgentState::Working);
    assert!(tray.set_plugin_label(Some(" 3 jobs\n".into())));
    assert!(!tray.set_plugin_label(Some("3 jobs".into())));
    assert_eq!(tray.text(), "Agent: working — 3 jobs");
    assert!(tray.set_plugin_label(None));
    assert!(!tray.set_plugin_label(Some("  ".into())));
    assert_eq!(tray.text(), "Agent: working");
    let mut tray = Tray::new(Locale::Zh);
    tray.set_state(AgentState::Failed);
    assert_eq!(tray.text(), "代理: 失败");
    assert_eq!(AgentState::Failed.label(), "failed");
    assert_eq!(AgentState::Idle.label_in(Locale::Zh), "空闲");
}

#[test]
fn tray_items_ask_for_their_commands() {
    let items = TrayItems {
        show: "1".into(),
        settings: "2".into(),
        check_for_updates: "3".into(),
        quit: "4".into(),
    };
    assert_eq!(tray_command("1", &items), Some(TrayCommand::Show));
    assert_eq!(tray_command("2", &items), Some(TrayCommand::Settings));
    assert_eq!(tray_command("3", &items), Some(TrayCommand::CheckForUpdates));
    assert_eq!(tray_command("4", &items), Some(TrayCommand::Quit));
    assert_eq!(tray_command("5", &items), None);
}

#[test]
fn generated_icon_has_the_expected_buffer() {
    let mut mask = vec![false; 22 * 22];
    mask[23] = true;
    let icon = icon_rgba(&mask, AgentState::Working);
    assert_eq!(icon.len(), 22 * 22 * 4);
    assert_eq!(icon[92..96], [0x4c, 0x7d, 0xff, 0xff]);
    assert_eq!(icon.iter().filter(|byte| **byte != 0).count(), 4);
    assert_eq!(icon_rgba(&vec![true], AgentState::Idle), [0x9a, 0x9d, 0xb0, 0xff]);
    assert_eq!(icon_rgba(&vec![true], AgentState::Failed), [0xe0, 0x55, 0x61, 0xff]);
}

#[test]
fn the_system_is_dark_only_where_it_says_so() {
    assert!(system_is_dark(Some("Dark\n".into())));
    assert!(system_is_dark(Some(" dark".into())));
    assert!(!system_is_dark(Some("Light".into())));
    assert!(!system_is_dark(None));
}

// ---------------------------------------------------------------- the outline

fn tokens(path: &str) -> Vec<(char, Vec<String>)> {
    tokenize_path(path).into_iter().map(|group| (group.command, group.numbers)).collect()
}

fn group(command: char, numbers: &[&str]) -> (char, Vec<String>) {
    (command, numbers.iter().map(|n| n.to_string()).collect())
}

#[test]
fn paths_are_split_into_commands_and_numbers() {
    assert_eq!(
        tokens("M1.5,2 L-3-4 1e-5.5Z"),
        [
            group('M', &["1.5", "2"]),
            group('L', &["-3", "-4"]),
            group('Z', &[]),
        ],
        "`1e-5.5` is no number, and is left out"
    );
    assert_eq!(
        tokens("m 1 2 M3 4 c1e2 2E+1 3 4 5 6"),
        [
            group('M', &["1", "2"]),
            group('M', &["3", "4"]),
            group('C', &["1e2", "2E+1", "3", "4", "5", "6"]),
        ],
        "each command letter opens a group of its own"
    );
    assert_eq!(tokens("1 2 M 3"), [group('M', &["3"])], "numbers before a command are lost");
    assert_eq!(tokens("M1#2"), [group('M', &["12"])], "what is not recognised is passed over");
    assert_eq!(tokens(""), []);
}

#[test]
fn numbers_are_what_a_float_parser_takes() {
    // Every token of up to six characters that a path can hold.
    let mut last = vec![String::new()];
    for _ in 0..6 {
        let mut longer = Vec::new();
        for token in &last {
            for c in ['1', '.', 'e', 'E', '+', '-'] {
                longer.push(format!("{token}{c}"));
            }
        }
        for token in &longer {
            assert_eq!(number_token(token), token.parse::<f32>().is_ok(), "{token:?}");
        }
        last = longer;
    }
    assert!(!number_token(""));
}

fn at(x: &str, y: &str) -> Point {
    Point::At(Spot { x: x.into(), y: y.into() })
}

fn spot(x: &str, y: &str) -> Spot {
    Spot { x: x.into(), y: y.into() }
}

#[test]
fn lines_become_polygons() {
    assert_eq!(
        flatten_path("M0 0 L4 0 4 4 Z M9 9 L8 8 Z M1 1 L2 1 2 2"),
        [
            vec![at("0", "0"), at("4", "0"), at("4", "4")],
            vec![at("1", "1"), at("2", "1"), at("2", "2")],
        ],
        "what encloses nothing is dropped, and the last polygon needs no closing"
    );
    // After a close the pen is back where the subpath began; an odd number is lost,
    // and so is a command that is not known.
    assert_eq!(
        flatten_path("M5 5 L6 6 7 7 Q1 2 L8 8 9 Z"),
        [vec![at("5", "5"), at("6", "6"), at("7", "7"), at("8", "8")]]
    );
    assert_eq!(flatten_path("L1 1 2 2"), Vec::<Vec<Point>>::new());
}

#[test]
fn curves_become_short_segments() {
    let polygons = flatten_path("M0 1 C2 3 4 5 6 7 8 9 10 11 12 13");
    assert_eq!(polygons.len(), 1);
    assert_eq!(polygons[0].len(), 1 + 2 * CURVE_SEGMENTS as usize);
    assert_eq!(polygons[0][0], at("0", "1"));
    for (i, point) in polygons[0][1..13].iter().enumerate() {
        assert_eq!(
            *point,
            Point::OnCurve {
                from: spot("0", "1"),
                control1: spot("2", "3"),
                control2: spot("4", "5"),
                to: spot("6", "7"),
                step: i as u8 + 1,
            }
        );
    }
    assert_eq!(
        polygons[0][24],
        Point::OnCurve {
            from: spot("6", "7"),
            control1: spot("8", "9"),
            control2: spot("10", "11"),
            to: spot("12", "13"),
            step: 12,
        }
    );
}

#[test]
fn each_letter_of_a_path_opens_a_group() {
    let commands: String = tokenize_path("m1e1-2l3,4 5E-1 6Lzz q").iter().map(|g| g.command).collect();
    assert_eq!(commands, "MLLZZQ");
}
