use dsh_shell::hotkey::{HotkeyKey, HotkeyMod};
use dsh_shell::i18n::Locale;
use dsh_shell::menu::{
    description, item_label, menu_command, predefined_label, section_title, shell_shortcut, Entry,
    MenuCommand, Predefined, Section, ID_QUIT, ID_RELOAD, ID_SHOW,
};

fn section(title: &str) -> Section {
    description()
        .into_iter()
        .find(|s| s.title == title)
        .unwrap_or_else(|| panic!("no {title} section"))
}

#[test]
fn the_edit_menu_binds_the_standard_clipboard_items() {
    // This is the regression test for Cmd+C/V doing nothing. macOS routes those
    // shortcuts through the Edit menu, so if these items are missing the clipboard
    // is dead no matter what the web view implements.
    let edit = section("Edit");
    for required in [
        Predefined::Cut,
        Predefined::Copy,
        Predefined::Paste,
        Predefined::SelectAll,
        Predefined::Undo,
        Predefined::Redo,
    ] {
        assert!(
            edit.entries.contains(&Entry::Predefined(required)),
            "Edit menu is missing {required:?}; the shortcut would not work"
        );
    }
}

#[test]
fn there_is_an_edit_section_at_all() {
    assert!(
        description().iter().any(|s| s.title == "Edit"),
        "no Edit section; Cmd+C/V cannot be bound"
    );
}

#[test]
fn shell_items_have_unique_ids_and_shortcuts() {
    let mut ids = Vec::new();
    for s in description() {
        for e in s.entries {
            if let Entry::Shell { id, .. } = e {
                assert!(!ids.contains(&id), "duplicate menu id {id}");
                ids.push(id);
                // A shell item with no accelerator would be unreachable from the
                // keyboard.
                let (_, mods) = shell_shortcut(id);
                assert_eq!(mods, HotkeyMod::Meta, "{id} lacks a modifier");
            }
        }
    }
    assert!(ids.contains(&ID_QUIT) && ids.contains(&ID_RELOAD));
}

#[test]
fn separators_are_not_adjacent_and_do_not_lead() {
    for s in description() {
        let first_is_sep = matches!(s.entries.first(), Some(Entry::Separator));
        assert!(!first_is_sep, "{} starts with a separator", s.title);
        for pair in s.entries.windows(2) {
            let both =
                matches!(pair[0], Entry::Separator) && matches!(pair[1], Entry::Separator);
            assert!(!both, "{} has adjacent separators", s.title);
        }
    }
}

#[test]
fn menus_are_shown_in_the_language() {
    assert_eq!(section_title("App", "DSH Shell", Locale::Zh), "DSH Shell");
    assert_eq!(section_title("Edit", "DSH Shell", Locale::Zh), "编辑");
    assert_eq!(section_title("View", "DSH Shell", Locale::En), "View");
    assert_eq!(section_title("Window", "DSH Shell", Locale::Zh), "窗口");
    assert_eq!(section_title("Other", "DSH Shell", Locale::Zh), "Other");
    assert_eq!(item_label(ID_QUIT, "Quit", Locale::Zh), "退出");
    assert_eq!(item_label(ID_RELOAD, "Reload", Locale::Zh), "重新加载");
    assert_eq!(item_label(ID_SHOW, "Close Window", Locale::En), "Close Window");
    assert_eq!(item_label("other", "Own", Locale::Zh), "Own");
    assert_eq!(
        predefined_label(Predefined::About, "DSH Shell", Locale::En).as_deref(),
        Some("About DSH Shell")
    );
    assert_eq!(
        predefined_label(Predefined::Hide, "DSH Shell", Locale::Zh).as_deref(),
        Some("隐藏 DSH Shell")
    );
    assert_eq!(predefined_label(Predefined::Copy, "DSH Shell", Locale::En), None);
}

#[test]
fn menu_items_ask_for_their_commands() {
    assert_eq!(menu_command(ID_QUIT), Some(MenuCommand::Quit));
    assert_eq!(menu_command(ID_RELOAD), Some(MenuCommand::Reload));
    assert_eq!(menu_command(ID_SHOW), Some(MenuCommand::Hide));
    assert_eq!(menu_command("dsh-shell:other"), None);
    assert_eq!(shell_shortcut(ID_QUIT), (HotkeyKey::Q, HotkeyMod::Meta));
    assert_eq!(shell_shortcut(ID_RELOAD), (HotkeyKey::R, HotkeyMod::Meta));
    assert_eq!(shell_shortcut(ID_SHOW), (HotkeyKey::W, HotkeyMod::Meta));
}

#[test]
fn shell_items_carry_their_ids() {
    let quit = section("App").entries.into_iter().find_map(|entry| match entry {
        Entry::Shell { label: "Quit", id } => Some(id),
        _ => None,
    });
    assert_eq!(quit, Some(ID_QUIT));
}
