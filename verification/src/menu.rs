//! The native application menu.
//!
//! macOS routes standard editing shortcuts — Cmd+C, Cmd+V, Cmd+X, Cmd+A, Cmd+Z —
//! through the **Edit menu**, not to the focused view directly. A windowed app
//! with no menu bar therefore has no working copy/paste at all. The menu is
//! described here as data; building the platform's objects from it is left to
//! the main thread.

use crate::hotkey::{HotkeyKey, HotkeyMod};
use crate::i18n;
use crate::i18n::Locale;
use crate::text;
use vstd::prelude::*;

verus! {

/// Menu ids for the shell's own items, so the event loop can recognise them.
pub const ID_QUIT: &'static str = "dsh-shell:quit";

pub const ID_SHOW: &'static str = "dsh-shell:show";

pub const ID_RELOAD: &'static str = "dsh-shell:reload";

/// One entry in the menu description.
#[derive(Debug, Clone, PartialEq, Eq)]
pub enum Entry {
    /// A platform-provided item (cut, copy, paste, …), bound to a native
    /// selector by the system.
    Predefined(Predefined),
    /// An item this shell acts on, identified by its menu id.
    Shell { label: &'static str, id: &'static str },
    Separator,
}

/// The platform items the shell relies on.
#[derive(Debug, Clone, Copy, PartialEq, Eq, Structural)]
pub enum Predefined {
    About,
    Services,
    Hide,
    HideOthers,
    ShowAll,
    Undo,
    Redo,
    Cut,
    Copy,
    Paste,
    Delete,
    SelectAll,
    Minimize,
    Zoom,
    Fullscreen,
}

/// A submenu in the menu description.
#[derive(Debug, Clone, PartialEq, Eq)]
pub struct Section {
    pub title: &'static str,
    pub entries: Vec<Entry>,
}

/// The entries of the application's own submenu.
pub open spec fn app_entries() -> Seq<Entry> {
    seq![
        Entry::Predefined(Predefined::About),
        Entry::Separator,
        Entry::Predefined(Predefined::Services),
        Entry::Separator,
        Entry::Predefined(Predefined::Hide),
        Entry::Predefined(Predefined::HideOthers),
        Entry::Predefined(Predefined::ShowAll),
        Entry::Separator,
        Entry::Shell { label: "Quit", id: ID_QUIT },
    ]
}

/// The entries of the Edit submenu.
pub open spec fn edit_entries() -> Seq<Entry> {
    seq![
        Entry::Predefined(Predefined::Undo),
        Entry::Predefined(Predefined::Redo),
        Entry::Separator,
        Entry::Predefined(Predefined::Cut),
        Entry::Predefined(Predefined::Copy),
        Entry::Predefined(Predefined::Paste),
        Entry::Predefined(Predefined::Delete),
        Entry::Predefined(Predefined::SelectAll),
    ]
}

/// The entries of the View submenu.
pub open spec fn view_entries() -> Seq<Entry> {
    seq![
        Entry::Shell { label: "Reload", id: ID_RELOAD },
        Entry::Separator,
        Entry::Predefined(Predefined::Fullscreen),
    ]
}

/// The entries of the Window submenu.
pub open spec fn window_entries() -> Seq<Entry> {
    seq![
        Entry::Predefined(Predefined::Minimize),
        Entry::Predefined(Predefined::Zoom),
        Entry::Separator,
        Entry::Shell { label: "Close Window", id: ID_SHOW },
    ]
}

/// The submenus, each by its title and its entries.
pub open spec fn menu_plan() -> Seq<(Seq<char>, Seq<Entry>)> {
    seq![
        ("App"@, app_entries()),
        ("Edit"@, edit_entries()),
        ("View"@, view_entries()),
        ("Window"@, window_entries()),
    ]
}

/// What a list of sections is.
pub open spec fn plan_of(sections: Seq<Section>) -> Seq<(Seq<char>, Seq<Entry>)> {
    Seq::new(sections.len(), |i: int| (sections[i].title@, sections[i].entries@))
}

/// Describe the application menu.
///
/// This description is pure data, so the structure — in particular whether the
/// Edit items that bind Cmd+C/V are present — can be checked without a menu bar.
pub fn description() -> (sections: Vec<Section>)
    ensures
        plan_of(sections@) == menu_plan(),
{
    let app: Vec<Entry> = vec![
        Entry::Predefined(Predefined::About),
        Entry::Separator,
        Entry::Predefined(Predefined::Services),
        Entry::Separator,
        Entry::Predefined(Predefined::Hide),
        Entry::Predefined(Predefined::HideOthers),
        Entry::Predefined(Predefined::ShowAll),
        Entry::Separator,
        Entry::Shell { label: "Quit", id: ID_QUIT },
    ];
    let edit: Vec<Entry> = vec![
        Entry::Predefined(Predefined::Undo),
        Entry::Predefined(Predefined::Redo),
        Entry::Separator,
        Entry::Predefined(Predefined::Cut),
        Entry::Predefined(Predefined::Copy),
        Entry::Predefined(Predefined::Paste),
        Entry::Predefined(Predefined::Delete),
        Entry::Predefined(Predefined::SelectAll),
    ];
    let view: Vec<Entry> = vec![
        Entry::Shell { label: "Reload", id: ID_RELOAD },
        Entry::Separator,
        Entry::Predefined(Predefined::Fullscreen),
    ];
    let window: Vec<Entry> = vec![
        Entry::Predefined(Predefined::Minimize),
        Entry::Predefined(Predefined::Zoom),
        Entry::Separator,
        Entry::Shell { label: "Close Window", id: ID_SHOW },
    ];
    assert(app@ =~= app_entries());
    assert(edit@ =~= edit_entries());
    assert(view@ =~= view_entries());
    assert(window@ =~= window_entries());
    let mut sections: Vec<Section> = Vec::new();
    sections.push(Section { title: "App", entries: app });
    sections.push(Section { title: "Edit", entries: edit });
    sections.push(Section { title: "View", entries: view });
    sections.push(Section { title: "Window", entries: window });
    assert(plan_of(sections@) =~= menu_plan());
    sections
}

/// The title a submenu is shown with: the application's own takes the
/// application's name, the others are localised.
pub open spec fn shown_title(title: Seq<char>, app_name: Seq<char>, locale: Locale) -> Seq<char> {
    if title == "App"@ {
        app_name
    } else if title == "Edit"@ {
        i18n::strings_of(locale).menu_edit@
    } else if title == "View"@ {
        i18n::strings_of(locale).menu_view@
    } else if title == "Window"@ {
        i18n::strings_of(locale).menu_window@
    } else {
        title
    }
}

/// The title a submenu is shown with.
pub fn section_title(title: &str, app_name: &str, locale: Locale) -> (shown: String)
    ensures
        shown@ == shown_title(title@, app_name@, locale),
{
    let strings = locale.strings();
    if text::same(title, "App") {
        text::own(app_name)
    } else if text::same(title, "Edit") {
        text::own(strings.menu_edit)
    } else if text::same(title, "View") {
        text::own(strings.menu_view)
    } else if text::same(title, "Window") {
        text::own(strings.menu_window)
    } else {
        text::own(title)
    }
}

/// The label a shell-owned item is shown with; an unknown one keeps its own.
pub fn item_label(id: &str, label: &str, locale: Locale) -> (shown: String)
    ensures
        shown@ == (if id@ == ID_QUIT@ {
            i18n::strings_of(locale).quit@
        } else if id@ == ID_RELOAD@ {
            i18n::strings_of(locale).menu_reload@
        } else if id@ == ID_SHOW@ {
            i18n::strings_of(locale).menu_close_window@
        } else {
            label@
        }),
{
    let strings = locale.strings();
    if text::same(id, ID_QUIT) {
        text::own(strings.quit)
    } else if text::same(id, ID_RELOAD) {
        text::own(strings.menu_reload)
    } else if text::same(id, ID_SHOW) {
        text::own(strings.menu_close_window)
    } else {
        text::own(label)
    }
}

/// The text the shell gives a platform item; nothing where the platform has its
/// own.
pub fn predefined_label(which: Predefined, app_name: &str, locale: Locale) -> (label: Option<
    String,
>)
    ensures
        text::held(label) == (match which {
            Predefined::About => Some(
                text::replaced(
                    i18n::strings_of(locale).menu_about@,
                    i18n::placeholder("app"@),
                    app_name@,
                ),
            ),
            Predefined::Hide => Some(
                text::replaced(
                    i18n::strings_of(locale).menu_hide@,
                    i18n::placeholder("app"@),
                    app_name@,
                ),
            ),
            _ => None,
        }),
{
    let strings = locale.strings();
    match which {
        Predefined::About => Some(i18n::fill(strings.menu_about, "app", app_name)),
        Predefined::Hide => Some(i18n::fill(strings.menu_hide, "app", app_name)),
        _ => None,
    }
}

/// The key and the modifier of a shell-owned item.
pub open spec fn shortcut_of(id: Seq<char>) -> (HotkeyKey, HotkeyMod) {
    if id == ID_QUIT@ {
        (HotkeyKey::Q, HotkeyMod::Meta)
    } else if id == ID_RELOAD@ {
        (HotkeyKey::R, HotkeyMod::Meta)
    } else if id == ID_SHOW@ {
        (HotkeyKey::W, HotkeyMod::Meta)
    } else {
        (HotkeyKey::D, HotkeyMod::Meta)
    }
}

/// The accelerator for a shell-owned item.
pub fn shell_shortcut(id: &str) -> (shortcut: (HotkeyKey, HotkeyMod))
    ensures
        shortcut == shortcut_of(id@),
{
    if text::same(id, ID_QUIT) {
        (HotkeyKey::Q, HotkeyMod::Meta)
    } else if text::same(id, ID_RELOAD) {
        (HotkeyKey::R, HotkeyMod::Meta)
    } else if text::same(id, ID_SHOW) {
        (HotkeyKey::W, HotkeyMod::Meta)
    } else {
        (HotkeyKey::D, HotkeyMod::Meta)
    }
}

/// What the selection of a shell-owned item asks for.
#[derive(Debug, Clone, Copy, PartialEq, Eq, Structural)]
pub enum MenuCommand {
    /// Stop the host and quit.
    Quit,
    /// Reload the page, not the whole app: the host and session survive.
    Reload,
    /// Hide the window to the tray rather than destroying it.
    Hide,
}

/// Map the id of a selected item to a command, if it is one of ours.
pub fn menu_command(id: &str) -> (command: Option<MenuCommand>)
    ensures
        command == (if id@ == ID_QUIT@ {
            Some(MenuCommand::Quit)
        } else if id@ == ID_RELOAD@ {
            Some(MenuCommand::Reload)
        } else if id@ == ID_SHOW@ {
            Some(MenuCommand::Hide)
        } else {
            None
        }),
{
    if text::same(id, ID_QUIT) {
        Some(MenuCommand::Quit)
    } else if text::same(id, ID_RELOAD) {
        Some(MenuCommand::Reload)
    } else if text::same(id, ID_SHOW) {
        Some(MenuCommand::Hide)
    } else {
        None
    }
}

// --------------------------------------------------------------------- laws

/// The Edit submenu binds the standard clipboard items: macOS routes their
/// shortcuts through it, so without them the clipboard is dead.
pub proof fn edit_menu_binds_the_clipboard()
    ensures
        menu_plan()[1].0 == "Edit"@,
        menu_plan()[1].1.contains(Entry::Predefined(Predefined::Cut)),
        menu_plan()[1].1.contains(Entry::Predefined(Predefined::Copy)),
        menu_plan()[1].1.contains(Entry::Predefined(Predefined::Paste)),
        menu_plan()[1].1.contains(Entry::Predefined(Predefined::SelectAll)),
        menu_plan()[1].1.contains(Entry::Predefined(Predefined::Undo)),
        menu_plan()[1].1.contains(Entry::Predefined(Predefined::Redo)),
{
    let edit = edit_entries();
    assert(edit[0] == Entry::Predefined(Predefined::Undo));
    assert(edit[1] == Entry::Predefined(Predefined::Redo));
    assert(edit[3] == Entry::Predefined(Predefined::Cut));
    assert(edit[4] == Entry::Predefined(Predefined::Copy));
    assert(edit[5] == Entry::Predefined(Predefined::Paste));
    assert(edit[7] == Entry::Predefined(Predefined::SelectAll));
}

/// Whether no separator leads a submenu and no two stand side by side.
pub open spec fn well_separated(entries: Seq<Entry>) -> bool {
    &&& entries.len() > 0 ==> entries[0] !is Separator
    &&& forall|i: int|
        0 <= i < entries.len() - 1 ==> !(#[trigger] entries[i] is Separator && entries[i + 1] is Separator)
}

/// No submenu starts with a separator, and none has two side by side.
pub proof fn separators_separate(i: int)
    requires
        0 <= i < menu_plan().len(),
    ensures
        well_separated(menu_plan()[i].1),
{
}

/// The ids of the shell's own items differ, and each has a shortcut of its own
/// with the platform key.
pub proof fn shell_items_are_distinct()
    ensures
        ID_QUIT@ != ID_SHOW@,
        ID_QUIT@ != ID_RELOAD@,
        ID_SHOW@ != ID_RELOAD@,
        shortcut_of(ID_QUIT@).0 != shortcut_of(ID_SHOW@).0,
        shortcut_of(ID_QUIT@).0 != shortcut_of(ID_RELOAD@).0,
        shortcut_of(ID_SHOW@).0 != shortcut_of(ID_RELOAD@).0,
        forall|id: Seq<char>| (#[trigger] shortcut_of(id)).1 == HotkeyMod::Meta,
{
    reveal_strlit("dsh-shell:quit");
    reveal_strlit("dsh-shell:show");
    reveal_strlit("dsh-shell:reload");
    assert(ID_QUIT@[10] == 'q' && ID_SHOW@[10] == 's' && ID_RELOAD@[10] == 'r');
}

/// The titles of the four submenus in each language, the application's own being the name
/// of the application; any other title is shown as it is.
pub proof fn submenus_have_their_titles(
    title: &str,
    app_name: &str,
    locale: Locale,
    shown: String,
)
    requires
        call_ensures(section_title, (title, app_name, locale), shown),
    ensures
        title@ == "App"@ ==> shown@ == app_name@,
        title@ == "Edit"@ ==> shown@ == (match locale {
            Locale::En => "Edit"@,
            Locale::Zh => "编辑"@,
        }),
        title@ == "View"@ ==> shown@ == (match locale {
            Locale::En => "View"@,
            Locale::Zh => "显示"@,
        }),
        title@ == "Window"@ ==> shown@ == (match locale {
            Locale::En => "Window"@,
            Locale::Zh => "窗口"@,
        }),
        title@ != "App"@ && title@ != "Edit"@ && title@ != "View"@ && title@ != "Window"@ ==> shown@
            == title@,
{
    reveal_strlit("App");
    reveal_strlit("Edit");
    reveal_strlit("View");
    reveal_strlit("Window");
    assert("App"@.len() == 3 && "Edit"@.len() == 4 && "View"@.len() == 4 && "Window"@.len() == 6);
    assert("Edit"@[0] == 'E' && "View"@[0] == 'V');
}

/// The labels of the shell's own items in each language; an item that is not one of them
/// keeps its own label.
pub proof fn items_have_their_labels(id: &str, label: &str, locale: Locale, shown: String)
    requires
        call_ensures(item_label, (id, label, locale), shown),
    ensures
        id@ == "dsh-shell:quit"@ ==> shown@ == (match locale {
            Locale::En => "Quit"@,
            Locale::Zh => "退出"@,
        }),
        id@ == "dsh-shell:reload"@ ==> shown@ == (match locale {
            Locale::En => "Reload"@,
            Locale::Zh => "重新加载"@,
        }),
        id@ == "dsh-shell:show"@ ==> shown@ == (match locale {
            Locale::En => "Close Window"@,
            Locale::Zh => "关闭窗口"@,
        }),
        id@ != "dsh-shell:quit"@ && id@ != "dsh-shell:reload"@ && id@ != "dsh-shell:show"@ ==> shown@
            == label@,
{
    shell_items_are_distinct();
}

/// The platform items that name the application do so, in each language, and the shell
/// gives no other a text of its own.
pub proof fn about_and_hide_name_the_app(
    which: Predefined,
    app_name: &str,
    locale: Locale,
    label: Option<String>,
)
    requires
        call_ensures(predefined_label, (which, app_name, locale), label),
    ensures
        label is Some <==> which is About || which is Hide,
        which is About ==> text::held(label) == Some(
            (match locale {
                Locale::En => "About "@,
                Locale::Zh => "关于 "@,
            }) + app_name@,
        ),
        which is Hide ==> text::held(label) == Some(
            (match locale {
                Locale::En => "Hide "@,
                Locale::Zh => "隐藏 "@,
            }) + app_name@,
        ),
{
    reveal_strlit("app");
    reveal_strlit("About {app}");
    reveal_strlit("Hide {app}");
    reveal_strlit("关于 {app}");
    reveal_strlit("隐藏 {app}");
    reveal_strlit("About ");
    reveal_strlit("Hide ");
    reveal_strlit("关于 ");
    reveal_strlit("隐藏 ");
    let none = Seq::<char>::empty();
    let key = "app"@;
    assert("About {app}"@ =~= "About "@ + seq!['{'] + key + seq!['}'] + none);
    assert("Hide {app}"@ =~= "Hide "@ + seq!['{'] + key + seq!['}'] + none);
    assert("关于 {app}"@ =~= "关于 "@ + seq!['{'] + key + seq!['}'] + none);
    assert("隐藏 {app}"@ =~= "隐藏 "@ + seq!['{'] + key + seq!['}'] + none);
    i18n::values_fill_their_place("About {app}"@, "About "@, key, none, app_name@);
    i18n::values_fill_their_place("Hide {app}"@, "Hide "@, key, none, app_name@);
    i18n::values_fill_their_place("关于 {app}"@, "关于 "@, key, none, app_name@);
    i18n::values_fill_their_place("隐藏 {app}"@, "隐藏 "@, key, none, app_name@);
    assert("About "@ + app_name@ + none =~= "About "@ + app_name@);
    assert("Hide "@ + app_name@ + none =~= "Hide "@ + app_name@);
    assert("关于 "@ + app_name@ + none =~= "关于 "@ + app_name@);
    assert("隐藏 "@ + app_name@ + none =~= "隐藏 "@ + app_name@);
}

/// Each of the shell's own items asks for its own command and has its own key: quitting
/// with Q, reloading with R, and closing, which hides, with W. No other id asks for any.
pub proof fn items_have_their_commands(
    id: &str,
    command: Option<MenuCommand>,
    shortcut: (HotkeyKey, HotkeyMod),
)
    requires
        call_ensures(menu_command, (id,), command),
        call_ensures(shell_shortcut, (id,), shortcut),
    ensures
        command == Some(MenuCommand::Quit) <==> id@ == "dsh-shell:quit"@,
        command == Some(MenuCommand::Reload) <==> id@ == "dsh-shell:reload"@,
        command == Some(MenuCommand::Hide) <==> id@ == "dsh-shell:show"@,
        shortcut.1 is Meta,
        shortcut.0 is Q <==> id@ == "dsh-shell:quit"@,
        shortcut.0 is R <==> id@ == "dsh-shell:reload"@,
        shortcut.0 is W <==> id@ == "dsh-shell:show"@,
        command is None ==> shortcut.0 is D,
{
    shell_items_are_distinct();
}

/// The menu has four submenus, in this order, and the shell's own items stand in them
/// where a user looks for them: quitting last in the application's own, reloading first
/// under View, closing last under Window. Each of them stands there once.
pub proof fn the_menu_has_its_submenus(sections: Vec<Section>)
    requires
        call_ensures(description, (), sections),
    ensures
        sections@.len() == 4,
        sections@[0].title@ == "App"@,
        sections@[1].title@ == "Edit"@,
        sections@[2].title@ == "View"@,
        sections@[3].title@ == "Window"@,
        sections@[0].entries@.last() matches Entry::Shell { id, .. } && id@ == "dsh-shell:quit"@,
        sections@[2].entries@[0] matches Entry::Shell { id, .. } && id@ == "dsh-shell:reload"@,
        sections@[3].entries@.last() matches Entry::Shell { id, .. } && id@ == "dsh-shell:show"@,
        sections@[0].entries@.len() == 9,
        sections@[1].entries@.len() == 8,
        sections@[2].entries@.len() == 3,
        sections@[3].entries@.len() == 4,
        forall|i: int| 0 <= i < 8 ==> !(#[trigger] sections@[0].entries@[i] is Shell),
        forall|i: int| 0 <= i < 8 ==> !(#[trigger] sections@[1].entries@[i] is Shell),
        sections@[0].entries@[0] == Entry::Predefined(Predefined::About),
        sections@[0].entries@[2] == Entry::Predefined(Predefined::Services),
        sections@[0].entries@[4] == Entry::Predefined(Predefined::Hide),
        sections@[0].entries@[5] == Entry::Predefined(Predefined::HideOthers),
        sections@[0].entries@[6] == Entry::Predefined(Predefined::ShowAll),
        sections@[1].entries@[6] == Entry::Predefined(Predefined::Delete),
        sections@[2].entries@[2] == Entry::Predefined(Predefined::Fullscreen),
        sections@[3].entries@[0] == Entry::Predefined(Predefined::Minimize),
        sections@[3].entries@[1] == Entry::Predefined(Predefined::Zoom),
{
    let plan = plan_of(sections@);
    assert(plan == menu_plan());
    assert(plan.len() == 4);
    assert(plan[0] == (sections@[0].title@, sections@[0].entries@));
    assert(plan[1] == (sections@[1].title@, sections@[1].entries@));
    assert(plan[2] == (sections@[2].title@, sections@[2].entries@));
    assert(plan[3] == (sections@[3].title@, sections@[3].entries@));
}

} // verus!
