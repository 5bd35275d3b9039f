//! What the shell's event loop decides: each event from the window, the page, the
//! tray, the menu and the host is mapped here to what has to be done.

use crate::bridge;
use crate::bridge::BridgeEvent;
use crate::document;
use crate::i18n;
use crate::i18n::Locale;
use crate::text;
use crate::theme;
use crate::theme::Theme;
use vstd::prelude::*;

verus! {

// ------------------------------------------------------------------- the page

/// IPC message the injected drag region posts to start a window move.
pub const DRAG_MESSAGE: &'static str = "dsh-shell:drag";

/// IPC message for the double-click-to-zoom action on the drag strip.
pub const ZOOM_MESSAGE: &'static str = "dsh-shell:zoom";

/// Sent once the drag region is live, so the shell can confirm the window is
/// movable.
pub const READY_MESSAGE: &'static str = "dsh-shell:drag-ready";

/// The opening of the injected script, up to the style sheet.
pub const INJECT_STYLES: &'static str = "(function() {
  var apply = function() {
    applyStyles();
    applyDragRegion();
  };
  if (document.readyState === 'loading') {
    document.addEventListener('DOMContentLoaded', apply);
  } else {
    apply();
  }

  function applyStyles() {
    var el = document.getElementById('__dsh_shell_theme');
    if (!el) {
      el = document.createElement('style');
      el.id = '__dsh_shell_theme';
      (document.head || document.documentElement).appendChild(el);
    }
    el.textContent = ";

/// The injected script from the style sheet to the drag message.
pub const INJECT_DRAG: &'static str = ";
  }

  // With the system titlebar hidden there is no OS drag area, so a strip along
  // the top of the page forwards pointer presses to the shell, which moves the
  // window. The strip only covers empty chrome: the strip sits above DSH's own
  // content because the page is padded down by --dsh-shell-caption-height.
  function applyDragRegion() {
    if (document.getElementById('__dsh_shell_drag')) return;
    if (!document.documentElement) {
      console.error('[dsh-shell] no documentElement; drag region not installed');
      return;
    }
    var strip = document.createElement('div');
    strip.id = '__dsh_shell_drag';
    strip.setAttribute('aria-hidden', 'true');
    document.documentElement.appendChild(strip);

    strip.addEventListener('pointerdown', function (event) {
      // Left button only. Right-click must still open context menus, and
      // double-click should keep the platform's zoom behaviour.
      if (event.button !== 0) return;
      event.preventDefault();
      if (window.ipc && window.ipc.postMessage) {
        window.ipc.postMessage(";

/// The injected script from the drag message to the zoom message.
pub const INJECT_ZOOM: &'static str = ");
      }
    });

    // Double-clicking empty chrome should zoom the window, matching the
    // behaviour a real titlebar would have.
    strip.addEventListener('dblclick', function () {
      if (window.ipc && window.ipc.postMessage) {
        window.ipc.postMessage(";

/// The injected script from the zoom message to the ready message.
pub const INJECT_READY: &'static str = ");
      }
    });

    if (!window.ipc || !window.ipc.postMessage) {
      // Without the IPC bridge the strip is inert and the window becomes
      // unmovable. Report it so the dead zone is diagnosable rather than silent.
      console.error('[dsh-shell] window.ipc unavailable; window drag is disabled');
    } else {
      window.ipc.postMessage(";

/// The end of the injected script.
pub const INJECT_END: &'static str = ");
    }
  }
})();";

/// The opening of the script that replaces the injected style sheet.
pub const REWRITE_STYLES: &'static str = "(function() {
  var el = document.getElementById('__dsh_shell_theme');
  if (!el) {
    el = document.createElement('style');
    el.id = '__dsh_shell_theme';
    (document.head || document.documentElement).appendChild(el);
  }
  el.textContent = ";

/// The end of the script that replaces the injected style sheet.
pub const REWRITE_END: &'static str = ";
})();";

/// What a message from the page asks for.
#[derive(Debug, Clone, Copy, PartialEq, Eq, Structural)]
pub enum PageCommand {
    /// Move the window with the pointer.
    Drag,
    /// Zoom the window, or un-zoom it, as a titlebar would.
    Zoom,
    /// Nothing; the drag region is live.
    Ready,
}

/// Map a message from the page to a command. Unknown messages are ignored rather
/// than guessed at, so adding a future message cannot accidentally move the
/// window.
pub fn page_command(message: &str) -> (command: Option<PageCommand>)
    ensures
        command == (if message@ == DRAG_MESSAGE@ {
            Some(PageCommand::Drag)
        } else if message@ == ZOOM_MESSAGE@ {
            Some(PageCommand::Zoom)
        } else if message@ == READY_MESSAGE@ {
            Some(PageCommand::Ready)
        } else {
            None
        }),
{
    if text::same(message, DRAG_MESSAGE) {
        Some(PageCommand::Drag)
    } else if text::same(message, ZOOM_MESSAGE) {
        Some(PageCommand::Zoom)
    } else if text::same(message, READY_MESSAGE) {
        Some(PageCommand::Ready)
    } else {
        None
    }
}

/// The script that installs the theme styles and the window-drag region on load.
pub open spec fn injected_script(css: Seq<char>) -> Seq<char> {
    INJECT_STYLES@ + document::json_quoted(css) + INJECT_DRAG@ + document::json_quoted(
        DRAG_MESSAGE@,
    ) + INJECT_ZOOM@ + document::json_quoted(ZOOM_MESSAGE@) + INJECT_READY@
        + document::json_quoted(READY_MESSAGE@) + INJECT_END@
}

/// Script that installs the theme styles and the window-drag region on load.
///
/// Both are installed here so they share one `DOMContentLoaded` path and survive
/// navigations together.
pub fn inject_script(theme: &Theme, is_dark: bool) -> (script: String)
    ensures
        script@ == injected_script(theme::css_under(theme@, is_dark)),
{
    let css = theme.injected_css(is_dark);
    let s = text::plus(text::own(INJECT_STYLES), document::json_string(css.as_str()).as_str());
    let s = text::plus(s, INJECT_DRAG);
    let s = text::plus(s, document::json_string(DRAG_MESSAGE).as_str());
    let s = text::plus(s, INJECT_ZOOM);
    let s = text::plus(s, document::json_string(ZOOM_MESSAGE).as_str());
    let s = text::plus(s, INJECT_READY);
    let s = text::plus(s, document::json_string(READY_MESSAGE).as_str());
    text::plus(s, INJECT_END)
}

/// Script that replaces the style element's contents on a theme reload.
pub fn rewrite_style_script(theme: &Theme, is_dark: bool) -> (script: String)
    ensures
        script@ == REWRITE_STYLES@ + document::json_quoted(theme::css_under(theme@, is_dark))
            + REWRITE_END@,
{
    let css = theme.injected_css(is_dark);
    let s = text::plus(text::own(REWRITE_STYLES), document::json_string(css.as_str()).as_str());
    text::plus(s, REWRITE_END)
}

/// A locale's id in double quotes.
pub open spec fn quoted_id(locale: Locale) -> Seq<char> {
    "\""@ + i18n::locale_id(locale) + "\""@
}

/// A locale's id in double quotes.
pub(crate) fn quote_id(locale: Locale) -> (quoted: String)
    ensures
        quoted@ == quoted_id(locale),
{
    text::plus(text::plus(text::own("\""), locale.id()), "\"")
}

/// The boot page with the shell's language baked in, so the first paint is
/// already in the right language rather than flashing English.
pub fn boot_page(template: &str, locale: Locale) -> (page: String)
    ensures
        page@ == text::replaced(template@, "{locale}"@, quoted_id(locale)),
{
    proof {
        reveal_strlit("{locale}");
    }
    text::replace(template, "{locale}", quote_id(locale).as_str())
}

/// The name of a truth value in JavaScript.
pub open spec fn truth(b: bool) -> Seq<char> {
    if b {
        "true"@
    } else {
        "false"@
    }
}

/// The name of a truth value in JavaScript.
pub(crate) fn show_bool(b: bool) -> (s: &'static str)
    ensures
        s@ == truth(b),
{
    if b {
        "true"
    } else {
        "false"
    }
}

/// Script that paints the boot screen in the right appearance.
pub fn boot_appearance_script(is_dark: bool) -> (script: String)
    ensures
        script@ == "window.__dshBoot && window.__dshBoot.setAppearance("@ + truth(is_dark) + ");"@,
{
    let s = text::plus(
        text::own("window.__dshBoot && window.__dshBoot.setAppearance("),
        show_bool(is_dark),
    );
    text::plus(s, ");")
}

/// The script that shows why no host runs.
pub open spec fn failure_script(err: Seq<char>, locale: Locale) -> Seq<char> {
    "window.__dshBoot && window.__dshBoot.fail("@ + document::json_quoted(
        i18n::strings_of(locale).boot_failed@,
    ) + ", "@ + document::json_quoted(err) + ");"@
}

/// Script that shows in the window why no host runs: a silent spinner would leave
/// the user with no idea anything went wrong.
pub fn boot_failure_script(err: &str, locale: Locale) -> (script: String)
    ensures
        script@ == failure_script(err@, locale),
{
    let s = text::plus(
        text::own("window.__dshBoot && window.__dshBoot.fail("),
        document::json_string(locale.strings().boot_failed).as_str(),
    );
    let s = text::plus(s, ", ");
    let s = text::plus(s, document::json_string(err).as_str());
    text::plus(s, ");")
}

/// What the launcher thread has to tell.
#[derive(Debug, PartialEq, Eq)]
pub enum HostNews {
    /// Nothing yet: the host is still booting.
    Pending,
    /// The host is up, at the URL given.
    Ready(String),
    /// No host could be started.
    Failed(String),
    /// The thread is gone without a word.
    Gone,
}

/// What the page shows next.
#[derive(Debug, PartialEq, Eq)]
pub enum BootStep {
    /// Go on waiting, and ask again at the next tick.
    Wait,
    /// Load the host's page; there is nothing left to wait for.
    Load(String),
    /// Run a script that shows the failure; there is nothing left to wait for.
    Explain(String),
    /// Nothing; and nothing is left to wait for.
    Stay,
}

/// Decide what the boot page does on news of the host. The launcher thread tells
/// once, so anything but nothing ends the wait.
pub fn boot_step(news: HostNews, locale: Locale) -> (step: BootStep)
    ensures
        match news {
            HostNews::Pending => step == BootStep::Wait,
            HostNews::Ready(url) => step matches BootStep::Load(u) && u@ == url@,
            HostNews::Failed(err) => step matches BootStep::Explain(script) && script@
                == failure_script(err@, locale),
            HostNews::Gone => step == BootStep::Stay,
        },
{
    match news {
        HostNews::Pending => BootStep::Wait,
        HostNews::Ready(url) => BootStep::Load(url),
        HostNews::Failed(err) => BootStep::Explain(boot_failure_script(err.as_str(), locale)),
        HostNews::Gone => BootStep::Stay,
    }
}

/// Script that shows the stored theme, as JSON, in an open settings page.
pub fn settings_update_script(theme_json: &str) -> (script: String)
    ensures
        script@ == "window.__dshSettings && window.__dshSettings.update("@ + theme_json@ + ");"@,
{
    let s = text::plus(
        text::own("window.__dshSettings && window.__dshSettings.update("),
        theme_json,
    );
    text::plus(s, ");")
}

/// Script that shows an update status, as JSON, in an open settings page.
pub fn update_status_script(status_json: &str) -> (script: String)
    ensures
        script@ == "window.__dshUpdate && window.__dshUpdate.set("@ + status_json@ + ");"@,
{
    let s = text::plus(text::own("window.__dshUpdate && window.__dshUpdate.set("), status_json);
    text::plus(s, ");")
}

/// `0xrrggbb` to red, green, blue and an opaque alpha.
pub fn hex_to_rgba(hex: u32) -> (rgba: (u8, u8, u8, u8))
    ensures
        rgba.0 == (hex / 65536) % 256,
        rgba.1 == (hex / 256) % 256,
        rgba.2 == hex % 256,
        rgba.3 == 255,
{
    (((hex / 65536) % 256) as u8, ((hex / 256) % 256) as u8, (hex % 256) as u8, 255)
}

// ------------------------------------------------------------- notifications

/// A session id as it is shown: the first segment is enough to tell two apart in
/// a notification without wrapping the text.
pub open spec fn short_id(id: Seq<char>) -> Seq<char> {
    if id.len() > 8 {
        id.take(8).push('…')
    } else {
        id
    }
}

/// Shorten a session id for display.
pub fn short_session(id: &str) -> (shown: String)
    ensures
        shown@ == short_id(id@),
{
    let v = text::chars_of(id);
    if v.len() > 8 {
        let mut head = text::slice(&v, 0, 8);
        assert(v@.subrange(0, 8) == v@.take(8));
        head.push('…');
        head
    } else {
        text::own(id)
    }
}

/// How a session is named in a notification.
pub open spec fn session_name(id: Option<Seq<char>>) -> Seq<char> {
    match id {
        Some(id) => short_id(id),
        None => "session"@,
    }
}

/// The title of a notification.
pub open spec fn notification_title(kind: Seq<char>, session: Seq<char>, locale: Locale) -> Seq<char> {
    let strings = i18n::strings_of(locale);
    let template = if kind == "request-error"@ {
        strings.notify_failed@
    } else {
        strings.notify_finished@
    };
    text::replaced(template, i18n::placeholder("session"@), session)
}

/// The body of a notification. For a finished turn an explicit reason is
/// preferred over a generic message: it tells the user whether the agent
/// completed or stopped early.
pub open spec fn notification_body(
    kind: Seq<char>,
    message: Option<Seq<char>>,
    reason: Option<Seq<char>>,
    locale: Locale,
) -> Seq<char> {
    let strings = i18n::strings_of(locale);
    if kind == "request-error"@ {
        match message {
            Some(message) => message,
            None => strings.notify_errored@,
        }
    } else {
        let stopped = match reason {
            Some(reason) => Some(reason),
            None => message,
        };
        match stopped {
            Some(stopped) => text::replaced(
                strings.notify_stopped@,
                i18n::placeholder("reason"@),
                stopped,
            ),
            None => strings.notify_done@,
        }
    }
}

/// The notification for an event, as its title and its body; nothing where the
/// event does not warrant one.
pub fn notification(event: &BridgeEvent, locale: Locale) -> (shown: Option<(String, String)>)
    ensures
        match shown {
            Some((title, body)) => {
                &&& bridge::interrupts(event.kind@)
                &&& title@ == notification_title(
                    event.kind@,
                    session_name(text::held(event.session_id)),
                    locale,
                )
                &&& body@ == notification_body(
                    event.kind@,
                    text::held(event.message),
                    text::held(event.reason),
                    locale,
                )
            },
            None => !bridge::interrupts(event.kind@),
        },
{
    if !event.wants_notification() {
        return None;
    }
    let strings = locale.strings();
    let session = match &event.session_id {
        Some(id) => short_session(id.as_str()),
        None => text::own("session"),
    };
    if text::same(event.kind.as_str(), "request-error") {
        let title = i18n::fill(strings.notify_failed, "session", session.as_str());
        let body = match &event.message {
            Some(message) => message.clone(),
            None => text::own(strings.notify_errored),
        };
        Some((title, body))
    } else {
        let title = i18n::fill(strings.notify_finished, "session", session.as_str());
        let body = match (&event.reason, &event.message) {
            (Some(reason), _) => i18n::fill(strings.notify_stopped, "reason", reason.as_str()),
            (None, Some(message)) => i18n::fill(strings.notify_stopped, "reason", message.as_str()),
            (None, None) => text::own(strings.notify_done),
        };
        Some((title, body))
    }
}

/// What a plugin asks of the shell.
#[derive(Debug, Clone, PartialEq, Eq)]
pub enum ShellRequest {
    /// Post a notification.
    Notify { title: Option<String>, body: String },
    /// Bring the window to the front.
    FocusWindow,
    /// Hide the window to the tray.
    HideWindow,
    /// Set or clear the label beside the agent state.
    SetStatusLabel { text: Option<String> },
}

/// The title of a notification that a plugin asks for: its own copy is passed
/// through untouched, only the fallback is the shell's.
pub fn plugin_title(title: Option<String>) -> (shown: String)
    ensures
        shown@ == (match title {
            Some(title) => title@,
            None => "DSH"@,
        }),
{
    match title {
        Some(title) => title,
        None => text::own("DSH"),
    }
}

// --------------------------------------------------------------- unseen turns

/// Finished turns the user has not looked at yet, shown as a Dock badge and as a
/// number beside the tray icon.
///
/// The window is assumed to open in front, so this starts settled rather than
/// badging work nobody has missed.
#[derive(Debug)]
pub struct Unseen {
    count: usize,
    was_watched: bool,
}

/// What the badge goes by: how many turns were not looked at, and whether the
/// window was in front when it was last asked.
pub ghost struct Badge {
    pub turns: nat,
    pub watched: bool,
}

impl View for Unseen {
    type V = Badge;

    closed spec fn view(&self) -> Badge {
        Badge { turns: self.count as nat, watched: self.was_watched }
    }
}

/// The badge after a turn has finished.
pub open spec fn after_turn(badge: Badge, watched: bool) -> Badge {
    if watched {
        badge
    } else {
        Badge { turns: badge.turns + 1, ..badge }
    }
}

/// The badge after the loop has ticked.
pub open spec fn after_tick(badge: Badge, watched: bool) -> Badge {
    let returned = watched && !badge.watched;
    Badge {
        turns: if returned {
            0
        } else {
            badge.turns
        },
        watched,
    }
}

/// What to show when one badge becomes another: the number, where it changes.
pub open spec fn shown_of(before: Badge, after: Badge) -> Option<nat> {
    if after.turns == before.turns {
        None
    } else {
        Some(after.turns)
    }
}

/// The count in a number to show.
pub open spec fn count_in(shown: Option<usize>) -> Option<nat> {
    match shown {
        Some(count) => Some(count as nat),
        None => None,
    }
}

impl Unseen {
    pub fn new() -> (unseen: Unseen)
        ensures
            unseen@ == (Badge { turns: 0, watched: true }),
    {
        Unseen { count: 0, was_watched: true }
    }

    /// How many turns were not looked at.
    pub fn count(&self) -> (count: usize)
        ensures
            count == self@.turns,
    {
        self.count
    }

    /// A turn finished. One that finishes while the user is looking needs no
    /// badge; otherwise the number to show is returned.
    pub fn turn_finished(&mut self, watched: bool) -> (shown: Option<usize>)
        requires
            old(self)@.turns < usize::MAX,
        ensures
            final(self)@ == after_turn(old(self)@, watched),
            count_in(shown) == shown_of(old(self)@, final(self)@),
    {
        if watched {
            None
        } else {
            self.count += 1;
            Some(self.count)
        }
    }

    /// The loop ticked. Looking at the window is what "seen" means, so the badge
    /// clears as soon as the window comes back in front; the number to show is
    /// returned where it changes.
    pub fn tick(&mut self, watched: bool) -> (shown: Option<usize>)
        ensures
            final(self)@ == after_tick(old(self)@, watched),
            count_in(shown) == shown_of(old(self)@, final(self)@),
    {
        let shown = if watched && !self.was_watched && self.count > 0 {
            self.count = 0;
            Some(0)
        } else {
            None
        };
        self.was_watched = watched;
        shown
    }
}

/// The badge after turns that finished, each with whether the user was looking.
pub open spec fn after_turns(badge: Badge, turns: Seq<bool>) -> Badge
    decreases turns.len(),
{
    if turns.len() == 0 {
        badge
    } else {
        after_turn(after_turns(badge, turns.drop_last()), turns.last())
    }
}

/// A turn that finishes says nothing of where the window is.
proof fn lemma_turns_keep_watch(badge: Badge, turns: Seq<bool>)
    ensures
        after_turns(badge, turns).watched == badge.watched,
    decreases turns.len(),
{
    if turns.len() > 0 {
        lemma_turns_keep_watch(badge, turns.drop_last());
    }
}

/// Coming back to the window clears the badge, however many turns finished while
/// it was away.
pub proof fn coming_back_clears_the_badge(badge: Badge, turns: Seq<bool>)
    ensures
        after_tick(after_turns(after_tick(badge, false), turns), true) == (Badge {
            turns: 0,
            watched: true,
        }),
{
    lemma_turns_keep_watch(after_tick(badge, false), turns);
}

/// Turns that finish while the user is looking leave the badge as it is.
pub proof fn watched_turns_need_no_badge(badge: Badge, turns: Seq<bool>)
    requires
        forall|i: int| 0 <= i < turns.len() ==> #[trigger] turns[i],
    ensures
        after_turns(badge, turns) == badge,
    decreases turns.len(),
{
    if turns.len() > 0 {
        assert forall|i: int| 0 <= i < turns.drop_last().len() implies #[trigger] turns.drop_last()[i] by {
            assert(turns[i]);
        }
        watched_turns_need_no_badge(badge, turns.drop_last());
        assert(turns[turns.len() - 1]);
    }
}

/// The number beside the tray icon; nothing is shown for none.
pub fn badge_text(count: usize) -> (shown: String)
    ensures
        shown@ == (if count == 0 {
            Seq::<char>::empty()
        } else {
            text::decimal_digits(count as nat)
        }),
{
    if count == 0 {
        String::new()
    } else {
        text::decimal(count as u64)
    }
}

/// Whether the user is looking at the window: the app is active, as the platform
/// says or, where it cannot be asked, as the last focus event said, and the
/// window is visible.
pub fn is_watched(app_is_active: Option<bool>, focused: bool, visible: bool) -> (watched: bool)
    ensures
        watched == (visible && (match app_is_active {
            Some(active) => active,
            None => focused,
        })),
{
    let active = match app_is_active {
        Some(active) => active,
        None => focused,
    };
    active && visible
}

// ----------------------------------------------------------------- the window

/// What closing a window does.
#[derive(Debug, Clone, Copy, PartialEq, Eq, Structural)]
pub enum CloseAction {
    /// Drop the settings window.
    DropSettings,
    /// Hide the main window to the tray.
    Hide,
    /// Stop the host and quit.
    Quit,
}

/// Decide what closing a window does.
///
/// With a tray, closing the main window hides the app instead of quitting. With
/// no tray to restore from, closing must quit — otherwise the app would be
/// unreachable.
pub fn close_action(is_main_window: bool, has_tray: bool) -> (action: CloseAction)
    ensures
        action == (if !is_main_window {
            CloseAction::DropSettings
        } else if has_tray {
            CloseAction::Hide
        } else {
            CloseAction::Quit
        }),
{
    if !is_main_window {
        CloseAction::DropSettings
    } else if has_tray {
        CloseAction::Hide
    } else {
        CloseAction::Quit
    }
}

/// The shortest gap between two window-geometry writes, in milliseconds.
///
/// Dragging or resizing produces an event per frame, and each save replaces a
/// file. Half a second keeps the file close to current without turning a drag
/// into hundreds of writes.
pub const GEOMETRY_WRITE_INTERVAL: u64 = 500;

/// Whether the window's geometry is to be written now.
pub fn geometry_is_due(dirty: bool, since_last_write: u64) -> (due: bool)
    ensures
        due == (dirty && since_last_write >= GEOMETRY_WRITE_INTERVAL),
{
    dirty && since_last_write >= GEOMETRY_WRITE_INTERVAL
}

/// A difference that stops at zero.
pub open spec fn less(a: u32, b: u32) -> u32 {
    if a >= b {
        (a - b) as u32
    } else {
        0
    }
}

fn minus(a: u32, b: u32) -> (d: u32)
    ensures
        d == less(a, b),
{
    if a >= b {
        a - b
    } else {
        0
    }
}

/// The window's non-content border, measured once while the geometry is settled.
///
/// The content size is derived from the outer size by subtracting this border,
/// because the content size itself lags behind a resize.
#[derive(Debug, Clone, Copy, PartialEq, Eq, Structural)]
pub struct WindowChrome {
    pub width: u32,
    pub height: u32,
}

impl WindowChrome {
    /// Measure the border from a window whose size has stopped changing.
    pub fn measure(outer: (u32, u32), inner: (u32, u32)) -> (chrome: WindowChrome)
        ensures
            chrome.width == less(outer.0, inner.0),
            chrome.height == less(outer.1, inner.1),
    {
        WindowChrome { width: minus(outer.0, inner.0), height: minus(outer.1, inner.1) }
    }

    /// The content size in physical pixels, derived from the current frame.
    pub fn content_size(&self, outer: (u32, u32)) -> (size: (u32, u32))
        ensures
            size.0 == less(outer.0, self.width),
            size.1 == less(outer.1, self.height),
    {
        (minus(outer.0, self.width), minus(outer.1, self.height))
    }
}

/// The border that was measured leaves the content size that it was measured
/// with, where the window is not smaller than its content.
pub proof fn chrome_round_trips(outer: (u32, u32), inner: (u32, u32))
    requires
        inner.0 <= outer.0,
        inner.1 <= outer.1,
    ensures
        less(outer.0, less(outer.0, inner.0)) == inner.0,
        less(outer.1, less(outer.1, inner.1)) == inner.1,
{
}

/// A window rectangle in some unit of length.
#[derive(Debug, Clone, Copy, PartialEq, Eq)]
pub struct Geometry<T> {
    pub width: T,
    pub height: T,
    /// Absent until the window has been positioned at least once.
    pub x: Option<T>,
    pub y: Option<T>,
    /// Whether the window was maximized when it was last hidden.
    pub maximized: bool,
}

/// The current window rectangle.
///
/// While maximized or fullscreen the size is deliberately kept from `previous`: the
/// platform reports the maximized size, and saving that would make the window restore
/// at full screen size even after it is un-maximized. A position that the platform
/// does not report is kept too.
pub fn capture_geometry<T: Copy>(
    previous: Geometry<T>,
    maximized: bool,
    fullscreen: bool,
    size: (T, T),
    position: Option<(T, T)>,
) -> (next: Geometry<T>)
    ensures
        next.maximized == maximized,
        maximized || fullscreen ==> next.width == previous.width && next.height
            == previous.height,
        !maximized && !fullscreen ==> next.width == size.0 && next.height == size.1,
        match position {
            Some((x, y)) => next.x == Some(x) && next.y == Some(y),
            None => next.x == previous.x && next.y == previous.y,
        },
{
    let (width, height) = if maximized || fullscreen {
        (previous.width, previous.height)
    } else {
        size
    };
    let (x, y) = match position {
        Some((x, y)) => (Some(x), Some(y)),
        None => (previous.x, previous.y),
    };
    Geometry { width, height, x, y, maximized }
}

// ------------------------------------------------------------------- settings

/// The port that `DSH_PORT` names; zero, which lets the system choose, where it
/// names none.
pub open spec fn port_named(s: Option<Seq<char>>) -> u16 {
    match s {
        Some(s) => match text::number(s) {
            Some(n) => if n <= u16::MAX {
                n as u16
            } else {
                0
            },
            None => 0,
        },
        None => 0,
    }
}

/// The port that `DSH_PORT` names.
pub fn port_from(s: Option<String>) -> (port: u16)
    ensures
        port == port_named(text::held(s)),
{
    match s {
        Some(s) => match text::parse_number(s.as_str()) {
            Some(n) => if n <= 65535 {
                n as u16
            } else {
                0
            },
            None => 0,
        },
        None => 0,
    }
}

// --------------------------------------------------------------------- laws

/// The three messages of the page differ, so none is taken for another.
pub proof fn page_messages_differ()
    ensures
        DRAG_MESSAGE@ != ZOOM_MESSAGE@,
        DRAG_MESSAGE@ != READY_MESSAGE@,
        ZOOM_MESSAGE@ != READY_MESSAGE@,
{
    reveal_strlit("dsh-shell:drag");
    reveal_strlit("dsh-shell:zoom");
    reveal_strlit("dsh-shell:drag-ready");
    assert(DRAG_MESSAGE@.len() == 14 && READY_MESSAGE@.len() == 20);
    assert(DRAG_MESSAGE@[10] == 'd' && ZOOM_MESSAGE@[10] == 'z' && READY_MESSAGE@[10] == 'd');
}

/// Each of the page's three messages asks for its own command, and no other message for
/// any.
pub proof fn only_known_messages_command(message: &str, command: Option<PageCommand>)
    requires
        call_ensures(page_command, (message,), command),
    ensures
        command == Some(PageCommand::Drag) <==> message@ == "dsh-shell:drag"@,
        command == Some(PageCommand::Zoom) <==> message@ == "dsh-shell:zoom"@,
        command == Some(PageCommand::Ready) <==> message@ == "dsh-shell:drag-ready"@,
{
    page_messages_differ();
}

/// The style sheet stands in the injected script as one literal, and so it does in the
/// script that replaces it; what stands around it does not depend on the theme.
pub proof fn scripts_carry_the_style_sheet(
    theme: &Theme,
    is_dark: bool,
    css: String,
    injected: String,
    rewritten: String,
    other: &Theme,
    other_dark: bool,
    other_css: String,
    other_injected: String,
)
    requires
        call_ensures(Theme::injected_css, (theme, is_dark), css),
        call_ensures(inject_script, (theme, is_dark), injected),
        call_ensures(rewrite_style_script, (theme, is_dark), rewritten),
        call_ensures(Theme::injected_css, (other, other_dark), other_css),
        call_ensures(inject_script, (other, other_dark), other_injected),
    ensures
        text::begins_with(injected@, INJECT_STYLES@ + document::json_quoted(css@)),
        injected@.skip(0int + INJECT_STYLES@.len() + document::json_quoted(css@).len())
            == other_injected@.skip(
            0int + INJECT_STYLES@.len() + document::json_quoted(other_css@).len(),
        ),
        rewritten@ == REWRITE_STYLES@ + document::json_quoted(css@) + REWRITE_END@,
{
    let quoted = document::json_quoted(css@);
    let other_quoted = document::json_quoted(other_css@);
    let head = INJECT_STYLES@ + quoted;
    assert(injected@.subrange(0, head.len() as int) =~= head);
    assert(injected@.skip(0int + INJECT_STYLES@.len() + quoted.len()) =~= other_injected@.skip(
        0int + INJECT_STYLES@.len() + other_quoted.len(),
    ));
}

/// The injected script sends each of the three messages, as a literal, in the place of
/// its gesture: the drag first, then the zoom, then the sign that the strip is live.
pub proof fn the_script_sends_the_messages(css: Seq<char>)
    ensures
        injected_script(css) == INJECT_STYLES@ + document::json_quoted(css) + INJECT_DRAG@
            + document::json_quoted("dsh-shell:drag"@) + INJECT_ZOOM@ + document::json_quoted(
            "dsh-shell:zoom"@,
        ) + INJECT_READY@ + document::json_quoted("dsh-shell:drag-ready"@) + INJECT_END@,
{
}

/// The boot page is the template with the id of the language, in double quotes, wherever
/// the template has a place for it.
pub proof fn the_boot_page_speaks_the_language(
    template: &str,
    locale: Locale,
    page: String,
    front: Seq<char>,
    back: Seq<char>,
)
    requires
        call_ensures(boot_page, (template, locale), page),
        !front.contains('{'),
        !back.contains('{'),
        template@ == front + "{locale}"@ + back,
    ensures
        locale is En ==> page@ == front + "\"en\""@ + back,
        locale is Zh ==> page@ == front + "\"zh\""@ + back,
{
    reveal_strlit("{locale}");
    reveal_strlit("locale");
    reveal_strlit("\"");
    reveal_strlit("en");
    reveal_strlit("zh");
    reveal_strlit("\"en\"");
    reveal_strlit("\"zh\"");
    assert("{locale}"@ =~= i18n::placeholder("locale"@));
    assert(template@ =~= front + seq!['{'] + "locale"@ + seq!['}'] + back);
    i18n::values_fill_their_place(template@, front, "locale"@, back, quoted_id(locale));
    assert(quoted_id(Locale::En) =~= "\"en\""@);
    assert(quoted_id(Locale::Zh) =~= "\"zh\""@);
}

/// A template with several places for the language has it in each of them.
pub proof fn every_place_of_the_boot_page_is_filled(template: &str, locale: Locale, page: String, i: int)
    requires
        call_ensures(boot_page, (template, locale), page),
    ensures
        text::position(template@, "{locale}"@) is None ==> page@ == template@,
        text::position(template@, "{locale}"@) == Some(i) ==> page@ == template@.take(i)
            + quoted_id(locale) + text::replaced(
            template@.skip(i + 8),
            "{locale}"@,
            quoted_id(locale),
        ),
{
    reveal_strlit("{locale}");
    text::every_place_is_replaced(template@, "{locale}"@, quoted_id(locale), i);
}

/// The boot screen is painted dark exactly where the appearance is.
pub proof fn the_boot_screen_follows_the_appearance(is_dark: bool, script: String)
    requires
        call_ensures(boot_appearance_script, (is_dark,), script),
    ensures
        is_dark ==> script@ == "window.__dshBoot && window.__dshBoot.setAppearance(true);"@,
        !is_dark ==> script@ == "window.__dshBoot && window.__dshBoot.setAppearance(false);"@,
{
    reveal_strlit("window.__dshBoot && window.__dshBoot.setAppearance(");
    reveal_strlit("true");
    reveal_strlit("false");
    reveal_strlit(");");
    reveal_strlit("window.__dshBoot && window.__dshBoot.setAppearance(true);");
    reveal_strlit("window.__dshBoot && window.__dshBoot.setAppearance(false);");
    if is_dark {
        assert(script@ =~= "window.__dshBoot && window.__dshBoot.setAppearance(true);"@);
    } else {
        assert(script@ =~= "window.__dshBoot && window.__dshBoot.setAppearance(false);"@);
    }
}

/// The boot page waits as long as there is no news, loads the host's URL once it is up,
/// and shows the reason, in the language of the shell, where no host could be started.
pub proof fn the_boot_page_follows_the_news(
    news: HostNews,
    locale: Locale,
    step: BootStep,
    err: &str,
    script: String,
)
    requires
        call_ensures(boot_step, (news, locale), step),
        call_ensures(boot_failure_script, (err, locale), script),
    ensures
        step is Wait <==> news is Pending,
        step is Load <==> news is Ready,
        step is Explain <==> news is Failed,
        step is Stay <==> news is Gone,
        news matches HostNews::Ready(url) ==> (step matches BootStep::Load(u) && u@ == url@),
        news matches HostNews::Failed(reason) ==> (reason@ == err@ ==> (
        step matches BootStep::Explain(shown) && shown@ == script@)),
        script@ == "window.__dshBoot && window.__dshBoot.fail("@ + document::json_quoted(
            i18n::strings_of(locale).boot_failed@,
        ) + ", "@ + document::json_quoted(err@) + ");"@,
{
}

/// The scripts for an open settings page hand over the JSON they are given, and nothing
/// else.
pub proof fn settings_scripts_hand_over_the_json(json: &str, theme: String, status: String)
    requires
        call_ensures(settings_update_script, (json,), theme),
        call_ensures(update_status_script, (json,), status),
    ensures
        theme@ == "window.__dshSettings && window.__dshSettings.update("@ + json@ + ");"@,
        status@ == "window.__dshUpdate && window.__dshUpdate.set("@ + json@ + ");"@,
{
}

/// The three bytes of a colour are its red, green and blue, from the highest to the
/// lowest, and the colour is opaque.
pub proof fn colours_come_apart_into_bytes(hex: u32, rgba: (u8, u8, u8, u8))
    requires
        call_ensures(hex_to_rgba, (hex,), rgba),
        hex <= 0xffffff,
    ensures
        rgba.0 as int * 65536 + rgba.1 as int * 256 + rgba.2 as int == hex,
        rgba.3 == 255,
{
}

/// A session id of at most eight characters is shown whole; of a longer one the first
/// eight are shown, and an ellipsis.
pub proof fn long_ids_are_cut(id: &str, shown: String)
    requires
        call_ensures(short_session, (id,), shown),
    ensures
        id@.len() <= 8 ==> shown@ == id@,
        id@.len() > 8 ==> shown@.len() == 9 && shown@.last() == '…' && shown@.take(8) == id@.take(8),
{
    if id@.len() > 8 {
        assert(shown@.take(8) =~= id@.take(8));
    }
}

/// Which events are notified, and with what title: a turn that ended as finished and a
/// request that failed as failed, each with the session it is about, and nothing else.
pub proof fn notifications_name_the_session(
    event: &BridgeEvent,
    locale: Locale,
    shown: Option<(String, String)>,
)
    requires
        call_ensures(notification, (event, locale), shown),
    ensures
        shown is Some <==> event.kind@ == "turn-stopping"@ || event.kind@ == "request-error"@,
        shown matches Some((title, _)) ==> {
            let session = match event.session_id {
                Some(id) => short_id(id@),
                None => "session"@,
            };
            match locale {
                Locale::En => title@ == "DSH: "@ + session + (if event.kind@ == "turn-stopping"@ {
                    " finished"@
                } else {
                    " failed"@
                }),
                Locale::Zh => title@ == "DSH："@ + session + (if event.kind@
                    == "turn-stopping"@ {
                    " 已完成"@
                } else {
                    " 失败"@
                }),
            }
        },
{
    reveal_strlit("turn-stopping");
    reveal_strlit("request-error");
    assert("turn-stopping"@[0] == 't' && "request-error"@[0] == 'r');
    if let Some((title, _)) = shown {
        let session = session_name(text::held(event.session_id));
        lemma_titles(session);
    }
}

proof fn lemma_titles(session: Seq<char>)
    ensures
        notification_title("turn-stopping"@, session, Locale::En) == "DSH: "@ + session
            + " finished"@,
        notification_title("request-error"@, session, Locale::En) == "DSH: "@ + session
            + " failed"@,
        notification_title("turn-stopping"@, session, Locale::Zh) == "DSH："@ + session
            + " 已完成"@,
        notification_title("request-error"@, session, Locale::Zh) == "DSH："@ + session + " 失败"@,
{
    reveal_strlit("turn-stopping");
    reveal_strlit("request-error");
    assert("turn-stopping"@[0] == 't' && "request-error"@[0] == 'r');
    reveal_strlit("session");
    reveal_strlit("DSH: {session} finished");
    reveal_strlit("DSH: {session} failed");
    reveal_strlit("DSH：{session} 已完成");
    reveal_strlit("DSH：{session} 失败");
    reveal_strlit("DSH: ");
    reveal_strlit("DSH：");
    reveal_strlit(" finished");
    reveal_strlit(" failed");
    reveal_strlit(" 已完成");
    reveal_strlit(" 失败");
    let key = "session"@;
    assert("DSH: {session} finished"@ =~= "DSH: "@ + seq!['{'] + key + seq!['}'] + " finished"@);
    assert("DSH: {session} failed"@ =~= "DSH: "@ + seq!['{'] + key + seq!['}'] + " failed"@);
    assert("DSH：{session} 已完成"@ =~= "DSH："@ + seq!['{'] + key + seq!['}'] + " 已完成"@);
    assert("DSH：{session} 失败"@ =~= "DSH："@ + seq!['{'] + key + seq!['}'] + " 失败"@);
    i18n::values_fill_their_place(
        "DSH: {session} finished"@,
        "DSH: "@,
        key,
        " finished"@,
        session,
    );
    i18n::values_fill_their_place("DSH: {session} failed"@, "DSH: "@, key, " failed"@, session);
    i18n::values_fill_their_place("DSH：{session} 已完成"@, "DSH："@, key, " 已完成"@, session);
    i18n::values_fill_their_place("DSH：{session} 失败"@, "DSH："@, key, " 失败"@, session);
}

/// What a notification says. A failed request shows its message as it is, or that the
/// agent hit an error where there is none. A turn that ended shows why it stopped: its
/// reason where it has one, or else its message, and that the agent is done where it has
/// neither.
pub proof fn notifications_say_what_happened(
    event: &BridgeEvent,
    locale: Locale,
    title: String,
    body: String,
)
    requires
        call_ensures(notification, (event, locale), Some((title, body))),
    ensures
        ({
            let (stopped, errored, done) = match locale {
                Locale::En => ("Stopped: "@, "The agent hit an error."@, "The agent is done."@),
                Locale::Zh => ("已停止："@, "代理遇到错误。"@, "代理已完成。"@),
            };
            &&& event.kind@ == "request-error"@ ==> body@ == (match event.message {
                Some(message) => message@,
                None => errored,
            })
            &&& event.kind@ == "turn-stopping"@ ==> body@ == (match (event.reason, event.message) {
                (Some(reason), _) => stopped + reason@,
                (None, Some(message)) => stopped + message@,
                (None, None) => done,
            })
        }),
{
    reveal_strlit("turn-stopping");
    reveal_strlit("request-error");
    assert("turn-stopping"@[0] == 't' && "request-error"@[0] == 'r');
    if let Some(reason) = event.reason {
        lemma_stopped(reason@);
    }
    if let Some(message) = event.message {
        lemma_stopped(message@);
    }
}

proof fn lemma_stopped(why: Seq<char>)
    ensures
        text::replaced("Stopped: {reason}"@, i18n::placeholder("reason"@), why) == "Stopped: "@
            + why,
        text::replaced("已停止：{reason}"@, i18n::placeholder("reason"@), why) == "已停止："@ + why,
{
    reveal_strlit("reason");
    reveal_strlit("Stopped: {reason}");
    reveal_strlit("Stopped: ");
    reveal_strlit("已停止：{reason}");
    reveal_strlit("已停止：");
    let none = Seq::<char>::empty();
    let key = "reason"@;
    assert("Stopped: {reason}"@ =~= "Stopped: "@ + seq!['{'] + key + seq!['}'] + none);
    assert("已停止：{reason}"@ =~= "已停止："@ + seq!['{'] + key + seq!['}'] + none);
    i18n::values_fill_their_place("Stopped: {reason}"@, "Stopped: "@, key, none, why);
    i18n::values_fill_their_place("已停止：{reason}"@, "已停止："@, key, none, why);
    assert("Stopped: "@ + why + none =~= "Stopped: "@ + why);
    assert("已停止："@ + why + none =~= "已停止："@ + why);
}

/// A plugin's title is shown as it is; a notification without one is titled by the shell.
pub proof fn plugin_titles_are_kept(title: Option<String>, shown: String)
    requires
        call_ensures(plugin_title, (title,), shown),
    ensures
        title matches Some(t) ==> shown@ == t@,
        title is None ==> shown@ == "DSH"@,
{
}

/// A turn that finishes adds one to the badge exactly where the user is not looking, and
/// the new number is then shown.
pub proof fn unwatched_turns_are_counted(unseen: &mut Unseen, watched: bool, shown: Option<usize>)
    requires
        call_ensures(Unseen::turn_finished, (unseen, watched), shown),
    ensures
        watched ==> final(unseen)@ == old(unseen)@ && shown is None,
        !watched ==> final(unseen)@.turns == old(unseen)@.turns + 1 && final(unseen)@.watched
            == old(unseen)@.watched && count_in(shown) == Some(final(unseen)@.turns),
{
}

/// A tick clears the badge exactly where the user has come back since the last one, and
/// shows nothing where the number does not change.
pub proof fn the_badge_clears_on_return(unseen: &mut Unseen, watched: bool, shown: Option<usize>)
    requires
        call_ensures(Unseen::tick, (unseen, watched), shown),
    ensures
        final(unseen)@.watched == watched,
        watched && !old(unseen)@.watched ==> final(unseen)@.turns == 0,
        !(watched && !old(unseen)@.watched) ==> final(unseen)@.turns == old(unseen)@.turns,
        shown is Some <==> watched && !old(unseen)@.watched && old(unseen)@.turns > 0,
        shown matches Some(n) ==> n == 0,
{
}

/// A shell that just opened has missed nothing and counts as watched.
pub proof fn nothing_is_missed_at_first(unseen: Unseen, count: usize)
    requires
        call_ensures(Unseen::new, (), unseen),
        call_ensures(Unseen::count, (&unseen,), count),
    ensures
        count == 0,
        unseen@.watched,
{
}

/// The number beside the tray icon is the count in decimal, and nothing for none.
pub proof fn no_turns_show_no_number(count: usize, shown: String)
    requires
        call_ensures(badge_text, (count,), shown),
    ensures
        shown@.len() == 0 <==> count == 0,
        count > 0 ==> text::number(shown@) == Some(count as u64),
{
    text::lemma_decimal(count as nat);
    text::decimal_then_number(count as u64);
}

/// The user is looking exactly where the window is visible and the app is active; the
/// last focus event counts only where the platform cannot be asked.
pub proof fn looking_takes_a_visible_window(
    app_is_active: Option<bool>,
    focused: bool,
    visible: bool,
    watched: bool,
)
    requires
        call_ensures(is_watched, (app_is_active, focused, visible), watched),
    ensures
        !visible ==> !watched,
        app_is_active == Some(false) ==> !watched,
        visible && app_is_active == Some(true) ==> watched,
        visible && app_is_active is None ==> watched == focused,
{
}

/// The app quits on closing a window exactly where that is the main one and there is no
/// tray to bring it back from.
pub proof fn closing_quits_only_without_a_tray(
    is_main_window: bool,
    has_tray: bool,
    action: CloseAction,
)
    requires
        call_ensures(close_action, (is_main_window, has_tray), action),
    ensures
        action is Quit <==> is_main_window && !has_tray,
        action is Hide <==> is_main_window && has_tray,
        action is DropSettings <==> !is_main_window,
{
}

/// The geometry is written exactly where it changed and half a second has passed since
/// the last write.
pub proof fn geometry_is_written_at_most_twice_a_second(dirty: bool, since: u64, due: bool)
    requires
        call_ensures(geometry_is_due, (dirty, since), due),
    ensures
        due <==> dirty && since >= 500,
{
}

/// A border that was measured gives the content of any other size of that window: the
/// outer size less the border, and never less than nothing.
pub proof fn the_border_stays_the_same(
    outer: (u32, u32),
    inner: (u32, u32),
    chrome: WindowChrome,
    now: (u32, u32),
    content: (u32, u32),
)
    requires
        call_ensures(WindowChrome::measure, (outer, inner), chrome),
        call_ensures(WindowChrome::content_size, (&chrome, now), content),
        inner.0 <= outer.0,
        inner.1 <= outer.1,
    ensures
        now.0 >= outer.0 - inner.0 ==> now.0 - content.0 == outer.0 - inner.0,
        now.1 >= outer.1 - inner.1 ==> now.1 - content.1 == outer.1 - inner.1,
        now.0 < outer.0 - inner.0 ==> content.0 == 0,
        now.1 < outer.1 - inner.1 ==> content.1 == 0,
        now == outer ==> content == inner,
{
}

/// A window that is maximized or fullscreen keeps the size it had before; any other has
/// the size reported. A position that is not reported is kept.
pub proof fn full_windows_keep_their_old_size(
    previous: Geometry<u32>,
    maximized: bool,
    fullscreen: bool,
    size: (u32, u32),
    position: Option<(u32, u32)>,
    next: Geometry<u32>,
)
    requires
        call_ensures(
            capture_geometry::<u32>,
            (previous, maximized, fullscreen, size, position),
            next,
        ),
    ensures
        (next.width, next.height) == (if maximized || fullscreen {
            (previous.width, previous.height)
        } else {
            size
        }),
        next.maximized == maximized,
        position matches Some((x, y)) ==> next.x == Some(x) && next.y == Some(y),
        position is None ==> next.x == previous.x && next.y == previous.y,
{
}

/// The port is the number that is given, where it is one and fits; anything else leaves
/// the choice to the system.
pub proof fn ports_are_read_in_decimal(n: u64, s: String, port: u16, unset: u16)
    requires
        call_ensures(port_from, (Some(s),), port),
        call_ensures(port_from, (None::<String>,), unset),
    ensures
        s@ == text::decimal_digits(n as nat) && n <= 65535 ==> port == n,
        s@ == text::decimal_digits(n as nat) && n > 65535 ==> port == 0,
        text::number(s@) is None ==> port == 0,
        unset == 0,
{
    text::decimal_then_number(n);
}

} // verus!
