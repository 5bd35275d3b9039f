//! The shell-owned settings window.
//!
//! DSH owns persistence: the form's write becomes a request to the Host plugin,
//! and the shell then picks the change up from the document. Validation lives
//! here rather than in the page: the same rules that guard a hand-edited file
//! must guard a typed one.

use crate::document;
use crate::hotkey::HotkeySpec;
use crate::i18n::Locale;
use crate::shell;
use crate::text;
use crate::theme;
use crate::theme::{Look, Theme};
use vstd::prelude::*;

verus! {

/// The most bytes of custom CSS: 64 KB.
pub const CSS_LIMIT: usize = 65536;

/// Where the page takes the live theme from.
pub const THEME_PLACE: &'static str = "window.__DSH_INITIAL__ || {}";

/// Where the page takes the update status from.
pub const UPDATE_PLACE: &'static str = "window.__DSH_UPDATE__ || { phase: 'unknown' }";

/// Where the page takes the state of the connection from.
pub const HOST_PLACE: &'static str = "window.__DSH_HOST_CONNECTED__ || false";

/// Where the page takes the language from.
pub const LOCALE_PLACE: &'static str = "window.__DSH_LOCALE__ || 'en'";

/// JSON made safe to stand in a script block: `</script>` inside it would end the
/// block early, and the theme contains CSS text, which can legitimately hold
/// angle brackets.
pub open spec fn script_safe(json: Seq<char>) -> Seq<char> {
    text::replaced(json, "</"@, "<\\/"@)
}

/// The settings page: a template with the theme, the update status, the state of
/// the connection and the language in their places.
pub open spec fn page_text(
    template: Seq<char>,
    theme_json: Seq<char>,
    host_connected: bool,
    locale: Locale,
    update_json: Seq<char>,
) -> Seq<char> {
    let with_theme = text::replaced(template, THEME_PLACE@, script_safe(theme_json));
    let with_update = text::replaced(with_theme, UPDATE_PLACE@, update_json);
    let with_host = text::replaced(with_update, HOST_PLACE@, shell::truth(host_connected));
    text::replaced(with_host, LOCALE_PLACE@, shell::quoted_id(locale))
}

/// Build the settings page with the current theme and update status embedded,
/// both as JSON.
///
/// They are injected into the page rather than fetched, so the form is populated
/// on first paint with no round trip. `host_connected` tells the page whether a
/// save can succeed at all.
pub fn page(
    template: &str,
    theme_json: &str,
    host_connected: bool,
    locale: Locale,
    update_json: &str,
) -> (html: String)
    ensures
        html@ == page_text(template@, theme_json@, host_connected, locale, update_json@),
{
    proof {
        reveal_strlit("</");
        reveal_strlit("window.__DSH_INITIAL__ || {}");
        reveal_strlit("window.__DSH_UPDATE__ || { phase: 'unknown' }");
        reveal_strlit("window.__DSH_HOST_CONNECTED__ || false");
        reveal_strlit("window.__DSH_LOCALE__ || 'en'");
    }
    let safe = text::replace(theme_json, "</", "<\\/");
    let html = text::replace(template, THEME_PLACE, safe.as_str());
    let html = text::replace(html.as_str(), UPDATE_PLACE, update_json);
    let html = text::replace(html.as_str(), HOST_PLACE, shell::show_bool(host_connected));
    text::replace(html.as_str(), LOCALE_PLACE, shell::quote_id(locale).as_str())
}

/// The outcome reported back to the page.
#[derive(Debug, Clone, PartialEq, Eq)]
pub struct SaveOutcome {
    pub ok: bool,
    pub error: Option<String>,
}

/// The script that reports an outcome to the page.
pub open spec fn outcome_script(ok: bool, error: Option<Seq<char>>) -> Seq<char> {
    "window.__dshSettings && window.__dshSettings.saved("@ + shell::truth(ok) + ", "@ + (
    match error {
        Some(error) => document::json_quoted(error),
        None => "null"@,
    }) + ");"@
}

impl SaveOutcome {
    /// The script that reports this outcome to the page.
    pub fn to_script(&self) -> (script: String)
        ensures
            script@ == outcome_script(self.ok, text::held(self.error)),
    {
        let error = match &self.error {
            Some(error) => document::json_string(error.as_str()),
            None => text::own("null"),
        };
        let s = text::plus(
            text::own("window.__dshSettings && window.__dshSettings.saved("),
            shell::show_bool(self.ok),
        );
        let s = text::plus(s, ", ");
        let s = text::plus(s, error.as_str());
        text::plus(s, ");")
    }
}

/// Why a message from the page could not be used.
pub fn malformed_message(err: &str) -> (reason: String)
    ensures
        reason@ == "malformed settings message: "@ + err@,
{
    text::plus(text::own("malformed settings message: "), err)
}

/// What is wrong with a theme; nothing where it may be saved.
pub open spec fn theme_fault(look: Look) -> Option<Seq<char>> {
    match crate::hotkey::written_hotkey(look.hotkey) {
        Err(err) => Some("invalid shortcut: "@ + err),
        Ok(_) => if theme::byte_count(look.custom_css) > CSS_LIMIT {
            Some("custom CSS is capped at 64 KB"@)
        } else {
            None
        },
    }
}

/// What is wrong with a submission: it is no theme at all, or one that may not be
/// saved.
pub open spec fn submission_fault(decoded: Result<Theme, String>) -> Option<Seq<char>> {
    match decoded {
        Err(err) => Some("invalid configuration: "@ + err@),
        Ok(theme) => theme_fault(theme@),
    }
}

/// Validate a submitted configuration, as far as it could be decoded.
///
/// Validation mirrors what a hand-edited document must satisfy. A shortcut the
/// shell could not register is rejected, rather than writing a file that
/// silently falls back to the default on the next start. A submission that fails
/// is rejected whole; DSH validates again when it persists.
pub fn validate(decoded: Result<Theme, String>) -> (theme: Result<Theme, String>)
    ensures
        match submission_fault(decoded) {
            None => decoded matches Ok(submitted) && theme == Ok::<Theme, String>(submitted),
            Some(fault) => theme matches Err(err) && err@ == fault,
        },
{
    match decoded {
        Err(err) => Err(text::plus(text::own("invalid configuration: "), err.as_str())),
        Ok(theme) => {
            match HotkeySpec::parse(theme.hotkey.as_str()) {
                Err(err) => {
                    return Err(text::plus(text::own("invalid shortcut: "), err.as_str()));
                },
                Ok(_) => {},
            }
            if theme::byte_len(theme.custom_css.as_str()) > CSS_LIMIT {
                return Err(text::own("custom CSS is capped at 64 KB"));
            }
            Ok(theme)
        },
    }
}

/// What the settings page asked for.
#[derive(Debug)]
pub enum SettingsRequest {
    /// Validate and persist the given configuration, as far as it could be
    /// decoded.
    Save { config: Result<Theme, String> },
    /// Look for a newer DSH, bypassing the cached answer.
    CheckUpdate,
    /// Stage, verify and apply the newest DSH on the configured channel.
    InstallUpdate,
}

/// What a request from the settings page leads to.
#[derive(Debug)]
pub enum SettingsAction {
    /// Report to the page that nothing was saved.
    Refuse(SaveOutcome),
    /// Hand the theme to the host, which persists it.
    Persist(Theme),
    /// Check for an update.
    CheckUpdate,
    /// Install the newest DSH.
    InstallUpdate,
}

/// Decide what a request from the settings page leads to.
///
/// An obviously wrong entry is reported immediately; the write itself goes
/// through the host.
pub fn handle_request(request: SettingsRequest) -> (action: SettingsAction)
    ensures
        match request {
            SettingsRequest::Save { config } => match submission_fault(config) {
                Some(fault) => {
                    &&& action matches SettingsAction::Refuse(outcome)
                    &&& !outcome.ok
                    &&& text::held(outcome.error) == Some(fault)
                },
                None => action matches SettingsAction::Persist(theme) && config == Ok::<
                    Theme,
                    String,
                >(theme),
            },
            SettingsRequest::CheckUpdate => action is CheckUpdate,
            SettingsRequest::InstallUpdate => action is InstallUpdate,
        },
{
    match request {
        SettingsRequest::Save { config } => match validate(config) {
            Ok(theme) => SettingsAction::Persist(theme),
            Err(err) => SettingsAction::Refuse(SaveOutcome { ok: false, error: Some(err) }),
        },
        SettingsRequest::CheckUpdate => SettingsAction::CheckUpdate,
        SettingsRequest::InstallUpdate => SettingsAction::InstallUpdate,
    }
}

// --------------------------------------------------------------------- laws

/// A theme cannot break out of the script block it is embedded in: made safe,
/// its JSON nowhere holds `</`.
pub proof fn safe_json_does_not_close_the_script(json: Seq<char>)
    ensures
        text::position(script_safe(json), "</"@) is None,
    decreases json.len(),
{
    reveal_strlit("</");
    reveal_strlit("<\\/");
    let pat = "</"@;
    let with = "<\\/"@;
    assert(pat =~= seq!['<', '/']);
    assert(with =~= seq!['<', '\\', '/']);
    let safe = script_safe(json);
    text::lemma_find(json, pat, 0);
    match text::position(json, pat) {
        None => {},
        Some(i) => {
            let rest = json.skip(i + pat.len());
            safe_json_does_not_close_the_script(rest);
            let tail = script_safe(rest);
            text::lemma_find(tail, pat, 0);
            assert(safe == json.take(i) + with + tail);
            assert forall|k: int| 0 <= k implies !text::occurs_at(safe, pat, k) by {
                if text::occurs_at(safe, pat, k) {
                    assert(safe.subrange(k, k + 2)[0] == safe[k]);
                    assert(safe.subrange(k, k + 2)[1] == safe[k + 1]);
                    if k + 1 < i {
                        assert(json.subrange(k, k + 2) =~= pat);
                        assert(text::occurs_at(json, pat, k));
                    } else if k < i {
                        assert(safe[k + 1] == with[0]);
                    } else if k < i + 3 {
                        assert(safe[k] == with[k - i]);
                        if k == i {
                            assert(safe[k + 1] == with[1]);
                        }
                    } else {
                        let j = k - i - 3;
                        assert(tail.subrange(j, j + 2) =~= pat);
                        assert(text::occurs_at(tail, pat, j));
                    }
                }
            }
            text::lemma_find(safe, pat, 0);
        },
    }
}

/// A configuration may be saved exactly where it could be decoded, its shortcut is one and
/// its custom CSS takes at most 64 KB; it is then taken as it is.
pub proof fn only_a_sound_configuration_is_saved(
    decoded: Result<Theme, String>,
    theme: Result<Theme, String>,
)
    requires
        call_ensures(validate, (decoded,), theme),
    ensures
        theme is Ok <==> (decoded matches Ok(t) && crate::hotkey::written_hotkey(t.hotkey@) is Ok
            && vstd::utf8::encode_utf8(t.custom_css@).len() <= 64 * 1024),
        theme is Ok ==> theme == decoded,
{
}

/// Why a configuration is refused: because it could not be decoded, or because of its
/// shortcut, or else because of the size of its CSS; the reason says which.
pub proof fn refusals_say_why(
    submitted: Theme,
    undecoded: String,
    theme: Result<Theme, String>,
    broken: Result<Theme, String>,
)
    requires
        call_ensures(validate, (Ok::<Theme, String>(submitted),), theme),
        call_ensures(validate, (Err::<Theme, String>(undecoded),), broken),
    ensures
        broken matches Err(reason) && reason@ == "invalid configuration: "@ + undecoded@,
        crate::hotkey::written_hotkey(submitted.hotkey@) matches Err(err) ==> (
        theme matches Err(reason) && reason@ == "invalid shortcut: "@ + err),
        crate::hotkey::written_hotkey(submitted.hotkey@) is Ok && vstd::utf8::encode_utf8(
            submitted.custom_css@,
        ).len() > 64 * 1024 ==> (theme matches Err(reason) && reason@
            == "custom CSS is capped at 64 KB"@),
{
}

/// What the page asked for is what is done: a sound configuration is handed to the host,
/// any other is refused with its reason, and the two requests about updates are passed on.
pub proof fn requests_are_carried_out(
    request: SettingsRequest,
    action: SettingsAction,
    config: Result<Theme, String>,
    theme: Result<Theme, String>,
)
    requires
        call_ensures(handle_request, (request,), action),
        call_ensures(validate, (config,), theme),
    ensures
        action is CheckUpdate <==> request is CheckUpdate,
        action is InstallUpdate <==> request is InstallUpdate,
        request == (SettingsRequest::Save { config }) ==> {
            &&& action is Persist <==> theme is Ok
            &&& theme matches Ok(t) ==> (action matches SettingsAction::Persist(p) && p == t)
            &&& theme matches Err(err) ==> (action matches SettingsAction::Refuse(outcome)
                && !outcome.ok && text::held(outcome.error) == Some(err@))
        },
{
}

/// The page is told whether the save went well, and with what error: `null` for none.
pub proof fn outcomes_are_told(outcome: &SaveOutcome, script: String)
    requires
        call_ensures(SaveOutcome::to_script, (outcome,), script),
    ensures
        script@ == "window.__dshSettings && window.__dshSettings.saved("@ + (if outcome.ok {
            "true"@
        } else {
            "false"@
        }) + ", "@ + (match outcome.error {
            Some(error) => document::json_quoted(error@),
            None => "null"@,
        }) + ");"@,
{
}

proof fn lemma_no_bar_no_place(s: Seq<char>, place: Seq<char>, k: int)
    requires
        !s.contains('|'),
        0 <= k < place.len(),
        place[k] == '|',
    ensures
        text::position(s, place) is None,
{
    text::lemma_find(s, place, 0);
    if let Some(i) = text::position(s, place) {
        assert(s.subrange(i, i + place.len())[k] == s[i + k]);
        assert(s.contains(s[i + k]));
    }
}

proof fn lemma_one_place(
    front: Seq<char>,
    place: Seq<char>,
    back: Seq<char>,
    with: Seq<char>,
    k: int,
)
    requires
        !front.contains('|'),
        !back.contains('|'),
        0 <= k < place.len(),
        place[k] == '|',
        forall|j: int| 0 <= j < k ==> place[j] != '|',
    ensures
        text::replaced(front + place + back, place, with) == front + with + back,
{
    let s = front + place + back;
    let i = front.len() as int;
    assert(s.subrange(i, i + place.len()) =~= place);
    assert(text::occurs_at(s, place, i));
    assert forall|j: int| 0 <= j < i implies !text::occurs_at(s, place, j) by {
        if text::occurs_at(s, place, j) {
            assert(s.subrange(j, j + place.len())[k] == s[j + k]);
            if j + k < i {
                assert(s[j + k] == front[j + k]);
                assert(front.contains(front[j + k]));
            } else {
                assert(s[j + k] == place[j + k - i]);
            }
        }
    }
    text::lemma_found(s, place, 0, i);
    text::every_place_is_replaced(s, place, with, i);
    assert(s.take(i) =~= front);
    assert(s.skip(i + place.len()) =~= back);
    lemma_no_bar_no_place(back, place, k);
    text::every_place_is_replaced(back, place, with, 0);
}

proof fn lemma_places_have_bars()
    ensures
        ({
            let (p, q, r, t) = (THEME_PLACE@, UPDATE_PLACE@, HOST_PLACE@, LOCALE_PLACE@);
            &&& p.len() > 24 && q.len() > 23 && r.len() > 31 && t.len() > 23
            &&& p[23] == '|' && p[24] == '|' && q[22] == '|' && q[23] == '|'
            &&& r[30] == '|' && r[31] == '|' && t[22] == '|' && t[23] == '|'
            &&& forall|j: int| 0 <= j < p.len() && j != 23 && j != 24 ==> p[j] != '|'
            &&& forall|j: int| 0 <= j < q.len() && j != 22 && j != 23 ==> q[j] != '|'
            &&& forall|j: int| 0 <= j < r.len() && j != 30 && j != 31 ==> r[j] != '|'
            &&& forall|j: int| 0 <= j < t.len() && j != 22 && j != 23 ==> t[j] != '|'
            &&& p[19] == 'L' && q[18] == 'E' && r[26] == 'D' && t[18] == 'E'
            &&& q[17] == 'T' && t[17] == 'L'
        }),
{
    reveal_strlit("window.__DSH_INITIAL__ || {}");
    reveal_strlit("window.__DSH_UPDATE__ || { phase: 'unknown' }");
    reveal_strlit("window.__DSH_HOST_CONNECTED__ || false");
    reveal_strlit("window.__DSH_LOCALE__ || 'en'");
}

proof fn lemma_kept(s: Seq<char>, place: Seq<char>, k: int, with: Seq<char>)
    requires
        !s.contains('|'),
        0 <= k < place.len(),
        place[k] == '|',
    ensures
        text::replaced(s, place, with) == s,
{
    lemma_no_bar_no_place(s, place, k);
    text::every_place_is_replaced(s, place, with, 0);
}

/// Two places are told apart by a character at one distance before their bars.
proof fn lemma_other_place(
    front: Seq<char>,
    own: Seq<char>,
    at: int,
    back: Seq<char>,
    place: Seq<char>,
    k: int,
    d: int,
    with: Seq<char>,
)
    requires
        !front.contains('|'),
        !back.contains('|'),
        0 < d <= at && at + 1 < own.len() && d <= k && k + 1 < place.len(),
        own[at] == '|' && own[at + 1] == '|',
        forall|j: int| 0 <= j < own.len() && j != at && j != at + 1 ==> own[j] != '|',
        place[k] == '|' && place[k + 1] == '|',
        own[at - d] != place[k - d],
    ensures
        text::replaced(front + own + back, place, with) == front + own + back,
{
    let s = front + own + back;
    let i = front.len() as int;
    assert forall|j: int| 0 <= j < s.len() && s[j] == '|' implies j == i + at || j == i + at + 1 by {
        if j < i {
            assert(front.contains(front[j]));
        } else if j < i + own.len() {
            assert(s[j] == own[j - i]);
        } else {
            assert(s[j] == back[j - i - own.len()]);
            assert(back.contains(back[j - i - own.len()]));
        }
    }
    text::lemma_find(s, place, 0);
    if let Some(j) = text::position(s, place) {
        let piece = s.subrange(j, j + place.len());
        assert(piece[k] == s[j + k] && piece[k + 1] == s[j + k + 1] && piece[k - d] == s[j + k - d]);
        assert(j + k == i + at);
        assert(s[j + k - d] == own[at - d]);
    }
    text::every_place_is_replaced(s, place, with, 0);
}

proof fn lemma_no_bar(a: Seq<char>, b: Seq<char>, c: Seq<char>)
    requires
        !a.contains('|'),
        !b.contains('|'),
        !c.contains('|'),
    ensures
        !(a + b + c).contains('|'),
{
    text::lemma_contains_concat(a, b, '|');
    text::lemma_contains_concat(a + b, c, '|');
}

/// Each of the four things that the page needs goes to its own place in the template, and
/// to no other: the theme, made safe, the update status, whether the host is connected, and
/// the language.
pub proof fn the_page_is_filled_in(
    template: Seq<char>,
    front: Seq<char>,
    back: Seq<char>,
    theme_json: Seq<char>,
    host_connected: bool,
    locale: Locale,
    update_json: Seq<char>,
)
    requires
        !front.contains('|'),
        !back.contains('|'),
        !script_safe(theme_json).contains('|'),
        !update_json.contains('|'),
    ensures
        ({
            let page = page_text(template, theme_json, host_connected, locale, update_json);
            &&& template == front + "window.__DSH_INITIAL__ || {}"@ + back ==> page == front
                + script_safe(theme_json) + back
            &&& template == front + "window.__DSH_UPDATE__ || { phase: 'unknown' }"@ + back
                ==> page == front + update_json + back
            &&& template == front + "window.__DSH_HOST_CONNECTED__ || false"@ + back ==> page
                == front + (if host_connected {
                "true"@
            } else {
                "false"@
            }) + back
            &&& template == front + "window.__DSH_LOCALE__ || 'en'"@ + back ==> page == front
                + (match locale {
                Locale::En => "\"en\""@,
                Locale::Zh => "\"zh\""@,
            }) + back
            &&& template == front ==> page == front
        }),
{
    lemma_places_have_bars();
    reveal_strlit("true");
    reveal_strlit("false");
    reveal_strlit("en");
    reveal_strlit("zh");
    reveal_strlit("\"");
    assert("\""@ =~= seq!['"']);
    let (p, q, r, t) = (THEME_PLACE@, UPDATE_PLACE@, HOST_PLACE@, LOCALE_PLACE@);
    let theme = script_safe(theme_json);
    let truth = shell::truth(host_connected);
    let id = shell::quoted_id(locale);
    assert(!truth.contains('|'));
    assert(!id.contains('|'));
    if template == front {
        lemma_kept(front, p, 23, theme);
        lemma_kept(front, q, 22, update_json);
        lemma_kept(front, r, 30, truth);
        lemma_kept(front, t, 22, id);
    }
    if template == front + p + back {
        let done = front + theme + back;
        lemma_one_place(front, p, back, theme, 23);
        lemma_no_bar(front, theme, back);
        lemma_kept(done, q, 22, update_json);
        lemma_kept(done, r, 30, truth);
        lemma_kept(done, t, 22, id);
    }
    if template == front + q + back {
        let done = front + update_json + back;
        lemma_other_place(front, q, 22, back, p, 23, 4, theme);
        lemma_one_place(front, q, back, update_json, 22);
        lemma_no_bar(front, update_json, back);
        lemma_kept(done, r, 30, truth);
        lemma_kept(done, t, 22, id);
    }
    if template == front + r + back {
        let done = front + truth + back;
        lemma_other_place(front, r, 30, back, p, 23, 4, theme);
        lemma_other_place(front, r, 30, back, q, 22, 4, update_json);
        lemma_one_place(front, r, back, truth, 30);
        lemma_no_bar(front, truth, back);
        lemma_kept(done, t, 22, id);
    }
    if template == front + t + back {
        lemma_other_place(front, t, 22, back, p, 23, 4, theme);
        lemma_other_place(front, t, 22, back, q, 22, 5, update_json);
        lemma_other_place(front, t, 22, back, r, 30, 4, truth);
        lemma_one_place(front, t, back, id, 22);
        reveal_strlit("\"en\"");
        reveal_strlit("\"zh\"");
        assert(shell::quoted_id(Locale::En) =~= "\"en\""@);
        assert(shell::quoted_id(Locale::Zh) =~= "\"zh\""@);
    }
}

/// Making JSON safe changes the closings of tags alone: each `</` becomes `<\/`, which
/// means the same in a JSON string, and everything else stays.
pub proof fn safe_json_is_the_same_json(json: Seq<char>, i: int)
    ensures
        text::position(json, "</"@) is None ==> script_safe(json) == json,
        text::position(json, "</"@) == Some(i) ==> script_safe(json) == json.take(i) + seq![
            '<',
            '\\',
            '/',
        ] + script_safe(json.skip(i + 2)),
{
    reveal_strlit("</");
    reveal_strlit("<\\/");
    assert("<\\/"@ =~= seq!['<', '\\', '/']);
    text::every_place_is_replaced(json, "</"@, "<\\/"@, i);
}

/// The page that is built is the template with each of the four things in its own place.
pub proof fn the_built_page_is_filled_in(
    template: &str,
    theme_json: &str,
    host_connected: bool,
    locale: Locale,
    update_json: &str,
    html: String,
    front: Seq<char>,
    back: Seq<char>,
)
    requires
        call_ensures(page, (template, theme_json, host_connected, locale, update_json), html),
        !front.contains('|'),
        !back.contains('|'),
        !script_safe(theme_json@).contains('|'),
        !update_json@.contains('|'),
    ensures
        template@ == front + "window.__DSH_INITIAL__ || {}"@ + back ==> html@ == front
            + script_safe(theme_json@) + back,
        template@ == front + "window.__DSH_UPDATE__ || { phase: 'unknown' }"@ + back ==> html@
            == front + update_json@ + back,
        template@ == front + "window.__DSH_HOST_CONNECTED__ || false"@ + back ==> html@ == front
            + (if host_connected {
            "true"@
        } else {
            "false"@
        }) + back,
        template@ == front ==> html@ == front,
{
    the_page_is_filled_in(
        template@,
        front,
        back,
        theme_json@,
        host_connected,
        locale,
        update_json@,
    );
}

/// Why a message of the page could not be used is said in front of what went wrong.
pub proof fn malformed_messages_are_named(err: &str, reason: String)
    requires
        call_ensures(malformed_message, (err,), reason),
    ensures
        reason@ == "malformed settings message: "@ + err@,
{
}

} // verus!
