//! Native desktop affordances: what the tray shows, and the shape of its icon.

use crate::i18n;
use crate::i18n::Locale;
use crate::text;
use vstd::prelude::*;

verus! {

// ------------------------------------------------------------------ the agent

/// Agent state as reflected by the tray icon.
///
/// Kept to what the bridge actually reports, rather than inventing states the
/// host never emits.
#[derive(Debug, Clone, Copy, PartialEq, Eq, Structural)]
pub enum AgentState {
    /// No event seen yet, or the agent is present but idle.
    Idle,
    /// A turn is in flight.
    Working,
    /// The last turn failed.
    Failed,
}

/// The agent state that a reported status stands for.
pub open spec fn state_of_status(status: Seq<char>) -> AgentState {
    if status == "working"@ || status == "running"@ || status == "busy"@ || status == "streaming"@ {
        AgentState::Working
    } else if status == "failed"@ || status == "error"@ {
        AgentState::Failed
    } else {
        AgentState::Idle
    }
}

/// The agent state that a bridge event leads to; nothing where the event says
/// nothing of it.
pub open spec fn state_of_event(kind: Seq<char>, status: Option<Seq<char>>) -> Option<AgentState> {
    if kind == "status"@ {
        Some(
            match status {
                Some(status) => state_of_status(status),
                None => AgentState::Idle,
            },
        )
    } else if kind == "turn-stopping"@ || kind == "created"@ {
        Some(AgentState::Idle)
    } else if kind == "request-error"@ {
        Some(AgentState::Failed)
    } else {
        None
    }
}

/// The colour of the tray icon, as red, green, blue and alpha.
pub open spec fn state_color(state: AgentState) -> Seq<u8> {
    match state {
        AgentState::Idle => seq![0x9a, 0x9d, 0xb0, 0xff],
        AgentState::Working => seq![0x4c, 0x7d, 0xff, 0xff],
        AgentState::Failed => seq![0xe0, 0x55, 0x61, 0xff],
    }
}

impl AgentState {
    /// Map a bridge event onto a tray state.
    ///
    /// A turn ending or failing both return the agent to rest, but the failure
    /// stays visible until the next turn starts.
    pub fn from_event(kind: &str, status: Option<&str>) -> (state: Option<AgentState>)
        ensures
            state == state_of_event(
                kind@,
                (match status {
                    Some(status) => Some(status@),
                    None => None,
                }),
            ),
    {
        if text::same(kind, "status") {
            match status {
                Some(status) => if text::same(status, "working") || text::same(status, "running")
                    || text::same(status, "busy") || text::same(status, "streaming") {
                    Some(AgentState::Working)
                } else if text::same(status, "failed") || text::same(status, "error") {
                    Some(AgentState::Failed)
                } else {
                    Some(AgentState::Idle)
                },
                None => Some(AgentState::Idle),
            }
        } else if text::same(kind, "turn-stopping") || text::same(kind, "created") {
            Some(AgentState::Idle)
        } else if text::same(kind, "request-error") {
            Some(AgentState::Failed)
        } else {
            None
        }
    }

    /// The colour of the tray icon, as red, green, blue and alpha.
    pub fn color(self) -> (color: [u8; 4])
        ensures
            color@ == state_color(self),
    {
        let color: [u8; 4] = match self {
            AgentState::Idle => [0x9a, 0x9d, 0xb0, 0xff],
            AgentState::Working => [0x4c, 0x7d, 0xff, 0xff],
            AgentState::Failed => [0xe0, 0x55, 0x61, 0xff],
        };
        assert(color@ =~= state_color(self));
        color
    }

    pub fn label(self) -> (label: &'static str)
        ensures
            label@ == (match self {
                AgentState::Idle => "idle"@,
                AgentState::Working => "working"@,
                AgentState::Failed => "failed"@,
            }),
    {
        match self {
            AgentState::Idle => "idle",
            AgentState::Working => "working",
            AgentState::Failed => "failed",
        }
    }

    /// The label in a language.
    pub fn label_in(self, locale: Locale) -> (label: &'static str)
        ensures
            label@ == state_label(self, locale),
    {
        let strings = locale.strings();
        match self {
            AgentState::Idle => strings.agent_idle,
            AgentState::Working => strings.agent_working,
            AgentState::Failed => strings.agent_failed,
        }
    }
}

/// The label of a state in a language.
pub open spec fn state_label(state: AgentState, locale: Locale) -> Seq<char> {
    match state {
        AgentState::Idle => i18n::strings_of(locale).agent_idle@,
        AgentState::Working => i18n::strings_of(locale).agent_working@,
        AgentState::Failed => i18n::strings_of(locale).agent_failed@,
    }
}

// ------------------------------------------------------------- plugin labels

/// The most characters a label may have.
pub const LABEL_LIMIT: usize = 60;

/// `s` with each white-space character made a plain space.
pub open spec fn flattened(s: Seq<char>) -> Seq<char> {
    Seq::new(
        s.len(),
        |i: int|
            if text::is_white(s[i]) {
                ' '
            } else {
                s[i]
            },
    )
}

/// A label as it is shown: on one line, capped, and nothing where it is blank.
pub open spec fn clean_label(label: Seq<char>) -> Option<Seq<char>> {
    let line = text::trimmed(flattened(label));
    if line.len() == 0 {
        None
    } else if line.len() > LABEL_LIMIT {
        Some(line.take(LABEL_LIMIT - 1).push('…'))
    } else {
        Some(line)
    }
}

/// A label that may not be there, as it is shown.
pub open spec fn clean_optional(label: Option<Seq<char>>) -> Option<Seq<char>> {
    match label {
        Some(label) => clean_label(label),
        None => None,
    }
}

fn flatten(s: &str) -> (flat: String)
    ensures
        flat@ == flattened(s@),
{
    let v = text::chars_of(s);
    let mut flat = String::new();
    let mut i: usize = 0;
    while i < v.len()
        invariant
            i <= v@.len(),
            flat@ == flattened(v@).take(i as int),
        decreases v@.len() - i,
    {
        let c = if text::white(v[i]) {
            ' '
        } else {
            v[i]
        };
        flat.push(c);
        assert(flattened(v@).take(i + 1) =~= flattened(v@).take(i as int).push(c));
        i += 1;
    }
    assert(flattened(v@).take(i as int) == flattened(v@));
    flat
}

/// Normalise a plugin-supplied tray label.
///
/// Flattened to one line and length-capped: a tooltip cannot show newlines, and
/// without a cap a plugin could flood the menu. Whitespace-only input clears the
/// label rather than leaving a stray separator.
pub fn sanitize_label(label: Option<String>) -> (shown: Option<String>)
    ensures
        text::held(shown) == clean_optional(text::held(label)),
{
    match label {
        None => None,
        Some(label) => {
            let flat = flatten(label.as_str());
            let line = text::trim(flat.as_str());
            let v = text::chars_of(line.as_str());
            if v.len() == 0 {
                None
            } else if v.len() > LABEL_LIMIT {
                let mut head = text::slice(&v, 0, LABEL_LIMIT - 1);
                assert(v@.subrange(0, LABEL_LIMIT - 1) == v@.take(LABEL_LIMIT - 1));
                head.push('…');
                Some(head)
            } else {
                Some(line)
            }
        },
    }
}

proof fn lemma_trim_start_keeps(s: Seq<char>)
    ensures
        text::trim_start(s).len() <= s.len(),
        text::trim_start(s) == s.skip(s.len() - text::trim_start(s).len()),
    decreases s.len(),
{
    if s.len() > 0 && text::is_white(s[0]) {
        lemma_trim_start_keeps(s.skip(1));
        let t = text::trim_start(s.skip(1));
        assert(s.skip(1).skip(s.len() - 1 - t.len()) =~= s.skip(s.len() - t.len()));
    } else {
        assert(s.skip(0) =~= s);
    }
}

proof fn lemma_trim_end_keeps(s: Seq<char>)
    ensures
        text::trim_end(s).len() <= s.len(),
        text::trim_end(s) == s.take(text::trim_end(s).len() as int),
    decreases s.len(),
{
    if s.len() > 0 && text::is_white(s.last()) {
        lemma_trim_end_keeps(s.drop_last());
        let t = text::trim_end(s.drop_last());
        assert(s.drop_last().take(t.len() as int) =~= s.take(t.len() as int));
    } else {
        assert(s.take(s.len() as int) =~= s);
    }
}

/// A label that is shown fits on one line and within the limit: it has at least
/// one character and at most sixty, and no white space but plain spaces.
pub proof fn labels_fit_one_line(label: Seq<char>)
    ensures
        clean_label(label) matches Some(line) ==> {
            &&& 0 < line.len() <= LABEL_LIMIT
            &&& forall|i: int|
                0 <= i < line.len() ==> text::is_white(#[trigger] line[i]) ==> line[i] == ' '
        },
{
    let flat = flattened(label);
    let start = text::trim_start(flat);
    let line = text::trimmed(flat);
    lemma_trim_start_keeps(flat);
    lemma_trim_end_keeps(start);
    assert forall|i: int| 0 <= i < line.len() implies text::is_white(#[trigger] line[i]) ==> line[i]
        == ' ' by {
        assert(line[i] == start[i]);
        assert(start[i] == flat[flat.len() - start.len() + i]);
    }
}

// ------------------------------------------------------------------- the tray

/// What the tray shows: the agent's state, and a label contributed by a plugin.
#[derive(Debug, Clone)]
pub struct Tray {
    locale: Locale,
    state: AgentState,
    plugin_label: Option<String>,
}

/// The text of the tray for a state and a plugin's label.
pub open spec fn tray_text(locale: Locale, state: AgentState, label: Option<Seq<char>>) -> Seq<char> {
    let agent = i18n::strings_of(locale).agent_prefix@ + ": "@ + state_label(state, locale);
    match label {
        Some(label) => agent + " — "@ + label,
        None => agent,
    }
}

impl Tray {
    pub closed spec fn language(&self) -> Locale {
        self.locale
    }

    pub closed spec fn agent(&self) -> AgentState {
        self.state
    }

    pub closed spec fn plugin(&self) -> Option<Seq<char>> {
        text::held(self.plugin_label)
    }

    /// A tray with an idle agent and no label.
    pub fn new(locale: Locale) -> (tray: Tray)
        ensures
            tray.language() == locale,
            tray.agent() == AgentState::Idle,
            tray.plugin() is None,
    {
        Tray { locale, state: AgentState::Idle, plugin_label: None }
    }

    /// The agent's state.
    pub fn state(&self) -> (state: AgentState)
        ensures
            state == self.agent(),
    {
        self.state
    }

    /// The text of the tray, for its menu and its tooltip.
    pub fn text(&self) -> (shown: String)
        ensures
            shown@ == tray_text(self.language(), self.agent(), self.plugin()),
    {
        let strings = self.locale.strings();
        let s = text::plus(text::own(strings.agent_prefix), ": ");
        let s = text::plus(s, self.state.label_in(self.locale));
        match &self.plugin_label {
            Some(label) => text::plus(text::plus(s, " — "), label.as_str()),
            None => s,
        }
    }

    /// Update the tray to reflect a new agent state. Returns whether the text and
    /// the icon have to be shown anew.
    pub fn set_state(&mut self, state: AgentState) -> (changed: bool)
        ensures
            changed == (old(self).agent() != state),
            final(self).agent() == state,
            final(self).language() == old(self).language(),
            final(self).plugin() == old(self).plugin(),
    {
        if self.state == state {
            return false;
        }
        self.state = state;
        true
    }

    /// Set or clear the plugin-contributed label. Returns whether the text has to
    /// be shown anew.
    ///
    /// Only text is plugin-controlled: the icon colour stays derived from real
    /// agent state, so a plugin cannot make the tray misrepresent what the agent
    /// is doing.
    pub fn set_plugin_label(&mut self, label: Option<String>) -> (changed: bool)
        ensures
            final(self).plugin() == clean_optional(text::held(label)),
            changed == (final(self).plugin() != old(self).plugin()),
            final(self).agent() == old(self).agent(),
            final(self).language() == old(self).language(),
    {
        let label = sanitize_label(label);
        let same = match (&self.plugin_label, &label) {
            (Some(old_label), Some(new_label)) => text::same(
                old_label.as_str(),
                new_label.as_str(),
            ),
            (None, None) => true,
            _ => false,
        };
        if same {
            return false;
        }
        self.plugin_label = label;
        true
    }
}

/// Menu events surfaced to the caller.
#[derive(Debug, Clone, Copy, PartialEq, Eq, Structural)]
pub enum TrayCommand {
    Show,
    Settings,
    CheckForUpdates,
    Quit,
}

/// The ids of the tray's own menu items.
#[derive(Debug, Clone)]
pub struct TrayItems {
    pub show: String,
    pub settings: String,
    pub check_for_updates: String,
    pub quit: String,
}

/// Map a menu event id to a command, if it is one of ours.
pub fn tray_command(id: &str, items: &TrayItems) -> (command: Option<TrayCommand>)
    ensures
        command == (if id@ == items.show@ {
            Some(TrayCommand::Show)
        } else if id@ == items.settings@ {
            Some(TrayCommand::Settings)
        } else if id@ == items.check_for_updates@ {
            Some(TrayCommand::CheckForUpdates)
        } else if id@ == items.quit@ {
            Some(TrayCommand::Quit)
        } else {
            None
        }),
{
    if text::same(id, items.show.as_str()) {
        Some(TrayCommand::Show)
    } else if text::same(id, items.settings.as_str()) {
        Some(TrayCommand::Settings)
    } else if text::same(id, items.check_for_updates.as_str()) {
        Some(TrayCommand::CheckForUpdates)
    } else if text::same(id, items.quit.as_str()) {
        Some(TrayCommand::Quit)
    } else {
        None
    }
}

/// The bytes of an icon: each pixel of the mask in the colour of the agent's
/// state, and nothing where the mask is empty.
pub open spec fn icon_bytes(mask: Seq<bool>, state: AgentState) -> Seq<u8> {
    Seq::new(
        4 * mask.len(),
        |i: int|
            if mask[i / 4] {
                state_color(state)[i % 4]
            } else {
                0
            },
    )
}

/// The bytes of the tray icon: the whale's mask, tinted for the agent state.
pub fn icon_rgba(mask: &Vec<bool>, state: AgentState) -> (rgba: Vec<u8>)
    ensures
        rgba@ == icon_bytes(mask@, state),
{
    let color = state.color();
    let mut rgba: Vec<u8> = Vec::new();
    let mut i: usize = 0;
    while i < mask.len()
        invariant
            i <= mask@.len(),
            color@ == state_color(state),
            rgba@ == icon_bytes(mask@, state).take(4 * i),
        decreases mask@.len() - i,
    {
        let ghost all = icon_bytes(mask@, state);
        let ghost before = rgba@;
        if mask[i] {
            rgba.push(color[0]);
            rgba.push(color[1]);
            rgba.push(color[2]);
            rgba.push(color[3]);
        } else {
            rgba.push(0);
            rgba.push(0);
            rgba.push(0);
            rgba.push(0);
        }
        assert forall|k: int| 0 <= k < 4 * (i + 1) implies rgba@[k] == all[k] by {
            if k < 4 * i {
                assert(rgba@[k] == before[k]);
            } else {
                assert(k / 4 == i && k % 4 == k - 4 * i);
            }
        }
        assert(rgba@ =~= all.take(4 * (i + 1)));
        i += 1;
    }
    assert(icon_bytes(mask@, state).take(4 * i) =~= icon_bytes(mask@, state));
    rgba
}

/// Whether the operating system's appearance is dark, by what it printed for it;
/// nothing where it could not be asked. Light is the safer default, because a
/// wrong dark theme is more jarring than a wrong light one.
pub fn system_is_dark(printed: Option<String>) -> (dark: bool)
    ensures
        dark == (match printed {
            Some(style) => text::lowered(text::trimmed(style@)) == "dark"@,
            None => false,
        }),
{
    match printed {
        Some(style) => {
            let trimmed = text::trim(style.as_str());
            let lower = text::lower(trimmed.as_str());
            text::same(lower.as_str(), "dark")
        },
        None => false,
    }
}

// --------------------------------------------------------------------- laws

/// When the tray shows each state. It says that the agent works only on a status
/// event that reports work, and that the agent failed only on a failed request or on a
/// status that says so; a session that was created or a turn that ended leaves it at
/// rest, and an event of any other kind leaves the tray alone.
pub proof fn tray_states_have_their_causes(
    kind: &str,
    status: Option<&str>,
    state: Option<AgentState>,
)
    requires
        call_ensures(AgentState::from_event, (kind, status), state),
    ensures
        state == Some(AgentState::Working) <==> kind@ == "status"@ && (status matches Some(s)
            && (s@ == "working"@ || s@ == "running"@ || s@ == "busy"@ || s@ == "streaming"@)),
        state == Some(AgentState::Failed) <==> kind@ == "request-error"@ || (kind@ == "status"@
            && (status matches Some(s) && (s@ == "failed"@ || s@ == "error"@))),
        kind@ == "created"@ || kind@ == "turn-stopping"@ ==> state == Some(AgentState::Idle),
        kind@ == "status"@ ==> state is Some,
        state is None <==> kind@ != "status"@ && kind@ != "created"@ && kind@ != "turn-stopping"@
            && kind@ != "request-error"@,
{
    reveal_strlit("status");
    reveal_strlit("created");
    reveal_strlit("turn-stopping");
    reveal_strlit("request-error");
    reveal_strlit("working");
    reveal_strlit("running");
    reveal_strlit("busy");
    reveal_strlit("streaming");
    reveal_strlit("failed");
    reveal_strlit("error");
    assert("status"@.len() == 6 && "created"@.len() == 7);
    assert("turn-stopping"@.len() == 13 && "request-error"@.len() == 13);
    assert("turn-stopping"@[0] == 't' && "request-error"@[0] == 'r');
    assert("working"@.len() == 7 && "running"@.len() == 7 && "busy"@.len() == 4
        && "streaming"@.len() == 9);
    assert("failed"@.len() == 6 && "error"@.len() == 5);
}

/// The three states have three colours, all of them opaque: grey at rest, with no
/// channel far from the others, blue at work, and red after a failure.
pub proof fn tray_colours_tell_the_states_apart(state: AgentState, color: [u8; 4])
    requires
        call_ensures(AgentState::color, (state,), color),
    ensures
        color@.len() == 4 && color@[3] == 255,
        state is Idle ==> color@[0] == 154 && color@[1] == 157 && color@[2] == 176,
        state is Working ==> color@[0] == 76 && color@[1] == 125 && color@[2] == 255,
        state is Failed ==> color@[0] == 224 && color@[1] == 85 && color@[2] == 97,
{
}

/// In each language the three states have three labels.
pub proof fn state_labels_differ(
    one: AgentState,
    other: AgentState,
    locale: Locale,
    first: &'static str,
    second: &'static str,
)
    requires
        call_ensures(AgentState::label_in, (one, locale), first),
        call_ensures(AgentState::label_in, (other, locale), second),
    ensures
        first@ == second@ <==> one == other,
        locale is En ==> first@ == (match one {
            AgentState::Idle => "idle"@,
            AgentState::Working => "working"@,
            AgentState::Failed => "failed"@,
        }),
{
    reveal_strlit("idle");
    reveal_strlit("working");
    reveal_strlit("failed");
    reveal_strlit("空闲");
    reveal_strlit("工作中");
    reveal_strlit("失败");
    assert("idle"@.len() == 4 && "working"@.len() == 7 && "failed"@.len() == 6);
    assert("空闲"@[0] == '空' && "工作中"@[0] == '工' && "失败"@[0] == '失');
}

/// A label that already fits — no longer than sixty characters, no white space but
/// plain spaces, and none of those at its ends — is shown as it is.
pub proof fn fitting_labels_are_kept(label: Seq<char>)
    requires
        0 < label.len() <= 60,
        !text::is_white(label[0]),
        !text::is_white(label.last()),
        forall|i: int|
            0 <= i < label.len() ==> text::is_white(#[trigger] label[i]) ==> label[i] == ' ',
    ensures
        clean_label(label) == Some(label),
{
    assert(flattened(label) =~= label);
    assert(text::trim_start(label) == label);
    assert(text::trim_end(label) == label);
}

/// What is shown of a longer label: its first fifty-nine characters and an ellipsis.
pub proof fn long_labels_are_cut(label: Seq<char>)
    requires
        label.len() > 60,
        !text::is_white(label[0]),
        !text::is_white(label.last()),
        forall|i: int|
            0 <= i < label.len() ==> text::is_white(#[trigger] label[i]) ==> label[i] == ' ',
    ensures
        clean_label(label) matches Some(line) && line.len() == 60 && line.last() == '…' && line.take(
            59,
        ) == label.take(59),
{
    assert(flattened(label) =~= label);
    assert(text::trim_start(label) == label);
    assert(text::trim_end(label) == label);
    assert(label.take(59).push('…').take(59) =~= label.take(59));
}

/// White space around a label does not matter, and a label of white space alone
/// clears it.
pub proof fn blank_labels_clear(label: Seq<char>, w: char)
    requires
        text::is_white(w),
    ensures
        clean_label(seq![w] + label) == clean_label(label),
        clean_label(label.push(w)) == clean_label(label),
        (forall|i: int| 0 <= i < label.len() ==> text::is_white(#[trigger] label[i]))
            <==> clean_label(label) is None,
{
    let flat = flattened(label);
    assert(flattened(seq![w] + label) =~= seq![' '] + flat);
    assert(flattened(label.push(w)) =~= flat.push(' '));
    text::lemma_trimmed_ends(flat, ' ');
    assert(forall|i: int| 0 <= i < label.len() ==> (text::is_white(#[trigger] label[i])
        <==> text::is_white(flat[i])));
    text::trimmed_is_the_inside(flat);
    text::blank_is_trimmed_away(flat);
    if forall|i: int| 0 <= i < label.len() ==> text::is_white(#[trigger] label[i]) {
        assert forall|i: int| 0 <= i < flat.len() implies text::is_white(#[trigger] flat[i]) by {
            assert(text::is_white(label[i]));
        }
    }
    if text::trimmed(flat).len() == 0 {
        assert forall|i: int| 0 <= i < label.len() implies text::is_white(#[trigger] label[i]) by {
            assert(text::is_white(flat[i]));
        }
    }
}

/// The tray names the state in its own language, and a plugin's label stands behind
/// that: the label never hides or replaces the state.
pub proof fn tray_text_begins_with_the_state(
    locale: Locale,
    state: AgentState,
    label: Option<Seq<char>>,
)
    ensures
        tray_text(locale, state, None) == i18n::strings_of(locale).agent_prefix@ + seq![':', ' ']
            + state_label(state, locale),
        text::begins_with(tray_text(locale, state, label), tray_text(locale, state, None)),
        label matches Some(l) ==> tray_text(locale, state, label) == tray_text(
            locale,
            state,
            None,
        ) + seq![' ', '—', ' '] + l,
{
    reveal_strlit(": ");
    reveal_strlit(" — ");
    assert(": "@ =~= seq![':', ' ']);
    assert(" — "@ =~= seq![' ', '—', ' ']);
    let agent = tray_text(locale, state, None);
    let all = tray_text(locale, state, label);
    assert(all.subrange(0, agent.len() as int) =~= agent);
}

/// Each of the tray's own items asks for its own command, and no other id for any.
pub proof fn tray_items_have_their_commands(
    id: &str,
    items: &TrayItems,
    command: Option<TrayCommand>,
)
    requires
        call_ensures(tray_command, (id, items), command),
        items.show@ != items.settings@,
        items.show@ != items.check_for_updates@,
        items.show@ != items.quit@,
        items.settings@ != items.check_for_updates@,
        items.settings@ != items.quit@,
        items.check_for_updates@ != items.quit@,
    ensures
        command == Some(TrayCommand::Show) <==> id@ == items.show@,
        command == Some(TrayCommand::Settings) <==> id@ == items.settings@,
        command == Some(TrayCommand::CheckForUpdates) <==> id@ == items.check_for_updates@,
        command == Some(TrayCommand::Quit) <==> id@ == items.quit@,
{
}

/// Each pixel of the icon has four bytes of its own: the state's colour where the mask
/// is set, and nothing at all where it is not.
pub proof fn icon_pixels_follow_the_mask(
    mask: &Vec<bool>,
    state: AgentState,
    color: [u8; 4],
    rgba: Vec<u8>,
    pixel: int,
    channel: int,
)
    requires
        call_ensures(icon_rgba, (mask, state), rgba),
        call_ensures(AgentState::color, (state,), color),
        0 <= pixel < mask@.len(),
        0 <= channel < 4,
    ensures
        rgba@.len() == 4 * mask@.len(),
        mask@[pixel] ==> rgba@[4 * pixel + channel] == color@[channel],
        !mask@[pixel] ==> rgba@[4 * pixel + channel] == 0,
{
    let i = 4 * pixel + channel;
    assert(i / 4 == pixel && i % 4 == channel);
}

/// The system counts as dark exactly where it could be asked and printed `dark`, in
/// letters of either case and with any white space around it.
pub proof fn only_dark_is_dark(printed: Option<String>, dark: bool)
    requires
        call_ensures(system_is_dark, (printed,), dark),
    ensures
        printed is None ==> !dark,
        printed matches Some(style) ==> (dark <==> text::lowered(text::trimmed(style@)) == seq![
            'd',
            'a',
            'r',
            'k',
        ]),
{
    reveal_strlit("dark");
    assert("dark"@ =~= seq!['d', 'a', 'r', 'k']);
}

/// The tray shows its language's word for the agent, a colon and the state's label, and
/// behind them the plugin's label where there is one.
pub proof fn the_tray_shows_state_and_label(
    tray: &Tray,
    shown: String,
    label: &'static str,
    strings: i18n::Strings,
)
    requires
        call_ensures(Tray::text, (tray,), shown),
        call_ensures(AgentState::label_in, (tray.agent(), tray.language()), label),
        call_ensures(Locale::strings, (tray.language(),), strings),
    ensures
        tray.plugin() is None ==> shown@ == strings.agent_prefix@ + ": "@ + label@,
        tray.plugin() matches Some(plugin) ==> shown@ == strings.agent_prefix@ + ": "@ + label@
            + " — "@ + plugin,
{
}

/// A plugin's label changes nothing but the label: the state that the tray shows is the
/// agent's. What is shown is the label made to fit, and whether it changed is told.
pub proof fn plugins_cannot_change_the_state(
    tray: &mut Tray,
    label: Option<String>,
    changed: bool,
    clean: Option<String>,
)
    requires
        call_ensures(Tray::set_plugin_label, (tray, label), changed),
        call_ensures(sanitize_label, (label,), clean),
    ensures
        final(tray).agent() == old(tray).agent(),
        final(tray).language() == old(tray).language(),
        final(tray).plugin() == text::held(clean),
        label is None ==> final(tray).plugin() is None,
        changed <==> final(tray).plugin() != old(tray).plugin(),
{
}

/// A new state changes nothing but the state, and is told as a change exactly where it is
/// one.
pub proof fn states_leave_the_label(tray: &mut Tray, state: AgentState, changed: bool)
    requires
        call_ensures(Tray::set_state, (tray, state), changed),
    ensures
        final(tray).agent() == state,
        final(tray).plugin() == old(tray).plugin(),
        final(tray).language() == old(tray).language(),
        changed <==> state != old(tray).agent(),
{
}

/// A tray begins with an agent at rest and no label, in the language given.
pub proof fn trays_begin_at_rest(locale: Locale, tray: Tray, state: AgentState)
    requires
        call_ensures(Tray::new, (locale,), tray),
        call_ensures(Tray::state, (&tray,), state),
    ensures
        state is Idle,
        tray.agent() == state,
        tray.plugin() is None,
        tray.language() == locale,
{
}

/// What is shown of a plugin's label: nothing for none and for a blank one; a label that
/// fits as it is; the first fifty-nine characters of a longer one with an ellipsis. White
/// space in it becomes plain spaces.
pub proof fn labels_are_made_to_fit(label: String, shown: Option<String>, none: Option<String>)
    requires
        call_ensures(sanitize_label, (Some(label),), shown),
        call_ensures(sanitize_label, (None::<String>,), none),
    ensures
        none is None,
        shown is None <==> forall|i: int|
            0 <= i < label@.len() ==> text::is_white(#[trigger] label@[i]),
        shown matches Some(line) ==> 0 < line@.len() <= 60,
        shown matches Some(line) ==> exists|lo: int, hi: int|
            {
                &&& 0 <= lo < hi <= label@.len()
                &&& !text::is_white(label@[lo]) && !text::is_white(label@[hi - 1])
                &&& forall|i: int| 0 <= i < lo ==> text::is_white(#[trigger] label@[i])
                &&& forall|i: int| hi <= i < label@.len() ==> text::is_white(#[trigger] label@[i])
                &&& #[trigger] label@.subrange(lo, hi).len() <= 60 ==> line@ == flattened(
                    label@.subrange(lo, hi),
                )
                &&& label@.subrange(lo, hi).len() > 60 ==> line@ == flattened(
                    label@.subrange(lo, lo + 59),
                ).push('…')
            },
{
    blank_labels_clear(label@, ' ');
    labels_fit_one_line(label@);
    if let Some(line) = shown {
        let flat = flattened(label@);
        text::trimmed_is_the_inside(flat);
        let inside = text::trimmed(flat);
        let (lo, hi) = choose|lo: int, hi: int|
            {
                &&& 0 <= lo <= hi <= flat.len()
                &&& inside == #[trigger] flat.subrange(lo, hi)
                &&& forall|i: int| 0 <= i < lo ==> text::is_white(#[trigger] flat[i])
                &&& forall|i: int| hi <= i < flat.len() ==> text::is_white(#[trigger] flat[i])
            };
        assert(inside.len() > 0);
        assert(inside[0] == flat[lo] && inside.last() == flat[hi - 1]);
        assert forall|i: int| 0 <= i < lo implies text::is_white(#[trigger] label@[i]) by {
            assert(text::is_white(flat[i]));
        }
        assert forall|i: int| hi <= i < label@.len() implies text::is_white(#[trigger] label@[i]) by {
            assert(text::is_white(flat[i]));
        }
        let piece = label@.subrange(lo, hi);
        assert(flattened(piece) =~= inside);
        if piece.len() > 60 {
            assert(flattened(label@.subrange(lo, lo + 59)) =~= inside.take(59));
        }
    }
}

/// Flattening keeps every character but the white space, each of which becomes one plain
/// space.
pub proof fn flattening_keeps_the_words(s: Seq<char>, i: int)
    requires
        0 <= i < s.len(),
    ensures
        flattened(s).len() == s.len(),
        text::is_white(s[i]) ==> flattened(s)[i] == ' ',
        !text::is_white(s[i]) ==> flattened(s)[i] == s[i],
{
}

/// The state's own name is its label in English, and the three names differ.
pub proof fn states_have_their_names(state: AgentState, name: &'static str, shown: &'static str)
    requires
        call_ensures(AgentState::label, (state,), name),
        call_ensures(AgentState::label_in, (state, Locale::En), shown),
    ensures
        name@ == shown@,
        name@ == "idle"@ <==> state is Idle,
        name@ == "working"@ <==> state is Working,
        name@ == "failed"@ <==> state is Failed,
{
    reveal_strlit("idle");
    reveal_strlit("working");
    reveal_strlit("failed");
    assert("idle"@.len() == 4 && "working"@.len() == 7 && "failed"@.len() == 6);
}

} // verus!
