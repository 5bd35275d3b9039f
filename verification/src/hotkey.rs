//! Keyboard shortcuts: how they are written, and what they stand for.

use crate::text;
use vstd::prelude::*;

verus! {

/// A configurable keyboard shortcut, as written in the `dsh-shell` settings
/// namespace.
///
/// Stored as text (`"meta+shift+D"`) so the file stays readable and a typo
/// produces a clear parse error instead of a silently ignored field.
#[derive(Debug)]
pub struct HotkeySpec {
    pub mods: Vec<HotkeyMod>,
    pub key: HotkeyKey,
}

/// Modifier keys accepted in a shortcut string.
#[derive(Debug, Clone, Copy, PartialEq, Eq, Structural)]
pub enum HotkeyMod {
    Meta,
    Shift,
    Alt,
    Control,
}

/// A key accepted in a shortcut string.
///
/// Deliberately a whitelist rather than free text: an arbitrary key name would
/// have to map onto the platform's key codes anyway, and a wrong entry would
/// fail at registration with a less useful message.
#[derive(Debug, Clone, Copy, PartialEq, Eq, Structural)]
pub enum HotkeyKey {
    A,
    B,
    C,
    D,
    E,
    F,
    G,
    H,
    I,
    J,
    K,
    L,
    M,
    N,
    O,
    P,
    Q,
    R,
    S,
    T,
    U,
    V,
    W,
    X,
    Y,
    Z,
    Digit0,
    Digit1,
    Digit2,
    Digit3,
    Digit4,
    Digit5,
    Digit6,
    Digit7,
    Digit8,
    Digit9,
    Space,
    Enter,
    Escape,
    Tab,
    F1,
    F2,
    F3,
    F4,
    F5,
    F6,
    F7,
    F8,
    F9,
    F10,
    F11,
    F12,
}

/// What a shortcut is: its modifiers in order, and its key.
pub ghost struct Chord {
    pub mods: Seq<HotkeyMod>,
    pub key: HotkeyKey,
}

impl View for HotkeySpec {
    type V = Chord;

    open spec fn view(&self) -> Chord {
        Chord { mods: self.mods@, key: self.key }
    }
}

// -------------------------------------------------------------------- names

/// The modifier a lower-case name stands for.
pub open spec fn modifier_named(name: Seq<char>) -> Option<HotkeyMod> {
    if name == "meta"@ || name == "cmd"@ || name == "command"@ || name == "super"@ || name == "win"@ {
        Some(HotkeyMod::Meta)
    } else if name == "shift"@ {
        Some(HotkeyMod::Shift)
    } else if name == "alt"@ || name == "option"@ || name == "opt"@ {
        Some(HotkeyMod::Alt)
    } else if name == "control"@ || name == "ctrl"@ {
        Some(HotkeyMod::Control)
    } else {
        None
    }
}

fn parse_modifier(name: &str) -> (modifier: Option<HotkeyMod>)
    ensures
        modifier == modifier_named(name@),
{
    if text::same(name, "meta") || text::same(name, "cmd") || text::same(name, "command") || text::same(name, "super") || text::same(name, "win") {
        Some(HotkeyMod::Meta)
    } else if text::same(name, "shift") {
        Some(HotkeyMod::Shift)
    } else if text::same(name, "alt") || text::same(name, "option") || text::same(name, "opt") {
        Some(HotkeyMod::Alt)
    } else if text::same(name, "control") || text::same(name, "ctrl") {
        Some(HotkeyMod::Control)
    } else {
        None
    }
}

/// The name a modifier is written with.
pub open spec fn modifier_name(modifier: HotkeyMod) -> Seq<char> {
    match modifier {
        HotkeyMod::Meta => "meta"@,
        HotkeyMod::Shift => "shift"@,
        HotkeyMod::Alt => "alt"@,
        HotkeyMod::Control => "control"@,
    }
}

fn show_modifier(modifier: HotkeyMod) -> (name: &'static str)
    ensures
        name@ == modifier_name(modifier),
{
    match modifier {
        HotkeyMod::Meta => "meta",
        HotkeyMod::Shift => "shift",
        HotkeyMod::Alt => "alt",
        HotkeyMod::Control => "control",
    }
}

/// How a modifier is called in a message.
pub open spec fn modifier_title(modifier: HotkeyMod) -> Seq<char> {
    match modifier {
        HotkeyMod::Meta => "Meta"@,
        HotkeyMod::Shift => "Shift"@,
        HotkeyMod::Alt => "Alt"@,
        HotkeyMod::Control => "Control"@,
    }
}

fn title_of(modifier: HotkeyMod) -> (title: &'static str)
    ensures
        title@ == modifier_title(modifier),
{
    match modifier {
        HotkeyMod::Meta => "Meta",
        HotkeyMod::Shift => "Shift",
        HotkeyMod::Alt => "Alt",
        HotkeyMod::Control => "Control",
    }
}

/// The key that a single character stands for, a letter in lower case.
pub open spec fn key_of_char(c: char) -> Option<HotkeyKey> {
    match c {
        'a' => Some(HotkeyKey::A),
        'b' => Some(HotkeyKey::B),
        'c' => Some(HotkeyKey::C),
        'd' => Some(HotkeyKey::D),
        'e' => Some(HotkeyKey::E),
        'f' => Some(HotkeyKey::F),
        'g' => Some(HotkeyKey::G),
        'h' => Some(HotkeyKey::H),
        'i' => Some(HotkeyKey::I),
        'j' => Some(HotkeyKey::J),
        'k' => Some(HotkeyKey::K),
        'l' => Some(HotkeyKey::L),
        'm' => Some(HotkeyKey::M),
        'n' => Some(HotkeyKey::N),
        'o' => Some(HotkeyKey::O),
        'p' => Some(HotkeyKey::P),
        'q' => Some(HotkeyKey::Q),
        'r' => Some(HotkeyKey::R),
        's' => Some(HotkeyKey::S),
        't' => Some(HotkeyKey::T),
        'u' => Some(HotkeyKey::U),
        'v' => Some(HotkeyKey::V),
        'w' => Some(HotkeyKey::W),
        'x' => Some(HotkeyKey::X),
        'y' => Some(HotkeyKey::Y),
        'z' => Some(HotkeyKey::Z),
        '0' => Some(HotkeyKey::Digit0),
        '1' => Some(HotkeyKey::Digit1),
        '2' => Some(HotkeyKey::Digit2),
        '3' => Some(HotkeyKey::Digit3),
        '4' => Some(HotkeyKey::Digit4),
        '5' => Some(HotkeyKey::Digit5),
        '6' => Some(HotkeyKey::Digit6),
        '7' => Some(HotkeyKey::Digit7),
        '8' => Some(HotkeyKey::Digit8),
        '9' => Some(HotkeyKey::Digit9),
        _ => None,
    }
}

fn parse_char(c: char) -> (key: Option<HotkeyKey>)
    ensures
        key == key_of_char(c),
{
    match c {
        'a' => Some(HotkeyKey::A),
        'b' => Some(HotkeyKey::B),
        'c' => Some(HotkeyKey::C),
        'd' => Some(HotkeyKey::D),
        'e' => Some(HotkeyKey::E),
        'f' => Some(HotkeyKey::F),
        'g' => Some(HotkeyKey::G),
        'h' => Some(HotkeyKey::H),
        'i' => Some(HotkeyKey::I),
        'j' => Some(HotkeyKey::J),
        'k' => Some(HotkeyKey::K),
        'l' => Some(HotkeyKey::L),
        'm' => Some(HotkeyKey::M),
        'n' => Some(HotkeyKey::N),
        'o' => Some(HotkeyKey::O),
        'p' => Some(HotkeyKey::P),
        'q' => Some(HotkeyKey::Q),
        'r' => Some(HotkeyKey::R),
        's' => Some(HotkeyKey::S),
        't' => Some(HotkeyKey::T),
        'u' => Some(HotkeyKey::U),
        'v' => Some(HotkeyKey::V),
        'w' => Some(HotkeyKey::W),
        'x' => Some(HotkeyKey::X),
        'y' => Some(HotkeyKey::Y),
        'z' => Some(HotkeyKey::Z),
        '0' => Some(HotkeyKey::Digit0),
        '1' => Some(HotkeyKey::Digit1),
        '2' => Some(HotkeyKey::Digit2),
        '3' => Some(HotkeyKey::Digit3),
        '4' => Some(HotkeyKey::Digit4),
        '5' => Some(HotkeyKey::Digit5),
        '6' => Some(HotkeyKey::Digit6),
        '7' => Some(HotkeyKey::Digit7),
        '8' => Some(HotkeyKey::Digit8),
        '9' => Some(HotkeyKey::Digit9),
        _ => None,
    }
}

/// The key that a lower-case word stands for.
pub open spec fn key_of_word(word: Seq<char>) -> Option<HotkeyKey> {
    if word == "space"@ {
        Some(HotkeyKey::Space)
    } else if word == "enter"@ || word == "return"@ {
        Some(HotkeyKey::Enter)
    } else if word == "escape"@ || word == "esc"@ {
        Some(HotkeyKey::Escape)
    } else if word == "tab"@ {
        Some(HotkeyKey::Tab)
    } else if word == "f1"@ {
        Some(HotkeyKey::F1)
    } else if word == "f2"@ {
        Some(HotkeyKey::F2)
    } else if word == "f3"@ {
        Some(HotkeyKey::F3)
    } else if word == "f4"@ {
        Some(HotkeyKey::F4)
    } else if word == "f5"@ {
        Some(HotkeyKey::F5)
    } else if word == "f6"@ {
        Some(HotkeyKey::F6)
    } else if word == "f7"@ {
        Some(HotkeyKey::F7)
    } else if word == "f8"@ {
        Some(HotkeyKey::F8)
    } else if word == "f9"@ {
        Some(HotkeyKey::F9)
    } else if word == "f10"@ {
        Some(HotkeyKey::F10)
    } else if word == "f11"@ {
        Some(HotkeyKey::F11)
    } else if word == "f12"@ {
        Some(HotkeyKey::F12)
    } else {
        None
    }
}

fn parse_word(word: &str) -> (key: Option<HotkeyKey>)
    ensures
        key == key_of_word(word@),
{
    if text::same(word, "space") {
        Some(HotkeyKey::Space)
    } else if text::same(word, "enter") || text::same(word, "return") {
        Some(HotkeyKey::Enter)
    } else if text::same(word, "escape") || text::same(word, "esc") {
        Some(HotkeyKey::Escape)
    } else if text::same(word, "tab") {
        Some(HotkeyKey::Tab)
    } else if text::same(word, "f1") {
        Some(HotkeyKey::F1)
    } else if text::same(word, "f2") {
        Some(HotkeyKey::F2)
    } else if text::same(word, "f3") {
        Some(HotkeyKey::F3)
    } else if text::same(word, "f4") {
        Some(HotkeyKey::F4)
    } else if text::same(word, "f5") {
        Some(HotkeyKey::F5)
    } else if text::same(word, "f6") {
        Some(HotkeyKey::F6)
    } else if text::same(word, "f7") {
        Some(HotkeyKey::F7)
    } else if text::same(word, "f8") {
        Some(HotkeyKey::F8)
    } else if text::same(word, "f9") {
        Some(HotkeyKey::F9)
    } else if text::same(word, "f10") {
        Some(HotkeyKey::F10)
    } else if text::same(word, "f11") {
        Some(HotkeyKey::F11)
    } else if text::same(word, "f12") {
        Some(HotkeyKey::F12)
    } else {
        None
    }
}

/// The key a lower-case token stands for.
pub open spec fn key_named(token: Seq<char>) -> Option<HotkeyKey> {
    if token.len() == 1 {
        key_of_char(token[0])
    } else {
        key_of_word(token)
    }
}

/// Parse a single key token.
fn parse_key(token: &str) -> (key: Result<HotkeyKey, String>)
    ensures
        match key {
            Ok(key) => key_named(token@) == Some(key),
            Err(err) => {
                &&& key_named(token@) is None
                &&& err@ == "unknown key "@ + text::debug_text(token@)
            },
        },
{
    let v = text::chars_of(token);
    let found = if v.len() == 1 {
        parse_char(v[0])
    } else {
        parse_word(token)
    };
    match found {
        Some(key) => Ok(key),
        None => Err(text::plus(text::own("unknown key "), text::quoted(token).as_str())),
    }
}

/// The character of a key that has one.
pub open spec fn char_of_key(key: HotkeyKey) -> Option<char> {
    match key {
        HotkeyKey::A => Some('A'),
        HotkeyKey::B => Some('B'),
        HotkeyKey::C => Some('C'),
        HotkeyKey::D => Some('D'),
        HotkeyKey::E => Some('E'),
        HotkeyKey::F => Some('F'),
        HotkeyKey::G => Some('G'),
        HotkeyKey::H => Some('H'),
        HotkeyKey::I => Some('I'),
        HotkeyKey::J => Some('J'),
        HotkeyKey::K => Some('K'),
        HotkeyKey::L => Some('L'),
        HotkeyKey::M => Some('M'),
        HotkeyKey::N => Some('N'),
        HotkeyKey::O => Some('O'),
        HotkeyKey::P => Some('P'),
        HotkeyKey::Q => Some('Q'),
        HotkeyKey::R => Some('R'),
        HotkeyKey::S => Some('S'),
        HotkeyKey::T => Some('T'),
        HotkeyKey::U => Some('U'),
        HotkeyKey::V => Some('V'),
        HotkeyKey::W => Some('W'),
        HotkeyKey::X => Some('X'),
        HotkeyKey::Y => Some('Y'),
        HotkeyKey::Z => Some('Z'),
        HotkeyKey::Digit0 => Some('0'),
        HotkeyKey::Digit1 => Some('1'),
        HotkeyKey::Digit2 => Some('2'),
        HotkeyKey::Digit3 => Some('3'),
        HotkeyKey::Digit4 => Some('4'),
        HotkeyKey::Digit5 => Some('5'),
        HotkeyKey::Digit6 => Some('6'),
        HotkeyKey::Digit7 => Some('7'),
        HotkeyKey::Digit8 => Some('8'),
        HotkeyKey::Digit9 => Some('9'),
        _ => None,
    }
}

fn show_char(key: HotkeyKey) -> (c: Option<char>)
    ensures
        c == char_of_key(key),
{
    match key {
        HotkeyKey::A => Some('A'),
        HotkeyKey::B => Some('B'),
        HotkeyKey::C => Some('C'),
        HotkeyKey::D => Some('D'),
        HotkeyKey::E => Some('E'),
        HotkeyKey::F => Some('F'),
        HotkeyKey::G => Some('G'),
        HotkeyKey::H => Some('H'),
        HotkeyKey::I => Some('I'),
        HotkeyKey::J => Some('J'),
        HotkeyKey::K => Some('K'),
        HotkeyKey::L => Some('L'),
        HotkeyKey::M => Some('M'),
        HotkeyKey::N => Some('N'),
        HotkeyKey::O => Some('O'),
        HotkeyKey::P => Some('P'),
        HotkeyKey::Q => Some('Q'),
        HotkeyKey::R => Some('R'),
        HotkeyKey::S => Some('S'),
        HotkeyKey::T => Some('T'),
        HotkeyKey::U => Some('U'),
        HotkeyKey::V => Some('V'),
        HotkeyKey::W => Some('W'),
        HotkeyKey::X => Some('X'),
        HotkeyKey::Y => Some('Y'),
        HotkeyKey::Z => Some('Z'),
        HotkeyKey::Digit0 => Some('0'),
        HotkeyKey::Digit1 => Some('1'),
        HotkeyKey::Digit2 => Some('2'),
        HotkeyKey::Digit3 => Some('3'),
        HotkeyKey::Digit4 => Some('4'),
        HotkeyKey::Digit5 => Some('5'),
        HotkeyKey::Digit6 => Some('6'),
        HotkeyKey::Digit7 => Some('7'),
        HotkeyKey::Digit8 => Some('8'),
        HotkeyKey::Digit9 => Some('9'),
        _ => None,
    }
}

/// The word of a key that has no character.
pub open spec fn word_of_key(key: HotkeyKey) -> Seq<char> {
    match key {
        HotkeyKey::Space => "Space"@,
        HotkeyKey::Enter => "Enter"@,
        HotkeyKey::Escape => "Escape"@,
        HotkeyKey::Tab => "Tab"@,
        HotkeyKey::F1 => "F1"@,
        HotkeyKey::F2 => "F2"@,
        HotkeyKey::F3 => "F3"@,
        HotkeyKey::F4 => "F4"@,
        HotkeyKey::F5 => "F5"@,
        HotkeyKey::F6 => "F6"@,
        HotkeyKey::F7 => "F7"@,
        HotkeyKey::F8 => "F8"@,
        HotkeyKey::F9 => "F9"@,
        HotkeyKey::F10 => "F10"@,
        HotkeyKey::F11 => "F11"@,
        _ => "F12"@,
    }
}

fn show_word(key: HotkeyKey) -> (word: &'static str)
    ensures
        word@ == word_of_key(key),
{
    match key {
        HotkeyKey::Space => "Space",
        HotkeyKey::Enter => "Enter",
        HotkeyKey::Escape => "Escape",
        HotkeyKey::Tab => "Tab",
        HotkeyKey::F1 => "F1",
        HotkeyKey::F2 => "F2",
        HotkeyKey::F3 => "F3",
        HotkeyKey::F4 => "F4",
        HotkeyKey::F5 => "F5",
        HotkeyKey::F6 => "F6",
        HotkeyKey::F7 => "F7",
        HotkeyKey::F8 => "F8",
        HotkeyKey::F9 => "F9",
        HotkeyKey::F10 => "F10",
        HotkeyKey::F11 => "F11",
        _ => "F12",
    }
}

/// The canonical text for a key.
pub open spec fn key_text(key: HotkeyKey) -> Seq<char> {
    match char_of_key(key) {
        Some(c) => seq![c],
        None => word_of_key(key),
    }
}

/// The canonical text for a key, matching what `parse_key` accepts.
fn key_token(key: HotkeyKey) -> (token: String)
    ensures
        token@ == key_text(key),
{
    match show_char(key) {
        Some(c) => {
            let mut token = String::new();
            token.push(c);
            assert(token@ =~= seq![c]);
            token
        },
        None => text::own(show_word(key)),
    }
}

// ------------------------------------------------------------------ reading

/// What the parts of a shortcut say so far: its modifiers in the order they were
/// written, and its key.
pub ghost struct Reading {
    pub mods: Seq<HotkeyMod>,
    pub key: Option<HotkeyKey>,
}

/// What one more part of the shortcut `whole` says.
pub open spec fn read_part(before: Reading, part: Seq<char>, whole: Seq<char>) -> Result<
    Reading,
    Seq<char>,
> {
    let token = text::trimmed(part);
    let name = text::lowered(token);
    if token.len() == 0 {
        Err("empty component in "@ + text::debug_text(whole))
    } else {
        match modifier_named(name) {
            Some(m) => if before.mods.contains(m) {
                Err(
                    "duplicate modifier "@ + modifier_title(m) + " in "@ + text::debug_text(
                        whole,
                    ),
                )
            } else {
                Ok(Reading { mods: before.mods.push(m), ..before })
            },
            None => if before.key is Some {
                Err("more than one key in "@ + text::debug_text(whole))
            } else {
                match key_named(name) {
                    Some(key) => Ok(Reading { key: Some(key), ..before }),
                    None => Err("unknown key "@ + text::debug_text(name)),
                }
            },
        }
    }
}

/// What the parts of the shortcut `whole` say; the first that is wrong decides.
pub open spec fn read_parts(parts: Seq<Seq<char>>, whole: Seq<char>) -> Result<Reading, Seq<char>>
    decreases parts.len(),
{
    if parts.len() == 0 {
        Ok(Reading { mods: Seq::<HotkeyMod>::empty(), key: None })
    } else {
        match read_parts(parts.drop_last(), whole) {
            Ok(before) => read_part(before, parts.last(), whole),
            Err(err) => Err(err),
        }
    }
}

/// One modifier, where a list has it.
pub open spec fn only(mods: Seq<HotkeyMod>, m: HotkeyMod) -> Seq<HotkeyMod> {
    if mods.contains(m) {
        seq![m]
    } else {
        Seq::<HotkeyMod>::empty()
    }
}

/// The modifiers of a list in their fixed order, so that two spellings of one
/// shortcut are the same.
pub open spec fn in_order(mods: Seq<HotkeyMod>) -> Seq<HotkeyMod> {
    only(mods, HotkeyMod::Control) + only(mods, HotkeyMod::Alt) + only(mods, HotkeyMod::Shift)
        + only(mods, HotkeyMod::Meta)
}

/// The shortcut a text writes, or what is wrong with it.
pub open spec fn written_hotkey(s: Seq<char>) -> Result<Chord, Seq<char>> {
    let whole = text::trimmed(s);
    if whole.len() == 0 {
        Err("shortcut is empty"@)
    } else {
        match read_parts(text::split_on(whole, '+'), whole) {
            Ok(reading) => match reading.key {
                Some(key) => if reading.mods.len() == 0 {
                    Err(
                        text::debug_text(whole)
                            + " has no modifier; a global shortcut needs at least one"@,
                    )
                } else {
                    Ok(Chord { mods: in_order(reading.mods), key })
                },
                None => Err("no key in "@ + text::debug_text(whole)),
            },
            Err(err) => Err(err),
        }
    }
}

fn has(mods: &Vec<HotkeyMod>, m: HotkeyMod) -> (yes: bool)
    ensures
        yes == mods@.contains(m),
{
    let mut i: usize = 0;
    while i < mods.len()
        invariant
            i <= mods@.len(),
            forall|k: int| 0 <= k < i ==> mods@[k] != m,
        decreases mods@.len() - i,
    {
        if mods[i] == m {
            return true;
        }
        i += 1;
    }
    false
}

fn push_only(sorted: &mut Vec<HotkeyMod>, mods: &Vec<HotkeyMod>, m: HotkeyMod)
    ensures
        final(sorted)@ == old(sorted)@ + only(mods@, m),
{
    if has(mods, m) {
        sorted.push(m);
    }
    assert(sorted@ =~= old(sorted)@ + only(mods@, m));
}

/// The modifiers of a list in their fixed order.
fn normalised(mods: &Vec<HotkeyMod>) -> (sorted: Vec<HotkeyMod>)
    ensures
        sorted@ == in_order(mods@),
{
    let mut sorted: Vec<HotkeyMod> = Vec::new();
    push_only(&mut sorted, mods, HotkeyMod::Control);
    push_only(&mut sorted, mods, HotkeyMod::Alt);
    push_only(&mut sorted, mods, HotkeyMod::Shift);
    push_only(&mut sorted, mods, HotkeyMod::Meta);
    assert(sorted@ =~= in_order(mods@));
    sorted
}

fn about(message: &str, whole: &str) -> (s: String)
    ensures
        s@ == message@ + text::debug_text(whole@),
{
    text::plus(text::own(message), text::quoted(whole).as_str())
}

/// The shortcut written out: its modifiers and its key, with `+` between them.
pub open spec fn hotkey_text(chord: Chord) -> Seq<char> {
    text::joined(names_of(chord.mods).push(key_text(chord.key)), "+"@)
}

/// The names of modifiers.
pub open spec fn names_of(mods: Seq<HotkeyMod>) -> Seq<Seq<char>> {
    Seq::new(mods.len(), |i: int| modifier_name(mods[i]))
}

impl HotkeySpec {
    /// The default: ⌘⇧D.
    ///
    /// Shift is required because ⌘D alone is a common in-app shortcut.
    pub fn default_spec() -> (spec: HotkeySpec)
        ensures
            spec@ == (Chord { mods: seq![HotkeyMod::Meta, HotkeyMod::Shift], key: HotkeyKey::D }),
    {
        let mut mods: Vec<HotkeyMod> = Vec::new();
        mods.push(HotkeyMod::Meta);
        mods.push(HotkeyMod::Shift);
        assert(mods@ =~= seq![HotkeyMod::Meta, HotkeyMod::Shift]);
        HotkeySpec { mods, key: HotkeyKey::D }
    }

    /// Parse `"meta+shift+D"`.
    ///
    /// Case-insensitive, tolerant of surrounding whitespace, and the key may
    /// appear in any position. At least one modifier is **required**: a bare
    /// letter as a global shortcut would swallow that key system-wide.
    pub fn parse(text: &str) -> (spec: Result<HotkeySpec, String>)
        ensures
            match spec {
                Ok(spec) => written_hotkey(text@) == Ok::<Chord, Seq<char>>(spec@),
                Err(err) => written_hotkey(text@) == Err::<Chord, Seq<char>>(err@),
            },
    {
        let whole = text::trim(text);
        if whole.as_str().is_empty() {
            return Err(text::own("shortcut is empty"));
        }
        let parts = text::split(whole.as_str(), '+');
        let ghost all = text::views(parts@);
        let mut mods: Vec<HotkeyMod> = Vec::new();
        let mut key: Option<HotkeyKey> = None;
        let mut i: usize = 0;
        assert(mods@ =~= Seq::<HotkeyMod>::empty());
        while i < parts.len()
            invariant
                i <= parts@.len(),
                all == text::views(parts@),
                all == text::split_on(whole@, '+'),
                whole@ == text::trimmed(text@),
                whole@.len() > 0,
                read_parts(all.take(i as int), whole@) == Ok::<Reading, Seq<char>>(
                    Reading { mods: mods@, key },
                ),
            decreases parts@.len() - i,
        {
            let ghost before = Reading { mods: mods@, key };
            let ghost next = all.take(i + 1);
            assert(next.drop_last() == all.take(i as int));
            assert(next.last() == parts@[i as int]@);
            let token = text::trim(parts[i].as_str());
            if token.as_str().is_empty() {
                let err = about("empty component in ", whole.as_str());
                proof {
                    lemma_bad_part(all, whole@, i as int, err@);
                }
                return Err(err);
            }
            let name = text::lower(token.as_str());
            match parse_modifier(name.as_str()) {
                Some(m) => {
                    if has(&mods, m) {
                        let s = text::plus(text::own("duplicate modifier "), title_of(m));
                        let s = text::plus(s, " in ");
                        let err = text::plus(s, text::quoted(whole.as_str()).as_str());
                        proof {
                            lemma_bad_part(all, whole@, i as int, err@);
                        }
                        return Err(err);
                    }
                    mods.push(m);
                },
                None => {
                    if key.is_some() {
                        let err = about("more than one key in ", whole.as_str());
                        proof {
                            lemma_bad_part(all, whole@, i as int, err@);
                        }
                        return Err(err);
                    }
                    match parse_key(name.as_str()) {
                        Ok(found) => {
                            key = Some(found);
                        },
                        Err(err) => {
                            proof {
                                lemma_bad_part(all, whole@, i as int, err@);
                            }
                            return Err(err);
                        },
                    }
                },
            }
            assert(read_part(before, parts@[i as int]@, whole@) == Ok::<Reading, Seq<char>>(
                Reading { mods: mods@, key },
            ));
            i += 1;
        }
        assert(all.take(i as int) == all);
        match key {
            None => Err(about("no key in ", whole.as_str())),
            Some(key) => {
                if mods.len() == 0 {
                    return Err(
                        text::plus(
                            text::quoted(whole.as_str()),
                            " has no modifier; a global shortcut needs at least one",
                        ),
                    );
                }
                Ok(HotkeySpec { mods: normalised(&mods), key })
            },
        }
    }

    /// Render back to the canonical string form.
    pub fn to_string_canonical(&self) -> (s: String)
        ensures
            s@ == hotkey_text(self@),
    {
        let mut parts: Vec<String> = Vec::new();
        let mut i: usize = 0;
        while i < self.mods.len()
            invariant
                i <= self.mods@.len(),
                text::views(parts@) == names_of(self.mods@).take(i as int),
            decreases self.mods@.len() - i,
        {
            let ghost before = text::views(parts@);
            parts.push(text::own(show_modifier(self.mods[i])));
            assert(text::views(parts@) =~= before.push(modifier_name(self.mods@[i as int])));
            assert(names_of(self.mods@).take(i + 1) =~= names_of(self.mods@).take(i as int).push(
                modifier_name(self.mods@[i as int]),
            ));
            i += 1;
        }
        assert(names_of(self.mods@).take(i as int) == names_of(self.mods@));
        let ghost before = text::views(parts@);
        parts.push(key_token(self.key));
        assert(text::views(parts@) =~= before.push(key_text(self.key)));
        text::join(&parts, "+")
    }
}

/// A part that is wrong decides about the whole shortcut.
proof fn lemma_bad_part(all: Seq<Seq<char>>, whole: Seq<char>, i: int, err: Seq<char>)
    requires
        0 <= i < all.len(),
        read_parts(all.take(i + 1), whole) == Err::<Reading, Seq<char>>(err),
    ensures
        read_parts(all, whole) == Err::<Reading, Seq<char>>(err),
    decreases all.len() - i,
{
    if i + 1 < all.len() {
        assert(all.take(i + 2).drop_last() == all.take(i + 1));
        lemma_bad_part(all, whole, i + 1, err);
    } else {
        assert(all.take(i + 1) == all);
    }
}

impl Clone for HotkeySpec {
    fn clone(&self) -> (copy: Self)
        ensures
            copy@ == self@,
    {
        let mut mods: Vec<HotkeyMod> = Vec::new();
        let mut i: usize = 0;
        while i < self.mods.len()
            invariant
                i <= self.mods@.len(),
                mods@ == self.mods@.take(i as int),
            decreases self.mods@.len() - i,
        {
            mods.push(self.mods[i]);
            assert(self.mods@.take(i + 1) == self.mods@.take(i as int).push(self.mods@[i as int]));
            i += 1;
        }
        assert(self.mods@.take(i as int) == self.mods@);
        HotkeySpec { mods, key: self.key }
    }
}

impl PartialEq for HotkeySpec {
    fn eq(&self, other: &HotkeySpec) -> (yes: bool) {
        if self.key != other.key || self.mods.len() != other.mods.len() {
            return false;
        }
        let mut i: usize = 0;
        while i < self.mods.len()
            invariant
                i <= self.mods@.len(),
                self.mods@.len() == other.mods@.len(),
                forall|k: int| 0 <= k < i ==> self.mods@[k] == other.mods@[k],
            decreases self.mods@.len() - i,
        {
            if self.mods[i] != other.mods[i] {
                return false;
            }
            i += 1;
        }
        assert(self.mods@ =~= other.mods@);
        true
    }
}

impl vstd::std_specs::cmp::PartialEqSpecImpl for HotkeySpec {
    open spec fn obeys_eq_spec() -> bool {
        true
    }

    open spec fn eq_spec(&self, other: &HotkeySpec) -> bool {
        self@ == other@
    }
}

impl Eq for HotkeySpec {

}

// ---------------------------------------------------------- the platform side

/// A set of modifier keys of `global_hotkey`.
#[verifier::external_type_specification]
#[verifier::external_body]
pub struct ExModifiers(global_hotkey::hotkey::Modifiers);

/// A key code of `global_hotkey`.
#[verifier::external_type_specification]
#[verifier::external_body]
pub struct ExCode(global_hotkey::hotkey::Code);

/// A shortcut of `global_hotkey`.
#[verifier::external_type_specification]
#[verifier::external_body]
pub struct ExHotKey(global_hotkey::hotkey::HotKey);

/// Which of the four modifiers a set has; `Meta` stands for the platform key
/// under either of its flags, `META` and `SUPER`.
pub uninterp spec fn flags_of(mods: global_hotkey::hotkey::Modifiers) -> Set<HotkeyMod>;

/// The name of a key code.
pub uninterp spec fn code_text(code: global_hotkey::hotkey::Code) -> Seq<char>;

/// The modifiers of a platform shortcut.
pub uninterp spec fn hotkey_flags(hotkey: global_hotkey::hotkey::HotKey) -> Set<HotkeyMod>;

/// The name of the key code of a platform shortcut.
pub uninterp spec fn hotkey_code(hotkey: global_hotkey::hotkey::HotKey) -> Seq<char>;

/// The id of a platform shortcut, by which its events name it.
pub uninterp spec fn hotkey_number(hotkey: global_hotkey::hotkey::HotKey) -> u32;

/// `HotKey::id`: the id of a shortcut.
#[verifier::external_body]
fn id_of(hotkey: &global_hotkey::hotkey::HotKey) -> (id: u32)
    ensures
        id == hotkey_number(*hotkey),
{
    hotkey.id()
}

/// `Modifiers::empty`: no modifier at all.
#[verifier::external_body]
fn no_modifiers() -> (mods: global_hotkey::hotkey::Modifiers)
    ensures
        flags_of(mods) == Set::<HotkeyMod>::empty(),
{
    global_hotkey::hotkey::Modifiers::empty()
}

/// The flag of `Modifiers` for one modifier: exactly that one is set.
#[verifier::external_body]
fn modifier_flag(m: HotkeyMod) -> (mods: global_hotkey::hotkey::Modifiers)
    ensures
        flags_of(mods) == set![m],
{
    match m {
        HotkeyMod::Meta => global_hotkey::hotkey::Modifiers::META,
        HotkeyMod::Shift => global_hotkey::hotkey::Modifiers::SHIFT,
        HotkeyMod::Alt => global_hotkey::hotkey::Modifiers::ALT,
        HotkeyMod::Control => global_hotkey::hotkey::Modifiers::CONTROL,
    }
}

/// `Modifiers::union`: the modifiers of both sets.
#[verifier::external_body]
fn union_flags(
    a: global_hotkey::hotkey::Modifiers,
    b: global_hotkey::hotkey::Modifiers,
) -> (mods: global_hotkey::hotkey::Modifiers)
    ensures
        flags_of(mods) == flags_of(a).union(flags_of(b)),
{
    a.union(b)
}

/// `Code::from_str`: the key code of that name, for the names of the accepted
/// keys, each of which is the name of a code.
#[verifier::external_body]
fn named_code(name: &str) -> (code: global_hotkey::hotkey::Code)
    requires
        exists|key: HotkeyKey| name@ == code_name(key),
    ensures
        code_text(code) == name@,
{
    name.parse::<global_hotkey::hotkey::Code>().expect("the name of a key code")
}

/// `HotKey::new`: the shortcut of these modifiers and this key code.
#[verifier::external_body]
fn new_hotkey(
    mods: global_hotkey::hotkey::Modifiers,
    code: global_hotkey::hotkey::Code,
) -> (hotkey: global_hotkey::hotkey::HotKey)
    ensures
        hotkey_flags(hotkey) == flags_of(mods),
        hotkey_code(hotkey) == code_text(code),
{
    global_hotkey::hotkey::HotKey::new(Some(mods), code)
}

/// The name of the platform key code for a key: `KeyD`, `Digit1`, `Space`, `F4`.
pub open spec fn code_name(key: HotkeyKey) -> Seq<char> {
    match char_of_key(key) {
        Some(c) => if text::is_digit(c) {
            "Digit"@ + seq![c]
        } else {
            "Key"@ + seq![c]
        },
        None => word_of_key(key),
    }
}

/// The platform key code for a key.
fn code_for(key: HotkeyKey) -> (code: global_hotkey::hotkey::Code)
    ensures
        code_text(code) == code_name(key),
{
    let name = match show_char(key) {
        Some(c) => {
            let mut name = if '0' <= c && c <= '9' {
                text::own("Digit")
            } else {
                text::own("Key")
            };
            name.push(c);
            assert(name@ =~= code_name(key));
            name
        },
        None => text::own(show_word(key)),
    };
    assert(name@ == code_name(key));
    named_code(name.as_str())
}

impl HotkeySpec {
    /// Convert to the platform hotkey type.
    pub fn to_hotkey(&self) -> (hotkey: global_hotkey::hotkey::HotKey)
        ensures
            hotkey_flags(hotkey) == self.mods@.to_set(),
            hotkey_code(hotkey) == code_name(self.key),
    {
        let mut mods = no_modifiers();
        let mut i: usize = 0;
        assert(self.mods@.take(0).to_set() =~= Set::<HotkeyMod>::empty());
        while i < self.mods.len()
            invariant
                i <= self.mods@.len(),
                flags_of(mods) == self.mods@.take(i as int).to_set(),
            decreases self.mods@.len() - i,
        {
            let m = self.mods[i];
            let ghost before = self.mods@.take(i as int);
            mods = union_flags(mods, modifier_flag(m));
            assert(self.mods@.take(i + 1) == before.push(m));
            proof {
                before.lemma_push_to_set_commute(m);
                assert(before.to_set().insert(m) =~= before.to_set().union(set![m]));
            }
            i += 1;
        }
        assert(self.mods@.take(i as int) == self.mods@);
        new_hotkey(mods, code_for(self.key))
    }
}

/// Whether an event with the id given comes from the registered summon shortcut.
pub fn is_summon_event(event_id: u32, active: &global_hotkey::hotkey::HotKey) -> (yes: bool)
    ensures
        yes == (event_id == hotkey_number(*active)),
{
    event_id == id_of(active)
}

// ------------------------------------------------------- the active shortcut

/// Whether two shortcuts are the same, in whichever order their modifiers are given.
pub open spec fn same_shortcut(a: Chord, b: Chord) -> bool {
    a.key == b.key && in_order(a.mods) == in_order(b.mods)
}

fn alike(a: &HotkeySpec, b: &HotkeySpec) -> (yes: bool)
    ensures
        yes == same_shortcut(a@, b@),
{
    let a = HotkeySpec { mods: normalised(&a.mods), key: a.key };
    let b = HotkeySpec { mods: normalised(&b.mods), key: b.key };
    a == b
}

/// What a change of the shortcut asks for.
#[derive(Debug)]
pub enum HotkeyChange {
    /// The text is no shortcut, for this reason; the active one is kept.
    Invalid(String),
    /// The shortcut is active already. Nothing is done, which avoids a needless
    /// unregister window.
    Same,
    /// Register this shortcut, and report how it went.
    Register(HotkeySpec),
}

/// The active global shortcut, re-targetable at runtime.
#[derive(Debug)]
pub struct HotKeyHandle {
    spec: HotkeySpec,
}

impl HotKeyHandle {
    /// The shortcut that is active.
    pub closed spec fn active(&self) -> Chord {
        self.spec@
    }

    /// A shortcut that was registered.
    pub fn new(spec: HotkeySpec) -> (handle: HotKeyHandle)
        ensures
            handle.active() == spec@,
    {
        HotKeyHandle { spec }
    }

    /// The active shortcut as written in the config.
    pub fn spec(&self) -> (spec: &HotkeySpec)
        ensures
            spec@ == self.active(),
    {
        &self.spec
    }

    /// What has to be done for the configured text to become the shortcut. In which
    /// order the modifiers of the active one were given does not matter.
    pub fn request(&self, text: &str) -> (change: HotkeyChange)
        ensures
            match written_hotkey(text@) {
                Ok(chord) => if same_shortcut(chord, self.active()) {
                    change is Same
                } else {
                    change matches HotkeyChange::Register(spec) && spec@ == chord
                },
                Err(err) => change matches HotkeyChange::Invalid(reason) && reason@ == err,
            },
    {
        match HotkeySpec::parse(text) {
            Ok(spec) => if alike(&spec, &self.spec) {
                HotkeyChange::Same
            } else {
                HotkeyChange::Register(spec)
            },
            Err(err) => HotkeyChange::Invalid(err),
        }
    }

    /// Switch to a different combination, by how registering it went.
    ///
    /// Registration happens **before** the old one is released, so a
    /// combination owned by another app is rejected without ever leaving the
    /// user without a working hotkey. On success the previous one is to be
    /// released, and is returned.
    pub fn retarget(&mut self, spec: HotkeySpec, registered: Result<(), String>) -> (outcome: Result<
        HotkeySpec,
        String,
    >)
        ensures
            match registered {
                Ok(_) => {
                    &&& final(self).active() == spec@
                    &&& outcome matches Ok(previous)
                    &&& previous@ == old(self).active()
                },
                Err(err) => {
                    &&& final(self).active() == old(self).active()
                    &&& outcome matches Err(reason)
                    &&& reason@ == hotkey_text(spec@) + " is unavailable: "@ + err@
                },
            },
    {
        match registered {
            Ok(_) => {
                let previous = self.spec.clone();
                self.spec = spec;
                Ok(previous)
            },
            Err(err) => {
                let s = text::plus(spec.to_string_canonical(), " is unavailable: ");
                Err(text::plus(s, err.as_str()))
            },
        }
    }
}

/// The shortcut that is configured, or the default where the text is none, with
/// what is wrong with it: a malformed entry must not leave the user without a
/// hotkey.
pub fn initial_hotkey_spec(text: &str) -> (initial: (HotkeySpec, Option<String>))
    ensures
        match written_hotkey(text@) {
            Ok(chord) => initial.0@ == chord && initial.1 is None,
            Err(err) => {
                &&& initial.0@ == (Chord {
                    mods: seq![HotkeyMod::Meta, HotkeyMod::Shift],
                    key: HotkeyKey::D,
                })
                &&& initial.1 matches Some(reason)
                &&& reason@ == err
            },
        },
{
    match HotkeySpec::parse(text) {
        Ok(spec) => (spec, None),
        Err(err) => (HotkeySpec::default_spec(), Some(err)),
    }
}

// --------------------------------------------------------------------- laws

/// Two lists with the same modifiers are normalised alike: the order in which a
/// shortcut is written does not matter.
pub proof fn order_does_not_matter(a: Seq<HotkeyMod>, b: Seq<HotkeyMod>)
    requires
        forall|m: HotkeyMod| a.contains(m) == b.contains(m),
    ensures
        in_order(a) == in_order(b),
{
}

/// How the names of modifiers are spelled.
proof fn lemma_spell_modifiers()
    ensures
        "meta"@.len() == 4,
        "meta"@[0] == 'm',
        "meta"@[1] == 'e',
        "meta"@[2] == 't',
        "meta"@[3] == 'a',
        "cmd"@.len() == 3,
        "cmd"@[0] == 'c',
        "cmd"@[1] == 'm',
        "cmd"@[2] == 'd',
        "command"@.len() == 7,
        "command"@[0] == 'c',
        "command"@[1] == 'o',
        "command"@[2] == 'm',
        "command"@[3] == 'm',
        "command"@[4] == 'a',
        "command"@[5] == 'n',
        "command"@[6] == 'd',
        "super"@.len() == 5,
        "super"@[0] == 's',
        "super"@[1] == 'u',
        "super"@[2] == 'p',
        "super"@[3] == 'e',
        "super"@[4] == 'r',
        "win"@.len() == 3,
        "win"@[0] == 'w',
        "win"@[1] == 'i',
        "win"@[2] == 'n',
        "shift"@.len() == 5,
        "shift"@[0] == 's',
        "shift"@[1] == 'h',
        "shift"@[2] == 'i',
        "shift"@[3] == 'f',
        "shift"@[4] == 't',
        "alt"@.len() == 3,
        "alt"@[0] == 'a',
        "alt"@[1] == 'l',
        "alt"@[2] == 't',
        "option"@.len() == 6,
        "option"@[0] == 'o',
        "option"@[1] == 'p',
        "option"@[2] == 't',
        "option"@[3] == 'i',
        "option"@[4] == 'o',
        "option"@[5] == 'n',
        "opt"@.len() == 3,
        "opt"@[0] == 'o',
        "opt"@[1] == 'p',
        "opt"@[2] == 't',
        "control"@.len() == 7,
        "control"@[0] == 'c',
        "control"@[1] == 'o',
        "control"@[2] == 'n',
        "control"@[3] == 't',
        "control"@[4] == 'r',
        "control"@[5] == 'o',
        "control"@[6] == 'l',
        "ctrl"@.len() == 4,
        "ctrl"@[0] == 'c',
        "ctrl"@[1] == 't',
        "ctrl"@[2] == 'r',
        "ctrl"@[3] == 'l',
{
    reveal_strlit("meta");
    reveal_strlit("cmd");
    reveal_strlit("command");
    reveal_strlit("super");
    reveal_strlit("win");
    reveal_strlit("shift");
    reveal_strlit("alt");
    reveal_strlit("option");
    reveal_strlit("opt");
    reveal_strlit("control");
    reveal_strlit("ctrl");
}

/// How the words for keys are spelled.
proof fn lemma_spell_words()
    ensures
        "space"@.len() == 5,
        "space"@[0] == 's',
        "space"@[1] == 'p',
        "space"@[2] == 'a',
        "space"@[3] == 'c',
        "space"@[4] == 'e',
        "enter"@.len() == 5,
        "enter"@[0] == 'e',
        "enter"@[1] == 'n',
        "enter"@[2] == 't',
        "enter"@[3] == 'e',
        "enter"@[4] == 'r',
        "return"@.len() == 6,
        "return"@[0] == 'r',
        "return"@[1] == 'e',
        "return"@[2] == 't',
        "return"@[3] == 'u',
        "return"@[4] == 'r',
        "return"@[5] == 'n',
        "escape"@.len() == 6,
        "escape"@[0] == 'e',
        "escape"@[1] == 's',
        "escape"@[2] == 'c',
        "escape"@[3] == 'a',
        "escape"@[4] == 'p',
        "escape"@[5] == 'e',
        "esc"@.len() == 3,
        "esc"@[0] == 'e',
        "esc"@[1] == 's',
        "esc"@[2] == 'c',
        "tab"@.len() == 3,
        "tab"@[0] == 't',
        "tab"@[1] == 'a',
        "tab"@[2] == 'b',
        "f1"@.len() == 2,
        "f1"@[0] == 'f',
        "f1"@[1] == '1',
        "f2"@.len() == 2,
        "f2"@[0] == 'f',
        "f2"@[1] == '2',
        "f3"@.len() == 2,
        "f3"@[0] == 'f',
        "f3"@[1] == '3',
        "f4"@.len() == 2,
        "f4"@[0] == 'f',
        "f4"@[1] == '4',
        "f5"@.len() == 2,
        "f5"@[0] == 'f',
        "f5"@[1] == '5',
        "f6"@.len() == 2,
        "f6"@[0] == 'f',
        "f6"@[1] == '6',
        "f7"@.len() == 2,
        "f7"@[0] == 'f',
        "f7"@[1] == '7',
        "f8"@.len() == 2,
        "f8"@[0] == 'f',
        "f8"@[1] == '8',
        "f9"@.len() == 2,
        "f9"@[0] == 'f',
        "f9"@[1] == '9',
        "f10"@.len() == 3,
        "f10"@[0] == 'f',
        "f10"@[1] == '1',
        "f10"@[2] == '0',
        "f11"@.len() == 3,
        "f11"@[0] == 'f',
        "f11"@[1] == '1',
        "f11"@[2] == '1',
        "f12"@.len() == 3,
        "f12"@[0] == 'f',
        "f12"@[1] == '1',
        "f12"@[2] == '2',
{
    reveal_strlit("space");
    reveal_strlit("enter");
    reveal_strlit("return");
    reveal_strlit("escape");
    reveal_strlit("esc");
    reveal_strlit("tab");
    reveal_strlit("f1");
    reveal_strlit("f2");
    reveal_strlit("f3");
    reveal_strlit("f4");
    reveal_strlit("f5");
    reveal_strlit("f6");
    reveal_strlit("f7");
    reveal_strlit("f8");
    reveal_strlit("f9");
    reveal_strlit("f10");
    reveal_strlit("f11");
    reveal_strlit("f12");
}

proof fn lemma_modifier_names(m: HotkeyMod)
    ensures
        ({
            let name = modifier_name(m);
            &&& name.len() > 0
            &&& !text::is_white(name[0])
            &&& !text::is_white(name.last())
            &&& !name.contains('+')
            &&& text::lowered(name) == name
            &&& modifier_named(name) == Some(m)
        }),
{
    lemma_spell_modifiers();

    let name = modifier_name(m);
    assert(text::lowered(name) =~= name);
    assert(!name.contains('+'));
}

/// A word is no modifier: none of them is spelled like one.
proof fn lemma_words_are_no_modifiers(key: HotkeyKey)
    requires
        char_of_key(key) is None,
    ensures
        modifier_named(text::lowered(word_of_key(key))) is None,
        key_of_word(text::lowered(word_of_key(key))) == Some(key),
        text::lowered(word_of_key(key)).len() > 1,
{
    lemma_spell_words();
    lemma_spell_modifiers();

    match key {
        HotkeyKey::Space => {
            reveal_strlit("Space");
            assert(text::lowered("Space"@) =~= "space"@);
        },
        HotkeyKey::Enter => {
            reveal_strlit("Enter");
            assert(text::lowered("Enter"@) =~= "enter"@);
        },
        HotkeyKey::Escape => {
            reveal_strlit("Escape");
            assert(text::lowered("Escape"@) =~= "escape"@);
        },
        HotkeyKey::Tab => {
            reveal_strlit("Tab");
            assert(text::lowered("Tab"@) =~= "tab"@);
        },
        HotkeyKey::F1 => {
            reveal_strlit("F1");
            assert(text::lowered("F1"@) =~= "f1"@);
        },
        HotkeyKey::F2 => {
            reveal_strlit("F2");
            assert(text::lowered("F2"@) =~= "f2"@);
        },
        HotkeyKey::F3 => {
            reveal_strlit("F3");
            assert(text::lowered("F3"@) =~= "f3"@);
        },
        HotkeyKey::F4 => {
            reveal_strlit("F4");
            assert(text::lowered("F4"@) =~= "f4"@);
        },
        HotkeyKey::F5 => {
            reveal_strlit("F5");
            assert(text::lowered("F5"@) =~= "f5"@);
        },
        HotkeyKey::F6 => {
            reveal_strlit("F6");
            assert(text::lowered("F6"@) =~= "f6"@);
        },
        HotkeyKey::F7 => {
            reveal_strlit("F7");
            assert(text::lowered("F7"@) =~= "f7"@);
        },
        HotkeyKey::F8 => {
            reveal_strlit("F8");
            assert(text::lowered("F8"@) =~= "f8"@);
        },
        HotkeyKey::F9 => {
            reveal_strlit("F9");
            assert(text::lowered("F9"@) =~= "f9"@);
        },
        HotkeyKey::F10 => {
            reveal_strlit("F10");
            assert(text::lowered("F10"@) =~= "f10"@);
        },
        HotkeyKey::F11 => {
            reveal_strlit("F11");
            assert(text::lowered("F11"@) =~= "f11"@);
        },
        HotkeyKey::F12 => {
            reveal_strlit("F12");
            assert(text::lowered("F12"@) =~= "f12"@);
        },
        _ => {},
    }
}

proof fn lemma_key_texts(key: HotkeyKey)
    ensures
        ({
            let token = key_text(key);
            &&& token.len() > 0
            &&& !text::is_white(token[0])
            &&& !text::is_white(token.last())
            &&& !token.contains('+')
            &&& modifier_named(text::lowered(token)) is None
            &&& key_named(text::lowered(token)) == Some(key)
        }),
{
    let token = key_text(key);
    match char_of_key(key) {
        Some(c) => {
            assert(text::lowered(token) =~= seq![text::lower_char(c)]);
            lemma_spell_modifiers();

            assert(key_of_char(text::lower_char(c)) == Some(key));
            assert(text::is_letter(c) || text::is_digit(c));
        },
        None => {
            lemma_words_are_no_modifiers(key);
            reveal_strlit("Space");
            reveal_strlit("Enter");
            reveal_strlit("Escape");
            reveal_strlit("Tab");
            reveal_strlit("F1");
            reveal_strlit("F2");
            reveal_strlit("F3");
            reveal_strlit("F4");
            reveal_strlit("F5");
            reveal_strlit("F6");
            reveal_strlit("F7");
            reveal_strlit("F8");
            reveal_strlit("F9");
            reveal_strlit("F10");
            reveal_strlit("F11");
            reveal_strlit("F12");

            assert(!token.contains('+'));
        },
    }
}

/// Reading the names of modifiers that do not repeat gives the modifiers.
proof fn lemma_read_names(mods: Seq<HotkeyMod>, whole: Seq<char>)
    requires
        mods.no_duplicates(),
    ensures
        read_parts(names_of(mods), whole) == Ok::<Reading, Seq<char>>(
            Reading { mods, key: None },
        ),
    decreases mods.len(),
{
    let names = names_of(mods);
    if mods.len() == 0 {
        assert(mods =~= Seq::<HotkeyMod>::empty());
    } else {
        let short = mods.drop_last();
        assert(short.no_duplicates());
        lemma_read_names(short, whole);
        assert(names.drop_last() =~= names_of(short));
        lemma_modifier_names(mods.last());
        assert(names.last() == modifier_name(mods.last()));
        assert(text::trimmed(names.last()) == names.last());
        assert(!short.contains(mods.last())) by {
            if short.contains(mods.last()) {
                let k = choose|k: int| 0 <= k < short.len() && short[k] == mods.last();
                assert(mods[k] == mods[mods.len() - 1]);
            }
        }
        assert(short.push(mods.last()) =~= mods);
    }
}

/// A shortcut written out reads back as the same shortcut with its modifiers in
/// their fixed order, where it has a modifier and none of them twice.
pub proof fn canonical_form_round_trips(chord: Chord)
    requires
        chord.mods.len() > 0,
        chord.mods.no_duplicates(),
    ensures
        written_hotkey(hotkey_text(chord)) == Ok::<Chord, Seq<char>>(
            Chord { mods: in_order(chord.mods), key: chord.key },
        ),
{
    reveal_strlit("+");
    assert("+"@ =~= seq!['+']);
    let names = names_of(chord.mods);
    let parts = names.push(key_text(chord.key));
    let whole = hotkey_text(chord);
    lemma_key_texts(chord.key);
    lemma_modifier_names(chord.mods[0]);
    assert forall|i: int| 0 <= i < parts.len() implies !(#[trigger] parts[i]).contains('+') by {
        if i < names.len() {
            lemma_modifier_names(chord.mods[i]);
        }
    }
    text::join_then_split(parts, '+');
    // The text begins with a modifier and ends with the key, so it has no white
    // space around it.
    text::lemma_joined_first(parts, "+"@);
    assert(parts[0] == modifier_name(chord.mods[0]));
    assert(whole.subrange(0, parts[0].len() as int)[0] == whole[0]);
    assert(whole[0] == parts[0][0]);
    assert(whole == text::joined(parts.drop_last(), "+"@) + "+"@ + parts.last());
    assert(whole.last() == key_text(chord.key).last());
    assert(text::trimmed(whole) == whole);
    lemma_read_names(chord.mods, whole);
    assert(parts.drop_last() =~= names);
    assert(text::trimmed(key_text(chord.key)) == key_text(chord.key));
}

/// Putting modifiers in order neither adds one nor drops one.
proof fn lemma_in_order_keeps(mods: Seq<HotkeyMod>, m: HotkeyMod)
    ensures
        in_order(mods).contains(m) == mods.contains(m),
{
    let sorted = in_order(mods);
    let c = only(mods, HotkeyMod::Control);
    let a = only(mods, HotkeyMod::Alt);
    let s = only(mods, HotkeyMod::Shift);
    let e = only(mods, HotkeyMod::Meta);
    if mods.contains(m) {
        let at: nat = match m {
            HotkeyMod::Control => 0,
            HotkeyMod::Alt => c.len(),
            HotkeyMod::Shift => c.len() + a.len(),
            HotkeyMod::Meta => c.len() + a.len() + s.len(),
        };
        assert(sorted[at as int] == m);
    }
    if sorted.contains(m) {
        let k = choose|k: int| 0 <= k < sorted.len() && sorted[k] == m;
        if k < c.len() {
            assert(sorted[k] == c[k]);
        } else if k < c.len() + a.len() {
            assert(sorted[k] == a[k - c.len()]);
        } else if k < c.len() + a.len() + s.len() {
            assert(sorted[k] == s[k - c.len() - a.len()]);
        } else {
            assert(sorted[k] == e[k - c.len() - a.len() - s.len()]);
        }
    }
}

/// Modifiers in order do not repeat.
proof fn lemma_in_order_is_distinct(mods: Seq<HotkeyMod>)
    ensures
        in_order(mods).no_duplicates(),
{
    let c = only(mods, HotkeyMod::Control);
    let a = only(mods, HotkeyMod::Alt);
    let s = only(mods, HotkeyMod::Shift);
    let e = only(mods, HotkeyMod::Meta);
    assert((c + a).no_duplicates());
    assert forall|m: HotkeyMod| (c + a).contains(m) implies m == HotkeyMod::Control || m
        == HotkeyMod::Alt by {}
    assert((c + a + s).no_duplicates());
    assert forall|m: HotkeyMod| (c + a + s).contains(m) implies m != HotkeyMod::Meta by {}
    assert((c + a + s + e).no_duplicates());
}

/// Modifiers in their fixed order stay as they are.
pub proof fn in_order_is_stable(mods: Seq<HotkeyMod>)
    ensures
        in_order(in_order(mods)) == in_order(mods),
        in_order(mods).no_duplicates(),
        forall|m: HotkeyMod| in_order(mods).contains(m) == mods.contains(m),
{
    assert forall|m: HotkeyMod| in_order(mods).contains(m) == mods.contains(m) by {
        lemma_in_order_keeps(mods, m);
    }
    lemma_in_order_is_distinct(mods);
    order_does_not_matter(in_order(mods), mods);
}

/// A shortcut that was read survives being written out and read again.
pub proof fn read_hotkeys_round_trip(s: Seq<char>)
    ensures
        written_hotkey(s) matches Ok(chord) ==> written_hotkey(hotkey_text(chord)) == Ok::<
            Chord,
            Seq<char>,
        >(chord),
{
    if let Ok(chord) = written_hotkey(s) {
        let whole = text::trimmed(s);
        let reading = read_parts(text::split_on(whole, '+'), whole)->Ok_0;
        in_order_is_stable(reading.mods);
        assert(reading.mods.contains(reading.mods[0]));
        assert(chord.mods.contains(reading.mods[0]));
        canonical_form_round_trips(chord);
    }
}

// ---------------------------------------------- spellings of one shortcut

/// The parts of a shortcut as they are looked up: without the white space around
/// them, in lower case.
pub open spec fn part_names(s: Seq<char>) -> Seq<Seq<char>> {
    let parts = text::pieces(s, '+');
    Seq::new(parts.len(), |i: int| text::lowered(parts[i]))
}

/// Whether a name is one of a modifier or of a key.
spec fn known(name: Seq<char>) -> bool {
    name.len() > 0 && (modifier_named(name) is Some || key_named(name) is Some)
}

/// Whether two names may not stand in one shortcut: they are the same modifier,
/// or both are keys.
spec fn clash(a: Seq<char>, b: Seq<char>) -> bool {
    modifier_named(a) == modifier_named(b)
}

/// Whether names make up the parts of a shortcut, complete or not.
spec fn fit(names: Seq<Seq<char>>) -> bool {
    &&& forall|i: int| 0 <= i < names.len() ==> known(#[trigger] names[i])
    &&& forall|i: int, j: int|
        0 <= i < j < names.len() ==> !clash(#[trigger] names[i], #[trigger] names[j])
}

/// Whether a name in the list is that of modifier `m`.
spec fn holds_modifier(names: Seq<Seq<char>>, m: HotkeyMod) -> bool {
    exists|i: int| 0 <= i < names.len() && modifier_named(#[trigger] names[i]) == Some(m)
}

/// Whether a name in the list is that of key `key`.
spec fn holds_key(names: Seq<Seq<char>>, key: HotkeyKey) -> bool {
    exists|i: int|
        0 <= i < names.len() && modifier_named(#[trigger] names[i]) is None && key_named(names[i])
            == Some(key)
}

/// What reading says, over the names of the parts alone.
proof fn lemma_reading(parts: Seq<Seq<char>>, names: Seq<Seq<char>>, whole: Seq<char>)
    requires
        names.len() == parts.len(),
        forall|i: int|
            0 <= i < parts.len() ==> #[trigger] names[i] == text::lowered(text::trimmed(parts[i])),
    ensures
        read_parts(parts, whole) is Ok <==> fit(names),
        read_parts(parts, whole) matches Ok(reading) ==> {
            &&& forall|m: HotkeyMod| reading.mods.contains(m) <==> holds_modifier(names, m)
            &&& forall|key: HotkeyKey| reading.key == Some(key) <==> holds_key(names, key)
        },
    decreases parts.len(),
{
    if parts.len() > 0 {
        let short = names.drop_last();
        let last = names.last();
        lemma_reading(parts.drop_last(), short, whole);
        assert(last.len() == text::trimmed(parts.last()).len());
        assert forall|i: int| 0 <= i < short.len() implies names[i] == short[i] by {}
        if let Ok(before) = read_parts(parts.drop_last(), whole) {
            assert forall|m: HotkeyMod| #[trigger] holds_modifier(names, m) <==> holds_modifier(short, m)
                || modifier_named(last) == Some(m) by {
                if holds_modifier(short, m) {
                    let i = choose|i: int|
                        0 <= i < short.len() && modifier_named(#[trigger] short[i]) == Some(m);
                    assert(names[i] == short[i]);
                }
            }
            assert forall|key: HotkeyKey| #[trigger] holds_key(names, key) <==> holds_key(short, key)
                || (modifier_named(last) is None && key_named(last) == Some(key)) by {
                if holds_key(short, key) {
                    let i = choose|i: int|
                        0 <= i < short.len() && modifier_named(#[trigger] short[i]) is None && key_named(
                            short[i],
                        ) == Some(key);
                    assert(names[i] == short[i]);
                }
            }
            // The last part adds no clash exactly where it is read.
            match modifier_named(last) {
                Some(m) => {
                    if before.mods.contains(m) {
                        assert(holds_modifier(short, m));
                        let i = choose|i: int|
                            0 <= i < short.len() && modifier_named(#[trigger] short[i]) == Some(m);
                        assert(clash(names[i], names[short.len() as int]));
                    } else {
                        assert forall|i: int, j: int| 0 <= i < j < names.len() implies !clash(
                            #[trigger] names[i],
                            #[trigger] names[j],
                        ) by {
                            if j == short.len() {
                                assert(short[i] == names[i]);
                                assert(!holds_modifier(short, m));
                            } else {
                                assert(!clash(short[i], short[j]));
                            }
                        }
                        let mods = before.mods.push(m);
                        assert forall|n: HotkeyMod| mods.contains(n) <==> before.mods.contains(n) || n == m by {
                            assert(mods[before.mods.len() as int] == m);
                            if before.mods.contains(n) {
                                let k = choose|k: int|
                                    0 <= k < before.mods.len() && before.mods[k] == n;
                                assert(mods[k] == n);
                            }
                        }
                    }
                },
                None => {
                    if let Some(key) = before.key {
                        assert(holds_key(short, key));
                        let i = choose|i: int|
                            0 <= i < short.len() && modifier_named(#[trigger] short[i]) is None && key_named(
                                short[i],
                            ) == Some(key);
                        assert(clash(names[i], names[short.len() as int]));
                    } else {
                        assert forall|i: int, j: int| 0 <= i < j < names.len() implies !clash(
                            #[trigger] names[i],
                            #[trigger] names[j],
                        ) by {
                            if j == short.len() {
                                assert(short[i] == names[i]);
                                if modifier_named(names[i]) is None {
                                    assert(known(short[i]));
                                    assert(holds_key(short, key_named(short[i])->0));
                                }
                            } else {
                                assert(!clash(short[i], short[j]));
                            }
                        }
                    }
                },
            }
        } else {
            assert(fit(names) ==> fit(short)) by {
                if fit(names) {
                    assert forall|i: int| 0 <= i < short.len() implies known(#[trigger] short[i]) by {
                        assert(short[i] == names[i]);
                    }
                    assert forall|i: int, j: int| 0 <= i < j < short.len() implies !clash(
                        #[trigger] short[i],
                        #[trigger] short[j],
                    ) by {
                        assert(!clash(names[i], names[j]));
                    }
                }
            }
        }
    }
}

/// Names that fit still do in another order.
proof fn lemma_fit_in_any_order(a: Seq<Seq<char>>, b: Seq<Seq<char>>)
    requires
        a.to_multiset() == b.to_multiset(),
        fit(a),
    ensures
        fit(b),
        forall|m: HotkeyMod| holds_modifier(a, m) ==> holds_modifier(b, m),
        forall|key: HotkeyKey| holds_key(a, key) ==> holds_key(b, key),
{
    a.to_multiset_ensures();
    b.to_multiset_ensures();
    assert(a.no_duplicates());
    a.lemma_multiset_has_no_duplicates();
    b.lemma_multiset_has_no_duplicates_conv();
    assert forall|x: Seq<char>| a.contains(x) == b.contains(x) by {
        assert(a.contains(x) <==> a.to_multiset().count(x) > 0);
        assert(b.contains(x) <==> b.to_multiset().count(x) > 0);
    }
    assert forall|i: int| 0 <= i < b.len() implies known(#[trigger] b[i]) by {
        assert(b.contains(b[i]));
        assert(a.contains(b[i]));
    }
    assert forall|i: int, j: int| 0 <= i < j < b.len() implies !clash(
        #[trigger] b[i],
        #[trigger] b[j],
    ) by {
        assert(b.contains(b[i]) && b.contains(b[j]));
        let p = choose|p: int| 0 <= p < a.len() && a[p] == b[i];
        let q = choose|q: int| 0 <= q < a.len() && a[q] == b[j];
        assert(b[i] != b[j]);
        if p < q {
            assert(!clash(a[p], a[q]));
        } else {
            assert(!clash(a[q], a[p]));
        }
    }
    assert forall|m: HotkeyMod| holds_modifier(a, m) implies holds_modifier(b, m) by {
        let i = choose|i: int| 0 <= i < a.len() && modifier_named(#[trigger] a[i]) == Some(m);
        assert(b.contains(a[i]));
    }
    assert forall|key: HotkeyKey| holds_key(a, key) implies holds_key(b, key) by {
        let i = choose|i: int|
            0 <= i < a.len() && modifier_named(#[trigger] a[i]) is None && key_named(a[i]) == Some(key);
        assert(b.contains(a[i]));
    }
}

/// Reading the text of a shortcut is reading the parts of the untrimmed text.
proof fn lemma_reading_of(s: Seq<char>)
    ensures
        ({
            let whole = text::trimmed(s);
            let parts = text::split_on(whole, '+');
            let names = part_names(s);
            &&& names.len() == parts.len()
            &&& forall|i: int|
                0 <= i < parts.len() ==> #[trigger] names[i] == text::lowered(text::trimmed(parts[i]))
        }),
{
    text::lemma_pieces_of_trimmed(s, '+');
    let whole = text::trimmed(s);
    assert(text::pieces(whole, '+') == text::pieces(s, '+'));
}

proof fn lemma_same_names(s: Seq<char>, t: Seq<char>)
    requires
        part_names(s).to_multiset() == part_names(t).to_multiset(),
        written_hotkey(s) is Ok,
    ensures
        written_hotkey(t) == written_hotkey(s),
{
    let a = part_names(s);
    let b = part_names(t);
    let from = text::trimmed(s);
    let to = text::trimmed(t);
    lemma_reading_of(s);
    lemma_reading_of(t);
    lemma_reading(text::split_on(from, '+'), a, from);
    lemma_reading(text::split_on(to, '+'), b, to);
    lemma_fit_in_any_order(a, b);
    lemma_fit_in_any_order(b, a);
    let x = read_parts(text::split_on(from, '+'), from)->Ok_0;
    let y = read_parts(text::split_on(to, '+'), to)->Ok_0;
    assert forall|m: HotkeyMod| x.mods.contains(m) == y.mods.contains(m) by {
        assert(holds_modifier(a, m) == holds_modifier(b, m));
    }
    order_does_not_matter(x.mods, y.mods);
    let key = x.key->0;
    assert(holds_key(a, key));
    assert(y.key == Some(key));
    assert(x.mods.contains(x.mods[0]));
    assert(y.mods.contains(x.mods[0]));
    if to.len() == 0 {
        assert(text::split_on(to, '+') == seq![to]);
        assert(b.len() == 1);
        assert(holds_key(b, key) && holds_modifier(b, x.mods[0]));
    }
}

/// What a shortcut stands for depends on its parts alone, not on where each of
/// them is written, nor on the white space around them, nor on their case.
pub proof fn spelling_does_not_matter(s: Seq<char>, t: Seq<char>)
    requires
        part_names(s).to_multiset() == part_names(t).to_multiset(),
    ensures
        written_hotkey(s) is Ok <==> written_hotkey(t) is Ok,
        written_hotkey(s) is Ok ==> written_hotkey(s) == written_hotkey(t),
{
    if written_hotkey(s) is Ok {
        lemma_same_names(s, t);
    }
    if written_hotkey(t) is Ok {
        lemma_same_names(t, s);
    }
}

/// The parts of a shortcut may appear in any position, the key among them.
pub proof fn position_does_not_matter(s: Seq<char>, t: Seq<char>)
    requires
        text::split_on(s, '+').to_multiset() == text::split_on(t, '+').to_multiset(),
    ensures
        written_hotkey(s) is Ok <==> written_hotkey(t) is Ok,
        written_hotkey(s) is Ok ==> written_hotkey(s) == written_hotkey(t),
{
    let a = text::split_on(s, '+');
    let b = text::split_on(t, '+');
    let name = |part: Seq<char>| text::lowered(text::trimmed(part));
    lemma_multiset_mapped(a, b, name);
    assert(a.map_values(name) =~= part_names(s));
    assert(b.map_values(name) =~= part_names(t));
    spelling_does_not_matter(s, t);
}

/// Lists that are alike but for their order stay so when each of their items is
/// mapped.
proof fn lemma_multiset_mapped(a: Seq<Seq<char>>, b: Seq<Seq<char>>, f: spec_fn(Seq<char>) -> Seq<char>)
    requires
        a.to_multiset() == b.to_multiset(),
    ensures
        a.map_values(f).to_multiset() == b.map_values(f).to_multiset(),
    decreases a.len(),
{
    a.to_multiset_ensures();
    b.to_multiset_ensures();
    if a.len() == 0 {
        assert(a.map_values(f) =~= b.map_values(f));
    } else {
        let x = a.last();
        assert(a.contains(x));
        assert(a.to_multiset().count(x) > 0);
        assert(b.contains(x));
        let k = choose|k: int| 0 <= k < b.len() && b[k] == x;
        let short = a.drop_last();
        assert(a.remove(a.len() - 1) =~= short);
        lemma_multiset_mapped(short, b.remove(k), f);
        a.map_values(f).to_multiset_ensures();
        b.map_values(f).to_multiset_ensures();
        assert(a.map_values(f).remove(a.len() - 1) =~= short.map_values(f));
        assert(b.map_values(f).remove(k) =~= b.remove(k).map_values(f));
        let m = a.map_values(f).to_multiset();
        let n = b.map_values(f).to_multiset();
        assert(a.map_values(f)[a.len() - 1] == f(x));
        assert(b.map_values(f)[k] == f(x));
        assert(m.remove(f(x)) == n.remove(f(x)));
        assert(a.map_values(f).contains(f(x)));
        assert(b.map_values(f).contains(f(x)));
        assert(m.count(f(x)) > 0 && n.count(f(x)) > 0);
        assert(m.remove(f(x)).insert(f(x)) =~= m);
        assert(n.remove(f(x)).insert(f(x)) =~= n);
    }
}

/// The case of letters in a shortcut does not matter.
pub proof fn case_does_not_matter(s: Seq<char>, t: Seq<char>)
    requires
        text::lowered(s) == text::lowered(t),
    ensures
        written_hotkey(s) is Ok <==> written_hotkey(t) is Ok,
        written_hotkey(s) is Ok ==> written_hotkey(s) == written_hotkey(t),
{
    lemma_names_of_lowered(s);
    lemma_names_of_lowered(t);
    spelling_does_not_matter(s, t);
}

proof fn lemma_names_of_lowered(s: Seq<char>)
    ensures
        part_names(text::lowered(s)) == part_names(s),
{
    let low = text::lowered(s);
    text::lemma_lowered_pieces(s, '+');
    assert forall|i: int| 0 <= i < text::split_on(s, '+').len() implies part_names(low)[i]
        == part_names(s)[i] by {
        let part = text::split_on(s, '+')[i];
        text::lemma_lowered_trimmed(part);
        assert(text::split_on(low, '+')[i] == text::lowered(part));
        let token = text::trimmed(part);
        assert(text::lowered(text::lowered(token)) =~= text::lowered(token));
    }
    assert(part_names(low) =~= part_names(s));
}

/// White space around a shortcut and around its parts does not matter.
pub proof fn white_space_does_not_matter(s: Seq<char>, t: Seq<char>)
    requires
        text::pieces(s, '+') == text::pieces(t, '+'),
    ensures
        written_hotkey(s) is Ok <==> written_hotkey(t) is Ok,
        written_hotkey(s) is Ok ==> written_hotkey(s) == written_hotkey(t),
{
    spelling_does_not_matter(s, t);
}

/// Each letter and each digit stands for its own key, and no other character for any.
pub proof fn characters_have_their_keys(c: char)
    ensures
        key_of_char(c) == Some(HotkeyKey::A) <==> c == 'a',
        key_of_char(c) == Some(HotkeyKey::B) <==> c == 'b',
        key_of_char(c) == Some(HotkeyKey::C) <==> c == 'c',
        key_of_char(c) == Some(HotkeyKey::D) <==> c == 'd',
        key_of_char(c) == Some(HotkeyKey::E) <==> c == 'e',
        key_of_char(c) == Some(HotkeyKey::F) <==> c == 'f',
        key_of_char(c) == Some(HotkeyKey::G) <==> c == 'g',
        key_of_char(c) == Some(HotkeyKey::H) <==> c == 'h',
        key_of_char(c) == Some(HotkeyKey::I) <==> c == 'i',
        key_of_char(c) == Some(HotkeyKey::J) <==> c == 'j',
        key_of_char(c) == Some(HotkeyKey::K) <==> c == 'k',
        key_of_char(c) == Some(HotkeyKey::L) <==> c == 'l',
        key_of_char(c) == Some(HotkeyKey::M) <==> c == 'm',
        key_of_char(c) == Some(HotkeyKey::N) <==> c == 'n',
        key_of_char(c) == Some(HotkeyKey::O) <==> c == 'o',
        key_of_char(c) == Some(HotkeyKey::P) <==> c == 'p',
        key_of_char(c) == Some(HotkeyKey::Q) <==> c == 'q',
        key_of_char(c) == Some(HotkeyKey::R) <==> c == 'r',
        key_of_char(c) == Some(HotkeyKey::S) <==> c == 's',
        key_of_char(c) == Some(HotkeyKey::T) <==> c == 't',
        key_of_char(c) == Some(HotkeyKey::U) <==> c == 'u',
        key_of_char(c) == Some(HotkeyKey::V) <==> c == 'v',
        key_of_char(c) == Some(HotkeyKey::W) <==> c == 'w',
        key_of_char(c) == Some(HotkeyKey::X) <==> c == 'x',
        key_of_char(c) == Some(HotkeyKey::Y) <==> c == 'y',
        key_of_char(c) == Some(HotkeyKey::Z) <==> c == 'z',
        key_of_char(c) == Some(HotkeyKey::Digit0) <==> c == '0',
        key_of_char(c) == Some(HotkeyKey::Digit1) <==> c == '1',
        key_of_char(c) == Some(HotkeyKey::Digit2) <==> c == '2',
        key_of_char(c) == Some(HotkeyKey::Digit3) <==> c == '3',
        key_of_char(c) == Some(HotkeyKey::Digit4) <==> c == '4',
        key_of_char(c) == Some(HotkeyKey::Digit5) <==> c == '5',
        key_of_char(c) == Some(HotkeyKey::Digit6) <==> c == '6',
        key_of_char(c) == Some(HotkeyKey::Digit7) <==> c == '7',
        key_of_char(c) == Some(HotkeyKey::Digit8) <==> c == '8',
        key_of_char(c) == Some(HotkeyKey::Digit9) <==> c == '9',
        key_of_char(c) is Some ==> 'a' <= c <= 'z' || '0' <= c <= '9',
{
}

/// Each letter key and each digit key is written as its own character, a letter as a
/// capital; the sixteen other keys are written as words.
pub proof fn keys_have_their_characters(key: HotkeyKey)
    ensures
        char_of_key(key) == Some('A') <==> key is A,
        char_of_key(key) == Some('B') <==> key is B,
        char_of_key(key) == Some('C') <==> key is C,
        char_of_key(key) == Some('D') <==> key is D,
        char_of_key(key) == Some('E') <==> key is E,
        char_of_key(key) == Some('F') <==> key is F,
        char_of_key(key) == Some('G') <==> key is G,
        char_of_key(key) == Some('H') <==> key is H,
        char_of_key(key) == Some('I') <==> key is I,
        char_of_key(key) == Some('J') <==> key is J,
        char_of_key(key) == Some('K') <==> key is K,
        char_of_key(key) == Some('L') <==> key is L,
        char_of_key(key) == Some('M') <==> key is M,
        char_of_key(key) == Some('N') <==> key is N,
        char_of_key(key) == Some('O') <==> key is O,
        char_of_key(key) == Some('P') <==> key is P,
        char_of_key(key) == Some('Q') <==> key is Q,
        char_of_key(key) == Some('R') <==> key is R,
        char_of_key(key) == Some('S') <==> key is S,
        char_of_key(key) == Some('T') <==> key is T,
        char_of_key(key) == Some('U') <==> key is U,
        char_of_key(key) == Some('V') <==> key is V,
        char_of_key(key) == Some('W') <==> key is W,
        char_of_key(key) == Some('X') <==> key is X,
        char_of_key(key) == Some('Y') <==> key is Y,
        char_of_key(key) == Some('Z') <==> key is Z,
        char_of_key(key) == Some('0') <==> key is Digit0,
        char_of_key(key) == Some('1') <==> key is Digit1,
        char_of_key(key) == Some('2') <==> key is Digit2,
        char_of_key(key) == Some('3') <==> key is Digit3,
        char_of_key(key) == Some('4') <==> key is Digit4,
        char_of_key(key) == Some('5') <==> key is Digit5,
        char_of_key(key) == Some('6') <==> key is Digit6,
        char_of_key(key) == Some('7') <==> key is Digit7,
        char_of_key(key) == Some('8') <==> key is Digit8,
        char_of_key(key) == Some('9') <==> key is Digit9,
        key is Space ==> word_of_key(key) == "Space"@,
        key is Enter ==> word_of_key(key) == "Enter"@,
        key is Escape ==> word_of_key(key) == "Escape"@,
        key is Tab ==> word_of_key(key) == "Tab"@,
        key is F1 ==> word_of_key(key) == "F1"@,
        key is F2 ==> word_of_key(key) == "F2"@,
        key is F3 ==> word_of_key(key) == "F3"@,
        key is F4 ==> word_of_key(key) == "F4"@,
        key is F5 ==> word_of_key(key) == "F5"@,
        key is F6 ==> word_of_key(key) == "F6"@,
        key is F7 ==> word_of_key(key) == "F7"@,
        key is F8 ==> word_of_key(key) == "F8"@,
        key is F9 ==> word_of_key(key) == "F9"@,
        key is F10 ==> word_of_key(key) == "F10"@,
        key is F11 ==> word_of_key(key) == "F11"@,
        key is F12 ==> word_of_key(key) == "F12"@,
{
}

/// Which words stand for a key: those of the four named keys and of the twelve function
/// keys, and a second word for two of them.
pub proof fn words_have_their_keys(word: Seq<char>)
    ensures
        key_of_word(word) == Some(HotkeyKey::Space) <==> word == "space"@,
        key_of_word(word) == Some(HotkeyKey::Enter) <==> word == "enter"@ || word == "return"@,
        key_of_word(word) == Some(HotkeyKey::Escape) <==> word == "escape"@ || word == "esc"@,
        key_of_word(word) == Some(HotkeyKey::Tab) <==> word == "tab"@,
        key_of_word(word) == Some(HotkeyKey::F1) <==> word == "f1"@,
        key_of_word(word) == Some(HotkeyKey::F2) <==> word == "f2"@,
        key_of_word(word) == Some(HotkeyKey::F3) <==> word == "f3"@,
        key_of_word(word) == Some(HotkeyKey::F4) <==> word == "f4"@,
        key_of_word(word) == Some(HotkeyKey::F5) <==> word == "f5"@,
        key_of_word(word) == Some(HotkeyKey::F6) <==> word == "f6"@,
        key_of_word(word) == Some(HotkeyKey::F7) <==> word == "f7"@,
        key_of_word(word) == Some(HotkeyKey::F8) <==> word == "f8"@,
        key_of_word(word) == Some(HotkeyKey::F9) <==> word == "f9"@,
        key_of_word(word) == Some(HotkeyKey::F10) <==> word == "f10"@,
        key_of_word(word) == Some(HotkeyKey::F11) <==> word == "f11"@,
        key_of_word(word) == Some(HotkeyKey::F12) <==> word == "f12"@,
{
    lemma_spell_words();
}

/// Which words stand for a modifier. The platform key has five, Alt three and Control two;
/// no other word stands for any.
pub proof fn modifiers_have_their_words(name: Seq<char>)
    ensures
        modifier_named(name) == Some(HotkeyMod::Meta) <==> name == "meta"@ || name == "cmd"@ || name
            == "command"@ || name == "super"@ || name == "win"@,
        modifier_named(name) == Some(HotkeyMod::Shift) <==> name == "shift"@,
        modifier_named(name) == Some(HotkeyMod::Alt) <==> name == "alt"@ || name == "option"@ || name
            == "opt"@,
        modifier_named(name) == Some(HotkeyMod::Control) <==> name == "control"@ || name == "ctrl"@,
{
    lemma_spell_modifiers();
}

/// A token of one character stands for the key of that character, and a longer one for the
/// key of that word.
pub proof fn tokens_are_characters_or_words(token: Seq<char>)
    ensures
        token.len() == 1 ==> key_named(token) == key_of_char(token[0]),
        token.len() != 1 ==> key_named(token) == key_of_word(token),
{
}

/// The modifiers of a shortcut that was read come in a fixed order, whatever order they
/// were written in: Control, then Alt, then Shift, then the platform key.
pub proof fn modifiers_come_in_a_fixed_order(mods: Seq<HotkeyMod>, i: int, j: int)
    requires
        0 <= i < j < in_order(mods).len(),
    ensures
        in_order(mods)[i] is Control ==> !(in_order(mods)[j] is Control),
        in_order(mods)[i] is Alt ==> in_order(mods)[j] is Shift || in_order(mods)[j] is Meta,
        in_order(mods)[i] is Shift ==> in_order(mods)[j] is Meta,
        !(in_order(mods)[i] is Meta),
{
}

/// Which texts are shortcuts: those whose parts, taken without the white space around them
/// and in small letters, each name a modifier or a key, no modifier twice, one key, and at
/// least one modifier. What is read is that key with those modifiers.
pub proof fn shortcuts_are_one_key_and_modifiers(s: &str, spec: Result<HotkeySpec, String>)
    requires
        call_ensures(HotkeySpec::parse, (s,), spec),
    ensures
        ({
            let names = part_names(s@);
            let ok = {
                &&& forall|i: int|
                    0 <= i < names.len() ==> (#[trigger] names[i]).len() > 0 && (modifier_named(
                        names[i],
                    ) is Some || key_named(names[i]) is Some)
                &&& forall|i: int, j: int|
                    0 <= i < j < names.len() ==> modifier_named(#[trigger] names[i])
                        != modifier_named(#[trigger] names[j])
                &&& exists|i: int| 0 <= i < names.len() && modifier_named(#[trigger] names[i]) is Some
                &&& exists|i: int| 0 <= i < names.len() && modifier_named(#[trigger] names[i]) is None
            };
            &&& spec is Ok <==> ok
            &&& spec matches Ok(chord) ==> {
                &&& forall|m: HotkeyMod| #[trigger]
                    chord.mods@.contains(m) <==> exists|i: int|
                        0 <= i < names.len() && modifier_named(#[trigger] names[i]) == Some(m)
                &&& exists|i: int|
                    0 <= i < names.len() && modifier_named(#[trigger] names[i]) is None && key_named(
                        names[i],
                    ) == Some(chord.key)
                &&& chord.mods@ == in_order(chord.mods@)
            }
        }),
{
    let names = part_names(s@);
    let whole = text::trimmed(s@);
    let parts = text::split_on(whole, '+');
    lemma_reading_of(s@);
    lemma_reading(parts, names, whole);
    if whole.len() == 0 {
        assert(whole =~= Seq::<char>::empty());
        assert(parts == seq![whole]);
        assert(names[0] == text::lowered(text::trimmed(parts[0])));
        assert(text::trimmed(whole).len() == 0);
        assert(names[0].len() == 0);
    } else if let Ok(reading) = read_parts(parts, whole) {
        in_order_is_stable(reading.mods);
        if reading.mods.len() > 0 {
            assert(reading.mods.contains(reading.mods[0]));
            assert(holds_modifier(names, reading.mods[0]));
        }
        assert forall|i: int| 0 <= i < names.len() && modifier_named(#[trigger] names[i]) is Some implies reading.mods.len()
            > 0 by {
            let m = modifier_named(names[i])->Some_0;
            assert(holds_modifier(names, m));
            assert(reading.mods.contains(m));
        }
        if let Some(key) = reading.key {
            assert(holds_key(names, key));
        }
        assert forall|i: int| 0 <= i < names.len() && modifier_named(#[trigger] names[i]) is None implies reading.key is Some by {
            assert(known(names[i]));
            let key = key_named(names[i])->Some_0;
            assert(holds_key(names, key));
        }
        if let Ok(chord) = spec {
            assert(chord.mods@ == in_order(reading.mods));
            assert forall|m: HotkeyMod| #[trigger] chord.mods@.contains(m) implies exists|i: int|
                0 <= i < names.len() && modifier_named(#[trigger] names[i]) == Some(m) by {
                assert(holds_modifier(names, m));
            }
            assert forall|m: HotkeyMod| (exists|i: int|
                0 <= i < names.len() && modifier_named(#[trigger] names[i]) == Some(m)) implies #[trigger] chord.mods@.contains(
            m) by {
                assert(holds_modifier(names, m));
            }
        }
    }
}

/// What is wrong with a text that is no shortcut, as far as its parts go, up to the first
/// that is wrong: that part is empty, or names a modifier a second time, or a second key,
/// or nothing at all; and the reason says which.
pub proof fn the_first_wrong_part_decides(s: &str, i: int, spec: Result<HotkeySpec, String>)
    requires
        call_ensures(HotkeySpec::parse, (s,), spec),
        text::trimmed(s@).len() > 0,
        0 <= i < text::split_on(text::trimmed(s@), '+').len(),
        read_parts(text::split_on(text::trimmed(s@), '+').take(i), text::trimmed(s@)) is Ok,
    ensures
        ({
            let shown = text::debug_text(text::trimmed(s@));
            let names = part_names(s@);
            let again = exists|k: int|
                0 <= k < i && modifier_named(#[trigger] names[k]) == modifier_named(names[i]);
            let m = modifier_named(names[i]);
            &&& names[i].len() == 0 ==> (spec matches Err(err) && err@ == "empty component in "@
                + shown)
            &&& m matches Some(m) ==> (again ==> (spec matches Err(err) && err@
                == "duplicate modifier "@ + modifier_title(m) + " in "@ + shown))
            &&& names[i].len() > 0 && m is None && again ==> (spec matches Err(err) && err@
                == "more than one key in "@ + shown)
            &&& names[i].len() > 0 && m is None && !again && key_named(names[i]) is None ==> (
            spec matches Err(err) && err@ == "unknown key "@ + text::debug_text(names[i]))
        }),
{
    let whole = text::trimmed(s@);
    let parts = text::split_on(whole, '+');
    let names = part_names(s@);
    lemma_reading_of(s@);
    let front = parts.take(i);
    let short = names.take(i);
    assert forall|k: int| 0 <= k < front.len() implies #[trigger] short[k] == text::lowered(
        text::trimmed(front[k]),
    ) by {
        assert(names[k] == text::lowered(text::trimmed(parts[k])));
    }
    lemma_reading(front, short, whole);
    let before = read_parts(front, whole)->Ok_0;
    assert(names[i] == text::lowered(text::trimmed(parts[i])));
    let again = exists|k: int|
        0 <= k < i && modifier_named(#[trigger] names[k]) == modifier_named(names[i]);
    match modifier_named(names[i]) {
        Some(m) => {
            assert(again <==> before.mods.contains(m)) by {
                assert(before.mods.contains(m) <==> holds_modifier(short, m));
                if again {
                    let k = choose|k: int|
                        0 <= k < i && modifier_named(#[trigger] names[k]) == modifier_named(
                            names[i],
                        );
                    assert(modifier_named(short[k]) == Some(m));
                }
                if holds_modifier(short, m) {
                    let k = choose|k: int|
                        0 <= k < short.len() && modifier_named(#[trigger] short[k]) == Some(m);
                    assert(modifier_named(names[k]) == Some(m));
                }
            }
        },
        None => {
            assert(again <==> before.key is Some) by {
                if again {
                    let k = choose|k: int|
                        0 <= k < i && modifier_named(#[trigger] names[k]) == modifier_named(
                            names[i],
                        );
                    assert(known(short[k]));
                    assert(modifier_named(short[k]) is None);
                    let key = key_named(short[k])->Some_0;
                    assert(holds_key(short, key));
                }
                if let Some(key) = before.key {
                    assert(holds_key(short, key));
                    let k = choose|k: int|
                        0 <= k < short.len() && modifier_named(#[trigger] short[k]) is None
                            && key_named(short[k]) == Some(key);
                    assert(modifier_named(names[k]) is None);
                }
            }
        },
    }
    lemma_spell_modifiers();
    let part = read_part(before, parts[i], whole);
    if let Err(err) = part {
        assert(parts.take(i + 1).drop_last() =~= front);
        assert(parts.take(i + 1).last() == parts[i]);
        assert(read_parts(parts.take(i + 1), whole) == Err::<Reading, Seq<char>>(err));
        lemma_bad_part(parts, whole, i, err);
    }
}

/// A text of parts that fit, but without a key or without a modifier, is refused for that;
/// so is a blank one.
pub proof fn incomplete_shortcuts_are_refused(s: &str, spec: Result<HotkeySpec, String>)
    requires
        call_ensures(HotkeySpec::parse, (s,), spec),
    ensures
        ({
            let whole = text::trimmed(s@);
            let shown = text::debug_text(whole);
            &&& whole.len() == 0 ==> (spec matches Err(err) && err@ == "shortcut is empty"@)
            &&& whole.len() > 0 ==> (read_parts(text::split_on(whole, '+'), whole) matches Ok(r) ==> {
                &&& r.key is None ==> (spec matches Err(err) && err@ == "no key in "@ + shown)
                &&& r.key is Some && r.mods.len() == 0 ==> (spec matches Err(err) && err@ == shown
                    + " has no modifier; a global shortcut needs at least one"@)
            })
        }),
{
}

/// A shortcut is written as the names of its modifiers, in their order, and its key, with
/// plus signs between them.
pub proof fn shortcuts_are_written_with_plus_signs(spec: &HotkeySpec, s: String)
    requires
        call_ensures(HotkeySpec::to_string_canonical, (spec,), s),
    ensures
        ({
            let parts = text::split_on(s@, '+');
            &&& parts.len() == spec.mods@.len() + 1
            &&& parts.last() == key_text(spec.key)
            &&& forall|i: int| #![trigger spec.mods@[i]]
                0 <= i < spec.mods@.len() ==> parts[i] == (match spec.mods@[i] {
                    HotkeyMod::Meta => "meta"@,
                    HotkeyMod::Shift => "shift"@,
                    HotkeyMod::Alt => "alt"@,
                    HotkeyMod::Control => "control"@,
                })
        }),
{
    reveal_strlit("+");
    assert("+"@ =~= seq!['+']);
    let names = names_of(spec.mods@);
    let parts = names.push(key_text(spec.key));
    lemma_key_texts(spec.key);
    assert forall|i: int| 0 <= i < parts.len() implies !(#[trigger] parts[i]).contains('+') by {
        if i < names.len() {
            lemma_modifier_names(spec.mods@[i]);
        }
    }
    text::join_then_split(parts, '+');
    assert forall|i: int| #![trigger spec.mods@[i]] 0 <= i < spec.mods@.len() implies parts[i]
        == modifier_name(spec.mods@[i]) by {
        assert(parts[i] == names[i]);
    }
}

/// The platform's shortcut has exactly the modifiers and the key of the written one: `Key`
/// before a letter, `Digit` before a digit, and the word of any other key.
pub proof fn the_platform_shortcut_is_the_same(
    spec: &HotkeySpec,
    hotkey: global_hotkey::hotkey::HotKey,
    m: HotkeyMod,
    c: char,
)
    requires
        call_ensures(HotkeySpec::to_hotkey, (spec,), hotkey),
    ensures
        hotkey_flags(hotkey).contains(m) <==> spec.mods@.contains(m),
        char_of_key(spec.key) == Some(c) && 'A' <= c <= 'Z' ==> hotkey_code(hotkey) == "Key"@.push(c),
        char_of_key(spec.key) == Some(c) && '0' <= c <= '9' ==> hotkey_code(hotkey) == "Digit"@.push(
            c,
        ),
        char_of_key(spec.key) is None ==> hotkey_code(hotkey) == word_of_key(spec.key),
{
    assert("Key"@ + seq![c] =~= "Key"@.push(c));
    assert("Digit"@ + seq![c] =~= "Digit"@.push(c));
}

/// The default shortcut is the platform key, Shift and D, and it is what stands in for a
/// text that is no shortcut; a text that is one is taken, without complaint.
pub proof fn the_default_stands_in(
    s: &str,
    read: Result<HotkeySpec, String>,
    initial: (HotkeySpec, Option<String>),
    default_spec: HotkeySpec,
)
    requires
        call_ensures(HotkeySpec::parse, (s,), read),
        call_ensures(initial_hotkey_spec, (s,), initial),
        call_ensures(HotkeySpec::default_spec, (), default_spec),
    ensures
        default_spec.mods@ == seq![HotkeyMod::Meta, HotkeyMod::Shift],
        default_spec.key is D,
        read matches Ok(spec) ==> initial.0@ == spec@ && initial.1 is None,
        read matches Err(err) ==> initial.0@ == default_spec@ && (initial.1 matches Some(reason)
            && reason@ == err@),
{
}

/// What a configured text asks for: nothing where it writes the active shortcut, in
/// whatever order, the registration of the shortcut it writes where that is another, and a
/// complaint where it writes none.
pub proof fn only_a_new_shortcut_is_registered(
    handle: &HotKeyHandle,
    s: &str,
    read: Result<HotkeySpec, String>,
    change: HotkeyChange,
)
    requires
        call_ensures(HotkeySpec::parse, (s,), read),
        call_ensures(HotKeyHandle::request, (handle, s), change),
    ensures
        change is Invalid <==> read is Err,
        change is Same <==> (read matches Ok(spec) && spec.key == handle.active().key && forall|
            m: HotkeyMod,
        | #[trigger]
            spec.mods@.contains(m) == handle.active().mods.contains(m)),
        change matches HotkeyChange::Register(spec) ==> (read matches Ok(r) && r@ == spec@),
        change matches HotkeyChange::Invalid(reason) ==> (read matches Err(err) && err@ == reason@),
{
    if let Ok(spec) = read {
        let a = spec.mods@;
        let b = handle.active().mods;
        if in_order(a) == in_order(b) {
            assert forall|m: HotkeyMod| #[trigger] a.contains(m) == b.contains(m) by {
                lemma_in_order_keeps(a, m);
                lemma_in_order_keeps(b, m);
            }
        }
        if forall|m: HotkeyMod| #[trigger] a.contains(m) == b.contains(m) {
            order_does_not_matter(a, b);
        }
    }
}

/// The active shortcut changes exactly where the new one could be registered, and the old
/// one is then handed back to be released; otherwise the old one stays, and the reason
/// names the new one.
pub proof fn the_old_shortcut_stays_until_the_new_one_works(
    handle: &mut HotKeyHandle,
    spec: HotkeySpec,
    registered: Result<(), String>,
    outcome: Result<HotkeySpec, String>,
    shown: String,
)
    requires
        call_ensures(HotKeyHandle::retarget, (handle, spec, registered), outcome),
        call_ensures(HotkeySpec::to_string_canonical, (&spec,), shown),
    ensures
        outcome is Ok <==> registered is Ok,
        registered is Ok ==> final(handle).active() == spec@,
        registered is Err ==> final(handle).active() == old(handle).active(),
        outcome matches Ok(previous) ==> previous@ == old(handle).active(),
        registered matches Err(err) ==> (outcome matches Err(reason) && reason@ == shown@
            + " is unavailable: "@ + err@),
{
}

/// An event summons the window exactly where it carries the id of the active shortcut.
pub proof fn only_its_own_id_summons(
    event_id: u32,
    active: &global_hotkey::hotkey::HotKey,
    yes: bool,
)
    requires
        call_ensures(is_summon_event, (event_id, active), yes),
    ensures
        yes <==> event_id == hotkey_number(*active),
{
}

/// A modifier is called in a message as it is written, with a capital letter in front.
pub proof fn titles_are_capital_names(m: HotkeyMod)
    ensures
        modifier_title(m).len() == modifier_name(m).len(),
        modifier_title(m).skip(1) == modifier_name(m).skip(1),
        modifier_title(m)[0] as int == modifier_name(m)[0] as int - 32,
{
    reveal_strlit("Meta");
    reveal_strlit("Shift");
    reveal_strlit("Alt");
    reveal_strlit("Control");
    lemma_spell_modifiers();
    reveal_strlit("meta");
    reveal_strlit("shift");
    reveal_strlit("alt");
    reveal_strlit("control");
    assert(modifier_title(m).skip(1) =~= modifier_name(m).skip(1));
}

} // verus!
