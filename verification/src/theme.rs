//! Theme tokens for the shell.
//!
//! The theme drives two things: the native chrome this shell owns, and the web
//! UI inside the webview, through a block of CSS custom properties that is
//! injected on every load and again on every reload.

use crate::document;
use crate::i18n;
use crate::i18n::Locale;
use crate::path;
use crate::text;
use vstd::prelude::*;

verus! {

// -------------------------------------------------------------------- colours

/// A color stored as `#rrggbb`.
///
/// Parsing is strict so a typo surfaces as a readable error at load time rather
/// than silently rendering black.
#[derive(Debug, Clone, Copy, PartialEq, Eq, Structural)]
pub struct ColorHex(pub u32);

/// Whether `c` is a hexadecimal digit of either case.
pub open spec fn is_hex(c: char) -> bool {
    '0' <= c <= '9' || 'a' <= c <= 'f' || 'A' <= c <= 'F'
}

/// The number a hexadecimal digit stands for.
pub open spec fn hex_value(c: char) -> int {
    if '0' <= c <= '9' {
        c as int - '0' as int
    } else if 'a' <= c <= 'f' {
        c as int - 'a' as int + 10
    } else {
        c as int - 'A' as int + 10
    }
}

/// Whether `s` consists of hexadecimal digits.
pub open spec fn all_hex(s: Seq<char>) -> bool {
    forall|i: int| 0 <= i < s.len() ==> is_hex(#[trigger] s[i])
}

/// The number that hexadecimal digits write.
pub open spec fn hex_number(s: Seq<char>) -> int
    decreases s.len(),
{
    if s.len() == 0 {
        0
    } else {
        16 * hex_number(s.drop_last()) + hex_value(s.last())
    }
}

/// `s` without the `#` characters that lead it.
pub open spec fn without_hashes(s: Seq<char>) -> Seq<char>
    decreases s.len(),
{
    if s.len() > 0 && s[0] == '#' {
        without_hashes(s.skip(1))
    } else {
        s
    }
}

/// How many bytes a text takes in UTF-8.
pub open spec fn byte_count(s: Seq<char>) -> nat {
    vstd::utf8::encode_utf8(s).len()
}

/// The color a text writes: six hexadecimal digits after any `#`, white space
/// around it set aside.
pub open spec fn written_color(value: Seq<char>) -> Result<u32, Seq<char>> {
    let hex = without_hashes(text::trimmed(value));
    if byte_count(hex) != 6 {
        Err("expected a 6-digit hex color like \"#1a1b26\", got "@ + text::debug_text(value))
    } else if all_hex(hex) {
        Ok(hex_number(hex) as u32)
    } else {
        Err(text::debug_text(value) + " is not valid hexadecimal"@)
    }
}

/// A number in lower-case hexadecimal.
pub open spec fn hex_text(n: nat) -> Seq<char>
    decreases n,
{
    if n < 16 {
        seq![document::hex_digit(n as int)]
    } else {
        hex_text(n / 16).push(document::hex_digit((n % 16) as int))
    }
}

/// `s` with zeros in front, to at least six characters.
pub open spec fn padded(s: Seq<char>) -> Seq<char> {
    if s.len() < 6 {
        Seq::new((6 - s.len()) as nat, |i: int| '0') + s
    } else {
        s
    }
}

/// A color written for CSS.
pub open spec fn css_text(color: ColorHex) -> Seq<char> {
    "#"@ + padded(hex_text(color.0 as nat))
}

/// How many bytes a text takes in UTF-8.
pub fn byte_len(s: &str) -> (n: usize)
    ensures
        n == byte_count(s@),
{
    s.as_bytes().len()
}

fn hex_of(n: u32) -> (s: String)
    ensures
        s@ == hex_text(n as nat),
    decreases n,
{
    let low: u8 = (n % 16) as u8;
    let c = if low < 10 {
        (48 + low) as char
    } else {
        (87 + low) as char
    };
    assert(c == document::hex_digit(low as int));
    if n < 16 {
        let mut s = String::new();
        s.push(c);
        assert(s@ =~= seq![c]);
        s
    } else {
        let mut s = hex_of(n / 16);
        s.push(c);
        s
    }
}

fn strip_hashes(s: &str) -> (rest: String)
    ensures
        rest@ == without_hashes(s@),
{
    let v = text::chars_of(s);
    let mut i: usize = 0;
    assert(v@.skip(0) == v@);
    while i < v.len() && v[i] == '#'
        invariant
            i <= v@.len(),
            without_hashes(v@) == without_hashes(v@.skip(i as int)),
        decreases v@.len() - i,
    {
        assert(v@.skip(i as int).skip(1) == v@.skip(i + 1));
        i += 1;
    }
    assert(v@.subrange(i as int, v@.len() as int) == v@.skip(i as int));
    text::slice(&v, i, v.len())
}

impl ColorHex {
    /// Read a color as it is written in the settings document.
    pub fn try_from(value: String) -> (color: Result<ColorHex, String>)
        ensures
            match color {
                Ok(color) => written_color(value@) == Ok::<u32, Seq<char>>(color.0),
                Err(err) => written_color(value@) == Err::<u32, Seq<char>>(err@),
            },
    {
        let trimmed = text::trim(value.as_str());
        let hex = strip_hashes(trimmed.as_str());
        if byte_len(hex.as_str()) != 6 {
            return Err(
                text::plus(
                    text::own("expected a 6-digit hex color like \"#1a1b26\", got "),
                    text::quoted(value.as_str()).as_str(),
                ),
            );
        }
        let v = text::chars_of(hex.as_str());
        let mut n: u32 = 0;
        let mut i: usize = 0;
        assert(v@.take(0) =~= Seq::<char>::empty());
        while i < v.len()
            invariant
                i <= v@.len(),
                v@ == hex@,
                hex@ == without_hashes(text::trimmed(value@)),
                byte_count(hex@) == 6,
                all_hex(v@.take(i as int)),
                n == hex_number(v@.take(i as int)),
                i <= 6,
                i == 0 ==> n < 1,
                i == 1 ==> n < 16,
                i == 2 ==> n < 256,
                i == 3 ==> n < 4096,
                i == 4 ==> n < 65536,
                i == 5 ==> n < 1048576,
                i == 6 ==> n < 16777216,
            decreases v@.len() - i,
        {
            let c = v[i];
            let d: u32 = if '0' <= c && c <= '9' {
                (c as u32) - 48
            } else if 'a' <= c && c <= 'f' {
                (c as u32) - 87
            } else if 'A' <= c && c <= 'F' {
                (c as u32) - 55
            } else {
                assert(!is_hex(v@[i as int]));
                return Err(
                    text::plus(text::quoted(value.as_str()), " is not valid hexadecimal"),
                );
            };
            let ghost next = v@.take(i + 1);
            assert(next.drop_last() == v@.take(i as int));
            assert(is_hex(c) && d == hex_value(c));
            assert forall|k: int| 0 <= k < next.len() implies is_hex(#[trigger] next[k]) by {
                if k < i {
                    assert(next[k] == v@.take(i as int)[k]);
                }
            }
            proof {
                lemma_hex_prefix_fits(v@, i + 1);
            }
            n = 16 * n + d;
            i += 1;
        }
        assert(v@.take(i as int) == v@);
        Ok(ColorHex(n))
    }

    /// `#rrggbb`, for embedding in CSS.
    pub fn css(&self) -> (s: String)
        ensures
            s@ == css_text(*self),
    {
        let digits = hex_of(self.0);
        let count: usize = text::chars_of(digits.as_str()).len();
        let mut zeros = String::new();
        let mut i: usize = count;
        while i < 6
            invariant
                count <= i || i == count,
                count < 6 ==> i <= 6,
                count >= 6 ==> i == count,
                zeros@ == Seq::new((i - count) as nat, |k: int| '0'),
            decreases 6 - i,
        {
            zeros.push('0');
            assert(zeros@ =~= Seq::new((i + 1 - count) as nat, |k: int| '0'));
            i += 1;
        }
        let s = text::plus(zeros, digits.as_str());
        assert(s@ =~= padded(digits@));
        text::plus(text::own("#"), s.as_str())
    }
}

/// A text of six bytes has no more than six leading hexadecimal digits.
proof fn lemma_hex_prefix_fits(s: Seq<char>, n: int)
    requires
        0 <= n <= s.len(),
        all_hex(s.take(n)),
        byte_count(s) == 6,
    ensures
        n <= 6,
{
    lemma_bytes_of_prefix(s, n);
    let front = s.take(n);
    assert forall|i: int| 0 <= i < front.len() implies '\0' <= #[trigger] front[i] <= '\u{7f}' by {
        assert(is_hex(front[i]));
    }
    vstd::utf8::is_ascii_chars_encode_utf8(front);
}

/// A prefix takes no more bytes than the whole.
proof fn lemma_bytes_of_prefix(s: Seq<char>, n: int)
    requires
        0 <= n <= s.len(),
    ensures
        byte_count(s.take(n)) <= byte_count(s),
    decreases s.len(),
{
    if n > 0 {
        lemma_bytes_of_prefix(s.drop_first(), n - 1);
        assert(s.take(n).drop_first() =~= s.drop_first().take(n - 1));
    }
}

// ------------------------------------------------------------------- palettes

/// The colors of one appearance.
#[derive(Debug, Clone, Copy, PartialEq, Eq, Structural)]
pub struct Palette {
    /// Window and page background.
    pub background: ColorHex,
    /// Raised surfaces (cards, popovers).
    pub surface: ColorHex,
    /// Hover/selected surface.
    pub surface_hover: ColorHex,
    pub border: ColorHex,
    pub text: ColorHex,
    pub text_muted: ColorHex,
    pub accent: ColorHex,
    /// Height of the draggable caption strip, in CSS pixels.
    pub caption_height: u32,
}

/// The dark palette.
pub open spec fn dark_palette() -> Palette {
    Palette {
        background: ColorHex(0x151517),
        surface: ColorHex(0x2c2c2e),
        surface_hover: ColorHex(0x3a3a3c),
        border: ColorHex(0x3f3f42),
        text: ColorHex(0xf9fafb),
        text_muted: ColorHex(0xadb2b8),
        accent: ColorHex(0x4176e6),
        caption_height: 34,
    }
}

/// The light palette.
pub open spec fn light_palette() -> Palette {
    Palette {
        background: ColorHex(0xffffff),
        surface: ColorHex(0xf5f6f7),
        surface_hover: ColorHex(0xe9ebed),
        border: ColorHex(0xd9dcdf),
        text: ColorHex(0x0f1115),
        text_muted: ColorHex(0x81858c),
        accent: ColorHex(0x4176e6),
        caption_height: 34,
    }
}

impl Palette {
    /// The dark palette, taken from DSH's own dark boot theme, so the window
    /// chrome matches the app's own background exactly and the seam disappears.
    pub fn deepseek_dark() -> (palette: Palette)
        ensures
            palette == dark_palette(),
    {
        Palette {
            background: ColorHex(0x151517),
            surface: ColorHex(0x2c2c2e),
            surface_hover: ColorHex(0x3a3a3c),
            border: ColorHex(0x3f3f42),
            text: ColorHex(0xf9fafb),
            text_muted: ColorHex(0xadb2b8),
            accent: ColorHex(0x4176e6),
            caption_height: 34,
        }
    }

    /// The light palette, taken from DSH's own light boot theme.
    pub fn deepseek_light() -> (palette: Palette)
        ensures
            palette == light_palette(),
    {
        Palette {
            background: ColorHex(0xffffff),
            surface: ColorHex(0xf5f6f7),
            surface_hover: ColorHex(0xe9ebed),
            border: ColorHex(0xd9dcdf),
            text: ColorHex(0x0f1115),
            text_muted: ColorHex(0x81858c),
            accent: ColorHex(0x4176e6),
            caption_height: 34,
        }
    }
}

impl Default for Palette {
    fn default() -> (palette: Self)
        ensures
            palette == light_palette(),
    {
        Palette::deepseek_light()
    }
}

// ----------------------------------------------------------------- appearance

/// Which palette the shell uses.
#[derive(Debug, Clone, Copy, PartialEq, Eq, Structural)]
pub enum Appearance {
    Light,
    Dark,
    /// Follow the operating system.
    System,
}

impl Default for Appearance {
    fn default() -> (appearance: Self)
        ensures
            appearance == Appearance::System,
    {
        Appearance::System
    }
}

/// The appearance a preference names.
pub open spec fn appearance_named(name: Seq<char>) -> Option<Appearance> {
    if name == "light"@ {
        Some(Appearance::Light)
    } else if name == "dark"@ {
        Some(Appearance::Dark)
    } else if name == "system"@ {
        Some(Appearance::System)
    } else {
        None
    }
}

/// Whether an appearance is dark, given whether the operating system's is.
pub open spec fn dark_under(appearance: Appearance, system_is_dark: bool) -> bool {
    match appearance {
        Appearance::Light => false,
        Appearance::Dark => true,
        Appearance::System => system_is_dark,
    }
}

impl Appearance {
    /// The appearance a preference names.
    pub fn parse(name: &str) -> (appearance: Option<Appearance>)
        ensures
            appearance == appearance_named(name@),
    {
        if text::same(name, "light") {
            Some(Appearance::Light)
        } else if text::same(name, "dark") {
            Some(Appearance::Dark)
        } else if text::same(name, "system") {
            Some(Appearance::System)
        } else {
            None
        }
    }

    /// Read DSH's `ui-theme.preference` from the settings document. There is no
    /// shell-side override: it could only ever make the chrome and the page
    /// disagree.
    pub fn from_settings_yaml(yaml: &str) -> (appearance: Option<Appearance>)
        ensures
            appearance == (match i18n::setting(
                document::yaml_parsed(yaml@),
                "ui-theme"@,
                "preference"@,
            ) {
                Some(preference) => appearance_named(preference),
                None => None,
            }),
    {
        match i18n::read_setting(yaml, "ui-theme", "preference") {
            Some(preference) => Appearance::parse(preference.as_str()),
            None => None,
        }
    }
}

// ---------------------------------------------------------------------- theme

/// Everything the settings document says about the shell.
#[derive(Debug)]
pub struct Theme {
    /// Which palette to use; `system` follows the OS.
    pub appearance: Appearance,
    /// Palette used when the resolved appearance is light.
    pub light: Palette,
    /// Palette used when the resolved appearance is dark.
    pub dark: Palette,
    /// The global shortcut that summons the window, e.g. `"meta+shift+D"`.
    pub hotkey: String,
    /// Extra CSS appended to the injected block, for quick experiments.
    pub custom_css: String,
    /// The release line that upgrades follow, `"latest"` or `"alpha"`.
    pub update_channel: String,
}

/// What a theme is.
pub ghost struct Look {
    pub appearance: Appearance,
    pub light: Palette,
    pub dark: Palette,
    pub hotkey: Seq<char>,
    pub custom_css: Seq<char>,
    pub update_channel: Seq<char>,
}

impl View for Theme {
    type V = Look;

    open spec fn view(&self) -> Look {
        Look {
            appearance: self.appearance,
            light: self.light,
            dark: self.dark,
            hotkey: self.hotkey@,
            custom_css: self.custom_css@,
            update_channel: self.update_channel@,
        }
    }
}

/// The theme of a shell that was never configured.
pub open spec fn default_look() -> Look {
    Look {
        appearance: Appearance::System,
        light: light_palette(),
        dark: dark_palette(),
        hotkey: "meta+shift+D"@,
        custom_css: Seq::<char>::empty(),
        update_channel: "latest"@,
    }
}

impl Default for Theme {
    fn default() -> (theme: Self)
        ensures
            theme@ == default_look(),
    {
        Theme {
            appearance: Appearance::System,
            light: Palette::deepseek_light(),
            dark: Palette::deepseek_dark(),
            hotkey: text::own("meta+shift+D"),
            custom_css: String::new(),
            update_channel: text::own("latest"),
        }
    }
}

impl Clone for Theme {
    fn clone(&self) -> (copy: Self)
        ensures
            copy@ == self@,
    {
        Theme {
            appearance: self.appearance,
            light: self.light,
            dark: self.dark,
            hotkey: self.hotkey.clone(),
            custom_css: self.custom_css.clone(),
            update_channel: self.update_channel.clone(),
        }
    }
}

impl PartialEq for Theme {
    fn eq(&self, other: &Theme) -> (yes: bool) {
        self.appearance == other.appearance && self.light == other.light && self.dark == other.dark
            && self.hotkey == other.hotkey && self.custom_css == other.custom_css
            && self.update_channel == other.update_channel
    }
}

impl vstd::std_specs::cmp::PartialEqSpecImpl for Theme {
    open spec fn obeys_eq_spec() -> bool {
        true
    }

    open spec fn eq_spec(&self, other: &Theme) -> bool {
        self@ == other@
    }
}

/// The palette of a theme, given whether the operating system is dark.
pub open spec fn palette_under(look: Look, system_is_dark: bool) -> Palette {
    if dark_under(look.appearance, system_is_dark) {
        look.dark
    } else {
        look.light
    }
}

/// The CSS name of a color scheme.
pub open spec fn scheme_name(dark: bool) -> Seq<char> {
    if dark {
        "dark"@
    } else {
        "light"@
    }
}

/// The rules that follow the tokens: room for the caption strip, and the strip.
pub const PAGE_RULES: &'static str = " !important;
}
/* Reserve the caption strip so no DSH chrome hides under the traffic lights. */
body {
  padding-top: var(--dsh-shell-caption-height);
  box-sizing: border-box;
}

/* The window-drag region.
   With the system titlebar hidden, no OS drag area remains, so this strip
   forwards pointer presses to the shell. It is transparent, sits above the
   page, and covers only the reserved caption strip — never DSH's own UI. */
#__dsh_shell_drag {
  position: fixed;
  top: 0;
  left: 0;
  right: 0;
  height: var(--dsh-shell-caption-height);
  z-index: 2147483647;
  -webkit-app-region: drag;
  user-select: none;
  -webkit-user-select: none;
}
";

/// The block of CSS for a palette: its tokens, room for the caption strip, the
/// drag region, and the custom CSS last so that it always wins.
pub open spec fn css_block(p: Palette, dark: bool, custom: Seq<char>) -> Seq<char> {
    ":root {\n  color-scheme: "@
        + scheme_name(dark)
        + ";\n  --dsh-shell-background: "@
        + css_text(p.background)
        + ";\n  --dsh-shell-surface: "@
        + css_text(p.surface)
        + ";\n  --dsh-shell-border: "@
        + css_text(p.border)
        + ";\n  --dsh-shell-text: "@
        + css_text(p.text)
        + ";\n  --dsh-shell-muted: "@
        + css_text(p.text_muted)
        + ";\n  --dsh-shell-accent: "@
        + css_text(p.accent)
        + ";\n  --dsh-shell-caption-height: "@
        + text::decimal_digits(p.caption_height as nat)
        + "px;\n}\nhtml, body {\n  background: "@
        + css_text(p.background)
        + PAGE_RULES@
        + custom
        + "\n"@
}

/// The CSS of a theme, given whether the operating system is dark: the color scheme
/// is the resolved one, as the palette is, so the page and the window agree.
pub open spec fn css_under(look: Look, system_is_dark: bool) -> Seq<char> {
    css_block(
        palette_under(look, system_is_dark),
        dark_under(look.appearance, system_is_dark),
        look.custom_css,
    )
}

impl Theme {
    /// Resolve the active palette for a given system appearance.
    ///
    /// `Appearance::System` defers to the OS; the explicit variants pin it.
    pub fn palette_for(&self, system_is_dark: bool) -> (palette: &Palette)
        ensures
            *palette == palette_under(self@, system_is_dark),
    {
        match self.appearance {
            Appearance::Light => &self.light,
            Appearance::Dark => &self.dark,
            Appearance::System => if system_is_dark {
                &self.dark
            } else {
                &self.light
            },
        }
    }

    /// The CSS injected into the web UI for the resolved palette.
    ///
    /// DSH's own theme system owns the real design tokens; this block exists so
    /// the shell can match the page to its chrome without fighting it.
    pub fn injected_css(&self, system_is_dark: bool) -> (css: String)
        ensures
            css@ == css_under(self@, system_is_dark),
    {
        let p = self.palette_for(system_is_dark);
        let dark = match self.appearance {
            Appearance::Light => false,
            Appearance::Dark => true,
            Appearance::System => system_is_dark,
        };
        let scheme = if dark {
            "dark"
        } else {
            "light"
        };
        let s = text::own(":root {\n  color-scheme: ");
        let s = text::plus(s, scheme);
        let s = text::plus(s, ";\n  --dsh-shell-background: ");
        let s = text::plus(s, p.background.css().as_str());
        let s = text::plus(s, ";\n  --dsh-shell-surface: ");
        let s = text::plus(s, p.surface.css().as_str());
        let s = text::plus(s, ";\n  --dsh-shell-border: ");
        let s = text::plus(s, p.border.css().as_str());
        let s = text::plus(s, ";\n  --dsh-shell-text: ");
        let s = text::plus(s, p.text.css().as_str());
        let s = text::plus(s, ";\n  --dsh-shell-muted: ");
        let s = text::plus(s, p.text_muted.css().as_str());
        let s = text::plus(s, ";\n  --dsh-shell-accent: ");
        let s = text::plus(s, p.accent.css().as_str());
        let s = text::plus(s, ";\n  --dsh-shell-caption-height: ");
        let s = text::plus(s, text::decimal(p.caption_height as u64).as_str());
        let s = text::plus(s, "px;\n}\nhtml, body {\n  background: ");
        let s = text::plus(s, p.background.css().as_str());
        let s = text::plus(s, PAGE_RULES);
        let s = text::plus(s, self.custom_css.as_str());
        text::plus(s, "\n")
    }
}

// ------------------------------------------------------------- the live theme

/// The live theme and language.
///
/// The last theme that could be read is kept, so a broken edit keeps the current
/// look on screen instead of blanking the app.
#[derive(Debug)]
pub struct ThemeSource {
    last_good: Theme,
    language: Locale,
}

impl ThemeSource {
    /// The theme on screen.
    pub closed spec fn look(&self) -> Look {
        self.last_good@
    }

    /// The language on screen.
    pub closed spec fn speech(&self) -> Locale {
        self.language
    }

    /// A source that knows nothing yet but the defaults.
    pub fn new() -> (source: ThemeSource)
        ensures
            source.look() == default_look(),
            source.speech() == Locale::En,
    {
        ThemeSource { last_good: Theme::default(), language: Locale::En }
    }

    /// Take what was read from the settings document. Returns the theme only when
    /// the visible theme changed, so callers can skip redundant work; a document
    /// that could not be read changes nothing.
    pub fn reload(&mut self, read: Result<Theme, String>) -> (changed: Option<Theme>)
        ensures
            match read {
                Ok(theme) => {
                    &&& final(self).look() == theme@
                    &&& if theme@ == old(self).look() {
                        changed is None
                    } else {
                        changed matches Some(shown) && shown@ == theme@
                    }
                },
                Err(_) => {
                    &&& final(self).look() == old(self).look()
                    &&& changed is None
                },
            },
            final(self).speech() == old(self).speech(),
    {
        match read {
            Ok(theme) => self.apply_pushed(theme),
            Err(_) => None,
        }
    }

    /// Take a theme that the host pushed after persisting it. Returns the theme
    /// only when the visible theme changed.
    pub fn apply_pushed(&mut self, theme: Theme) -> (changed: Option<Theme>)
        ensures
            final(self).look() == theme@,
            if theme@ == old(self).look() {
                changed is None
            } else {
                changed matches Some(shown) && shown@ == theme@
            },
            final(self).speech() == old(self).speech(),
    {
        if theme == self.last_good {
            return None;
        }
        let shown = theme.clone();
        self.last_good = theme;
        Some(shown)
    }

    /// The theme on screen.
    pub fn current(&self) -> (theme: &Theme)
        ensures
            theme@ == self.look(),
    {
        &self.last_good
    }

    /// Take the language of the settings document; a document that names none the
    /// shell speaks means English.
    pub fn set_locale(&mut self, named: Option<Locale>)
        ensures
            final(self).speech() == (match named {
                Some(locale) => locale,
                None => Locale::En,
            }),
            final(self).look() == old(self).look(),
    {
        self.language = match named {
            Some(locale) => locale,
            None => Locale::En,
        };
    }

    /// The language on screen.
    pub fn locale(&self) -> (locale: Locale)
        ensures
            locale == self.speech(),
    {
        self.language
    }

    /// Whether the shell should render dark: DSH's own preference, then the
    /// operating system's.
    pub fn is_dark(&self, system_is_dark: bool) -> (dark: bool)
        ensures
            dark == dark_under(self.look().appearance, system_is_dark),
    {
        match self.last_good.appearance {
            Appearance::Light => false,
            Appearance::Dark => true,
            Appearance::System => system_is_dark,
        }
    }
}

/// Where the settings document lives: an explicit path wins, then DSH's home,
/// then `.dsh` below the user's home.
pub fn settings_path_from(explicit: Option<String>, dsh_home: Option<String>, home: Option<String>) -> (path:
    Option<String>)
    ensures
        text::held(path) == (match explicit {
            Some(explicit) => Some(explicit@),
            None => match dsh_home {
                Some(dsh) => Some(path::joined(dsh@, "settings.yaml"@)),
                None => match home {
                    Some(home) => Some(
                        path::joined(path::joined(home@, ".dsh"@), "settings.yaml"@),
                    ),
                    None => None,
                },
            },
        }),
{
    match explicit {
        Some(explicit) => Some(explicit),
        None => match dsh_home {
            Some(dsh) => Some(path::join(dsh.as_str(), "settings.yaml")),
            None => match home {
                Some(home) => {
                    let dsh = path::join(home.as_str(), ".dsh");
                    Some(path::join(dsh.as_str(), "settings.yaml"))
                },
                None => None,
            },
        },
    }
}

/// The directory to watch for changes of the settings document: editors save
/// through a temporary file and a rename, so the directory is watched and not
/// the file.
pub fn watch_dir(document: &str) -> (dir: String)
    ensures
        dir@ == (match path::parent_of(document@) {
            Some(dir) => dir,
            None => "."@,
        }),
{
    match path::parent(document) {
        Some(dir) => dir,
        None => text::own("."),
    }
}

/// Whether a change of these files is a change of the settings document: one of
/// them has its name.
pub fn is_watched(changed: &Vec<String>, document: &str) -> (yes: bool)
    ensures
        yes == (path::name_of(document@) is Some && exists|i: int|
            0 <= i < changed@.len() && path::name_of(#[trigger] changed@[i]@) == path::name_of(
                document@,
            )),
{
    match path::file_name(document) {
        None => false,
        Some(wanted) => {
            let mut i: usize = 0;
            while i < changed.len()
                invariant
                    i <= changed@.len(),
                    path::name_of(document@) == Some(wanted@),
                    forall|k: int|
                        0 <= k < i ==> path::name_of(#[trigger] changed@[k]@) != Some(wanted@),
                decreases changed@.len() - i,
            {
                if let Some(name) = path::file_name(changed[i].as_str()) {
                    if text::same(name.as_str(), wanted.as_str()) {
                        assert(path::name_of(changed@[i as int]@) == path::name_of(document@));
                        return true;
                    }
                }
                i += 1;
            }
            false
        },
    }
}

// --------------------------------------------------------------------- laws

spec fn power16(k: nat) -> nat
    decreases k,
{
    if k == 0 {
        1
    } else {
        16 * power16((k - 1) as nat)
    }
}

proof fn lemma_hex_text(n: nat, k: nat)
    requires
        k >= 1,
        n < power16(k),
    ensures
        all_hex(hex_text(n)),
        hex_number(hex_text(n)) == n,
        1 <= hex_text(n).len() <= k,
    decreases n,
{
    let s = hex_text(n);
    if n < 16 {
        assert(s.drop_last() =~= Seq::<char>::empty());
        assert(hex_number(s.drop_last()) == 0);
        assert(is_hex(document::hex_digit(n as int)));
    } else {
        assert(k >= 2) by {
            assert(power16(1) == 16) by {
                assert(power16(0) == 1);
            }
        }
        lemma_hex_text(n / 16, (k - 1) as nat);
        let front = hex_text(n / 16);
        assert(s.drop_last() =~= front);
        assert forall|i: int| 0 <= i < s.len() implies is_hex(#[trigger] s[i]) by {
            if i < front.len() {
                assert(s[i] == front[i]);
            }
        }
    }
}

proof fn lemma_zeros_add_nothing(zeros: Seq<char>, s: Seq<char>)
    requires
        forall|i: int| 0 <= i < zeros.len() ==> zeros[i] == '0',
    ensures
        hex_number(zeros + s) == hex_number(s),
    decreases zeros.len() + s.len(),
{
    if s.len() > 0 {
        assert((zeros + s).drop_last() =~= zeros + s.drop_last());
        lemma_zeros_add_nothing(zeros, s.drop_last());
    } else if zeros.len() > 0 {
        assert((zeros + s).drop_last() =~= zeros.drop_last() + s);
        lemma_zeros_add_nothing(zeros.drop_last(), s);
    } else {
        assert(zeros + s =~= s);
    }
}

/// A color of three bytes that is written for CSS reads back as itself.
pub proof fn colors_round_trip(color: ColorHex)
    requires
        color.0 <= 0xffffff,
    ensures
        written_color(css_text(color)) == Ok::<u32, Seq<char>>(color.0),
{
    reveal_strlit("#");
    assert(power16(6) == 16777216) by {
        reveal_with_fuel(power16, 7);
    }
    lemma_hex_text(color.0 as nat, 6);
    let digits = hex_text(color.0 as nat);
    let zeros = Seq::new((6 - digits.len()) as nat, |i: int| '0');
    let hex = padded(digits);
    assert(hex =~= zeros + digits);
    lemma_zeros_add_nothing(zeros, digits);
    assert forall|i: int| 0 <= i < hex.len() implies is_hex(#[trigger] hex[i]) by {
        if i >= zeros.len() {
            assert(hex[i] == digits[i - zeros.len()]);
        }
    }
    let s = css_text(color);
    assert(s =~= seq!['#'] + hex);
    assert(s[0] == '#' && s.last() == hex[5]);
    assert(is_hex(hex[5]));
    assert(text::trimmed(s) == s);
    assert(s.skip(1) =~= hex);
    assert(is_hex(hex[0]));
    assert(without_hashes(hex) == hex);
    assert(without_hashes(s) == hex);
    assert forall|i: int| 0 <= i < hex.len() implies '\0' <= #[trigger] hex[i] <= '\u{7f}' by {
        assert(is_hex(hex[i]));
    }
    vstd::utf8::is_ascii_chars_encode_utf8(hex);
}

/// The custom CSS is the last thing in the injected block, so it can override
/// the generated rules.
pub proof fn custom_css_comes_last(p: Palette, dark: bool, custom: Seq<char>)
    ensures
        ({
            let css = css_block(p, dark, custom);
            &&& css.len() >= custom.len() + 1
            &&& css.last() == '\n'
            &&& css.drop_last().skip(css.len() - 1 - custom.len()) == custom
        }),
{
    reveal_strlit("\n");
    let css = css_block(p, dark, custom);
    assert(css.drop_last().skip(css.len() - 1 - custom.len()) =~= custom);
}

/// What a hexadecimal digit is worth, in either case.
pub proof fn hexadecimal_digits_have_their_values(c: char)
    ensures
        '0' <= c <= '9' ==> is_hex(c) && hex_value(c) == c as int - 48,
        'a' <= c <= 'f' ==> is_hex(c) && hex_value(c) == c as int - 97 + 10,
        'A' <= c <= 'F' ==> is_hex(c) && hex_value(c) == c as int - 65 + 10,
        is_hex(c) ==> 0 <= hex_value(c) < 16,
        is_hex(c) <==> '0' <= c <= '9' || 'a' <= c <= 'f' || 'A' <= c <= 'F',
{
}

/// How a colour is read: six hexadecimal digits, each worth sixteen times the next, after
/// any number of `#`, with any white space around it.
pub proof fn colours_are_read_digit_by_digit(d: Seq<char>, w: char, value: String, color: Result<
    ColorHex,
    String,
>)
    requires
        d.len() == 6,
        forall|i: int| 0 <= i < 6 ==> is_hex(#[trigger] d[i]),
        text::is_white(w),
        call_ensures(ColorHex::try_from, (value,), color),
        value@ == d || value@ == seq!['#'] + d || value@ == seq!['#', '#'] + d || value@ == seq![
            w,
        ] + (seq!['#'] + d) || value@ == (seq!['#'] + d).push(w),
    ensures
        color matches Ok(c) && c.0 == 1048576 * hex_value(d[0]) + 65536 * hex_value(d[1]) + 4096
            * hex_value(d[2]) + 256 * hex_value(d[3]) + 16 * hex_value(d[4]) + hex_value(d[5]),
{
    let one = seq!['#'] + d;
    let two = seq!['#', '#'] + d;
    assert(is_hex(d[0]) && is_hex(d[5]));
    assert(one.last() == d[5] && one[0] == '#' && two.last() == d[5] && two[0] == '#');
    assert(text::trimmed(d) == d);
    assert(text::trimmed(one) == one);
    assert(text::trimmed(two) == two);
    text::lemma_trimmed_ends(one, w);
    assert(one.skip(1) =~= d);
    assert(two.skip(1) =~= one);
    assert(without_hashes(d) == d);
    assert(without_hashes(one) == d);
    assert(without_hashes(two) == d);
    assert forall|i: int| 0 <= i < d.len() implies '\0' <= #[trigger] d[i] <= '\u{7f}' by {
        assert(is_hex(d[i]));
    }
    vstd::utf8::is_ascii_chars_encode_utf8(d);
    lemma_six_digits(d);
}

proof fn lemma_six_digits(d: Seq<char>)
    requires
        d.len() == 6,
        forall|i: int| 0 <= i < 6 ==> is_hex(#[trigger] d[i]),
    ensures
        hex_number(d) == 1048576 * hex_value(d[0]) + 65536 * hex_value(d[1]) + 4096 * hex_value(
            d[2],
        ) + 256 * hex_value(d[3]) + 16 * hex_value(d[4]) + hex_value(d[5]),
        0 <= hex_number(d) < 16777216,
{
    let e = d.drop_last();
    let f = e.drop_last();
    let g = f.drop_last();
    let h = g.drop_last();
    let k = h.drop_last();
    assert(k.drop_last() =~= Seq::<char>::empty());
    assert(hex_number(k) == hex_value(d[0])) by {
        assert(hex_number(k.drop_last()) == 0);
        assert(k.last() == d[0]);
    }
    assert(hex_number(h) == 16 * hex_number(k) + hex_value(d[1]));
    assert(hex_number(g) == 16 * hex_number(h) + hex_value(d[2]));
    assert(hex_number(f) == 16 * hex_number(g) + hex_value(d[3]));
    assert(hex_number(e) == 16 * hex_number(f) + hex_value(d[4]));
    assert(hex_number(d) == 16 * hex_number(e) + hex_value(d[5]));
    assert(is_hex(d[0]) && is_hex(d[1]) && is_hex(d[2]) && is_hex(d[3]) && is_hex(d[4]) && is_hex(
        d[5],
    ));
}

/// Anything else is refused: what is not six bytes long behind its `#`, and what holds a
/// character that is no hexadecimal digit. The reason shows the text as it was written.
pub proof fn other_colours_are_refused(value: String, color: Result<ColorHex, String>)
    requires
        call_ensures(ColorHex::try_from, (value,), color),
    ensures
        ({
            let hex = without_hashes(text::trimmed(value@));
            let short = vstd::utf8::encode_utf8(hex).len() != 6;
            &&& color is Ok <==> !short && forall|i: int|
                0 <= i < hex.len() ==> is_hex(#[trigger] hex[i])
            &&& short ==> (color matches Err(reason) && reason@
                == "expected a 6-digit hex color like \"#1a1b26\", got "@ + text::debug_text(
                value@,
            ))
            &&& !short && color is Err ==> (color matches Err(reason) && reason@
                == text::debug_text(value@) + " is not valid hexadecimal"@)
        }),
{
}

/// The leading `#` characters of a text are set aside, all of them and nothing else.
pub proof fn hashes_are_set_aside(s: Seq<char>)
    ensures
        without_hashes(seq!['#'] + s) == without_hashes(s),
        s.len() > 0 && s[0] != '#' ==> without_hashes(s) == s,
        without_hashes(s).len() > 0 ==> without_hashes(s)[0] != '#',
    decreases s.len(),
{
    assert((seq!['#'] + s).skip(1) =~= s);
    if s.len() > 0 && s[0] == '#' {
        hashes_are_set_aside(s.skip(1));
    }
}

/// A colour is written as `#` and six digits, in small letters.
pub proof fn colours_are_written_in_six_digits(color: &ColorHex, s: String)
    requires
        call_ensures(ColorHex::css, (color,), s),
        color.0 <= 0xffffff,
    ensures
        s@.len() == 7,
        s@[0] == '#',
        forall|i: int| 1 <= i < 7 ==> ('0' <= #[trigger] s@[i] <= '9' || 'a' <= s@[i] <= 'f'),
{
    reveal_strlit("#");
    assert(power16(6) == 16777216) by {
        reveal_with_fuel(power16, 7);
    }
    lemma_hex_text(color.0 as nat, 6);
    lemma_hex_is_small(color.0 as nat);
    let digits = hex_text(color.0 as nat);
    let zeros = Seq::new((6 - digits.len()) as nat, |i: int| '0');
    assert(padded(digits) =~= zeros + digits);
    assert forall|i: int| 1 <= i < 7 implies ('0' <= #[trigger] s@[i] <= '9' || 'a' <= s@[i]
        <= 'f') by {
        if i - 1 >= zeros.len() {
            assert(s@[i] == digits[i - 1 - zeros.len()]);
        } else {
            assert(s@[i] == zeros[i - 1]);
        }
    }
}

proof fn lemma_hex_is_small(n: nat)
    ensures
        forall|i: int|
            0 <= i < hex_text(n).len() ==> ('0' <= #[trigger] hex_text(n)[i] <= '9' || 'a'
                <= hex_text(n)[i] <= 'f'),
    decreases n,
{
    if n >= 16 {
        lemma_hex_is_small(n / 16);
        let front = hex_text(n / 16);
        assert forall|i: int| 0 <= i < hex_text(n).len() implies ('0' <= #[trigger] hex_text(n)[i]
            <= '9' || 'a' <= hex_text(n)[i] <= 'f') by {
            if i < front.len() {
                assert(hex_text(n)[i] == front[i]);
            }
        }
    }
}

/// The two palettes, colour by colour.
pub proof fn palettes_have_their_colours(light: Palette, dark: Palette)
    requires
        call_ensures(Palette::deepseek_light, (), light),
        call_ensures(Palette::deepseek_dark, (), dark),
    ensures
        light.background.0 == 0xffffff && light.surface.0 == 0xf5f6f7 && light.surface_hover.0
            == 0xe9ebed && light.border.0 == 0xd9dcdf && light.text.0 == 0x0f1115
            && light.text_muted.0 == 0x81858c && light.accent.0 == 0x4176e6 && light.caption_height
            == 34,
        dark.background.0 == 0x151517 && dark.surface.0 == 0x2c2c2e && dark.surface_hover.0
            == 0x3a3a3c && dark.border.0 == 0x3f3f42 && dark.text.0 == 0xf9fafb
            && dark.text_muted.0 == 0xadb2b8 && dark.accent.0 == 0x4176e6 && dark.caption_height
            == 34,
{
}

/// The three names of an appearance, and no other.
pub proof fn appearances_have_their_names(name: &str, appearance: Option<Appearance>)
    requires
        call_ensures(Appearance::parse, (name,), appearance),
    ensures
        appearance == Some(Appearance::Light) <==> name@ == "light"@,
        appearance == Some(Appearance::Dark) <==> name@ == "dark"@,
        appearance == Some(Appearance::System) <==> name@ == "system"@,
{
    reveal_strlit("light");
    reveal_strlit("dark");
    reveal_strlit("system");
    assert("light"@.len() == 5 && "dark"@.len() == 4 && "system"@.len() == 6);
}

/// The appearance is the one that `ui-theme.preference` of the settings document names.
pub proof fn the_preference_names_the_appearance(
    yaml: &str,
    root: Map<Seq<char>, document::Tree>,
    section: Map<Seq<char>, document::Tree>,
    preference: Seq<char>,
    appearance: Option<Appearance>,
)
    requires
        call_ensures(Appearance::from_settings_yaml, (yaml,), appearance),
    ensures
        document::yaml_parsed(yaml@) is None ==> appearance is None,
        document::yaml_parsed(yaml@) == Some(document::Tree::Members(root)) && !root.dom().contains(
            "ui-theme"@,
        ) ==> appearance is None,
        document::yaml_parsed(yaml@) == Some(document::Tree::Members(root)) && root.dom().contains(
            "ui-theme"@,
        ) && root["ui-theme"@] == document::Tree::Members(section) && section.dom().contains(
            "preference"@,
        ) && section["preference"@] == document::Tree::Text(preference) ==> appearance
            == appearance_named(preference),
{
}

/// Which palette is used, and whether the shell renders dark: a pinned appearance decides
/// both, whatever the system says, and otherwise the system does. The two always agree.
pub proof fn the_palette_follows_the_appearance(
    theme: &Theme,
    source: &ThemeSource,
    system_is_dark: bool,
    palette: &Palette,
    dark: bool,
)
    requires
        call_ensures(Theme::palette_for, (theme, system_is_dark), palette),
        call_ensures(ThemeSource::is_dark, (source, system_is_dark), dark),
        source.look() == theme@,
    ensures
        theme.appearance is Dark ==> dark,
        theme.appearance is Light ==> !dark,
        theme.appearance is System ==> dark == system_is_dark,
        dark ==> *palette == theme.dark,
        !dark ==> *palette == theme.light,
{
}

/// A piece of a text stands where what comes before it ends.
proof fn lemma_piece_occurs(front: Seq<char>, piece: Seq<char>, back: Seq<char>)
    ensures
        text::occurs_at(front + piece + back, piece, front.len() as int),
{
    let s = front + piece + back;
    assert(s.subrange(front.len() as int, front.len() as int + piece.len()) =~= piece);
}

/// Whether a rule stands somewhere in a style sheet.
pub open spec fn states(css: Seq<char>, rule: Seq<char>) -> bool {
    exists|i: int| #[trigger] text::occurs_at(css, rule, i)
}

/// The style sheet states the resolved scheme, and each colour of the resolved palette
/// under its own name: the background, also as that of the page, the surface, the border,
/// the text, the muted text, the accent and the height of the caption.
pub proof fn the_style_sheet_states_the_palette(
    theme: &Theme,
    system_is_dark: bool,
    css: String,
    p: &Palette,
)
    requires
        call_ensures(Theme::injected_css, (theme, system_is_dark), css),
        call_ensures(Theme::palette_for, (theme, system_is_dark), p),
    ensures
        theme.appearance is Dark || (theme.appearance is System && system_is_dark)
            ==> text::begins_with(css@, ":root {\n  color-scheme: "@ + "dark"@),
        theme.appearance is Light || (theme.appearance is System && !system_is_dark)
            ==> text::begins_with(css@, ":root {\n  color-scheme: "@ + "light"@),
        states(css@, ";\n  --dsh-shell-background: "@ + css_text(p.background)),
        states(css@, ";\n  --dsh-shell-surface: "@ + css_text(p.surface)),
        states(css@, ";\n  --dsh-shell-border: "@ + css_text(p.border)),
        states(css@, ";\n  --dsh-shell-text: "@ + css_text(p.text)),
        states(css@, ";\n  --dsh-shell-muted: "@ + css_text(p.text_muted)),
        states(css@, ";\n  --dsh-shell-accent: "@ + css_text(p.accent)),
        states(
            css@,
            ";\n  --dsh-shell-caption-height: "@ + text::decimal_digits(p.caption_height as nat),
        ),
        states(css@, "px;\n}\nhtml, body {\n  background: "@ + css_text(p.background)),
{
    let dark = dark_under(theme.appearance, system_is_dark);
    let custom = theme.custom_css@;
    assert(css@ == css_block(*p, dark, custom));
    lemma_rules_stand(*p, dark, custom);
}

proof fn lemma_rules_stand(p: Palette, dark: bool, custom: Seq<char>)
    ensures
        ({
            let css = css_block(p, dark, custom);
            &&& text::begins_with(css, ":root {\n  color-scheme: "@ + scheme_name(dark))
            &&& states(css, ";\n  --dsh-shell-background: "@ + css_text(p.background))
            &&& states(css, ";\n  --dsh-shell-surface: "@ + css_text(p.surface))
            &&& states(css, ";\n  --dsh-shell-border: "@ + css_text(p.border))
            &&& states(css, ";\n  --dsh-shell-text: "@ + css_text(p.text))
            &&& states(css, ";\n  --dsh-shell-muted: "@ + css_text(p.text_muted))
            &&& states(css, ";\n  --dsh-shell-accent: "@ + css_text(p.accent))
            &&& states(
                css,
                ";\n  --dsh-shell-caption-height: "@ + text::decimal_digits(
                    p.caption_height as nat,
                ),
            )
            &&& states(css, "px;\n}\nhtml, body {\n  background: "@ + css_text(p.background))
        }),
{
    let css = css_block(p, dark, custom);
    let t0 = ":root {\n  color-scheme: "@ + scheme_name(dark);
    let r1 = ";\n  --dsh-shell-background: "@ + css_text(p.background);
    let r2 = ";\n  --dsh-shell-surface: "@ + css_text(p.surface);
    let r3 = ";\n  --dsh-shell-border: "@ + css_text(p.border);
    let r4 = ";\n  --dsh-shell-text: "@ + css_text(p.text);
    let r5 = ";\n  --dsh-shell-muted: "@ + css_text(p.text_muted);
    let r6 = ";\n  --dsh-shell-accent: "@ + css_text(p.accent);
    let r7 = ";\n  --dsh-shell-caption-height: "@ + text::decimal_digits(p.caption_height as nat);
    let r8 = "px;\n}\nhtml, body {\n  background: "@ + css_text(p.background);
    let t1 = t0 + r1;
    let t2 = t1 + r2;
    let t3 = t2 + r3;
    let t4 = t3 + r4;
    let t5 = t4 + r5;
    let t6 = t5 + r6;
    let t7 = t6 + r7;
    let t8 = t7 + r8;
    let end = PAGE_RULES@ + custom + "\n"@;
    lemma_regroup(t0, ";\n  --dsh-shell-background: "@, css_text(p.background));
    lemma_regroup(t1, ";\n  --dsh-shell-surface: "@, css_text(p.surface));
    lemma_regroup(t2, ";\n  --dsh-shell-border: "@, css_text(p.border));
    lemma_regroup(t3, ";\n  --dsh-shell-text: "@, css_text(p.text));
    lemma_regroup(t4, ";\n  --dsh-shell-muted: "@, css_text(p.text_muted));
    lemma_regroup(t5, ";\n  --dsh-shell-accent: "@, css_text(p.accent));
    lemma_regroup(
        t6,
        ";\n  --dsh-shell-caption-height: "@,
        text::decimal_digits(p.caption_height as nat),
    );
    lemma_regroup(t7, "px;\n}\nhtml, body {\n  background: "@, css_text(p.background));
    assert(css == t8 + PAGE_RULES@ + custom + "\n"@);
    assert(css =~= t8 + end);
    let e8 = end;
    let e7 = r8 + e8;
    let e6 = r7 + e7;
    let e5 = r6 + e6;
    let e4 = r5 + e5;
    let e3 = r4 + e4;
    let e2 = r3 + e3;
    let e1 = r2 + e2;
    let e0 = r1 + e1;
    lemma_regroup(t7, r8, e8);
    lemma_regroup(t6, r7, e7);
    lemma_regroup(t5, r6, e6);
    lemma_regroup(t4, r5, e5);
    lemma_regroup(t3, r4, e4);
    lemma_regroup(t2, r3, e3);
    lemma_regroup(t1, r2, e2);
    lemma_regroup(t0, r1, e1);
    assert(css == t0 + e0);
    assert(css.subrange(0, t0.len() as int) =~= t0);
    lemma_piece_occurs(t0, r1, e1);
    lemma_piece_occurs(t1, r2, e2);
    lemma_piece_occurs(t2, r3, e3);
    lemma_piece_occurs(t3, r4, e4);
    lemma_piece_occurs(t4, r5, e5);
    lemma_piece_occurs(t5, r6, e6);
    lemma_piece_occurs(t6, r7, e7);
    lemma_piece_occurs(t7, r8, e8);
}

proof fn lemma_regroup(a: Seq<char>, b: Seq<char>, c: Seq<char>)
    ensures
        a + b + c == a + (b + c),
{
    assert(a + b + c =~= a + (b + c));
}

/// A theme that was read takes the place of the one on screen, and is handed back exactly
/// where it differs; one that could not be read changes nothing. The language stays either
/// way.
pub proof fn broken_edits_change_nothing(
    source: &mut ThemeSource,
    read: Result<Theme, String>,
    changed: Option<Theme>,
)
    requires
        call_ensures(ThemeSource::reload, (source, read), changed),
    ensures
        read is Err ==> final(source).look() == old(source).look() && changed is None,
        read matches Ok(theme) ==> final(source).look() == theme@ && (changed is None <==> theme@
            == old(source).look()) && (changed matches Some(shown) ==> shown@ == theme@),
        final(source).speech() == old(source).speech(),
{
}

/// A theme that the host pushed takes the place of the one on screen, and is handed back
/// exactly where it differs.
pub proof fn pushed_themes_are_shown(
    source: &mut ThemeSource,
    theme: Theme,
    changed: Option<Theme>,
)
    requires
        call_ensures(ThemeSource::apply_pushed, (source, theme), changed),
    ensures
        final(source).look() == theme@,
        changed is None <==> theme@ == old(source).look(),
        changed matches Some(shown) ==> shown@ == theme@,
        final(source).speech() == old(source).speech(),
{
}

/// The language on screen is the one named, and English where none is; the theme stays.
pub proof fn no_language_means_english(source: &mut ThemeSource, named: Option<Locale>)
    requires
        call_ensures(ThemeSource::set_locale, (source, named), ()),
    ensures
        named matches Some(locale) ==> final(source).speech() == locale,
        named is None ==> final(source).speech() is En,
        final(source).look() == old(source).look(),
{
}

/// What a shell that was never configured looks like: it follows the system, with the two
/// palettes of DSH, the shortcut ⌘⇧D, no custom CSS and the latest channel.
pub proof fn defaults_are_in_place(source: ThemeSource)
    requires
        call_ensures(ThemeSource::new, (), source),
    ensures
        source.look().appearance is System,
        source.look().light == light_palette(),
        source.look().dark == dark_palette(),
        source.look().hotkey == "meta+shift+D"@,
        source.look().custom_css.len() == 0,
        source.look().update_channel == "latest"@,
        source.speech() is En,
{
}

/// Where the settings document lies: an explicit path wins, then the home of DSH, then
/// `.dsh` in the home of the user; without any of them nowhere.
pub proof fn the_settings_have_their_place(
    explicit: Option<String>,
    dsh_home: Option<String>,
    home: Option<String>,
    path: Option<String>,
)
    requires
        call_ensures(settings_path_from, (explicit, dsh_home, home), path),
    ensures
        explicit matches Some(e) ==> text::held(path) == Some(e@),
        explicit is None ==> (dsh_home matches Some(d) ==> text::held(path) == Some(
            path::joined(d@, "settings.yaml"@),
        )),
        explicit is None && dsh_home is None ==> (home matches Some(h) ==> text::held(path) == Some(
            path::joined(path::joined(h@, ".dsh"@), "settings.yaml"@),
        )),
        explicit is None && dsh_home is None && home is None ==> path is None,
{
}

/// What is watched is the directory of the document, and the working directory for a
/// document without one; a change counts exactly where one of the files that changed has
/// the document's name.
pub proof fn only_changes_of_the_document_count(
    changed: &Vec<String>,
    document: &str,
    dir: String,
    yes: bool,
    i: int,
)
    requires
        call_ensures(watch_dir, (document,), dir),
        call_ensures(is_watched, (changed, document), yes),
    ensures
        path::parent_of(document@) matches Some(parent) ==> dir@ == parent,
        path::parent_of(document@) is None ==> dir@ == seq!['.'],
        0 <= i < changed@.len() && path::name_of(changed@[i]@) is Some && path::name_of(
            changed@[i]@,
        ) == path::name_of(document@) ==> yes,
        (forall|k: int|
            0 <= k < changed@.len() ==> path::name_of(#[trigger] changed@[k]@) != path::name_of(
                document@,
            )) ==> !yes,
{
    reveal_strlit(".");
    assert("."@ =~= seq!['.']);
}

} // verus!
