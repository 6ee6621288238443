//! The settings that are kept between runs: appearance, translation, window position.
use vstd::prelude::*;
use crate::text::chars_of;

verus! {

/// The font of the overlay.
#[derive(Debug, Clone, Copy, PartialEq, Eq, Structural)]
pub enum FontId {
    System,
    Rounded,
    Serif,
    Mono,
    Handwritten,
}

/// What the overlay shows: the original line, its translation, or both.
#[derive(Debug, Clone, Copy, PartialEq, Eq, Structural)]
pub enum Mode {
    Original,
    Translated,
    Both,
}

/// The language that lyrics are translated into.
#[derive(Debug, Clone, Copy, PartialEq, Eq, Structural)]
pub enum TargetLang {
    PtBr,
    EnUs,
    Es,
}

pub open spec fn lang_code(t: TargetLang) -> Seq<char> {
    match t {
        TargetLang::PtBr => "PT-BR"@,
        TargetLang::EnUs => "EN-US"@,
        TargetLang::Es => "ES"@,
    }
}

pub open spec fn lang_azure_code(t: TargetLang) -> Seq<char> {
    match t {
        TargetLang::PtBr => "pt"@,
        TargetLang::EnUs => "en"@,
        TargetLang::Es => "es"@,
    }
}

impl TargetLang {
    /// The code under which translations are kept (`PT-BR`, `EN-US`, `ES`).
    pub fn code(&self) -> (r: &'static str)
        ensures
            r@ == lang_code(*self),
    {
        match self {
            TargetLang::PtBr => "PT-BR",
            TargetLang::EnUs => "EN-US",
            TargetLang::Es => "ES",
        }
    }

    /// The language code that the translation proxy expects (`pt`, `en`, `es`).
    pub fn azure_code(&self) -> (r: &'static str)
        ensures
            r@ == lang_azure_code(*self),
    {
        match self {
            TargetLang::PtBr => "pt",
            TargetLang::EnUs => "en",
            TargetLang::Es => "es",
        }
    }
}

impl Default for FontId {
    fn default() -> (r: FontId)
        ensures
            r == FontId::System,
    {
        FontId::System
    }
}

impl Default for Mode {
    fn default() -> (r: Mode)
        ensures
            r == Mode::Both,
    {
        Mode::Both
    }
}

impl Default for TargetLang {
    fn default() -> (r: TargetLang)
        ensures
            r == TargetLang::PtBr,
    {
        TargetLang::PtBr
    }
}

/// The translation settings.
#[derive(Debug, Clone, Copy, PartialEq, Eq, Structural)]
pub struct TranslationCfg {
    pub mode: Mode,
    pub target_lang: TargetLang,
}

impl Default for TranslationCfg {
    /// Both lines, into Brazilian Portuguese.
    fn default() -> (r: TranslationCfg)
        ensures
            r == (TranslationCfg { mode: Mode::Both, target_lang: TargetLang::PtBr }),
    {
        TranslationCfg { mode: Mode::Both, target_lang: TargetLang::PtBr }
    }
}

/// Where the overlay window was left, in physical pixels.
#[derive(Debug, Clone, Copy, PartialEq, Eq, Structural)]
pub struct WindowPos {
    pub x: i32,
    pub y: i32,
}

pub open spec fn is_hex_digit(c: char) -> bool {
    ('0' <= c && c <= '9') || ('a' <= c && c <= 'f') || ('A' <= c && c <= 'F')
}

/// `#` and six hexadecimal digits, as `#ffe066`.
pub open spec fn hex_color(s: Seq<char>) -> bool {
    &&& s.len() == 7
    &&& s[0] == '#'
    &&& forall|i: int| 1 <= i < 7 ==> is_hex_digit(#[trigger] s[i])
}

/// `s` is a color written `#rrggbb`.
pub fn is_hex(s: &str) -> (r: bool)
    ensures
        r == hex_color(s@),
{
    let v = chars_of(s);
    if v.len() != 7 || v[0] != '#' {
        return false;
    }
    let mut i: usize = 1;
    while i < 7
        invariant
            1 <= i <= 7,
            v@ == s@,
            v@.len() == 7,
            forall|j: int| 1 <= j < i ==> is_hex_digit(#[trigger] v@[j]),
        decreases 7 - i,
    {
        let c = v[i];
        if !(('0' <= c && c <= '9') || ('a' <= c && c <= 'f') || ('A' <= c && c <= 'F')) {
            return false;
        }
        i = i + 1;
    }
    true
}

/// The text color used when the saved one is not `#rrggbb`.
pub open spec fn default_text_color() -> Seq<char> {
    "#ffffff"@
}

/// The background opacity used when the saved one is outside 10..=100.
pub const DEFAULT_BG_OPACITY: u8 = 60;

/// The colors and opacity of the appearance with invalid values put back to the defaults:
/// a text color that is not `#rrggbb` becomes white, such a background color becomes none,
/// and an opacity outside 10..=100 becomes 60.
pub fn normalize_colors(text_color: String, bg_color: Option<String>, bg_opacity: u8) -> (r: (
    String,
    Option<String>,
    u8,
))
    ensures
        r.0@ == (if hex_color(text_color@) {
            text_color@
        } else {
            default_text_color()
        }),
        match bg_color {
            Some(c) => if hex_color(c@) {
                r.1 matches Some(d) && d@ == c@
            } else {
                r.1 is None
            },
            None => r.1 is None,
        },
        r.2 == (if 10 <= bg_opacity <= 100 {
            bg_opacity
        } else {
            DEFAULT_BG_OPACITY
        }),
{
    let text = if is_hex(text_color.as_str()) {
        text_color
    } else {
        String::from_str("#ffffff")
    };
    let bg = match bg_color {
        Some(c) => if is_hex(c.as_str()) {
            Some(c)
        } else {
            None
        },
        None => None,
    };
    let op = if 10 <= bg_opacity && bg_opacity <= 100 {
        bg_opacity
    } else {
        DEFAULT_BG_OPACITY
    };
    (text, bg, op)
}

/// Normalizing twice is normalizing once: valid values are kept as they are, and the
/// defaults are valid.
pub proof fn law_normalize_idempotent(t: Seq<char>, op: u8)
    ensures
        hex_color(if hex_color(t) {
            t
        } else {
            default_text_color()
        }),
        ({
            let o = if 10 <= op <= 100 {
                op
            } else {
                DEFAULT_BG_OPACITY
            };
            10 <= o <= 100
        }),
{
    reveal_strlit("#ffffff");
}

} // verus!
