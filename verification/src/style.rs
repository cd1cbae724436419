//! The SGR atom: the one place a role and a capability become bytes.
//!
//! A [`StyleAtom`] is produced by the total morphism [`StyleAtom::resolve`]
//! (role × theme × capability → style).  At [`ColorLevel::NoColor`] the atom
//! is empty and renders zero bytes.  The escape bytes themselves come from
//! `anstyle`'s renderer.
use vstd::prelude::*;

use anstyle::{Ansi256Color, Color, Effects, RgbColor, Style};

use crate::caps::{ansi256_index, ansi_slot, AnsiColor, Capability, ColorLevel, Quantized, Rgb};
use crate::theme::{role_quantized, theme_color, Role, Theme};

verus! {

/// A foreground color in the form one color depth emits.
#[derive(Clone, Copy, PartialEq, Eq, Debug, Structural)]
pub enum SgrColor {
    /// 24-bit `38;2;r;g;b`.
    Rgb(Rgb),
    /// 256-color `38;5;n`.
    Ansi256(u8),
    /// One of the 16 standard slots.
    Ansi(AnsiColor),
}

/// A resolved, capability-degraded style: an optional foreground plus the
/// bold and dim effects.
#[derive(Clone, Copy, PartialEq, Eq, Debug, Structural)]
pub struct StyleAtom {
    pub fg: Option<SgrColor>,
    pub bold: bool,
    pub dim: bool,
}

/// The empty style.
pub open spec fn plain_atom() -> StyleAtom {
    StyleAtom { fg: None, bold: false, dim: false }
}

/// A color lowered to a depth, given the quantizer's decisions for it.
pub open spec fn spec_lower(rgb: Rgb, level: ColorLevel, q: Quantized) -> SgrColor {
    match level {
        ColorLevel::Truecolor => SgrColor::Rgb(rgb),
        ColorLevel::Ansi256 => SgrColor::Ansi256(ansi256_index(rgb, q.cube_not_farther) as u8),
        _ => SgrColor::Ansi(q.ansi16),
    }
}

/// The style a role gets under a theme and a capability.
pub open spec fn spec_resolve(role: Role, theme: Theme, caps: Capability, bold: bool, dim: bool) -> StyleAtom {
    if caps.level == ColorLevel::NoColor {
        plain_atom()
    } else {
        StyleAtom {
            fg: Some(spec_lower(theme_color(theme, role), caps.level, role_quantized(theme, role))),
            bold,
            dim,
        }
    }
}

/// The style of a concrete color under a capability.
pub open spec fn spec_from_rgb(rgb: Rgb, q: Quantized, caps: Capability, bold: bool, dim: bool) -> StyleAtom {
    if caps.level == ColorLevel::NoColor {
        plain_atom()
    } else {
        StyleAtom { fg: Some(spec_lower(rgb, caps.level, q)), bold, dim }
    }
}

// ── the SGR text anstyle renders ──────────────────────────────────────────

/// The escape character.
pub open spec fn esc() -> char {
    '\u{1b}'
}

/// One decimal digit.
pub open spec fn digit(d: int) -> char {
    (d + 48) as char
}

/// A byte in decimal, without leading zeros.
pub open spec fn dec(n: u8) -> Seq<char> {
    let v = n as int;
    if v < 10 {
        seq![digit(v)]
    } else if v < 100 {
        seq![digit(v / 10), digit(v % 10)]
    } else {
        seq![digit(v / 100), digit((v / 10) % 10), digit(v % 10)]
    }
}

/// A control sequence `ESC [ code m`.
pub open spec fn sgr(code: Seq<char>) -> Seq<char> {
    seq![esc(), '['] + code + seq!['m']
}

/// The foreground code of a color.
pub open spec fn fg_code(c: SgrColor) -> Seq<char> {
    match c {
        SgrColor::Rgb(rgb) => sgr(
            seq!['3', '8', ';', '2', ';'] + dec(rgb.r) + seq![';'] + dec(rgb.g) + seq![';'] + dec(
                rgb.b,
            ),
        ),
        SgrColor::Ansi256(n) => sgr(seq!['3', '8', ';', '5', ';'] + dec(n)),
        SgrColor::Ansi(a) => if ansi_slot(a) < 8 {
            sgr(seq!['3', digit(ansi_slot(a))])
        } else {
            sgr(seq!['9', digit(ansi_slot(a) - 8)])
        },
    }
}

/// The sequence that opens a style: the bold and dim effects, then the
/// foreground.
pub open spec fn sgr_open(a: StyleAtom) -> Seq<char> {
    (if a.bold {
        sgr(seq!['1'])
    } else {
        Seq::empty()
    }) + (if a.dim {
        sgr(seq!['2'])
    } else {
        Seq::empty()
    }) + match a.fg {
        Some(c) => fg_code(c),
        None => Seq::empty(),
    }
}

/// The style sets nothing at all.
pub open spec fn is_plain(a: StyleAtom) -> bool {
    a.fg is None && !a.bold && !a.dim
}

/// The sequence that closes a style: the reset `ESC[0m`, elided for a plain
/// style.
pub open spec fn sgr_close(a: StyleAtom) -> Seq<char> {
    if is_plain(a) {
        Seq::empty()
    } else {
        sgr(seq!['0'])
    }
}

/// `text` wrapped in a style's open and close sequences.
pub open spec fn spec_paint(a: StyleAtom, text: Seq<char>) -> Seq<char> {
    sgr_open(a) + text + sgr_close(a)
}

/// The opening escape sequence of a style.
///
/// Trusted: `anstyle::Style::render` writes the enabled effects in flag order
/// (bold `ESC[1m`, dimmed `ESC[2m`), then the foreground (`ESC[38;2;r;g;bm`,
/// `ESC[38;5;nm`, or `ESC[3Nm` / `ESC[9Nm` for the 16 slots), numbers in
/// decimal without leading zeros.
#[verifier::external_body]
fn render_open(atom: StyleAtom) -> (s: String)
    ensures
        s@ == sgr_open(atom),
{
    let fg = match atom.fg {
        Some(SgrColor::Rgb(c)) => Some(Color::Rgb(RgbColor(c.r, c.g, c.b))),
        Some(SgrColor::Ansi256(n)) => Some(Color::Ansi256(Ansi256Color(n))),
        Some(SgrColor::Ansi(a)) => Ansi256Color(a as u8).into_ansi().map(Color::Ansi),
        None => None,
    };
    let fx = Effects::new().set(Effects::BOLD, atom.bold).set(Effects::DIMMED, atom.dim);
    Style::new().fg_color(fg).effects(fx).render().to_string()
}

/// The closing escape sequence of a style.
///
/// Trusted: `anstyle::Style::render_reset` writes `ESC[0m`, or nothing when
/// the style sets no color and no effect.
#[verifier::external_body]
fn render_close(atom: StyleAtom) -> (s: String)
    ensures
        s@ == sgr_close(atom),
{
    let fg = match atom.fg {
        Some(SgrColor::Rgb(c)) => Some(Color::Rgb(RgbColor(c.r, c.g, c.b))),
        Some(SgrColor::Ansi256(n)) => Some(Color::Ansi256(Ansi256Color(n))),
        Some(SgrColor::Ansi(a)) => Ansi256Color(a as u8).into_ansi().map(Color::Ansi),
        None => None,
    };
    let fx = Effects::new().set(Effects::BOLD, atom.bold).set(Effects::DIMMED, atom.dim);
    Style::new().fg_color(fg).effects(fx).render_reset().to_string()
}

impl Rgb {
    /// Lower this color to a depth, given the quantizer's decisions for it.
    pub fn lower(self, level: ColorLevel, q: Quantized) -> (c: SgrColor)
        ensures
            c == spec_lower(self, level, q),
    {
        match level {
            ColorLevel::Truecolor => SgrColor::Rgb(self),
            ColorLevel::Ansi256 => SgrColor::Ansi256(self.ansi256_choose(q.cube_not_farther)),
            _ => SgrColor::Ansi(q.ansi16),
        }
    }
}

impl Default for StyleAtom {
    fn default() -> (a: Self)
        ensures
            a == plain_atom(),
    {
        StyleAtom::none()
    }
}

impl StyleAtom {
    /// The empty style: plain text, no SGR.
    pub fn none() -> (a: StyleAtom)
        ensures
            a == plain_atom(),
    {
        StyleAtom { fg: None, bold: false, dim: false }
    }

    /// The total morphism (role, weight) × capability → style.  At
    /// `NoColor` this is the empty style.
    pub fn resolve(role: Role, theme: Theme, caps: &Capability, bold: bool, dim: bool) -> (a: StyleAtom)
        ensures
            a == spec_resolve(role, theme, *caps, bold, dim),
    {
        if caps.level == ColorLevel::NoColor {
            return StyleAtom::none();
        }
        let rgb = theme.color(role);
        let fg = rgb.lower(caps.level, theme.quantized(role));
        StyleAtom { fg: Some(fg), bold, dim }
    }

    /// A style straight from a concrete color, degraded through the
    /// capability like [`StyleAtom::resolve`]; `q` holds the quantizer's
    /// decisions for `rgb`.
    pub fn from_rgb(rgb: Rgb, q: Quantized, caps: &Capability, bold: bool, dim: bool) -> (a: StyleAtom)
        ensures
            a == spec_from_rgb(rgb, q, *caps, bold, dim),
    {
        if caps.level == ColorLevel::NoColor {
            return StyleAtom::none();
        }
        StyleAtom { fg: Some(rgb.lower(caps.level, q)), bold, dim }
    }

    /// `text` in this style.
    pub fn paint(self, text: &str) -> (s: String)
        ensures
            s@ == spec_paint(self, text@),
    {
        let mut out = String::new();
        self.write_into(&mut out, text);
        out
    }

    /// Appends `text` wrapped in this style's open and close sequences; an
    /// empty style appends the plain text only.
    pub fn write_into(self, out: &mut String, text: &str)
        ensures
            final(out)@ == old(out)@ + spec_paint(self, text@),
    {
        let open = render_open(self);
        let close = render_close(self);
        out.append(open.as_str());
        out.append(text);
        out.append(close.as_str());
    }
}

} // verus!
