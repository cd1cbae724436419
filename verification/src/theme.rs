//! Semantic roles and the theme that resolves them to colors.
//!
//! A fragment names a [`Role`], never a color.  The theme is the one place a
//! role becomes an [`Rgb`], and its palette is read from `irodori::NORD`.
use vstd::prelude::*;

use crate::caps::{AnsiColor, Quantized, Rgb};

verus! {

/// The block role vocabulary: one accent (`Primary`), state-only Aurora
/// roles, hierarchy by weight and dimness rather than hue.
#[derive(Clone, Copy, PartialEq, Eq, Debug, Hash, Structural)]
pub enum Role {
    /// The single accent: Frost ice cyan (nord8).
    Primary,
    /// Body text: brightest Snow Storm (nord6).
    Text,
    /// Secondary text: dim Snow Storm (nord4).
    TextMuted,
    /// Tertiary text and guide lines: Polar Night grey (nord3).
    TextDim,
    /// Frames and dividers: Polar Night grey (nord3).
    Border,
    /// State error: Aurora red (nord11).
    Error,
    /// State warning: Aurora orange (nord12).
    Warn,
    /// State pending: Aurora yellow (nord13).
    Pending,
    /// State ok: Aurora green (nord14).
    Success,
    /// Informational: Frost light blue (nord9).
    Info,
    /// Identifiers and values: Aurora purple (nord15).
    Ident,
}

/// A resolved palette.  The default is dark Nord.
#[derive(Clone, Copy, PartialEq, Eq, Debug, Structural)]
pub enum Theme {
    /// Cool dark Nord, read from `irodori::NORD`.
    PlemeDark,
}

impl Default for Theme {
    fn default() -> (t: Self)
        ensures
            t == Theme::PlemeDark,
    {
        Theme::PlemeDark
    }
}

/// The Nord palette, nord0..nord15, as irodori publishes it.
pub open spec fn nord(i: int) -> Rgb {
    if i == 0 {
        Rgb { r: 0x2E, g: 0x34, b: 0x40 }
    } else if i == 1 {
        Rgb { r: 0x3B, g: 0x42, b: 0x52 }
    } else if i == 2 {
        Rgb { r: 0x43, g: 0x4C, b: 0x5E }
    } else if i == 3 {
        Rgb { r: 0x4C, g: 0x56, b: 0x6A }
    } else if i == 4 {
        Rgb { r: 0xD8, g: 0xDE, b: 0xE9 }
    } else if i == 5 {
        Rgb { r: 0xE5, g: 0xE9, b: 0xF0 }
    } else if i == 6 {
        Rgb { r: 0xEC, g: 0xEF, b: 0xF4 }
    } else if i == 7 {
        Rgb { r: 0x8F, g: 0xBC, b: 0xBB }
    } else if i == 8 {
        Rgb { r: 0x88, g: 0xC0, b: 0xD0 }
    } else if i == 9 {
        Rgb { r: 0x81, g: 0xA1, b: 0xC1 }
    } else if i == 10 {
        Rgb { r: 0x5E, g: 0x81, b: 0xAC }
    } else if i == 11 {
        Rgb { r: 0xBF, g: 0x61, b: 0x6A }
    } else if i == 12 {
        Rgb { r: 0xD0, g: 0x87, b: 0x70 }
    } else if i == 13 {
        Rgb { r: 0xEB, g: 0xCB, b: 0x8B }
    } else if i == 14 {
        Rgb { r: 0xA3, g: 0xBE, b: 0x8C }
    } else {
        Rgb { r: 0xB4, g: 0x8E, b: 0xAD }
    }
}

/// Reads one color of the Nord palette from irodori.
///
/// Trusted: `irodori::NordPalette::all_colors` on the constant
/// `irodori::NORD` lists the 16 colors nord0..nord15 in index order, with
/// the channel values written in irodori's source (the `nord` table above).
#[verifier::external_body]
fn nord_color(index: usize) -> (c: Rgb)
    requires
        index < 16,
    ensures
        c == nord(index as int),
{
    let c = irodori::NORD.all_colors()[index];
    Rgb { r: c.r, g: c.g, b: c.b }
}

/// Which Nord color each role resolves to.
pub open spec fn role_nord_index(role: Role) -> int {
    match role {
        Role::Primary => 8,
        Role::Text => 6,
        Role::TextMuted => 4,
        Role::TextDim => 3,
        Role::Border => 3,
        Role::Error => 11,
        Role::Warn => 12,
        Role::Pending => 13,
        Role::Success => 14,
        Role::Info => 9,
        Role::Ident => 15,
    }
}

/// The color a theme gives a role.
pub open spec fn theme_color(theme: Theme, role: Role) -> Rgb {
    match theme {
        Theme::PlemeDark => nord(role_nord_index(role)),
    }
}

/// The quantizer's decisions for each role of the dark-Nord theme: whether
/// its 256-color cube cell is at least as near, in linear light, as its grey
/// step, and the ANSI slot whose reference color is nearest.  Recorded from
/// the linear-space quantizer (a floating-point computation) and checked
/// against it by the test suite.
pub open spec fn role_quantized(theme: Theme, role: Role) -> Quantized {
    match theme {
        Theme::PlemeDark => match role {
            Role::Primary => Quantized { cube_not_farther: true, ansi16: AnsiColor::White },
            Role::Text => Quantized { cube_not_farther: false, ansi16: AnsiColor::BrightWhite },
            Role::TextMuted => Quantized { cube_not_farther: false, ansi16: AnsiColor::White },
            Role::TextDim => Quantized { cube_not_farther: false, ansi16: AnsiColor::Blue },
            Role::Border => Quantized { cube_not_farther: false, ansi16: AnsiColor::Blue },
            Role::Error => Quantized { cube_not_farther: true, ansi16: AnsiColor::BrightBlack },
            Role::Warn => Quantized { cube_not_farther: true, ansi16: AnsiColor::BrightBlack },
            Role::Pending => Quantized { cube_not_farther: true, ansi16: AnsiColor::White },
            Role::Success => Quantized { cube_not_farther: true, ansi16: AnsiColor::White },
            Role::Info => Quantized { cube_not_farther: true, ansi16: AnsiColor::BrightBlack },
            Role::Ident => Quantized { cube_not_farther: true, ansi16: AnsiColor::White },
        },
    }
}

impl Theme {
    /// Resolve a role to its concrete color.
    pub fn color(self, role: Role) -> (c: Rgb)
        ensures
            c == theme_color(self, role),
    {
        match self {
            Theme::PlemeDark => nord_role(role),
        }
    }

    /// The quantizer's decisions for a role's color (see [`role_quantized`]).
    pub fn quantized(self, role: Role) -> (q: Quantized)
        ensures
            q == role_quantized(self, role),
    {
        match self {
            Theme::PlemeDark => match role {
                Role::Primary => Quantized { cube_not_farther: true, ansi16: AnsiColor::White },
                Role::Text => Quantized { cube_not_farther: false, ansi16: AnsiColor::BrightWhite },
                Role::TextMuted => Quantized { cube_not_farther: false, ansi16: AnsiColor::White },
                Role::TextDim => Quantized { cube_not_farther: false, ansi16: AnsiColor::Blue },
                Role::Border => Quantized { cube_not_farther: false, ansi16: AnsiColor::Blue },
                Role::Error => Quantized { cube_not_farther: true, ansi16: AnsiColor::BrightBlack },
                Role::Warn => Quantized { cube_not_farther: true, ansi16: AnsiColor::BrightBlack },
                Role::Pending => Quantized { cube_not_farther: true, ansi16: AnsiColor::White },
                Role::Success => Quantized { cube_not_farther: true, ansi16: AnsiColor::White },
                Role::Info => Quantized { cube_not_farther: true, ansi16: AnsiColor::BrightBlack },
                Role::Ident => Quantized { cube_not_farther: true, ansi16: AnsiColor::White },
            },
        }
    }
}

fn nord_role(role: Role) -> (c: Rgb)
    ensures
        c == nord(role_nord_index(role)),
{
    let i: usize = match role {
        Role::Primary => 8,
        Role::Text => 6,
        Role::TextMuted => 4,
        Role::TextDim => 3,
        Role::Border => 3,
        Role::Error => 11,
        Role::Warn => 12,
        Role::Pending => 13,
        Role::Success => 14,
        Role::Info => 9,
        Role::Ident => 15,
    };
    nord_color(i)
}

} // verus!
