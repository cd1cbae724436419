//! The capability wall: color depth, the terminal facts the renderer may
//! consult, and the integer half of the RGB → 256 → 16 quantizer.
//!
//! A block value carries no color depth; only a [`Capability`] handed in at
//! emit time decides which SGR form (if any) is used.  The quantizer's
//! candidates (nearest xterm cube cell, nearest grey-ramp step) are computed
//! here; which of them is nearer in linear light is a floating-point
//! decision made by the caller.
use vstd::prelude::*;

use crate::text::{contains, seq_contains, to_ascii_lowercase, chars_of, ascii_lower};

verus! {

/// The color-depth ladder.  Every emit is a total function over it.
#[derive(Clone, Copy, PartialEq, Eq, Debug, Hash, Structural)]
pub enum ColorLevel {
    /// 24-bit `38;2;r;g;b`.
    Truecolor,
    /// 256-color `38;5;n`.
    Ansi256,
    /// 16-color `30..37` / `90..97`.
    Ansi16,
    /// No SGR at all: a pipe, `NO_COLOR`, a dumb terminal.
    NoColor,
}

impl ColorLevel {
    /// Every rung, strongest first.
    pub const ALL: [ColorLevel; 4] = [
        ColorLevel::Truecolor,
        ColorLevel::Ansi256,
        ColorLevel::Ansi16,
        ColorLevel::NoColor,
    ];

    /// `true` when this rung emits at least some SGR.
    pub fn is_colored(self) -> (r: bool)
        ensures
            r == (self != ColorLevel::NoColor),
    {
        !matches!(self, ColorLevel::NoColor)
    }
}

/// A plain 24-bit color.
#[derive(Clone, Copy, PartialEq, Eq, Debug, Hash, Structural)]
pub struct Rgb {
    pub r: u8,
    pub g: u8,
    pub b: u8,
}

/// The background being drawn over: known when this crate owns the surface,
/// assumed otherwise.
#[derive(Clone, Copy, PartialEq, Eq, Debug, Structural)]
pub enum Background {
    Known(Rgb),
    Assumed,
}

impl Rgb {
    /// The color with these channels.
    pub open spec fn new_spec(r: u8, g: u8, b: u8) -> Rgb {
        Rgb { r, g, b }
    }

    pub fn new(r: u8, g: u8, b: u8) -> (c: Rgb)
        ensures
            c == (Rgb { r, g, b }),
    {
        Rgb { r, g, b }
    }
}

// ── the 6×6×6 cube and the grey ramp ──────────────────────────────────────

/// The six channel levels of the xterm color cube.
pub open spec fn cube_level(i: int) -> u8 {
    if i == 0 {
        0
    } else if i == 1 {
        95
    } else if i == 2 {
        135
    } else if i == 3 {
        175
    } else if i == 4 {
        215
    } else {
        255
    }
}

/// Distance of channel value `c` to cube level `i`.
pub open spec fn level_dist(c: u8, i: int) -> int {
    let d = c as int - cube_level(i) as int;
    if d < 0 {
        -d
    } else {
        d
    }
}

/// `i` is the nearest cube level to `c`, the first one on a tie.
pub open spec fn is_nearest_level(c: u8, i: int) -> bool {
    &&& 0 <= i < 6
    &&& forall|j: int| 0 <= j < 6 ==> level_dist(c, i) <= #[trigger] level_dist(c, j)
    &&& forall|j: int| 0 <= j < i ==> level_dist(c, i) < #[trigger] level_dist(c, j)
}

/// The nearest cube level of `c` (ties go to the lower level).
pub open spec fn nearest_level(c: u8) -> int {
    if c <= 47 {
        0
    } else if c <= 115 {
        1
    } else if c <= 155 {
        2
    } else if c <= 195 {
        3
    } else if c <= 235 {
        4
    } else {
        5
    }
}

/// The nearest-level index is the first minimum of the level distances.
pub proof fn lemma_nearest_level(c: u8)
    ensures
        is_nearest_level(c, nearest_level(c)),
        forall|i: int| is_nearest_level(c, i) ==> i == nearest_level(c),
{
    let n = nearest_level(c);
    assert forall|j: int| 0 <= j < 6 implies level_dist(c, n) <= #[trigger] level_dist(c, j) by {
        assert(0 <= j < 6);
    }
    assert forall|i: int| is_nearest_level(c, i) implies i == n by {
        if i < n {
            assert(level_dist(c, n) < level_dist(c, i));
            assert(level_dist(c, i) <= level_dist(c, n));
        } else if i > n {
            assert(level_dist(c, i) < level_dist(c, n));
            assert(level_dist(c, n) <= level_dist(c, i));
        }
    }
}

fn cube_level_exec(i: usize) -> (v: u8)
    requires
        i < 6,
    ensures
        v == cube_level(i as int),
{
    if i == 0 {
        0
    } else if i == 1 {
        95
    } else if i == 2 {
        135
    } else if i == 3 {
        175
    } else if i == 4 {
        215
    } else {
        255
    }
}

/// Index of the cube level nearest to `c` (first one on a tie).
pub fn nearest_cube_level(c: u8) -> (i: usize)
    ensures
        is_nearest_level(c, i as int),
        i as int == nearest_level(c),
{
    let mut best: usize = 0;
    let mut best_d: u16 = u16::MAX;
    let mut i: usize = 0;
    while i < 6
        invariant
            i <= 6,
            best < 6,
            i == 0 ==> best_d == u16::MAX,
            i > 0 ==> best < i && best_d as int == level_dist(c, best as int),
            forall|j: int| 0 <= j < i ==> (best_d as int) <= #[trigger] level_dist(c, j),
            forall|j: int| 0 <= j < best ==> (best_d as int) < #[trigger] level_dist(c, j),
        decreases 6 - i,
    {
        let lv = cube_level_exec(i);
        let d: u16 = if c >= lv {
            (c - lv) as u16
        } else {
            (lv - c) as u16
        };
        assert(d as int == level_dist(c, i as int));
        if d < best_d {
            best_d = d;
            best = i;
        }
        i += 1;
    }
    proof {
        lemma_nearest_level(c);
    }
    best
}

/// The 256-color cube cell nearest to `rgb`, channel by channel.
pub open spec fn cube_index(rgb: Rgb) -> int {
    16 + 36 * nearest_level(rgb.r) + 6 * nearest_level(rgb.g) + nearest_level(rgb.b)
}

/// The color of that cube cell.
pub open spec fn cube_color(rgb: Rgb) -> Rgb {
    Rgb {
        r: cube_level(nearest_level(rgb.r)),
        g: cube_level(nearest_level(rgb.g)),
        b: cube_level(nearest_level(rgb.b)),
    }
}

/// The grey-ramp step (0..=23) nearest to the channel average: the average,
/// less the ramp's offset of 8, clamped to 0..=238, divided by the step of
/// 10 and rounded half up, then capped at the last step.
pub open spec fn grey_step(rgb: Rgb) -> int {
    let avg = (rgb.r as int + rgb.g as int + rgb.b as int) / 3;
    let x = if avg - 8 < 0 {
        0
    } else if avg - 8 > 238 {
        238
    } else {
        avg - 8
    };
    let s = (x + 5) / 10;
    if s > 23 {
        23
    } else {
        s
    }
}

/// The grey-ramp color index (232..=255).
pub open spec fn grey_index(rgb: Rgb) -> int {
    232 + grey_step(rgb)
}

/// The grey value of that ramp step.
pub open spec fn grey_color(rgb: Rgb) -> Rgb {
    let v = (8 + 10 * grey_step(rgb)) as u8;
    Rgb { r: v, g: v, b: v }
}

/// The 256-color index a quantization picks: the cube cell when it is at
/// least as near in linear light as the grey step, the grey step otherwise.
pub open spec fn ansi256_index(rgb: Rgb, cube_not_farther: bool) -> int {
    if cube_not_farther {
        cube_index(rgb)
    } else {
        grey_index(rgb)
    }
}

impl Rgb {
    /// The nearest cell of the 6×6×6 cube: its xterm index and its color.
    pub fn ansi256_cube(self) -> (r: (u8, Rgb))
        ensures
            r.0 as int == cube_index(self),
            r.1 == cube_color(self),
            16 <= r.0 <= 231,
    {
        let ri = nearest_cube_level(self.r);
        let gi = nearest_cube_level(self.g);
        let bi = nearest_cube_level(self.b);
        let idx: u8 = (16 + 36 * ri + 6 * gi + bi) as u8;
        (idx, Rgb::new(cube_level_exec(ri), cube_level_exec(gi), cube_level_exec(bi)))
    }

    /// The nearest step of the 24-step grey ramp: its xterm index and its color.
    pub fn ansi256_grey(self) -> (r: (u8, Rgb))
        ensures
            r.0 as int == grey_index(self),
            r.1 == grey_color(self),
            232 <= r.0 <= 255,
    {
        let sum: u16 = self.r as u16 + self.g as u16 + self.b as u16;
        let avg: u16 = sum / 3;
        let x: u16 = if avg < 8 {
            0
        } else if avg - 8 > 238 {
            238
        } else {
            avg - 8
        };
        let s0: u16 = (x + 5) / 10;
        let s: u8 = if s0 > 23 {
            23
        } else {
            s0 as u8
        };
        let v: u8 = 8 + 10 * s;
        (232 + s, Rgb::new(v, v, v))
    }

    /// The 256-color index of this color, given which candidate is nearer in
    /// linear light (`cube_not_farther`: the cube cell is at least as near as
    /// the grey step).
    pub fn ansi256_choose(self, cube_not_farther: bool) -> (n: u8)
        ensures
            n as int == ansi256_index(self, cube_not_farther),
    {
        if cube_not_farther {
            self.ansi256_cube().0
        } else {
            self.ansi256_grey().0
        }
    }
}

/// The two nearest-in-linear-light decisions the quantizer needs for one
/// color: whether its cube cell is at least as near as its grey step, and
/// which ANSI slot's reference color is nearest.  Both are floating-point
/// computations made outside this crate's verified code.
#[derive(Clone, Copy, PartialEq, Eq, Debug, Structural)]
pub struct Quantized {
    pub cube_not_farther: bool,
    pub ansi16: AnsiColor,
}

// ── the 16 standard ANSI slots ───────────────────────────────────────────

/// The 16 standard ANSI color slots (rendered by the terminal's own palette).
#[derive(Clone, Copy, PartialEq, Eq, Debug, Hash, Structural)]
pub enum AnsiColor {
    Black,
    Red,
    Green,
    Yellow,
    Blue,
    Magenta,
    Cyan,
    White,
    BrightBlack,
    BrightRed,
    BrightGreen,
    BrightYellow,
    BrightBlue,
    BrightMagenta,
    BrightCyan,
    BrightWhite,
}

/// Slot number of an ANSI color (0..=15, in the order above).
pub open spec fn ansi_slot(a: AnsiColor) -> int {
    match a {
        AnsiColor::Black => 0,
        AnsiColor::Red => 1,
        AnsiColor::Green => 2,
        AnsiColor::Yellow => 3,
        AnsiColor::Blue => 4,
        AnsiColor::Magenta => 5,
        AnsiColor::Cyan => 6,
        AnsiColor::White => 7,
        AnsiColor::BrightBlack => 8,
        AnsiColor::BrightRed => 9,
        AnsiColor::BrightGreen => 10,
        AnsiColor::BrightYellow => 11,
        AnsiColor::BrightBlue => 12,
        AnsiColor::BrightMagenta => 13,
        AnsiColor::BrightCyan => 14,
        AnsiColor::BrightWhite => 15,
    }
}

/// The standard xterm reference color of each slot.
pub open spec fn ansi_reference(a: AnsiColor) -> Rgb {
    match a {
        AnsiColor::Black => Rgb { r: 0x00, g: 0x00, b: 0x00 },
        AnsiColor::Red => Rgb { r: 0x80, g: 0x00, b: 0x00 },
        AnsiColor::Green => Rgb { r: 0x00, g: 0x80, b: 0x00 },
        AnsiColor::Yellow => Rgb { r: 0x80, g: 0x80, b: 0x00 },
        AnsiColor::Blue => Rgb { r: 0x00, g: 0x00, b: 0x80 },
        AnsiColor::Magenta => Rgb { r: 0x80, g: 0x00, b: 0x80 },
        AnsiColor::Cyan => Rgb { r: 0x00, g: 0x80, b: 0x80 },
        AnsiColor::White => Rgb { r: 0xc0, g: 0xc0, b: 0xc0 },
        AnsiColor::BrightBlack => Rgb { r: 0x80, g: 0x80, b: 0x80 },
        AnsiColor::BrightRed => Rgb { r: 0xff, g: 0x00, b: 0x00 },
        AnsiColor::BrightGreen => Rgb { r: 0x00, g: 0xff, b: 0x00 },
        AnsiColor::BrightYellow => Rgb { r: 0xff, g: 0xff, b: 0x00 },
        AnsiColor::BrightBlue => Rgb { r: 0x00, g: 0x00, b: 0xff },
        AnsiColor::BrightMagenta => Rgb { r: 0xff, g: 0x00, b: 0xff },
        AnsiColor::BrightCyan => Rgb { r: 0x00, g: 0xff, b: 0xff },
        AnsiColor::BrightWhite => Rgb { r: 0xff, g: 0xff, b: 0xff },
    }
}

impl AnsiColor {
    /// Every slot, in slot order (the order in which a nearest-slot search
    /// breaks ties).
    pub const ALL: [AnsiColor; 16] = [
        AnsiColor::Black,
        AnsiColor::Red,
        AnsiColor::Green,
        AnsiColor::Yellow,
        AnsiColor::Blue,
        AnsiColor::Magenta,
        AnsiColor::Cyan,
        AnsiColor::White,
        AnsiColor::BrightBlack,
        AnsiColor::BrightRed,
        AnsiColor::BrightGreen,
        AnsiColor::BrightYellow,
        AnsiColor::BrightBlue,
        AnsiColor::BrightMagenta,
        AnsiColor::BrightCyan,
        AnsiColor::BrightWhite,
    ];

    /// The slot number (0..=15).
    pub fn slot(self) -> (n: u8)
        ensures
            n as int == ansi_slot(self),
    {
        match self {
            AnsiColor::Black => 0,
            AnsiColor::Red => 1,
            AnsiColor::Green => 2,
            AnsiColor::Yellow => 3,
            AnsiColor::Blue => 4,
            AnsiColor::Magenta => 5,
            AnsiColor::Cyan => 6,
            AnsiColor::White => 7,
            AnsiColor::BrightBlack => 8,
            AnsiColor::BrightRed => 9,
            AnsiColor::BrightGreen => 10,
            AnsiColor::BrightYellow => 11,
            AnsiColor::BrightBlue => 12,
            AnsiColor::BrightMagenta => 13,
            AnsiColor::BrightCyan => 14,
            AnsiColor::BrightWhite => 15,
        }
    }

    /// The xterm reference color that stands for this slot when searching
    /// for the nearest slot.
    pub fn reference(self) -> (c: Rgb)
        ensures
            c == ansi_reference(self),
    {
        match self {
            AnsiColor::Black => Rgb::new(0x00, 0x00, 0x00),
            AnsiColor::Red => Rgb::new(0x80, 0x00, 0x00),
            AnsiColor::Green => Rgb::new(0x00, 0x80, 0x00),
            AnsiColor::Yellow => Rgb::new(0x80, 0x80, 0x00),
            AnsiColor::Blue => Rgb::new(0x00, 0x00, 0x80),
            AnsiColor::Magenta => Rgb::new(0x80, 0x00, 0x80),
            AnsiColor::Cyan => Rgb::new(0x00, 0x80, 0x80),
            AnsiColor::White => Rgb::new(0xc0, 0xc0, 0xc0),
            AnsiColor::BrightBlack => Rgb::new(0x80, 0x80, 0x80),
            AnsiColor::BrightRed => Rgb::new(0xff, 0x00, 0x00),
            AnsiColor::BrightGreen => Rgb::new(0x00, 0xff, 0x00),
            AnsiColor::BrightYellow => Rgb::new(0xff, 0xff, 0x00),
            AnsiColor::BrightBlue => Rgb::new(0x00, 0x00, 0xff),
            AnsiColor::BrightMagenta => Rgb::new(0xff, 0x00, 0xff),
            AnsiColor::BrightCyan => Rgb::new(0x00, 0xff, 0xff),
            AnsiColor::BrightWhite => Rgb::new(0xff, 0xff, 0xff),
        }
    }
}


// ── the capability record ────────────────────────────────────────────────

/// The full capability wall, carried by the environment, never by a block.
#[derive(Clone, Copy, PartialEq, Eq, Debug, Structural)]
pub struct Capability {
    pub level: ColorLevel,
    /// Terminal width in columns.
    pub width: u16,
    pub is_tty: bool,
    pub unicode: bool,
    pub background: Background,
}

impl Capability {
    /// The pipe / `NO_COLOR` floor: zero SGR, ASCII, 80 columns.
    pub fn plain() -> (c: Capability)
        ensures
            c == (Capability {
                level: ColorLevel::NoColor,
                width: 80,
                is_tty: false,
                unicode: false,
                background: Background::Assumed,
            }),
    {
        Capability {
            level: ColorLevel::NoColor,
            width: 80,
            is_tty: false,
            unicode: false,
            background: Background::Assumed,
        }
    }

    /// A fixed capability at a chosen depth; it counts as a terminal exactly
    /// when the depth is colored.
    pub fn fixed(level: ColorLevel, width: u16, unicode: bool) -> (c: Capability)
        ensures
            c == (Capability {
                level,
                width,
                is_tty: level != ColorLevel::NoColor,
                unicode,
                background: Background::Assumed,
            }),
    {
        Capability {
            level,
            width,
            is_tty: !matches!(level, ColorLevel::NoColor),
            unicode,
            background: Background::Assumed,
        }
    }
}

// ── deciding the capability from what the environment reports ────────────

/// The precedence fold that picks a color depth: `CLICOLOR_FORCE` over
/// `NO_COLOR` over "not a terminal" over `COLORTERM` over `TERM`.
/// `forced` / `no_color` say whether `CLICOLOR_FORCE` / `NO_COLOR` are set to
/// a non-empty value; `colorterm` / `term` are the variables' values when set.
pub open spec fn spec_resolve_level(
    is_tty: bool,
    forced: bool,
    no_color: bool,
    colorterm: Option<Seq<char>>,
    term: Option<Seq<char>>,
) -> ColorLevel {
    if no_color && !forced {
        ColorLevel::NoColor
    } else if !is_tty && !forced {
        ColorLevel::NoColor
    } else if colorterm matches Some(ct) && (seq_contains(ct, "truecolor"@) || seq_contains(
        ct,
        "24bit"@,
    )) {
        ColorLevel::Truecolor
    } else {
        match term {
            Some(t) => if seq_contains(t, "256"@) {
                ColorLevel::Ansi256
            } else if t.len() == 0 || t == "dumb"@ {
                if forced {
                    ColorLevel::Ansi16
                } else {
                    ColorLevel::NoColor
                }
            } else {
                ColorLevel::Ansi16
            },
            None => if forced {
                ColorLevel::Ansi16
            } else {
                ColorLevel::NoColor
            },
        }
    }
}

/// The view of an optional string.
pub open spec fn opt_view(s: Option<&str>) -> Option<Seq<char>> {
    match s {
        Some(v) => Some(v@),
        None => None,
    }
}

/// Picks the color depth from the environment's answers (see
/// [`spec_resolve_level`]).
pub fn resolve_level(
    is_tty: bool,
    forced: bool,
    no_color: bool,
    colorterm: Option<&str>,
    term: Option<&str>,
) -> (l: ColorLevel)
    ensures
        l == spec_resolve_level(is_tty, forced, no_color, opt_view(colorterm), opt_view(term)),
{
    if no_color && !forced {
        return ColorLevel::NoColor;
    }
    if !is_tty && !forced {
        return ColorLevel::NoColor;
    }
    if let Some(ct) = colorterm {
        if contains(ct, "truecolor") || contains(ct, "24bit") {
            return ColorLevel::Truecolor;
        }
    }
    match term {
        Some(t) => {
            if contains(t, "256") {
                ColorLevel::Ansi256
            } else if t.unicode_len() == 0 || crate::text::str_eq(t, "dumb") {
                if forced {
                    ColorLevel::Ansi16
                } else {
                    ColorLevel::NoColor
                }
            } else {
                ColorLevel::Ansi16
            }
        },
        None => if forced {
            ColorLevel::Ansi16
        } else {
            ColorLevel::NoColor
        },
    }
}

/// A decimal digit.
pub open spec fn is_digit(c: char) -> bool {
    '0' <= c && c <= '9'
}

/// The value of a string of decimal digits.
pub open spec fn digits_value(s: Seq<char>) -> nat
    decreases s.len(),
{
    if s.len() == 0 {
        0
    } else {
        digits_value(s.drop_last()) * 10 + ((s.last() as u32) - ('0' as u32)) as nat
    }
}

/// The text after an optional leading `+`.
pub open spec fn unsigned_part(s: Seq<char>) -> Seq<char> {
    if s.len() > 0 && s[0] == '+' {
        s.skip(1)
    } else {
        s
    }
}

/// Every character is a decimal digit.
pub open spec fn all_digits(d: Seq<char>) -> bool {
    forall|i: int| 0 <= i < d.len() ==> is_digit(#[trigger] d[i])
}

/// What `str::parse::<u16>` gives: an optional `+`, then one or more decimal
/// digits whose value fits in 16 bits.
pub open spec fn spec_parse_u16(s: Seq<char>) -> Option<u16> {
    let d = unsigned_part(s);
    if d.len() > 0 && all_digits(d) && digits_value(d) <= 65535 {
        Some(digits_value(d) as u16)
    } else {
        None
    }
}

/// Parses a decimal `u16` the way `str::parse::<u16>` does.
pub fn parse_u16(s: &str) -> (r: Option<u16>)
    ensures
        r == spec_parse_u16(s@),
{
    let cs = chars_of(s);
    let start: usize = if cs.len() > 0 && cs[0] == '+' {
        1
    } else {
        0
    };
    let ghost d = unsigned_part(s@);
    assert(d =~= cs@.skip(start as int));
    if start >= cs.len() {
        return None;
    }
    let mut value: u32 = 0;
    let mut i: usize = start;
    while i < cs.len()
        invariant
            cs@ == s@,
            start <= i <= cs@.len(),
            start < cs@.len(),
            d == cs@.skip(start as int),
            d == unsigned_part(s@),
            forall|k: int| start <= k < i ==> is_digit(#[trigger] cs@[k]),
            value as nat == digits_value(cs@.subrange(start as int, i as int)),
            value <= 65535,
        decreases cs@.len() - i,
    {
        let c = cs[i];
        if !('0' <= c && c <= '9') {
            assert(d[i - start] == cs@[i as int]);
            assert(!is_digit(d[i - start]));
            assert(!all_digits(d));
            return None;
        }
        let digit: u32 = (c as u32) - ('0' as u32);
        assert(cs@.subrange(start as int, i + 1).drop_last() =~= cs@.subrange(
            start as int,
            i as int,
        ));
        if value > 6553 || (value == 6553 && digit > 5) {
            proof {
                if all_digits(d) {
                    lemma_digits_value_grows(d, (i + 1 - start) as nat);
                    assert(cs@.subrange(start as int, i + 1) =~= d.take(i + 1 - start));
                }
            }
            return None;
        }
        value = value * 10 + digit;
        i += 1;
    }
    assert(cs@.subrange(start as int, cs@.len() as int) =~= d);
    Some(value as u16)
}

/// A digit string's value is at least the value of any of its prefixes.
proof fn lemma_digits_value_grows(d: Seq<char>, n: nat)
    requires
        n <= d.len(),
        forall|i: int| 0 <= i < d.len() ==> is_digit(#[trigger] d[i]),
    ensures
        digits_value(d) >= digits_value(d.take(n as int)),
    decreases d.len(),
{
    if n < d.len() {
        assert(d.drop_last().take(n as int) =~= d.take(n as int));
        assert forall|i: int| 0 <= i < d.drop_last().len() implies is_digit(
            #[trigger] d.drop_last()[i],
        ) by {
            assert(d.drop_last()[i] == d[i]);
        }
        lemma_digits_value_grows(d.drop_last(), n);
    } else {
        assert(d.take(n as int) =~= d);
    }
}

/// Clamps a width into the band 20..=400 columns.
pub open spec fn clamp_width(w: u16) -> u16 {
    if w < 20 {
        20
    } else if w > 400 {
        400
    } else {
        w
    }
}

/// The terminal width: the size the terminal reports, else a `COLUMNS` value
/// that parses as a `u16`, clamped to 20..=400; 80 when neither is there.
pub open spec fn spec_width_from(terminal: Option<u16>, columns: Option<Seq<char>>) -> u16 {
    match terminal {
        Some(w) => clamp_width(w),
        None => match columns {
            Some(c) => match spec_parse_u16(c) {
                Some(w) => clamp_width(w),
                None => 80,
            },
            None => 80,
        },
    }
}

/// Decides the terminal width from what the environment reports.
pub fn width_from(terminal: Option<u16>, columns: Option<&str>) -> (w: u16)
    ensures
        w == spec_width_from(terminal, opt_view(columns)),
{
    let raw = match terminal {
        Some(w) => Some(w),
        None => match columns {
            Some(c) => parse_u16(c),
            None => None,
        },
    };
    match raw {
        Some(w) => if w < 20 {
            20
        } else if w > 400 {
            400
        } else {
            w
        },
        None => 80,
    }
}

/// A locale value announces UTF-8 when, lower-cased, it holds `utf-8` or `utf8`.
pub open spec fn locale_is_utf8(v: Seq<char>) -> bool {
    let l = v.map_values(|c: char| ascii_lower(c));
    seq_contains(l, "utf-8"@) || seq_contains(l, "utf8"@)
}

/// Unicode output is assumed when any of `LC_ALL`, `LC_CTYPE`, `LANG` that is
/// set announces UTF-8.
pub open spec fn spec_unicode_from_locale(
    lc_all: Option<Seq<char>>,
    lc_ctype: Option<Seq<char>>,
    lang: Option<Seq<char>>,
) -> bool {
    (lc_all matches Some(v) && locale_is_utf8(v)) || (lc_ctype matches Some(v) && locale_is_utf8(v))
        || (lang matches Some(v) && locale_is_utf8(v))
}

fn announces_utf8(v: Option<&str>) -> (r: bool)
    ensures
        r == (opt_view(v) matches Some(s) && locale_is_utf8(s)),
{
    match v {
        Some(s) => {
            let l = to_ascii_lowercase(s);
            contains(l.as_str(), "utf-8") || contains(l.as_str(), "utf8")
        },
        None => false,
    }
}

/// Decides unicode output from the locale variables (see
/// [`spec_unicode_from_locale`]).
pub fn unicode_from_locale(lc_all: Option<&str>, lc_ctype: Option<&str>, lang: Option<&str>) -> (r:
    bool)
    ensures
        r == spec_unicode_from_locale(opt_view(lc_all), opt_view(lc_ctype), opt_view(lang)),
{
    announces_utf8(lc_all) || announces_utf8(lc_ctype) || announces_utf8(lang)
}

} // verus!
