//! Exact output of every block and every rung, and the trusted calls
//! (anstyle's SGR text, irodori's palette, unicode-width's columns) seen
//! through the public API.

use kazari::blocks::Table;
use kazari::caps::{parse_u16, resolve_level, unicode_from_locale, width_from};
use kazari::ir::{checked_line_width, line_width};
use kazari::{
    badge, banner, error, list, panel, paint_at, paint_rgb_at, rule, rule_labelled, warn,
    AnsiColor, BlockRender, CalloutSeverity, Capability, ColorLevel, Fragment, MockEnvironment, Print,
    Quantized, Rgb, Role, Theme,
};

fn at(level: ColorLevel, unicode: bool) -> Capability {
    Capability::fixed(level, 80, unicode)
}

fn plain_at(width: u16) -> Capability {
    Capability::fixed(ColorLevel::NoColor, width, false)
}

/// Squared distance of two colors in linear light (irodori's transfer
/// function).
fn linear_dist(a: Rgb, b: Rgb) -> f32 {
    let la = irodori::Color::new(a.r, a.g, a.b).to_linear();
    let lb = irodori::Color::new(b.r, b.g, b.b).to_linear();
    let dr = la[0] - lb[0];
    let dg = la[1] - lb[1];
    let db = la[2] - lb[2];
    dr * dr + dg * dg + db * db
}

fn nearest_slot(c: Rgb) -> AnsiColor {
    let mut best = AnsiColor::White;
    let mut best_d = f32::MAX;
    for a in AnsiColor::ALL {
        let d = linear_dist(c, a.reference());
        if d < best_d {
            best_d = d;
            best = a;
        }
    }
    best
}

const ROLES: [Role; 11] = [
    Role::Primary,
    Role::Text,
    Role::TextMuted,
    Role::TextDim,
    Role::Border,
    Role::Error,
    Role::Warn,
    Role::Pending,
    Role::Success,
    Role::Info,
    Role::Ident,
];

#[test]
fn theme_decisions_match_the_linear_quantizer() {
    for role in ROLES {
        let c = Theme::PlemeDark.color(role);
        let (_, cube) = c.ansi256_cube();
        let (_, grey) = c.ansi256_grey();
        let expect = Quantized {
            cube_not_farther: linear_dist(c, cube) <= linear_dist(c, grey),
            ansi16: nearest_slot(c),
        };
        assert_eq!(Theme::PlemeDark.quantized(role), expect, "{role:?}");
    }
}

#[test]
fn theme_reads_the_nord_palette() {
    assert_eq!(Theme::PlemeDark.color(Role::Error), Rgb::new(0xBF, 0x61, 0x6A));
    assert_eq!(Theme::PlemeDark.color(Role::Primary), Rgb::new(0x88, 0xC0, 0xD0));
    assert_eq!(Theme::PlemeDark.color(Role::Text), Rgb::new(0xEC, 0xEF, 0xF4));
    assert_eq!(Theme::PlemeDark.color(Role::Border), Rgb::new(0x4C, 0x56, 0x6A));
    assert_eq!(Theme::default(), Theme::PlemeDark);
}

#[test]
fn no_color_callout_is_exactly_the_tag_projection() {
    assert_eq!(error("boom").to_string_at(plain_at(80)), "[ERROR] boom\n");
    let titled = warn("miss").with_title("cache").to_string_at(plain_at(80));
    assert_eq!(titled, "[WARN] cache: miss\n");
}

#[test]
fn truecolor_callout_exact_sgr() {
    let out = error("boom").to_string_at(at(ColorLevel::Truecolor, true));
    assert_eq!(
        out,
        "\u{1b}[38;2;191;97;106m✗\u{1b}[0m \u{1b}[38;2;236;239;244mboom\u{1b}[0m\n"
    );
}

#[test]
fn ansi256_callout_exact_sgr() {
    let out = error("boom").to_string_at(at(ColorLevel::Ansi256, false));
    // nord11 lands on cube cell 16 + 36·3 + 6·1 + 1 = 131.
    assert!(out.starts_with("[\u{1b}[38;5;131mERROR\u{1b}[0m] "), "{out:?}");
}

#[test]
fn ansi16_callout_exact_sgr() {
    let out = error("boom").to_string_at(at(ColorLevel::Ansi16, false));
    assert_eq!(out, "[\u{1b}[90mERROR\u{1b}[0m] \u{1b}[97mboom\u{1b}[0m\n");
}

#[test]
fn paint_at_without_color_is_the_text() {
    assert_eq!(paint_at("x", Role::Error, &Capability::plain()), "x");
    assert_eq!(
        paint_at("x", Role::Error, &at(ColorLevel::Truecolor, true)),
        "\u{1b}[38;2;191;97;106mx\u{1b}[0m"
    );
}

#[test]
fn paint_rgb_at_every_rung() {
    let rgb = Rgb::new(1, 2, 3);
    let q = Quantized { cube_not_farther: true, ansi16: AnsiColor::Red };
    let t = paint_rgb_at(rgb, "x", true, false, &at(ColorLevel::Truecolor, true), q);
    assert_eq!(t, "\u{1b}[1m\u{1b}[38;2;1;2;3mx\u{1b}[0m");
    let i = paint_rgb_at(rgb, "x", false, true, &at(ColorLevel::Ansi256, true), q);
    assert_eq!(i, "\u{1b}[2m\u{1b}[38;5;16mx\u{1b}[0m");
    let s = paint_rgb_at(rgb, "x", false, false, &at(ColorLevel::Ansi16, true), q);
    assert_eq!(s, "\u{1b}[31mx\u{1b}[0m");
    let n = paint_rgb_at(rgb, "x", true, true, &Capability::plain(), q);
    assert_eq!(n, "x");
}

#[test]
fn grey_candidate_is_picked_when_nearer() {
    let q = Quantized { cube_not_farther: false, ansi16: AnsiColor::White };
    let g = paint_rgb_at(Rgb::new(128, 128, 128), "x", false, false, &at(ColorLevel::Ansi256, true), q);
    assert_eq!(g, "\u{1b}[38;5;244mx\u{1b}[0m");
}

#[test]
fn fragment_width_counts_columns() {
    assert_eq!(Fragment::plain("abc").width(), 3);
    assert_eq!(Fragment::plain("日本").width(), 4);
    let line = vec![Fragment::plain("ab"), Fragment::styled("日本", Role::Text)];
    assert_eq!(line_width(&line), 6);
    assert_eq!(checked_line_width(&line), Some(6));
    assert_eq!(checked_line_width(&vec![]), Some(0));
}

#[test]
fn rule_spans_the_width() {
    assert_eq!(rule().to_string_at(plain_at(20)), "--------------------\n");
    assert_eq!(rule_labelled("x").to_string_at(plain_at(20)), "-- x ---------------\n");
    assert_eq!(rule_labelled("much too long").to_string_at(plain_at(20)), "-- much too long ---\n");
    assert_eq!(rule_labelled("a label that is long").to_string_at(plain_at(20)), "-- a label that is long \n");
}

#[test]
fn banner_ascii_box_is_exact() {
    let out = banner("sui").to_string_at(plain_at(80));
    assert_eq!(out, "+-------+\n| * sui |\n+-------+\n");
    let bare = banner("sui").bare().to_string_at(plain_at(80));
    assert_eq!(bare, "+-----+\n| sui |\n+-----+\n");
}

#[test]
fn panel_pads_keys_to_the_widest() {
    let out = kazari::Panel::titled("store")
        .row("path", "/nix/store/abc")
        .row("closure-size", "42 MiB")
        .to_string_at(plain_at(80));
    assert_eq!(out, "store\n  path         : /nix/store/abc\n  closure-size : 42 MiB\n");
    assert_eq!(panel().to_string_at(plain_at(80)), "");
}

#[test]
fn list_markers_per_capability() {
    let l = list().bullet("a").task(CalloutSeverity::Error, "b");
    assert_eq!(l.to_string_at(plain_at(80)), "  - a\n  [ERROR] b\n");
    let u = l.to_string_at(Capability::fixed(ColorLevel::NoColor, 80, true));
    assert_eq!(u, "  • a\n  ✗ b\n");
}

#[test]
fn table_columns_align() {
    let t = Table::new(vec!["A".to_string(), "Bee".to_string()])
        .row(vec!["xx".to_string(), "y".to_string()])
        .row(vec!["z".to_string()]);
    assert_eq!(t.to_string_at(plain_at(80)), "A   Bee\nxx  y  \nz      \n");
}

#[test]
fn badge_is_bracketed() {
    assert_eq!(badge("v1", Role::Ident).to_string_at(plain_at(80)), "[ v1 ]\n");
}

#[test]
fn mock_environment_collects_output() {
    let mut env = MockEnvironment::new(plain_at(80));
    error("a").render_to(&mut env);
    warn("b").render_to(&mut env);
    assert_eq!(env.rendered(), "[ERROR] a\n[WARN] b\n");
    assert!(env.has_no_escapes());
    let mut colored = MockEnvironment::new(at(ColorLevel::Ansi16, true));
    kazari::render(&error("a"), &mut colored);
    assert!(!colored.has_no_escapes());
    assert_eq!(colored.rendered(), error("a").to_string_at(at(ColorLevel::Ansi16, true)));
}

#[test]
fn layout_is_the_same_at_every_depth() {
    let b = banner("sui");
    let plain = b.to_string_at(Capability::fixed(ColorLevel::NoColor, 80, true));
    for level in ColorLevel::ALL {
        let lines = b.layout(&Capability::fixed(level, 80, true), Theme::PlemeDark);
        let text: String = lines
            .iter()
            .map(|l| l.iter().map(|f| f.text.as_str()).collect::<String>() + "\n")
            .collect();
        assert_eq!(text, plain, "{level:?}");
    }
}

#[test]
fn level_precedence_fold() {
    assert_eq!(resolve_level(false, false, false, Some("truecolor"), Some("xterm")), ColorLevel::NoColor);
    assert_eq!(resolve_level(true, false, true, Some("truecolor"), Some("xterm")), ColorLevel::NoColor);
    assert_eq!(resolve_level(false, true, true, None, None), ColorLevel::Ansi16);
    assert_eq!(resolve_level(true, false, false, Some("24bit"), None), ColorLevel::Truecolor);
    assert_eq!(resolve_level(true, false, false, None, Some("xterm-256color")), ColorLevel::Ansi256);
    assert_eq!(resolve_level(true, false, false, None, Some("dumb")), ColorLevel::NoColor);
    assert_eq!(resolve_level(true, true, false, None, Some("")), ColorLevel::Ansi16);
    assert_eq!(resolve_level(true, false, false, None, Some("xterm")), ColorLevel::Ansi16);
    assert_eq!(resolve_level(true, false, false, None, None), ColorLevel::NoColor);
}

#[test]
fn width_is_clamped() {
    assert_eq!(width_from(Some(10), Some("132")), 20);
    assert_eq!(width_from(Some(1000), None), 400);
    assert_eq!(width_from(None, Some("132")), 132);
    assert_eq!(width_from(None, Some("+90")), 90);
    assert_eq!(width_from(None, Some("abc")), 80);
    assert_eq!(width_from(None, Some("70000")), 80);
    assert_eq!(width_from(None, None), 80);
}

#[test]
fn parse_u16_matches_std() {
    for s in ["0", "65535", "65536", "+7", "", "+", "-1", "12a", "007", " 1"] {
        assert_eq!(parse_u16(s), s.parse::<u16>().ok(), "{s:?}");
    }
}

#[test]
fn locale_announces_unicode() {
    assert!(unicode_from_locale(Some("en_US.UTF-8"), None, None));
    assert!(unicode_from_locale(Some("C"), None, Some("ja_JP.utf8")));
    assert!(!unicode_from_locale(None, Some("C"), Some("POSIX")));
    assert!(!unicode_from_locale(None, None, None));
}

#[test]
fn capability_floors() {
    let f = Capability::fixed(ColorLevel::Ansi256, 100, true);
    assert!(f.is_tty && f.unicode && f.width == 100);
    assert!(!Capability::fixed(ColorLevel::NoColor, 100, true).is_tty);
    assert!(ColorLevel::Truecolor.is_colored() && !ColorLevel::NoColor.is_colored());
}

#[test]
fn quantizer_candidates_are_fixed_points() {
    let c = Rgb::new(95, 135, 175);
    let (idx, cube) = c.ansi256_cube();
    assert_eq!(cube, c);
    assert_eq!(idx, 16 + 36 + 12 + 3);
    let (gidx, grey) = Rgb::new(128, 128, 128).ansi256_grey();
    assert_eq!(grey, Rgb::new(128, 128, 128));
    assert_eq!(gidx, 244);
    assert_eq!(grey.ansi256_grey(), (gidx, grey));
    assert_eq!(Rgb::new(200, 10, 99).ansi256_cube().1.ansi256_cube().1, Rgb::new(215, 0, 95));
}

fn accents<B: BlockRender>(b: &B) -> usize {
    b.layout(&plain_at(80), Theme::PlemeDark)
        .iter()
        .map(|l| l.iter().filter(|f| f.role == Some(Role::Primary)).count())
        .sum()
}

#[test]
fn at_most_one_accent_per_block() {
    assert_eq!(accents(&banner("sui")), 1);
    assert_eq!(accents(&kazari::Panel::titled("t").row("k", "v")), 1);
    assert_eq!(accents(&panel().row("k", "v")), 0);
    assert_eq!(accents(&error("x").with_title("y")), 0);
    assert_eq!(accents(&list().bullet("a").task(CalloutSeverity::Warn, "b")), 1);
    // Two plain bullets are two accents: the one shape the rule does not cover.
    assert_eq!(accents(&list().bullet("a").bullet("b")), 2);
}

#[test]
fn line_width_adds_up_over_joined_lines() {
    let a = vec![Fragment::plain("ab"), Fragment::accent("日本", Role::Primary)];
    let b = vec![Fragment::faint("xyz", Role::TextDim)];
    let mut joined = a.clone();
    joined.extend(b.clone());
    assert_eq!(line_width(&joined), line_width(&a) + line_width(&b));
    assert_eq!(line_width(&vec![]), 0);
    let restyled = vec![Fragment::styled("ab", Role::Error), Fragment::plain("日本")];
    assert_eq!(line_width(&restyled), line_width(&a));
}

#[test]
fn code_families_need_semicolon_free_text() {
    // A message that itself spells a 24-bit code shows it at every depth:
    // the family law holds for text without `;`.
    let out = error("a;38;2;b").to_string_at(at(ColorLevel::Ansi256, true));
    assert!(out.contains("38;2;") && out.contains("38;5;"));
    let plain = error("ok").to_string_at(at(ColorLevel::Ansi256, true));
    assert!(!plain.contains("38;2;") && plain.contains("38;5;"));
}

fn widths<B: BlockRender>(b: &B, caps: Capability) -> Vec<usize> {
    b.layout(&caps, Theme::PlemeDark).iter().map(|l| line_width(l)).collect()
}

#[test]
fn banner_box_closes_in_columns() {
    for unicode in [false, true] {
        let caps = Capability::fixed(ColorLevel::Truecolor, 80, unicode);
        // "❄ 日本 ok" (unicode) or "* 日本 ok": the content's width plus four.
        let content = if unicode { "❄ 日本 ok" } else { "* 日本 ok" };
        let w = Fragment::plain(content).width();
        assert_eq!(widths(&banner("日本 ok"), caps), vec![w + 4, w + 4, w + 4]);
    }
}

#[test]
fn panel_separators_share_a_column() {
    let p = kazari::Panel::titled("t").row("日本", "a").row("path", "b").row("", "c");
    for unicode in [false, true] {
        let lines = p.layout(&Capability::fixed(ColorLevel::NoColor, 80, unicode), Theme::PlemeDark);
        for l in &lines[1..] {
            assert_eq!(l[0].width(), 4 + 2);
            assert_eq!(l[1].text, " : ");
        }
    }
}

#[test]
fn rule_line_width_is_the_larger_of_width_and_label() {
    for unicode in [false, true] {
        let caps = Capability::fixed(ColorLevel::NoColor, 20, unicode);
        assert_eq!(widths(&rule(), caps), vec![20]);
        assert_eq!(widths(&rule_labelled("日本"), caps), vec![20]);
        assert_eq!(widths(&rule_labelled("a label that is much too long"), caps), vec![29 + 4]);
    }
}

#[test]
fn spaces_and_frame_glyphs_measure_one_column_each() {
    assert_eq!(Fragment::plain("╭──╮│╰╯+-|  ~").width(), 13);
    assert_eq!(Fragment::plain("  日本 ").width(), 7);
    assert_eq!(Fragment::plain(" \u{FE0F}x").width(), 2);
    assert_eq!(Fragment::plain("#\u{FE0F} ").width(), 3);
}
