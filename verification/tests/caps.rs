//! The capability wall and the quantizer.

use kazari::{AnsiColor, Capability, ColorLevel, Rgb};

/// Squared distance of two colors in linear light, through irodori's
/// sRGB transfer function (the quantizer's metric).
fn linear_dist(a: Rgb, b: Rgb) -> f32 {
    let la = irodori::Color::new(a.r, a.g, a.b).to_linear();
    let lb = irodori::Color::new(b.r, b.g, b.b).to_linear();
    let dr = la[0] - lb[0];
    let dg = la[1] - lb[1];
    let db = la[2] - lb[2];
    dr * dr + dg * dg + db * db
}

/// The full 256-color quantization: the verified candidates, picked by
/// linear distance.
fn to_ansi256(c: Rgb) -> u8 {
    let (_, cube) = c.ansi256_cube();
    let (_, grey) = c.ansi256_grey();
    c.ansi256_choose(linear_dist(c, cube) <= linear_dist(c, grey))
}

/// The nearest ANSI slot in linear light (first one on a tie).
fn to_ansi16(c: Rgb) -> AnsiColor {
    let mut best = AnsiColor::White;
    let mut best_d = f32::MAX;
    for a in AnsiColor::ALL {
        let d = linear_dist(c, a.reference());
        if d < best_d {
            best_d = d;
            best = a;
        }
    }
    best
}

#[test]
fn ansi256_cube_anchors() {
    assert_eq!(to_ansi256(Rgb::new(0, 0, 0)), 16, "black is cube 16");
    assert_eq!(to_ansi256(Rgb::new(255, 255, 255)), 231, "white is cube 231");
}

#[test]
fn ansi256_grey_ramp() {
    // A pure mid-grey lands on the 24-step ramp (232..=255), not the cube.
    let g = to_ansi256(Rgb::new(128, 128, 128));
    assert!((232..=255).contains(&g), "mid grey -> ramp: {g}");
}

#[test]
fn ansi16_anchors() {
    assert_eq!(to_ansi16(Rgb::new(0, 0, 0)), AnsiColor::Black);
    assert_eq!(to_ansi16(Rgb::new(255, 255, 255)), AnsiColor::BrightWhite);
    assert_eq!(to_ansi16(Rgb::new(255, 0, 0)), AnsiColor::BrightRed);
    assert_eq!(to_ansi16(Rgb::new(128, 0, 0)), AnsiColor::Red);
}

#[test]
fn plain_capability_is_the_pipe_floor() {
    let c = Capability::plain();
    assert_eq!(c.level, ColorLevel::NoColor);
    assert!(!c.is_tty);
}
