//! kazari: the line-output face of a command-line tool.
//!
//! Banners, callouts, panels, rules, lists, badges and tables as typed,
//! pure-data blocks that lay out into lines of role-tagged fragments and
//! render under a [`Capability`]: the same value degrades from truecolor
//! through 256 and 16 colors down to plain text, and only the capability
//! supplied at emit time decides which.
pub mod blocks;
pub mod caps;
pub mod ir;
pub mod laws;
pub mod lisp;
pub mod prelude;
pub mod render;
pub mod style;
pub mod text;
pub mod theme;

pub use blocks::{Badge, Banner, Callout, List, ListItem, Panel, Rule, Table};
pub use caps::{AnsiColor, Background, Capability, ColorLevel, Quantized, Rgb};
pub use ir::{CalloutSeverity, Fragment, StyledLine};
pub use render::{render, BlockRender, MockEnvironment, Print, RenderEnvironment};
pub use theme::{Role, Theme};

use vstd::prelude::*;

use crate::style::{spec_from_rgb, spec_paint, spec_resolve, StyleAtom};

verus! {

// ── ergonomic constructors ────────────────────────────────────────────────

/// A callout at an explicit severity.
pub fn callout(severity: CalloutSeverity, message: &str) -> (c: Callout)
    ensures
        c.severity == severity,
        c.message@ == message@,
        c.title is None,
{
    Callout::new(severity, message)
}

/// `✗ error`, Aurora red.
pub fn error(message: &str) -> (c: Callout)
    ensures
        c.severity == CalloutSeverity::Error,
        c.message@ == message@,
        c.title is None,
{
    Callout::new(CalloutSeverity::Error, message)
}

/// `⚠ warn`, Aurora orange.
pub fn warn(message: &str) -> (c: Callout)
    ensures
        c.severity == CalloutSeverity::Warn,
        c.message@ == message@,
        c.title is None,
{
    Callout::new(CalloutSeverity::Warn, message)
}

/// `✓ ok`, Aurora green.
pub fn ok(message: &str) -> (c: Callout)
    ensures
        c.severity == CalloutSeverity::Success,
        c.message@ == message@,
        c.title is None,
{
    Callout::new(CalloutSeverity::Success, message)
}

/// `ℹ info`, Frost blue.
pub fn info(message: &str) -> (c: Callout)
    ensures
        c.severity == CalloutSeverity::Info,
        c.message@ == message@,
        c.title is None,
{
    Callout::new(CalloutSeverity::Info, message)
}

/// `• note`, muted.
pub fn note(message: &str) -> (c: Callout)
    ensures
        c.severity == CalloutSeverity::Note,
        c.message@ == message@,
        c.title is None,
{
    Callout::new(CalloutSeverity::Note, message)
}

/// `» debug`, dim.
pub fn debug(message: &str) -> (c: Callout)
    ensures
        c.severity == CalloutSeverity::Debug,
        c.message@ == message@,
        c.title is None,
{
    Callout::new(CalloutSeverity::Debug, message)
}

/// A framed title banner.
pub fn banner(title: &str) -> (b: Banner)
    ensures
        b.title@ == title@,
        b.snowflake,
{
    Banner::new(title)
}

/// A plain full-width divider.
pub fn rule() -> (r: Rule)
    ensures
        r.label is None,
{
    Rule::new()
}

/// A labelled divider (`── label ────`).
pub fn rule_labelled(label: &str) -> (r: Rule)
    ensures
        blocks::opt_string(r.label) == Some(label@),
{
    Rule::labelled(label)
}

/// An empty aligned key → value panel.
pub fn panel() -> (p: Panel)
    ensures
        p.title is None,
        p.rows@.len() == 0,
{
    Panel::new()
}

/// An empty list.
pub fn list() -> (l: List)
    ensures
        l.items@.len() == 0,
{
    List::new()
}

/// An inline `[ text ]` badge.
pub fn badge(text: &str, role: Role) -> (b: Badge)
    ensures
        b.text@ == text@,
        b.role == role,
{
    Badge::new(text, role)
}

// ── inline painting ───────────────────────────────────────────────────────

/// `text` in a semantic role at the given capability, under the default
/// theme.
pub fn paint_at(text: &str, role: Role, caps: &Capability) -> (s: String)
    ensures
        s@ == spec_paint(spec_resolve(role, Theme::PlemeDark, *caps, false, false), text@),
{
    StyleAtom::resolve(role, Theme::default(), caps, false, false).paint(text)
}

/// `text` in a concrete color (bold / dim) at the given capability; `q`
/// holds the quantizer's decisions for `rgb`.
pub fn paint_rgb_at(rgb: Rgb, text: &str, bold: bool, dim: bool, caps: &Capability, q: Quantized) -> (s:
    String)
    ensures
        s@ == spec_paint(spec_from_rgb(rgb, q, *caps, bold, dim), text@),
{
    StyleAtom::from_rgb(rgb, q, caps, bold, dim).paint(text)
}

} // verus!
