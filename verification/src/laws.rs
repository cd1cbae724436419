//! What holds of every block, every capability and every color.
//!
//! The capability wall: a block's layout never depends on the color depth,
//! and without color the emitted text is exactly the layout's plain text.
//! The depth ladder: each rung emits its own SGR form and no other.
use vstd::prelude::*;

use crate::caps::{
    ansi256_index, cube_color, cube_index, grey_color, grey_index, spec_resolve_level,
    spec_width_from, Capability, ColorLevel, Quantized, Rgb,
};
use crate::text::seq_contains;
use crate::blocks::{
    banner_content, callout_line, cell_width, column_width, glyph_bullet, glyph_h, glyph_v,
    max_key_width, opt_string, rule_rest, Banner, Callout, List, Panel, Rule, Table,
};
use crate::ir::{spec_line_width, display_width, severity_role, severity_tag, CalloutSeverity, FragmentView};
use crate::text::spec_repeat;
use crate::blocks::{badge_line, banner_lines, list_item_line, list_lines, panel_lines, rule_line, table_line, table_lines, ListItem};
use crate::lisp::Block;
use crate::render::{frag_out, line_out, lines_out, BlockRender};
use crate::style::{
    esc, plain_atom, sgr_close, sgr_open, spec_from_rgb, spec_paint, spec_resolve, SgrColor,
};
use crate::theme::{Role, Theme};

verus! {

// ── plain text of a layout ────────────────────────────────────────────────

/// The text of a line with its styling dropped.
pub open spec fn line_text(line: Seq<FragmentView>) -> Seq<char>
    decreases line.len(),
{
    if line.len() == 0 {
        Seq::empty()
    } else {
        line_text(line.drop_last()) + line.last().text
    }
}

/// The text of a layout with its styling dropped, each line ended by a
/// newline.
pub open spec fn lines_text(lines: Seq<Seq<FragmentView>>) -> Seq<char>
    decreases lines.len(),
{
    if lines.len() == 0 {
        Seq::empty()
    } else {
        lines_text(lines.drop_last()) + line_text(lines.last()) + seq!['\n']
    }
}

/// No fragment of the layout holds an escape character.
pub open spec fn escape_free(lines: Seq<Seq<FragmentView>>) -> bool {
    forall|i: int, j: int|
        0 <= i < lines.len() && 0 <= j < lines[i].len() ==> !(#[trigger] lines[i][j]).text.contains(
            esc(),
        )
}

proof fn lemma_concat_lacks(a: Seq<char>, b: Seq<char>, c: char)
    requires
        !a.contains(c),
        !b.contains(c),
    ensures
        !(a + b).contains(c),
{
    assert forall|k: int| 0 <= k < (a + b).len() implies (a + b)[k] != c by {
        if k < a.len() {
            assert((a + b)[k] == a[k]);
        } else {
            assert((a + b)[k] == b[k - a.len()]);
        }
    }
}

proof fn lemma_line_no_color(line: Seq<FragmentView>, caps: Capability, theme: Theme)
    requires
        caps.level == ColorLevel::NoColor,
    ensures
        line_out(line, caps, theme) == line_text(line),
    decreases line.len(),
{
    if line.len() > 0 {
        lemma_line_no_color(line.drop_last(), caps, theme);
        let f = line.last();
        assert(sgr_open(plain_atom()) =~= Seq::<char>::empty());
        assert(sgr_close(plain_atom()) =~= Seq::<char>::empty());
        assert(spec_paint(plain_atom(), f.text) =~= f.text);
        assert(frag_out(f, caps, theme) == f.text);
    }
}

/// Without color, what a layout emits is exactly its plain text: no SGR is
/// added anywhere.
pub proof fn law_no_color_emits_plain_text(
    lines: Seq<Seq<FragmentView>>,
    caps: Capability,
    theme: Theme,
)
    requires
        caps.level == ColorLevel::NoColor,
    ensures
        lines_out(lines, caps, theme) == lines_text(lines),
    decreases lines.len(),
{
    if lines.len() > 0 {
        law_no_color_emits_plain_text(lines.drop_last(), caps, theme);
        lemma_line_no_color(lines.last(), caps, theme);
    }
}

proof fn lemma_line_text_lacks(line: Seq<FragmentView>, c: char)
    requires
        forall|j: int| 0 <= j < line.len() ==> !(#[trigger] line[j]).text.contains(c),
    ensures
        !line_text(line).contains(c),
    decreases line.len(),
{
    if line.len() > 0 {
        lemma_line_text_lacks(line.drop_last(), c);
        assert(!line[line.len() - 1].text.contains(c));
        lemma_concat_lacks(line_text(line.drop_last()), line.last().text, c);
    } else {
        assert(line_text(line) =~= Seq::<char>::empty());
    }
}

proof fn lemma_lines_text_lacks_escape(lines: Seq<Seq<FragmentView>>)
    requires
        escape_free(lines),
    ensures
        !lines_text(lines).contains(esc()),
    decreases lines.len(),
{
    if lines.len() > 0 {
        let init = lines.drop_last();
        assert forall|i: int, j: int| 0 <= i < init.len() && 0 <= j < init[i].len() implies !(
        #[trigger] init[i][j]).text.contains(esc()) by {
            assert(init[i] == lines[i]);
        }
        lemma_lines_text_lacks_escape(init);
        let last = lines.last();
        assert forall|j: int| 0 <= j < last.len() implies !(#[trigger] last[j]).text.contains(
            esc(),
        ) by {
            assert(last[j] == lines[lines.len() - 1][j]);
        }
        lemma_line_text_lacks(last, esc());
        lemma_concat_lacks(lines_text(init), line_text(last), esc());
        assert(!seq!['\n'].contains(esc())) by {
            assert(seq!['\n'][0] != esc());
        }
        lemma_concat_lacks(lines_text(init) + line_text(last), seq!['\n'], esc());
    } else {
        assert(lines_text(lines) =~= Seq::<char>::empty());
    }
}

/// Without color, a layout whose texts hold no escape character emits none:
/// every escape byte on the `NO_COLOR` rung would have to come from the
/// caller's own text.
pub proof fn law_no_color_emits_no_escape(
    lines: Seq<Seq<FragmentView>>,
    caps: Capability,
    theme: Theme,
)
    requires
        caps.level == ColorLevel::NoColor,
        escape_free(lines),
    ensures
        !lines_out(lines, caps, theme).contains(esc()),
{
    law_no_color_emits_plain_text(lines, caps, theme);
    lemma_lines_text_lacks_escape(lines);
}

// ── the layout carries no color depth ─────────────────────────────────────

/// A block's layout depends on the capability's width and unicode support
/// alone: never on the color depth, the terminal flag, the background or the
/// theme.
pub proof fn law_layout_ignores_depth(
    block: Block,
    caps1: Capability,
    caps2: Capability,
    theme1: Theme,
    theme2: Theme,
)
    requires
        caps1.width == caps2.width,
        caps1.unicode == caps2.unicode,
    ensures
        block.spec_layout(caps1, theme1) == block.spec_layout(caps2, theme2),
{
}

// ── line width ────────────────────────────────────────────────────────────

/// A line's width is the sum of its fragments' display widths: an empty
/// line is zero columns wide, one fragment is as wide as its text, and the
/// width of two lines joined is the sum of their widths.
pub proof fn law_line_width_sums(a: Seq<FragmentView>, b: Seq<FragmentView>, f: FragmentView)
    ensures
        spec_line_width(Seq::<FragmentView>::empty()) == 0,
        spec_line_width(seq![f]) == display_width(f.text),
        spec_line_width(a + b) == spec_line_width(a) + spec_line_width(b),
    decreases b.len(),
{
    assert(seq![f].drop_last() =~= Seq::<FragmentView>::empty());
    if b.len() == 0 {
        assert(a + b =~= a);
    } else {
        assert((a + b).drop_last() =~= a + b.drop_last());
        assert((a + b).last() == b.last());
        law_line_width_sums(a, b.drop_last(), f);
    }
}

/// Role, weight and dimness never change a line's width: lines with the
/// same texts are equally wide.
pub proof fn law_line_width_ignores_style(a: Seq<FragmentView>, b: Seq<FragmentView>)
    requires
        a.len() == b.len(),
        forall|i: int| 0 <= i < a.len() ==> (#[trigger] a[i]).text == b[i].text,
    ensures
        spec_line_width(a) == spec_line_width(b),
    decreases a.len(),
{
    if a.len() > 0 {
        assert forall|i: int| 0 <= i < a.drop_last().len() implies (#[trigger] a.drop_last()[i]).text
            == b.drop_last()[i].text by {
            assert(a.drop_last()[i] == a[i]);
            assert(b.drop_last()[i] == b[i]);
        }
        law_line_width_ignores_style(a.drop_last(), b.drop_last());
        assert(a.last().text == b.last().text) by {
            assert(a[a.len() - 1].text == b[a.len() - 1].text);
        }
    }
}

// ── severity names ────────────────────────────────────────────────────────

/// ASCII lower-casing of a text.
pub open spec fn lower(s: Seq<char>) -> Seq<char> {
    s.map_values(|c: char| crate::text::ascii_lower(c))
}

/// The six severity names a form accepts.
pub open spec fn is_severity_name(sym: Seq<char>) -> bool {
    sym == "note"@ || sym == "info"@ || sym == "ok"@ || sym == "warn"@ || sym == "error"@ || sym
        == "debug"@
}

/// A severity's tag, lower-cased, reads back as that severity; any other
/// symbol is refused as an unknown severity.
pub proof fn law_severity_tag_round_trip(sev: CalloutSeverity, sym: Seq<char>)
    ensures
        crate::lisp::spec_severity(lower(severity_tag(sev))) == Ok::<CalloutSeverity, crate::lisp::LispErrorView>(sev),
        !is_severity_name(sym) ==> crate::lisp::spec_severity(sym) == Err::<
            CalloutSeverity,
            crate::lisp::LispErrorView,
        >(crate::lisp::LispErrorView::BadArg("unknown severity"@)),
{
    reveal_strlit("NOTE");
    reveal_strlit("INFO");
    reveal_strlit("OK");
    reveal_strlit("WARN");
    reveal_strlit("ERROR");
    reveal_strlit("DEBUG");
    reveal_strlit("note");
    reveal_strlit("info");
    reveal_strlit("ok");
    reveal_strlit("warn");
    reveal_strlit("error");
    reveal_strlit("debug");
    assert("info"@[0] != "note"@[0]);
    assert("warn"@[0] != "note"@[0] && "warn"@[0] != "info"@[0]);
    assert("debug"@[0] != "error"@[0]);
    let low = lower(severity_tag(sev));
    match sev {
        CalloutSeverity::Note => {
            assert(low =~= "note"@);
            assert(crate::lisp::spec_severity(low) == Ok::<CalloutSeverity, crate::lisp::LispErrorView>(
                CalloutSeverity::Note,
            ));
        },
        CalloutSeverity::Info => {
            assert(low =~= "info"@);
            assert(crate::lisp::spec_severity(low) == Ok::<CalloutSeverity, crate::lisp::LispErrorView>(
                CalloutSeverity::Info,
            ));
        },
        CalloutSeverity::Success => {
            assert(low =~= "ok"@);
            assert(crate::lisp::spec_severity(low) == Ok::<CalloutSeverity, crate::lisp::LispErrorView>(
                CalloutSeverity::Success,
            ));
        },
        CalloutSeverity::Warn => {
            assert(low =~= "warn"@);
            assert(crate::lisp::spec_severity(low) == Ok::<CalloutSeverity, crate::lisp::LispErrorView>(
                CalloutSeverity::Warn,
            ));
        },
        CalloutSeverity::Error => {
            assert(low =~= "error"@);
            assert(crate::lisp::spec_severity(low) == Ok::<CalloutSeverity, crate::lisp::LispErrorView>(
                CalloutSeverity::Error,
            ));
        },
        CalloutSeverity::Debug => {
            assert(low =~= "debug"@);
            assert(crate::lisp::spec_severity(low) == Ok::<CalloutSeverity, crate::lisp::LispErrorView>(
                CalloutSeverity::Debug,
            ));
        },
    }
}

// ── the depth ladder ──────────────────────────────────────────────────────

/// Each rung of the ladder emits its own form and no other: 24-bit color
/// exactly at truecolor, an indexed color exactly at 256, a 16-color slot
/// exactly at 16, and the empty style exactly without color.
pub proof fn law_role_depth_ladder(role: Role, theme: Theme, caps: Capability, bold: bool, dim: bool)
    ensures
        (spec_resolve(role, theme, caps, bold, dim) == plain_atom()) <==> caps.level
            == ColorLevel::NoColor,
        (spec_resolve(role, theme, caps, bold, dim).fg matches Some(SgrColor::Rgb(_))) <==> caps.level
            == ColorLevel::Truecolor,
        (spec_resolve(role, theme, caps, bold, dim).fg matches Some(SgrColor::Ansi256(_)))
            <==> caps.level == ColorLevel::Ansi256,
        (spec_resolve(role, theme, caps, bold, dim).fg matches Some(SgrColor::Ansi(_))) <==> caps.level
            == ColorLevel::Ansi16,
{
}

/// The same ladder for a concrete color.
pub proof fn law_rgb_depth_ladder(rgb: Rgb, q: Quantized, caps: Capability, bold: bool, dim: bool)
    ensures
        (spec_from_rgb(rgb, q, caps, bold, dim) == plain_atom()) <==> caps.level
            == ColorLevel::NoColor,
        (spec_from_rgb(rgb, q, caps, bold, dim).fg matches Some(SgrColor::Rgb(c)) && c == rgb)
            <==> caps.level == ColorLevel::Truecolor,
        (spec_from_rgb(rgb, q, caps, bold, dim).fg matches Some(SgrColor::Ansi256(_))) <==> caps.level
            == ColorLevel::Ansi256,
        (spec_from_rgb(rgb, q, caps, bold, dim).fg matches Some(SgrColor::Ansi(_))) <==> caps.level
            == ColorLevel::Ansi16,
{
}

/// The empty style wraps text in nothing.
pub proof fn law_plain_paint_is_identity(text: Seq<char>)
    ensures
        spec_paint(plain_atom(), text) == text,
{
    assert(sgr_open(plain_atom()) =~= Seq::<char>::empty());
    assert(sgr_close(plain_atom()) =~= Seq::<char>::empty());
    assert(spec_paint(plain_atom(), text) =~= text);
}

/// Any style that sets something opens with an escape sequence.
pub proof fn law_styled_paint_opens_with_escape(a: crate::style::StyleAtom, text: Seq<char>)
    requires
        a != plain_atom(),
    ensures
        spec_paint(a, text).len() > 0,
        spec_paint(a, text)[0] == esc(),
{
    let o = sgr_open(a);
    assert(o.len() > 0 && o[0] == esc());
    assert(spec_paint(a, text)[0] == o[0]);
}

// ── the 256-color quantizer ───────────────────────────────────────────────

/// A 256-color quantization always lands in the extended range: the cube
/// (16..=231) or the grey ramp (232..=255), never the 16 terminal slots.
pub proof fn law_ansi256_range(rgb: Rgb, cube_not_farther: bool)
    ensures
        16 <= cube_index(rgb) <= 231,
        232 <= grey_index(rgb) <= 255,
        16 <= ansi256_index(rgb, cube_not_farther) <= 255,
        cube_not_farther ==> ansi256_index(rgb, cube_not_farther) <= 231,
        !cube_not_farther ==> ansi256_index(rgb, cube_not_farther) >= 232,
{
}

/// A cube color quantizes to itself, and so does a grey-ramp color: the
/// candidates are fixed points.
pub proof fn law_quantizer_fixed_points(rgb: Rgb)
    ensures
        cube_color(cube_color(rgb)) == cube_color(rgb),
        grey_color(grey_color(rgb)) == grey_color(rgb),
        cube_index(cube_color(rgb)) == cube_index(rgb),
        grey_index(grey_color(rgb)) == grey_index(rgb),
{
}

// ── callouts ──────────────────────────────────────────────────────────────

proof fn lemma_line_out_concat(a: Seq<FragmentView>, b: Seq<FragmentView>, caps: Capability, theme: Theme)
    ensures
        line_out(a + b, caps, theme) == line_out(a, caps, theme) + line_out(b, caps, theme),
    decreases b.len(),
{
    if b.len() == 0 {
        assert(a + b =~= a);
        assert(line_out(b, caps, theme) =~= Seq::<char>::empty());
    } else {
        assert((a + b).drop_last() =~= a + b.drop_last());
        assert((a + b).last() == b.last());
        lemma_line_out_concat(a, b.drop_last(), caps, theme);
    }
}

proof fn lemma_line_text_concat(a: Seq<FragmentView>, b: Seq<FragmentView>)
    ensures
        line_text(a + b) == line_text(a) + line_text(b),
    decreases b.len(),
{
    if b.len() == 0 {
        assert(a + b =~= a);
        assert(line_text(b) =~= Seq::<char>::empty());
    } else {
        assert((a + b).drop_last() =~= a + b.drop_last());
        assert((a + b).last() == b.last());
        lemma_line_text_concat(a, b.drop_last());
    }
}

proof fn lemma_line_out_single(f: FragmentView, caps: Capability, theme: Theme)
    ensures
        line_out(seq![f], caps, theme) == frag_out(f, caps, theme),
{
    let s = seq![f];
    assert(s.drop_last() =~= Seq::<FragmentView>::empty());
    assert(line_out(s.drop_last(), caps, theme) =~= Seq::<char>::empty());
    assert(line_out(s, caps, theme) =~= frag_out(f, caps, theme));
}

proof fn lemma_line_text_single(f: FragmentView)
    ensures
        line_text(seq![f]) == f.text,
{
    let s = seq![f];
    assert(s.drop_last() =~= Seq::<FragmentView>::empty());
    assert(line_text(s.drop_last()) =~= Seq::<char>::empty());
    assert(line_text(s) =~= f.text);
}

proof fn lemma_one_line_out(line: Seq<FragmentView>, caps: Capability, theme: Theme)
    ensures
        lines_out(seq![line], caps, theme) == line_out(line, caps, theme) + seq!['\n'],
        lines_text(seq![line]) == line_text(line) + seq!['\n'],
{
    let s = seq![line];
    assert(s.drop_last() =~= Seq::<Seq<FragmentView>>::empty());
    assert(lines_out(s.drop_last(), caps, theme) =~= Seq::<char>::empty());
    assert(lines_text(s.drop_last()) =~= Seq::<char>::empty());
    assert(lines_out(s, caps, theme) =~= line_out(line, caps, theme) + seq!['\n']);
    assert(lines_text(s) =~= line_text(line) + seq!['\n']);
}

/// On every colored rung a callout emits SGR: its severity mark is painted.
pub proof fn law_colored_callout_emits_escape(c: Callout, caps: Capability, theme: Theme)
    requires
        caps.level != ColorLevel::NoColor,
    ensures
        lines_out(c.spec_layout(caps, theme), caps, theme).contains(esc()),
{
    let line = callout_line(c.severity, c.message@, opt_string(c.title), caps.unicode);
    assert(c.spec_layout(caps, theme) == seq![line]);
    lemma_one_line_out(line, caps, theme);
    let out = lines_out(seq![line], caps, theme);
    let k: int = if caps.unicode {
        0
    } else {
        1
    };
    let f = line[k];
    assert(f.role is Some);
    let atom = spec_resolve(f.role.unwrap(), theme, caps, f.bold, f.dim);
    assert(atom != plain_atom());
    law_styled_paint_opens_with_escape(atom, f.text);
    assert(frag_out(f, caps, theme) == spec_paint(atom, f.text));
    let rest = line.skip(k + 1);
    lemma_line_out_single(f, caps, theme);
    if caps.unicode {
        assert(line =~= seq![f] + rest);
        lemma_line_out_concat(seq![f], rest, caps, theme);
        assert(out[0] == esc());
    } else {
        let f0 = line[0];
        assert(line =~= seq![f0] + seq![f] + rest);
        lemma_line_out_concat(seq![f0] + seq![f], rest, caps, theme);
        lemma_line_out_concat(seq![f0], seq![f], caps, theme);
        lemma_line_out_single(f0, caps, theme);
        reveal_strlit("[");
        assert(frag_out(f0, caps, theme) == "["@);
        assert(out[1] == esc());
    }
}

/// The plain projection of a callout: `[TAG] `, the `title: ` lead-in when
/// there is one, the message, a newline.
pub open spec fn callout_plain(
    severity: CalloutSeverity,
    message: Seq<char>,
    title: Option<Seq<char>>,
) -> Seq<char> {
    "["@ + severity_tag(severity) + "] "@ + (match title {
        Some(t) => t + ": "@,
        None => Seq::empty(),
    }) + message + seq!['\n']
}

/// Without color and unicode a callout emits exactly its `[TAG]` projection.
pub proof fn law_callout_plain_projection(c: Callout, caps: Capability, theme: Theme)
    requires
        caps.level == ColorLevel::NoColor,
        !caps.unicode,
    ensures
        lines_out(c.spec_layout(caps, theme), caps, theme) == callout_plain(
            c.severity,
            c.message@,
            opt_string(c.title),
        ),
{
    let line = callout_line(c.severity, c.message@, opt_string(c.title), caps.unicode);
    let lines = c.spec_layout(caps, theme);
    assert(lines == seq![line]);
    law_no_color_emits_plain_text(lines, caps, theme);
    lemma_one_line_out(line, caps, theme);
    let role = crate::ir::severity_role(c.severity);
    let f0 = crate::ir::plain_frag("["@);
    let f1 = crate::ir::styled_frag(severity_tag(c.severity), role);
    let f2 = crate::ir::plain_frag("] "@);
    let fm = crate::ir::styled_frag(c.message@, crate::theme::Role::Text);
    lemma_line_text_single(f0);
    lemma_line_text_single(f1);
    lemma_line_text_single(f2);
    lemma_line_text_single(fm);
    let mark = seq![f0] + seq![f1] + seq![f2];
    lemma_line_text_concat(seq![f0], seq![f1]);
    lemma_line_text_concat(seq![f0] + seq![f1], seq![f2]);
    let lead_text: Seq<char> = match opt_string(c.title) {
        Some(t) => t + ": "@,
        None => Seq::empty(),
    };
    let lead = match opt_string(c.title) {
        Some(t) => seq![crate::ir::accent_frag(t, role)] + seq![crate::ir::plain_frag(": "@)],
        None => Seq::<FragmentView>::empty(),
    };
    match opt_string(c.title) {
        Some(t) => {
            lemma_line_text_single(crate::ir::accent_frag(t, role));
            lemma_line_text_single(crate::ir::plain_frag(": "@));
            lemma_line_text_concat(
                seq![crate::ir::accent_frag(t, role)],
                seq![crate::ir::plain_frag(": "@)],
            );
        },
        None => {
            assert(line_text(lead) =~= Seq::<char>::empty());
        },
    }
    assert(line_text(lead) == lead_text);
    assert(line =~= mark + lead + seq![fm]);
    lemma_line_text_concat(mark + lead, seq![fm]);
    lemma_line_text_concat(mark, lead);
    assert(lines_out(lines, caps, theme) =~= callout_plain(
        c.severity,
        c.message@,
        opt_string(c.title),
    ));
}

// ── structural blocks ─────────────────────────────────────────────────────

/// A banner is a three-line box whose borders run over exactly the framed
/// content plus one padding column each side.
pub proof fn law_banner_is_three_line_box(b: Banner, caps: Capability, theme: Theme)
    ensures
        b.spec_layout(caps, theme).len() == 3,
        b.spec_layout(caps, theme)[0].len() == 1,
        b.spec_layout(caps, theme)[1].len() == 5,
        b.spec_layout(caps, theme)[2].len() == 1,
        b.spec_layout(caps, theme)[1][0].text == glyph_v(caps.unicode),
        b.spec_layout(caps, theme)[1][2].text == banner_content(b.title@, b.snowflake, caps.unicode),
        b.spec_layout(caps, theme)[1][4].text == glyph_v(caps.unicode),
        display_width(banner_content(b.title@, b.snowflake, caps.unicode)) + 2 <= usize::MAX ==> {
            let inner = (display_width(banner_content(b.title@, b.snowflake, caps.unicode)) + 2) as nat;
            &&& b.spec_layout(caps, theme)[0][0].text == crate::blocks::glyph_tl(caps.unicode)
                + spec_repeat(glyph_h(caps.unicode), inner) + crate::blocks::glyph_tr(caps.unicode)
            &&& b.spec_layout(caps, theme)[2][0].text == crate::blocks::glyph_bl(caps.unicode)
                + spec_repeat(glyph_h(caps.unicode), inner) + crate::blocks::glyph_br(caps.unicode)
        },
{
}

/// Panel keys align: every row's key is padded with spaces up to the widest
/// key, so every ` : ` separator starts in the same column.
pub proof fn law_panel_keys_align(p: Panel, caps: Capability, theme: Theme, i: int)
    requires
        0 <= i < p.rows@.len(),
    ensures
        ({
            let head: int = if p.title is Some {
                1
            } else {
                0
            };
            let line = p.spec_layout(caps, theme)[head + i];
            let key = p.rows@[i].0@;
            &&& p.spec_layout(caps, theme).len() == head + p.rows@.len()
            &&& display_width(key) <= max_key_width(p.rows@)
            &&& line.len() == 3
            &&& line[0].text == "  "@ + key + spec_repeat(
                " "@,
                (max_key_width(p.rows@) - display_width(key)) as nat,
            )
            &&& line[1].text == " : "@
            &&& line[2].text == p.rows@[i].1@
        }),
{
    crate::blocks::lemma_max_key_width_bounds(p.rows@, i);
}

/// A list lays out one line per item, in order: the marker (the severity's
/// `[TAG]` in ASCII, its glyph in unicode, in the severity's role; the
/// bullet otherwise), then the item text.
pub proof fn law_list_one_line_per_item(l: List, caps: Capability, theme: Theme, i: int)
    requires
        0 <= i < l.items@.len(),
    ensures
        l.spec_layout(caps, theme).len() == l.items@.len(),
        l.spec_layout(caps, theme)[i].len() == 4,
        l.spec_layout(caps, theme)[i][3].text == l.items@[i].text@,
        match l.items@[i].status {
            Some(sev) => {
                &&& l.spec_layout(caps, theme)[i][1].role == Some(severity_role(sev))
                &&& !caps.unicode ==> l.spec_layout(caps, theme)[i][1].text == seq!['[']
                    + severity_tag(sev) + seq![']']
            },
            None => l.spec_layout(caps, theme)[i][1].text == glyph_bullet(caps.unicode),
        },
{
}

/// A rule spans the terminal: an unlabelled rule is `width` rule glyphs; a
/// labelled one spends the two-glyph lead, two spaces, the label and the rest
/// so that they add up to the width whenever the label fits.
pub proof fn law_rule_spans_width(r: Rule, caps: Capability, theme: Theme)
    ensures
        r.spec_layout(caps, theme).len() == 1,
        match opt_string(r.label) {
            None => r.spec_layout(caps, theme)[0][0].text == spec_repeat(
                glyph_h(caps.unicode),
                caps.width as nat,
            ),
            Some(label) => {
                let rest = rule_rest(caps.width as int, display_width(label) as int);
                &&& r.spec_layout(caps, theme)[0][1].text == label
                &&& r.spec_layout(caps, theme)[0][3].text == spec_repeat(glyph_h(caps.unicode), rest)
                &&& display_width(label) + 4 <= caps.width ==> 2 + 1 + display_width(label) + 1 + rest
                    == caps.width
            },
        },
{
}

proof fn lemma_column_width_bounds(headers: Seq<String>, rows: Seq<Vec<String>>, c: int)
    ensures
        cell_width(headers, c) <= column_width(headers, rows, c),
        forall|r: int| 0 <= r < rows.len() ==> cell_width(#[trigger] rows[r]@, c) <= column_width(headers, rows, c),
    decreases rows.len(),
{
    if rows.len() > 0 {
        lemma_column_width_bounds(headers, rows.drop_last(), c);
        assert forall|r: int| 0 <= r < rows.len() implies cell_width(#[trigger] rows[r]@, c)
            <= column_width(headers, rows, c) by {
            if r < rows.len() - 1 {
                assert(rows.drop_last()[r] == rows[r]);
            }
        }
    }
}

/// A table lays out a header line and one line per row, each with one
/// fragment per header column, every cell padded to its column's widest
/// cell.
pub proof fn law_table_columns_align(t: Table, caps: Capability, theme: Theme, r: int, c: int)
    requires
        0 <= r <= t.rows@.len(),
        0 <= c < t.headers@.len(),
    ensures
        ({
            let row = if r == 0 {
                t.headers@
            } else {
                t.rows@[r - 1]@
            };
            let w = column_width(t.headers@, t.rows@, c);
            &&& t.spec_layout(caps, theme).len() == t.rows@.len() + 1
            &&& t.spec_layout(caps, theme)[r].len() == t.headers@.len()
            &&& cell_width(row, c) <= w
            &&& t.spec_layout(caps, theme)[r][c].text == (if c > 0 {
                "  "@
            } else {
                Seq::empty()
            }) + crate::blocks::cell_text(row, c) + spec_repeat(" "@, (w - cell_width(row, c)) as nat)
        }),
{
    lemma_column_width_bounds(t.headers@, t.rows@, c);
}

// ── deciding the capability ───────────────────────────────────────────────

/// The precedence fold: `CLICOLOR_FORCE` overrides everything, even a pipe,
/// and always yields color; otherwise `NO_COLOR` or a non-terminal yields no
/// color; a `COLORTERM` announcing 24-bit color yields truecolor whenever
/// color is allowed at all.
pub proof fn law_level_precedence(
    is_tty: bool,
    forced: bool,
    no_color: bool,
    colorterm: Option<Seq<char>>,
    term: Option<Seq<char>>,
)
    ensures
        forced ==> spec_resolve_level(is_tty, forced, no_color, colorterm, term)
            != ColorLevel::NoColor,
        !forced && (no_color || !is_tty) ==> spec_resolve_level(
            is_tty,
            forced,
            no_color,
            colorterm,
            term,
        ) == ColorLevel::NoColor,
        (forced || (is_tty && !no_color)) && (colorterm matches Some(ct) && (seq_contains(
            ct,
            "truecolor"@,
        ) || seq_contains(ct, "24bit"@))) ==> spec_resolve_level(
            is_tty,
            forced,
            no_color,
            colorterm,
            term,
        ) == ColorLevel::Truecolor,
{
}

/// The width is always within the sane band of 20..=400 columns.
pub proof fn law_width_in_band(terminal: Option<u16>, columns: Option<Seq<char>>)
    ensures
        20 <= spec_width_from(terminal, columns) <= 400,
{
}

// ── restraint: one accent per block ───────────────────────────────────────

/// The fragment carries the accent role.
pub open spec fn is_accent(f: FragmentView) -> bool {
    f.role == Some(Role::Primary)
}

/// The number of accent fragments on a line.
pub open spec fn line_accents(line: Seq<FragmentView>) -> nat
    decreases line.len(),
{
    if line.len() == 0 {
        0
    } else {
        line_accents(line.drop_last()) + if is_accent(line.last()) {
            1nat
        } else {
            0nat
        }
    }
}

/// The number of accent fragments in a layout.
pub open spec fn layout_accents(lines: Seq<Seq<FragmentView>>) -> nat
    decreases lines.len(),
{
    if lines.len() == 0 {
        0
    } else {
        layout_accents(lines.drop_last()) + line_accents(lines.last())
    }
}

/// The number of plain bullets (items without a status) in a list.
pub open spec fn bullet_count(items: Seq<ListItem>) -> nat
    decreases items.len(),
{
    if items.len() == 0 {
        0
    } else {
        bullet_count(items.drop_last()) + if items.last().status is None {
            1nat
        } else {
            0nat
        }
    }
}

proof fn lemma_line_accents_count(line: Seq<FragmentView>, k: int)
    requires
        forall|j: int| 0 <= j < line.len() && j != k ==> !is_accent(#[trigger] line[j]),
    ensures
        line_accents(line) == if 0 <= k < line.len() && is_accent(line[k]) {
            1nat
        } else {
            0nat
        },
    decreases line.len(),
{
    if line.len() > 0 {
        let init = line.drop_last();
        assert forall|j: int| 0 <= j < init.len() && j != k implies !is_accent(#[trigger] init[j]) by {
            assert(init[j] == line[j]);
        }
        lemma_line_accents_count(init, k);
        if 0 <= k < init.len() {
            assert(init[k] == line[k]);
        }
    }
}

proof fn lemma_line_accents_all(line: Seq<FragmentView>)
    requires
        forall|j: int| 0 <= j < line.len() ==> is_accent(#[trigger] line[j]),
    ensures
        line_accents(line) == line.len(),
    decreases line.len(),
{
    if line.len() > 0 {
        let init = line.drop_last();
        assert forall|j: int| 0 <= j < init.len() implies is_accent(#[trigger] init[j]) by {
            assert(init[j] == line[j]);
        }
        lemma_line_accents_all(init);
    }
}

proof fn lemma_layout_accents_concat(a: Seq<Seq<FragmentView>>, b: Seq<Seq<FragmentView>>)
    ensures
        layout_accents(a + b) == layout_accents(a) + layout_accents(b),
    decreases b.len(),
{
    if b.len() == 0 {
        assert(a + b =~= a);
    } else {
        assert((a + b).drop_last() =~= a + b.drop_last());
        assert((a + b).last() == b.last());
        lemma_layout_accents_concat(a, b.drop_last());
    }
}

proof fn lemma_layout_accents_zero(lines: Seq<Seq<FragmentView>>)
    requires
        forall|i: int| 0 <= i < lines.len() ==> line_accents(#[trigger] lines[i]) == 0,
    ensures
        layout_accents(lines) == 0,
    decreases lines.len(),
{
    if lines.len() > 0 {
        let init = lines.drop_last();
        assert forall|i: int| 0 <= i < init.len() implies line_accents(#[trigger] init[i]) == 0 by {
            assert(init[i] == lines[i]);
        }
        lemma_layout_accents_zero(init);
    }
}

proof fn lemma_single_line_accents(line: Seq<FragmentView>)
    ensures
        layout_accents(seq![line]) == line_accents(line),
{
    let s = seq![line];
    assert(s.drop_last() =~= Seq::<Seq<FragmentView>>::empty());
    assert(layout_accents(s.drop_last()) == 0);
}

proof fn lemma_list_accents(items: Seq<ListItem>, unicode: bool)
    ensures
        layout_accents(list_lines(items, unicode)) == bullet_count(items),
    decreases items.len(),
{
    if items.len() > 0 {
        let init = items.drop_last();
        assert(list_lines(items, unicode).drop_last() =~= list_lines(init, unicode));
        lemma_list_accents(init, unicode);
        let it = items.last();
        let line = list_item_line(it.text@, it.status, unicode);
        assert(list_lines(items, unicode).last() == line);
        lemma_line_accents_count(line, 1);
        assert(is_accent(line[1]) <==> it.status is None);
    }
}

/// Restraint is typed: a block lays out at most one fragment in the accent
/// role.  It fails exactly for a list with two or more plain bullets (each
/// bullet is an accent) and a table with two or more columns (each header
/// cell is an accent).
pub proof fn law_one_accent_per_block(b: Block, caps: Capability, theme: Theme)
    requires
        !(b matches Block::List(l) && bullet_count(l.items@) >= 2),
        !(b matches Block::Table(t) && t.headers@.len() >= 2),
    ensures
        layout_accents(b.spec_layout(caps, theme)) <= 1,
{
    match b {
        Block::Callout(c) => {
            let line = callout_line(c.severity, c.message@, opt_string(c.title), caps.unicode);
            lemma_single_line_accents(line);
            lemma_line_accents_count(line, -1);
        },
        Block::Banner(bn) => {
            let lines = banner_lines(bn.title@, bn.snowflake, caps.unicode);
            lemma_line_accents_count(lines[0], -1);
            lemma_line_accents_count(lines[1], 2);
            lemma_line_accents_count(lines[2], -1);
            assert(lines =~= seq![lines[0]] + seq![lines[1]] + seq![lines[2]]);
            lemma_layout_accents_concat(seq![lines[0]] + seq![lines[1]], seq![lines[2]]);
            lemma_layout_accents_concat(seq![lines[0]], seq![lines[1]]);
            lemma_single_line_accents(lines[0]);
            lemma_single_line_accents(lines[1]);
            lemma_single_line_accents(lines[2]);
        },
        Block::Rule(r) => {
            let line = rule_line(opt_string(r.label), caps.width, caps.unicode);
            lemma_single_line_accents(line);
            lemma_line_accents_count(line, -1);
        },
        Block::Badge(bd) => {
            let line = badge_line(bd.text@, bd.role);
            lemma_single_line_accents(line);
            lemma_line_accents_count(line, 1);
        },
        Block::Panel(p) => {
            let title = opt_string(p.title);
            let head = match title {
                Some(t) => seq![seq![crate::ir::accent_frag(t, Role::Primary)]],
                None => Seq::<Seq<FragmentView>>::empty(),
            };
            let body = Seq::new(
                p.rows@.len(),
                |i: int| crate::blocks::panel_row_line(p.rows@[i].0@, p.rows@[i].1@, max_key_width(p.rows@)),
            );
            assert(panel_lines(title, p.rows@) == head + body);
            lemma_layout_accents_concat(head, body);
            assert forall|i: int| 0 <= i < body.len() implies line_accents(#[trigger] body[i]) == 0 by {
                lemma_line_accents_count(body[i], -1);
            }
            lemma_layout_accents_zero(body);
            if title is Some {
                lemma_single_line_accents(head[0]);
                assert(head == seq![head[0]]);
                lemma_line_accents_count(head[0], 0);
            }
        },
        Block::List(l) => {
            lemma_list_accents(l.items@, caps.unicode);
        },
        Block::Table(t) => {
            let head = seq![table_line(t.headers@, t.headers@, t.rows@, true)];
            let body = Seq::new(
                t.rows@.len(),
                |r: int| table_line(t.rows@[r]@, t.headers@, t.rows@, false),
            );
            assert(table_lines(t.headers@, t.rows@) == head + body);
            lemma_layout_accents_concat(head, body);
            lemma_single_line_accents(head[0]);
            lemma_line_accents_all(head[0]);
            assert forall|i: int| 0 <= i < body.len() implies line_accents(#[trigger] body[i]) == 0 by {
                lemma_line_accents_count(body[i], -1);
            }
            lemma_layout_accents_zero(body);
        },
    }
}

// ── zero escapes without color, for every block ───────────────────────────

/// The text holds no escape character.
pub open spec fn no_esc(s: Seq<char>) -> bool {
    !s.contains(esc())
}

/// No text the caller put into the block holds an escape character.
pub open spec fn block_text_escape_free(b: Block) -> bool {
    match b {
        Block::Callout(c) => no_esc(c.message@) && (opt_string(c.title) matches Some(t) ==> no_esc(t)),
        Block::Banner(bn) => no_esc(bn.title@),
        Block::Rule(r) => opt_string(r.label) matches Some(l) ==> no_esc(l),
        Block::Badge(bd) => no_esc(bd.text@),
        Block::Panel(p) => (opt_string(p.title) matches Some(t) ==> no_esc(t)) && forall|i: int|
            0 <= i < p.rows@.len() ==> no_esc((#[trigger] p.rows@[i]).0@) && no_esc(p.rows@[i].1@),
        Block::List(l) => forall|i: int|
            0 <= i < l.items@.len() ==> no_esc((#[trigger] l.items@[i]).text@),
        Block::Table(t) => cells_escape_free(t.headers@) && forall|r: int|
            0 <= r < t.rows@.len() ==> cells_escape_free(#[trigger] t.rows@[r]@),
    }
}

/// No cell of a row holds an escape character.
pub open spec fn cells_escape_free(cells: Seq<String>) -> bool {
    forall|c: int| 0 <= c < cells.len() ==> no_esc((#[trigger] cells[c])@)
}

proof fn lemma_repeat_no_esc(s: Seq<char>, n: nat)
    requires
        no_esc(s),
    ensures
        no_esc(spec_repeat(s, n)),
    decreases n,
{
    if n > 0 {
        lemma_repeat_no_esc(s, (n - 1) as nat);
        lemma_concat_lacks(spec_repeat(s, (n - 1) as nat), s, esc());
    } else {
        assert(spec_repeat(s, n) =~= Seq::<char>::empty());
    }
}

proof fn lemma_cat_no_esc(a: Seq<char>, b: Seq<char>)
    requires
        no_esc(a),
        no_esc(b),
    ensures
        no_esc(a + b),
{
    lemma_concat_lacks(a, b, esc());
}

proof fn lemma_fixed_texts_no_esc()
    ensures
        no_esc(""@),
        no_esc(" "@),
        no_esc("  "@),
        no_esc("["@),
        no_esc("] "@),
        no_esc(": "@),
        no_esc(" : "@),
        no_esc("[ "@),
        no_esc(" ]"@),
        no_esc(seq!['[']),
        no_esc(seq![']']),
        no_esc(seq![' ']),
        forall|u: bool| #![auto] no_esc(crate::blocks::glyph_tl(u)) && no_esc(crate::blocks::glyph_tr(u))
            && no_esc(crate::blocks::glyph_bl(u)) && no_esc(crate::blocks::glyph_br(u)) && no_esc(glyph_h(u))
            && no_esc(glyph_v(u)) && no_esc(crate::blocks::glyph_snow(u)) && no_esc(glyph_bullet(u)),
        forall|sev: CalloutSeverity| #![auto] no_esc(severity_tag(sev)) && no_esc(crate::ir::severity_glyph(sev)),
{
    reveal_strlit("");
    reveal_strlit(" ");
    reveal_strlit("  ");
    reveal_strlit("[");
    reveal_strlit("] ");
    reveal_strlit(": ");
    reveal_strlit(" : ");
    reveal_strlit("[ ");
    reveal_strlit(" ]");
    reveal_strlit("╭");
    reveal_strlit("╮");
    reveal_strlit("╰");
    reveal_strlit("╯");
    reveal_strlit("─");
    reveal_strlit("│");
    reveal_strlit("❄");
    reveal_strlit("•");
    reveal_strlit("+");
    reveal_strlit("-");
    reveal_strlit("|");
    reveal_strlit("*");
    reveal_strlit("NOTE");
    reveal_strlit("INFO");
    reveal_strlit("OK");
    reveal_strlit("WARN");
    reveal_strlit("ERROR");
    reveal_strlit("DEBUG");
    reveal_strlit("ℹ");
    reveal_strlit("✓");
    reveal_strlit("⚠");
    reveal_strlit("✗");
    reveal_strlit("»");
    assert(no_esc(""@));
    assert(no_esc(" "@));
    assert(no_esc("  "@));
    assert(no_esc("["@));
    assert(no_esc("] "@));
    assert(no_esc(": "@));
    assert(no_esc(" : "@));
    assert(no_esc("[ "@));
    assert(no_esc(" ]"@));
    assert(no_esc(seq!['[']));
    assert(no_esc(seq![']']));
    assert(no_esc(seq![' ']));
    assert forall|u: bool| #![auto] no_esc(crate::blocks::glyph_tl(u)) && no_esc(crate::blocks::glyph_tr(u))
        && no_esc(crate::blocks::glyph_bl(u)) && no_esc(crate::blocks::glyph_br(u)) && no_esc(glyph_h(u))
        && no_esc(glyph_v(u)) && no_esc(crate::blocks::glyph_snow(u)) && no_esc(glyph_bullet(u)) by {
        assert(no_esc("╭"@));
        assert(no_esc("╮"@));
        assert(no_esc("╰"@));
        assert(no_esc("╯"@));
        assert(no_esc("─"@));
        assert(no_esc("│"@));
        assert(no_esc("❄"@));
        assert(no_esc("•"@));
        assert(no_esc("+"@));
        assert(no_esc("-"@));
        assert(no_esc("|"@));
        assert(no_esc("*"@));
    }
    assert forall|sev: CalloutSeverity| #![auto] no_esc(severity_tag(sev)) && no_esc(
        crate::ir::severity_glyph(sev),
    ) by {
        assert(no_esc("NOTE"@));
        assert(no_esc("INFO"@));
        assert(no_esc("OK"@));
        assert(no_esc("WARN"@));
        assert(no_esc("ERROR"@));
        assert(no_esc("DEBUG"@));
        assert(no_esc("•"@));
        assert(no_esc("ℹ"@));
        assert(no_esc("✓"@));
        assert(no_esc("⚠"@));
        assert(no_esc("✗"@));
        assert(no_esc("»"@));
    }
}

proof fn lemma_list_line_no_esc(text: Seq<char>, status: Option<CalloutSeverity>, u: bool)
    requires
        no_esc(text),
    ensures
        forall|j: int|
            0 <= j < list_item_line(text, status, u).len() ==> no_esc(
                (#[trigger] list_item_line(text, status, u)[j]).text,
            ),
{
    lemma_fixed_texts_no_esc();
    match status {
        Some(sev) => {
            assert(no_esc(severity_tag(sev)));
            assert(no_esc(crate::ir::severity_glyph(sev)));
            lemma_cat_no_esc(seq!['['], severity_tag(sev));
            lemma_cat_no_esc(seq!['['] + severity_tag(sev), seq![']']);
        },
        None => {
            assert(no_esc(glyph_bullet(u)));
        },
    }
    assert(no_esc(crate::blocks::list_marker(status, u).0));
}

proof fn lemma_list_escape_free(l: List, u: bool)
    requires
        block_text_escape_free(Block::List(l)),
    ensures
        escape_free(list_lines(l.items@, u)),
{
    let lines = list_lines(l.items@, u);
    assert forall|i: int, j: int| 0 <= i < lines.len() && 0 <= j < lines[i].len() implies no_esc(
        (#[trigger] lines[i][j]).text,
    ) by {
        assert(lines.len() == l.items@.len());
        let it = l.items@[i];
        assert(no_esc(it.text@));
        lemma_list_line_no_esc(it.text@, it.status, u);
        assert(lines[i] == list_item_line(it.text@, it.status, u));
    }
}

proof fn lemma_table_cell_no_esc(row: Seq<String>, c: int, w: nat)
    requires
        no_esc(crate::blocks::cell_text(row, c)),
    ensures
        no_esc(crate::blocks::table_cell(row, c, w)),
{
    lemma_fixed_texts_no_esc();
    let cw = cell_width(row, c);
    let pad = if w >= cw {
        (w - cw) as nat
    } else {
        0
    };
    let lead: Seq<char> = if c > 0 {
        "  "@
    } else {
        Seq::empty()
    };
    assert(no_esc(Seq::<char>::empty()));
    assert(no_esc(lead));
    let cell = crate::blocks::cell_text(row, c);
    lemma_repeat_no_esc(" "@, pad);
    lemma_cat_no_esc(lead, cell);
    lemma_cat_no_esc(lead + cell, spec_repeat(" "@, pad));
}

/// Row `i` of a table's layout: the header row, then the body rows.
spec fn table_row(t: Table, i: int) -> Seq<String> {
    if i == 0 {
        t.headers@
    } else {
        t.rows@[i - 1]@
    }
}

proof fn lemma_table_text_no_esc(t: Table, i: int, j: int)
    requires
        block_text_escape_free(Block::Table(t)),
        0 <= i <= t.rows@.len(),
    ensures
        no_esc(crate::blocks::cell_text(table_row(t, i), j)),
{
    if 0 <= j < table_row(t, i).len() {
        if i == 0 {
            assert(cells_escape_free(t.headers@));
        } else {
            assert(cells_escape_free(t.rows@[i - 1]@));
        }
        assert(cells_escape_free(table_row(t, i)));
        assert(no_esc(table_row(t, i)[j]@));
    } else {
        assert(crate::blocks::cell_text(table_row(t, i), j) =~= Seq::<char>::empty());
    }
}

proof fn lemma_table_escape_free(t: Table)
    requires
        block_text_escape_free(Block::Table(t)),
    ensures
        escape_free(table_lines(t.headers@, t.rows@)),
{
    let hs = t.headers@;
    let rs = t.rows@;
    let lines = table_lines(hs, rs);
    assert forall|i: int, j: int| 0 <= i < lines.len() && 0 <= j < lines[i].len() implies no_esc(
        (#[trigger] lines[i][j]).text,
    ) by {
        assert(lines.len() == rs.len() + 1);
        lemma_table_text_no_esc(t, i, j);
        let w = column_width(hs, rs, j);
        lemma_table_cell_no_esc(table_row(t, i), j, w);
        assert(lines[i][j].text == crate::blocks::table_cell(table_row(t, i), j, w));
    }
}

proof fn lemma_layout_escape_free(b: Block, caps: Capability, theme: Theme)
    requires
        block_text_escape_free(b),
    ensures
        escape_free(b.spec_layout(caps, theme)),
{
    lemma_fixed_texts_no_esc();
    let u = caps.unicode;
    let lines = b.spec_layout(caps, theme);
    match b {
        Block::Callout(c) => {
            let line = callout_line(c.severity, c.message@, opt_string(c.title), u);
            assert(lines == seq![line]);
            assert forall|j: int| 0 <= j < line.len() implies no_esc((#[trigger] line[j]).text) by {}
        },
        Block::Banner(bn) => {
            let content = banner_content(bn.title@, bn.snowflake, u);
            lemma_cat_no_esc(crate::blocks::glyph_snow(u), seq![' ']);
            lemma_cat_no_esc(crate::blocks::glyph_snow(u) + seq![' '], bn.title@);
            lemma_cat_no_esc(Seq::empty(), bn.title@);
            assert(no_esc(content));
            let inner = crate::blocks::sat_add(display_width(content) as int, 2) as nat;
            let h = spec_repeat(glyph_h(u), inner);
            lemma_repeat_no_esc(glyph_h(u), inner);
            lemma_cat_no_esc(crate::blocks::glyph_tl(u), h);
            lemma_cat_no_esc(crate::blocks::glyph_tl(u) + h, crate::blocks::glyph_tr(u));
            lemma_cat_no_esc(crate::blocks::glyph_bl(u), h);
            lemma_cat_no_esc(crate::blocks::glyph_bl(u) + h, crate::blocks::glyph_br(u));
        },
        Block::Rule(r) => {
            lemma_repeat_no_esc(glyph_h(u), caps.width as nat);
            lemma_repeat_no_esc(glyph_h(u), 2);
            lemma_cat_no_esc(spec_repeat(glyph_h(u), 2), seq![' ']);
            match opt_string(r.label) {
                Some(l) => {
                    lemma_repeat_no_esc(glyph_h(u), rule_rest(caps.width as int, display_width(l) as int));
                },
                None => {},
            }
        },
        Block::Badge(bd) => {},
        Block::Panel(p) => {
            let rows = p.rows@;
            let key_w = max_key_width(rows);
            assert forall|i: int, j: int| 0 <= i < lines.len() && 0 <= j < lines[i].len() implies no_esc(
                (#[trigger] lines[i][j]).text,
            ) by {
                let head: int = if p.title is Some {
                    1
                } else {
                    0
                };
                if i >= head {
                    let k = i - head;
                    let key = rows[k].0@;
                    let pad = if key_w >= display_width(key) {
                        (key_w - display_width(key)) as nat
                    } else {
                        0
                    };
                    lemma_repeat_no_esc(" "@, pad);
                    lemma_cat_no_esc("  "@, key);
                    lemma_cat_no_esc("  "@ + key, spec_repeat(" "@, pad));
                }
            }
        },
        Block::List(l) => {
            lemma_list_escape_free(l, u);
        },
        Block::Table(t) => {
            lemma_table_escape_free(t);
        },
    }
}

/// Piped or under `NO_COLOR`, every block emits zero escape bytes, whatever
/// its width and glyph set, as long as the text put into it holds none.
pub proof fn law_no_color_zero_escapes(b: Block, caps: Capability, theme: Theme)
    requires
        caps.level == ColorLevel::NoColor,
        block_text_escape_free(b),
    ensures
        !lines_out(b.spec_layout(caps, theme), caps, theme).contains(esc()),
{
    lemma_layout_escape_free(b, caps, theme);
    law_no_color_emits_no_escape(b.spec_layout(caps, theme), caps, theme);
}

// ── which SGR family each depth emits ─────────────────────────────────────

/// No `;` stands two places before another `;` with `mid` between them.
spec fn pairs_avoid(s: Seq<char>, mid: char) -> bool {
    forall|k: int|
        0 <= k && k + 2 < s.len() && #[trigger] s[k] == ';' && s[k + 2] == ';' ==> s[k + 1] != mid
}

/// Neither of the last two characters is a `;`.
spec fn tail_plain(s: Seq<char>) -> bool {
    forall|k: int| 0 <= k < s.len() && s.len() - 2 <= k ==> #[trigger] s[k] != ';'
}

/// Both properties at once: what every emitted piece has.
spec fn code_safe(s: Seq<char>, mid: char) -> bool {
    pairs_avoid(s, mid) && tail_plain(s)
}

/// The SGR code prefix `38;<mid>;` of one color family.
pub open spec fn family(mid: char) -> Seq<char> {
    seq!['3', '8', ';', mid, ';']
}

proof fn lemma_code_safe_concat(a: Seq<char>, b: Seq<char>, mid: char)
    requires
        code_safe(a, mid),
        code_safe(b, mid),
    ensures
        code_safe(a + b, mid),
{
    let s = a + b;
    assert forall|k: int| 0 <= k && k + 2 < s.len() && #[trigger] s[k] == ';' && s[k + 2] == ';' implies s[k
        + 1] != mid by {
        if k + 2 < a.len() {
            assert(a[k] == ';' && a[k + 2] == ';');
            assert(s[k + 1] == a[k + 1]);
        } else if k >= a.len() {
            assert(b[k - a.len()] == ';');
            assert(b[k - a.len() + 2] == ';');
            assert(s[k + 1] == b[k - a.len() + 1]);
        } else {
            assert(a[k] == ';');
        }
    }
    assert forall|k: int| 0 <= k < s.len() && s.len() - 2 <= k implies #[trigger] s[k] != ';' by {
        if k < a.len() {
            assert(s[k] == a[k]);
        } else {
            assert(s[k] == b[k - a.len()]);
        }
    }
}

proof fn lemma_code_safe_plain(s: Seq<char>, mid: char)
    requires
        !s.contains(';'),
    ensures
        code_safe(s, mid),
{
    assert forall|k: int| 0 <= k < s.len() implies #[trigger] s[k] != ';' by {}
}

proof fn lemma_code_safe_lacks_family(s: Seq<char>, mid: char)
    requires
        pairs_avoid(s, mid),
    ensures
        !seq_contains(s, family(mid)),
{
    if seq_contains(s, family(mid)) {
        let i = choose|i: int| crate::text::occurs_at(s, family(mid), i);
        let w = s.subrange(i, i + 5);
        assert(w == family(mid));
        assert(s[i + 2] == w[2]);
        assert(s[i + 3] == w[3]);
        assert(s[i + 4] == w[4]);
        assert(s[i + 2] == ';');
    }
}

proof fn lemma_dec_plain(n: u8)
    ensures
        !crate::style::dec(n).contains(';'),
        crate::style::dec(n).len() >= 1,
{
    let d = crate::style::dec(n);
    assert forall|k: int| 0 <= k < d.len() implies d[k] != ';' by {
        let v = n as int;
        if v < 10 {
        } else if v < 100 {
            assert(0 <= v / 10 < 10 && 0 <= v % 10 < 10) by (nonlinear_arith)
                requires
                    10 <= v < 100,
            ;
        } else {
            assert(0 <= v / 100 < 10 && 0 <= (v / 10) % 10 < 10 && 0 <= v % 10 < 10) by (nonlinear_arith)
                requires
                    100 <= v < 256,
            ;
        }
    }
}

/// The atoms a depth produces, seen from the codes they open with.
spec fn atom_fits(a: crate::style::StyleAtom, mid: char) -> bool {
    match a.fg {
        Some(SgrColor::Rgb(_)) => false,
        Some(SgrColor::Ansi256(_)) => mid != '5',
        _ => true,
    }
}

proof fn lemma_open_close_safe(a: crate::style::StyleAtom, mid: char)
    requires
        atom_fits(a, mid),
    ensures
        code_safe(sgr_open(a), mid),
        code_safe(sgr_close(a), mid),
{
    let e = esc();
    let one = crate::style::sgr(seq!['1']);
    let two = crate::style::sgr(seq!['2']);
    let zero = crate::style::sgr(seq!['0']);
    assert(one =~= seq![e, '[', '1', 'm']);
    assert(two =~= seq![e, '[', '2', 'm']);
    assert(zero =~= seq![e, '[', '0', 'm']);
    lemma_code_safe_plain(one, mid);
    lemma_code_safe_plain(two, mid);
    lemma_code_safe_plain(zero, mid);
    lemma_code_safe_plain(Seq::empty(), mid);
    let b: Seq<char> = if a.bold {
        one
    } else {
        Seq::empty()
    };
    let d: Seq<char> = if a.dim {
        two
    } else {
        Seq::empty()
    };
    let f: Seq<char> = match a.fg {
        Some(c) => crate::style::fg_code(c),
        None => Seq::empty(),
    };
    match a.fg {
        Some(SgrColor::Ansi256(n)) => {
            lemma_dec_plain(n);
            let ds = crate::style::dec(n);
            assert(f =~= seq![e, '[', '3', '8', ';', '5', ';'] + ds + seq!['m']);
            assert forall|k: int|
                0 <= k && k + 2 < f.len() && #[trigger] f[k] == ';' && f[k + 2] == ';' implies f[k
                + 1] != mid by {
                if k >= 7 {
                    assert(f[k] == ds[k - 7] || f[k] == 'm');
                    if k - 7 < ds.len() {
                        assert(f[k] == ds[k - 7]);
                    }
                } else if k == 6 {
                    if ds.len() == 1 {
                        assert(f[8] == 'm');
                    } else {
                        assert(f[8] == ds[1]);
                    }
                }
            }
            assert forall|k: int| 0 <= k < f.len() && f.len() - 2 <= k implies #[trigger] f[k] != ';' by {
                if k - 7 < ds.len() {
                    assert(f[k] == ds[k - 7]);
                }
            }
        },
        Some(SgrColor::Ansi(c)) => {
            let slot = crate::caps::ansi_slot(c);
            assert(0 <= slot < 16);
            if slot < 8 {
                assert(f =~= seq![e, '[', '3', crate::style::digit(slot), 'm']);
            } else {
                assert(f =~= seq![e, '[', '9', crate::style::digit(slot - 8), 'm']);
            }
            lemma_code_safe_plain(f, mid);
        },
        _ => {},
    }
    lemma_code_safe_concat(b, d, mid);
    lemma_code_safe_concat(b + d, f, mid);
    assert(sgr_open(a) == b + d + f);
}

proof fn lemma_frag_out_safe(f: FragmentView, caps: Capability, theme: Theme, mid: char)
    requires
        caps.level != ColorLevel::Truecolor,
        caps.level == ColorLevel::Ansi256 ==> mid != '5',
        !f.text.contains(';'),
    ensures
        code_safe(frag_out(f, caps, theme), mid),
{
    lemma_code_safe_plain(f.text, mid);
    match f.role {
        Some(role) => {
            let a = spec_resolve(role, theme, caps, f.bold, f.dim);
            lemma_open_close_safe(a, mid);
            lemma_code_safe_concat(sgr_open(a), f.text, mid);
            lemma_code_safe_concat(sgr_open(a) + f.text, sgr_close(a), mid);
        },
        None => {},
    }
}

proof fn lemma_line_out_safe(line: Seq<FragmentView>, caps: Capability, theme: Theme, mid: char)
    requires
        caps.level != ColorLevel::Truecolor,
        caps.level == ColorLevel::Ansi256 ==> mid != '5',
        forall|j: int| 0 <= j < line.len() ==> !(#[trigger] line[j]).text.contains(';'),
    ensures
        code_safe(line_out(line, caps, theme), mid),
    decreases line.len(),
{
    if line.len() == 0 {
        lemma_code_safe_plain(Seq::empty(), mid);
    } else {
        let init = line.drop_last();
        assert forall|j: int| 0 <= j < init.len() implies !(#[trigger] init[j]).text.contains(';') by {
            assert(init[j] == line[j]);
        }
        lemma_line_out_safe(init, caps, theme, mid);
        assert(!line[line.len() - 1].text.contains(';'));
        lemma_frag_out_safe(line.last(), caps, theme, mid);
        lemma_code_safe_concat(line_out(init, caps, theme), frag_out(line.last(), caps, theme), mid);
    }
}

proof fn lemma_lines_out_safe(lines: Seq<Seq<FragmentView>>, caps: Capability, theme: Theme, mid: char)
    requires
        caps.level != ColorLevel::Truecolor,
        caps.level == ColorLevel::Ansi256 ==> mid != '5',
        forall|i: int, j: int|
            0 <= i < lines.len() && 0 <= j < lines[i].len() ==> !(#[trigger] lines[i][j]).text.contains(';'),
    ensures
        code_safe(lines_out(lines, caps, theme), mid),
    decreases lines.len(),
{
    if lines.len() == 0 {
        lemma_code_safe_plain(Seq::empty(), mid);
    } else {
        let init = lines.drop_last();
        assert forall|i: int, j: int| 0 <= i < init.len() && 0 <= j < init[i].len() implies !(
        #[trigger] init[i][j]).text.contains(';') by {
            assert(init[i] == lines[i]);
        }
        lemma_lines_out_safe(init, caps, theme, mid);
        let last = lines.last();
        assert forall|j: int| 0 <= j < last.len() implies !(#[trigger] last[j]).text.contains(';') by {
            assert(last[j] == lines[lines.len() - 1][j]);
        }
        lemma_line_out_safe(last, caps, theme, mid);
        lemma_code_safe_plain(seq!['\n'], mid);
        lemma_code_safe_concat(lines_out(init, caps, theme), line_out(last, caps, theme), mid);
        lemma_code_safe_concat(
            lines_out(init, caps, theme) + line_out(last, caps, theme),
            seq!['\n'],
            mid,
        );
    }
}

/// Each depth emits only its own SGR family: below truecolor no 24-bit
/// code `38;2;` appears, and at 16 colors or without color no 256-color
/// code `38;5;` appears either, for any layout whose texts hold no `;`.
pub proof fn law_depth_code_families(lines: Seq<Seq<FragmentView>>, caps: Capability, theme: Theme)
    requires
        forall|i: int, j: int|
            0 <= i < lines.len() && 0 <= j < lines[i].len() ==> !(#[trigger] lines[i][j]).text.contains(';'),
    ensures
        caps.level != ColorLevel::Truecolor ==> !seq_contains(lines_out(lines, caps, theme), family('2')),
        caps.level == ColorLevel::Ansi16 || caps.level == ColorLevel::NoColor ==> !seq_contains(
            lines_out(lines, caps, theme),
            family('5'),
        ),
{
    if caps.level != ColorLevel::Truecolor {
        lemma_lines_out_safe(lines, caps, theme, '2');
        lemma_code_safe_lacks_family(lines_out(lines, caps, theme), '2');
    }
    if caps.level == ColorLevel::Ansi16 || caps.level == ColorLevel::NoColor {
        lemma_lines_out_safe(lines, caps, theme, '5');
        lemma_code_safe_lacks_family(lines_out(lines, caps, theme), '5');
    }
}

proof fn lemma_callout_texts_plain(c: Callout, u: bool)
    requires
        !c.message@.contains(';'),
        opt_string(c.title) matches Some(t) ==> !t.contains(';'),
    ensures
        forall|j: int|
            0 <= j < callout_line(c.severity, c.message@, opt_string(c.title), u).len() ==> !(
            #[trigger] callout_line(c.severity, c.message@, opt_string(c.title), u)[j]).text.contains(
                ';',
            ),
{
    reveal_strlit("[");
    reveal_strlit("] ");
    reveal_strlit(" ");
    reveal_strlit(": ");
    reveal_strlit("NOTE");
    reveal_strlit("INFO");
    reveal_strlit("OK");
    reveal_strlit("WARN");
    reveal_strlit("ERROR");
    reveal_strlit("DEBUG");
    reveal_strlit("•");
    reveal_strlit("ℹ");
    reveal_strlit("✓");
    reveal_strlit("⚠");
    reveal_strlit("✗");
    reveal_strlit("»");
    assert(!"["@.contains(';'));
    assert(!"] "@.contains(';'));
    assert(!" "@.contains(';'));
    assert(!": "@.contains(';'));
    assert(!severity_tag(c.severity).contains(';'));
    assert(!crate::ir::severity_glyph(c.severity).contains(';'));
}

proof fn lemma_paint_opens_family(a: crate::style::StyleAtom, text: Seq<char>, mid: char)
    requires
        !a.bold && !a.dim,
        (a.fg matches Some(SgrColor::Rgb(_)) && mid == '2') || (a.fg matches Some(
            SgrColor::Ansi256(_),
        ) && mid == '5'),
    ensures
        spec_paint(a, text).len() >= 7,
        spec_paint(a, text).subrange(2, 7) == family(mid),
{
    let code = crate::style::fg_code(a.fg.unwrap());
    assert(sgr_open(a) =~= code);
    let p = spec_paint(a, text);
    assert(p =~= code + text + sgr_close(a));
    assert(code.len() >= 7);
    assert(p.subrange(2, 7) =~= code.subrange(2, 7));
    assert(code.subrange(2, 7) =~= family(mid));
}

proof fn lemma_mark_opens_family(c: Callout, caps: Capability, theme: Theme, mid: char)
    requires
        caps.level == ColorLevel::Truecolor && mid == '2' || caps.level == ColorLevel::Ansi256 && mid
            == '5',
    ensures
        seq_contains(lines_out(c.spec_layout(caps, theme), caps, theme), family(mid)),
{
    let line = callout_line(c.severity, c.message@, opt_string(c.title), caps.unicode);
    assert(c.spec_layout(caps, theme) == seq![line]);
    lemma_one_line_out(line, caps, theme);
    let out = lines_out(seq![line], caps, theme);
    let k: int = if caps.unicode {
        0
    } else {
        1
    };
    let f = line[k];
    let atom = spec_resolve(f.role.unwrap(), theme, caps, f.bold, f.dim);
    let fo = frag_out(f, caps, theme);
    assert(fo == spec_paint(atom, f.text));
    lemma_paint_opens_family(atom, f.text, mid);
    let rest = line.skip(k + 1);
    lemma_line_out_single(f, caps, theme);
    let lo = line_out(line, caps, theme);
    if caps.unicode {
        assert(line =~= seq![f] + rest);
        lemma_line_out_concat(seq![f], rest, caps, theme);
        assert(lo == fo + line_out(rest, caps, theme));
    } else {
        let f0 = line[0];
        assert(line =~= seq![f0] + seq![f] + rest);
        lemma_line_out_concat(seq![f0] + seq![f], rest, caps, theme);
        lemma_line_out_concat(seq![f0], seq![f], caps, theme);
        lemma_line_out_single(f0, caps, theme);
        reveal_strlit("[");
        assert(frag_out(f0, caps, theme) == "["@);
        assert(lo == "["@ + fo + line_out(rest, caps, theme));
    }
    assert(out == lo + seq!['\n']);
    assert(out.subrange(k + 2, k + 7) =~= fo.subrange(2, 7));
    assert(crate::text::occurs_at(out, family(mid), k + 2));
}

/// The depth matrix of a callout: its severity mark opens with `38;2;` at
/// truecolor and `38;5;` at 256 colors; below truecolor no `38;2;` appears,
/// and at 16 colors or without color no `38;5;` either, whenever the
/// message and title hold no `;`.
pub proof fn law_callout_depth_codes(c: Callout, caps: Capability, theme: Theme)
    requires
        !c.message@.contains(';'),
        opt_string(c.title) matches Some(t) ==> !t.contains(';'),
    ensures
        family('2') == "38;2;"@,
        family('5') == "38;5;"@,
        caps.level == ColorLevel::Truecolor ==> seq_contains(
            lines_out(c.spec_layout(caps, theme), caps, theme),
            family('2'),
        ),
        caps.level != ColorLevel::Truecolor ==> !seq_contains(
            lines_out(c.spec_layout(caps, theme), caps, theme),
            family('2'),
        ),
        caps.level == ColorLevel::Ansi256 ==> seq_contains(
            lines_out(c.spec_layout(caps, theme), caps, theme),
            family('5'),
        ),
        caps.level == ColorLevel::Ansi16 || caps.level == ColorLevel::NoColor ==> !seq_contains(
            lines_out(c.spec_layout(caps, theme), caps, theme),
            family('5'),
        ),
{
    reveal_strlit("38;2;");
    reveal_strlit("38;5;");
    assert(family('2') =~= "38;2;"@);
    assert(family('5') =~= "38;5;"@);
    let line = callout_line(c.severity, c.message@, opt_string(c.title), caps.unicode);
    let lines = c.spec_layout(caps, theme);
    assert(lines == seq![line]);
    lemma_callout_texts_plain(c, caps.unicode);
    assert forall|i: int, j: int| 0 <= i < lines.len() && 0 <= j < lines[i].len() implies !(
    #[trigger] lines[i][j]).text.contains(';') by {
        assert(i == 0);
    }
    law_depth_code_families(lines, caps, theme);
    if caps.level == ColorLevel::Truecolor {
        lemma_mark_opens_family(c, caps, theme, '2');
    }
    if caps.level == ColorLevel::Ansi256 {
        lemma_mark_opens_family(c, caps, theme, '5');
    }
}

// ── what the forms, the palette and the locale mean ───────────────────────

/// A `defcallout` form builds the callout its keyword arguments describe:
/// the severity named by `:severity`, the `:message` text as the message and
/// the `:title` text, when given, as the title.
pub proof fn law_defcallout_reads_its_arguments(
    src: Seq<char>,
    list: Seq<crate::lisp::SexpView>,
    sym: Seq<char>,
    sev: CalloutSeverity,
    message: Seq<char>,
    title: Option<Seq<char>>,
)
    requires
        crate::lisp::spec_parse(src) == Ok::<crate::lisp::SexpView, crate::lisp::LispErrorView>(
            crate::lisp::SexpView::List(list),
        ),
        list.len() >= 1,
        list[0] == crate::lisp::SexpView::Sym("defcallout"@),
        crate::lisp::spec_arg(list.skip(1), "severity"@) == Some(crate::lisp::SexpView::Sym(sym)),
        crate::lisp::spec_severity(sym) == Ok::<CalloutSeverity, crate::lisp::LispErrorView>(sev),
        crate::lisp::spec_arg(list.skip(1), "message"@) == Some(crate::lisp::SexpView::Str(message)),
        match title {
            Some(t) => crate::lisp::spec_arg(list.skip(1), "title"@) == Some(
                crate::lisp::SexpView::Str(t),
            ),
            None => crate::lisp::spec_arg(list.skip(1), "title"@) is None,
        },
    ensures
        crate::lisp::spec_block_from_lisp(src) == Ok::<crate::lisp::BlockView, crate::lisp::LispErrorView>(
            crate::lisp::BlockView::Callout(
                crate::blocks::CalloutView { severity: sev, message, title },
            ),
        ),
{
}

/// Each of the 16 slots has the standard xterm reference color, and its SGR
/// number is its position in the standard order.
pub proof fn law_ansi_reference_colors()
    ensures
        crate::caps::ansi_reference(crate::caps::AnsiColor::Black) == Rgb::new_spec(0x00, 0x00, 0x00),
        crate::caps::ansi_reference(crate::caps::AnsiColor::Red) == Rgb::new_spec(0x80, 0x00, 0x00),
        crate::caps::ansi_reference(crate::caps::AnsiColor::Green) == Rgb::new_spec(0x00, 0x80, 0x00),
        crate::caps::ansi_reference(crate::caps::AnsiColor::Yellow) == Rgb::new_spec(0x80, 0x80, 0x00),
        crate::caps::ansi_reference(crate::caps::AnsiColor::Blue) == Rgb::new_spec(0x00, 0x00, 0x80),
        crate::caps::ansi_reference(crate::caps::AnsiColor::Magenta) == Rgb::new_spec(0x80, 0x00, 0x80),
        crate::caps::ansi_reference(crate::caps::AnsiColor::Cyan) == Rgb::new_spec(0x00, 0x80, 0x80),
        crate::caps::ansi_reference(crate::caps::AnsiColor::White) == Rgb::new_spec(0xc0, 0xc0, 0xc0),
        crate::caps::ansi_reference(crate::caps::AnsiColor::BrightBlack) == Rgb::new_spec(0x80, 0x80, 0x80),
        crate::caps::ansi_reference(crate::caps::AnsiColor::BrightRed) == Rgb::new_spec(0xff, 0x00, 0x00),
        crate::caps::ansi_reference(crate::caps::AnsiColor::BrightGreen) == Rgb::new_spec(0x00, 0xff, 0x00),
        crate::caps::ansi_reference(crate::caps::AnsiColor::BrightYellow) == Rgb::new_spec(0xff, 0xff, 0x00),
        crate::caps::ansi_reference(crate::caps::AnsiColor::BrightBlue) == Rgb::new_spec(0x00, 0x00, 0xff),
        crate::caps::ansi_reference(crate::caps::AnsiColor::BrightMagenta) == Rgb::new_spec(0xff, 0x00, 0xff),
        crate::caps::ansi_reference(crate::caps::AnsiColor::BrightCyan) == Rgb::new_spec(0x00, 0xff, 0xff),
        crate::caps::ansi_reference(crate::caps::AnsiColor::BrightWhite) == Rgb::new_spec(0xff, 0xff, 0xff),
        crate::caps::ansi_slot(crate::caps::AnsiColor::Black) == 0,
        crate::caps::ansi_slot(crate::caps::AnsiColor::Red) == 1,
        crate::caps::ansi_slot(crate::caps::AnsiColor::Green) == 2,
        crate::caps::ansi_slot(crate::caps::AnsiColor::Yellow) == 3,
        crate::caps::ansi_slot(crate::caps::AnsiColor::Blue) == 4,
        crate::caps::ansi_slot(crate::caps::AnsiColor::Magenta) == 5,
        crate::caps::ansi_slot(crate::caps::AnsiColor::Cyan) == 6,
        crate::caps::ansi_slot(crate::caps::AnsiColor::White) == 7,
        crate::caps::ansi_slot(crate::caps::AnsiColor::BrightBlack) == 8,
        crate::caps::ansi_slot(crate::caps::AnsiColor::BrightRed) == 9,
        crate::caps::ansi_slot(crate::caps::AnsiColor::BrightGreen) == 10,
        crate::caps::ansi_slot(crate::caps::AnsiColor::BrightYellow) == 11,
        crate::caps::ansi_slot(crate::caps::AnsiColor::BrightBlue) == 12,
        crate::caps::ansi_slot(crate::caps::AnsiColor::BrightMagenta) == 13,
        crate::caps::ansi_slot(crate::caps::AnsiColor::BrightCyan) == 14,
        crate::caps::ansi_slot(crate::caps::AnsiColor::BrightWhite) == 15,
{
}

/// The text of a callout's line is its severity mark (the glyph and a space
/// on a unicode terminal, `[TAG] ` otherwise), then `title: ` when it has a
/// title, then the message: the title is kept on every terminal.
pub proof fn law_callout_keeps_title(c: Callout, caps: Capability, theme: Theme)
    ensures
        c.spec_layout(caps, theme).len() == 1,
        line_text(c.spec_layout(caps, theme)[0]) == (if caps.unicode {
            crate::ir::severity_glyph(c.severity) + " "@
        } else {
            "["@ + severity_tag(c.severity) + "] "@
        }) + (match opt_string(c.title) {
            Some(t) => t + ": "@,
            None => Seq::<char>::empty(),
        }) + c.message@,
        opt_string(c.title) matches Some(t) ==> exists|j: int|
            0 <= j < c.spec_layout(caps, theme)[0].len() && #[trigger] c.spec_layout(caps, theme)[0][j]
                == crate::ir::accent_frag(t, severity_role(c.severity)),
{
    let line = callout_line(c.severity, c.message@, opt_string(c.title), caps.unicode);
    assert(c.spec_layout(caps, theme) == seq![line]);
    let role = severity_role(c.severity);
    let fm = crate::ir::styled_frag(c.message@, Role::Text);
    lemma_line_text_single(fm);
    let mark: Seq<FragmentView> = if caps.unicode {
        seq![crate::ir::styled_frag(crate::ir::severity_glyph(c.severity), role)] + seq![
            crate::ir::plain_frag(" "@),
        ]
    } else {
        seq![crate::ir::plain_frag("["@)] + seq![crate::ir::styled_frag(severity_tag(c.severity), role)]
            + seq![crate::ir::plain_frag("] "@)]
    };
    if caps.unicode {
        let g = crate::ir::styled_frag(crate::ir::severity_glyph(c.severity), role);
        let sp = crate::ir::plain_frag(" "@);
        lemma_line_text_single(g);
        lemma_line_text_single(sp);
        lemma_line_text_concat(seq![g], seq![sp]);
    } else {
        let f0 = crate::ir::plain_frag("["@);
        let f1 = crate::ir::styled_frag(severity_tag(c.severity), role);
        let f2 = crate::ir::plain_frag("] "@);
        lemma_line_text_single(f0);
        lemma_line_text_single(f1);
        lemma_line_text_single(f2);
        lemma_line_text_concat(seq![f0], seq![f1]);
        lemma_line_text_concat(seq![f0] + seq![f1], seq![f2]);
    }
    let lead = match opt_string(c.title) {
        Some(t) => seq![crate::ir::accent_frag(t, role)] + seq![crate::ir::plain_frag(": "@)],
        None => Seq::<FragmentView>::empty(),
    };
    match opt_string(c.title) {
        Some(t) => {
            lemma_line_text_single(crate::ir::accent_frag(t, role));
            lemma_line_text_single(crate::ir::plain_frag(": "@));
            lemma_line_text_concat(
                seq![crate::ir::accent_frag(t, role)],
                seq![crate::ir::plain_frag(": "@)],
            );
            let j: int = mark.len() as int;
            assert(line[j] == crate::ir::accent_frag(t, role));
        },
        None => {
            assert(line_text(lead) =~= Seq::<char>::empty());
        },
    }
    assert(line =~= mark + lead + seq![fm]);
    lemma_line_text_concat(mark + lead, seq![fm]);
    lemma_line_text_concat(mark, lead);
}

/// Unicode output is assumed as soon as any one of `LC_ALL`, `LC_CTYPE` and
/// `LANG` announces UTF-8, whatever the other two hold, and only then.
pub proof fn law_each_locale_variable_counts(
    lc_all: Option<Seq<char>>,
    lc_ctype: Option<Seq<char>>,
    lang: Option<Seq<char>>,
    v: Seq<char>,
)
    requires
        crate::caps::locale_is_utf8(v),
    ensures
        crate::caps::spec_unicode_from_locale(Some(v), lc_ctype, lang),
        crate::caps::spec_unicode_from_locale(lc_all, Some(v), lang),
        crate::caps::spec_unicode_from_locale(lc_all, lc_ctype, Some(v)),
        crate::caps::spec_unicode_from_locale(None, None, None) == false,
        !(lc_all matches Some(a) && crate::caps::locale_is_utf8(a)) && !(lc_ctype matches Some(c)
            && crate::caps::locale_is_utf8(c)) && !(lang matches Some(l) && crate::caps::locale_is_utf8(l))
            ==> !crate::caps::spec_unicode_from_locale(lc_all, lc_ctype, lang),
{
}

/// The dark-Nord theme's colors, role by role: the Frost ice-cyan accent
/// (nord8), Snow Storm text (nord6, nord4), Polar Night grey for dim text and
/// frames (nord3), and the Aurora state colors red, orange, yellow and
/// green (nord11 to nord14), light blue for information (nord9) and purple
/// for identifiers (nord15).  The four state roles are pairwise distinct.
pub proof fn law_dark_nord_role_colors()
    ensures
        crate::theme::theme_color(Theme::PlemeDark, Role::Primary) == Rgb::new_spec(0x88, 0xC0, 0xD0),
        crate::theme::theme_color(Theme::PlemeDark, Role::Text) == Rgb::new_spec(0xEC, 0xEF, 0xF4),
        crate::theme::theme_color(Theme::PlemeDark, Role::TextMuted) == Rgb::new_spec(0xD8, 0xDE, 0xE9),
        crate::theme::theme_color(Theme::PlemeDark, Role::TextDim) == Rgb::new_spec(0x4C, 0x56, 0x6A),
        crate::theme::theme_color(Theme::PlemeDark, Role::Border) == Rgb::new_spec(0x4C, 0x56, 0x6A),
        crate::theme::theme_color(Theme::PlemeDark, Role::Error) == Rgb::new_spec(0xBF, 0x61, 0x6A),
        crate::theme::theme_color(Theme::PlemeDark, Role::Warn) == Rgb::new_spec(0xD0, 0x87, 0x70),
        crate::theme::theme_color(Theme::PlemeDark, Role::Pending) == Rgb::new_spec(0xEB, 0xCB, 0x8B),
        crate::theme::theme_color(Theme::PlemeDark, Role::Success) == Rgb::new_spec(0xA3, 0xBE, 0x8C),
        crate::theme::theme_color(Theme::PlemeDark, Role::Info) == Rgb::new_spec(0x81, 0xA1, 0xC1),
        crate::theme::theme_color(Theme::PlemeDark, Role::Ident) == Rgb::new_spec(0xB4, 0x8E, 0xAD),
        forall|a: Role, b: Role|
            #![auto]
            is_state_role(a) && is_state_role(b) && a != b ==> crate::theme::theme_color(
                Theme::PlemeDark,
                a,
            ) != crate::theme::theme_color(Theme::PlemeDark, b),
{
}

/// The four state roles: error, warning, pending, success.
pub open spec fn is_state_role(r: Role) -> bool {
    r == Role::Error || r == Role::Warn || r == Role::Pending || r == Role::Success
}

} // verus!
