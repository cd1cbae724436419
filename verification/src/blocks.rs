//! The line-output block set: callout, banner, rule, panel, list, badge,
//! table.
//!
//! Every block lays out into lines of fragments from a [`Capability`] and a
//! [`Theme`] alone.  At most one accent role per block; state colors only
//! for state; hierarchy by weight and dimness.
use vstd::prelude::*;

use crate::caps::Capability;
use crate::ir::{
    accent_frag, display_width, is_narrow_glyph, lemma_line_width_push, line_view, lines_view,
    plain_frag, spec_line_width, severity_glyph, severity_role, severity_tag, str_width,
    styled_frag, CalloutSeverity, Fragment, FragmentView, StyledLine,
};
use crate::render::BlockRender;
use crate::text::{owned, push_char, repeat, spec_repeat};
use crate::theme::{Role, Theme};

verus! {

broadcast use vstd::string::group_string_axioms;

// ── glyph tables (unicode ⇄ ascii fallback) ───────────────────────────────

/// Top-left frame corner.
pub open spec fn glyph_tl(unicode: bool) -> Seq<char> {
    if unicode {
        "╭"@
    } else {
        "+"@
    }
}

/// Top-right frame corner.
pub open spec fn glyph_tr(unicode: bool) -> Seq<char> {
    if unicode {
        "╮"@
    } else {
        "+"@
    }
}

/// Bottom-left frame corner.
pub open spec fn glyph_bl(unicode: bool) -> Seq<char> {
    if unicode {
        "╰"@
    } else {
        "+"@
    }
}

/// Bottom-right frame corner.
pub open spec fn glyph_br(unicode: bool) -> Seq<char> {
    if unicode {
        "╯"@
    } else {
        "+"@
    }
}

/// Horizontal rule piece.
pub open spec fn glyph_h(unicode: bool) -> Seq<char> {
    if unicode {
        "─"@
    } else {
        "-"@
    }
}

/// Vertical frame piece.
pub open spec fn glyph_v(unicode: bool) -> Seq<char> {
    if unicode {
        "│"@
    } else {
        "|"@
    }
}

/// The banner's leading mark.
pub open spec fn glyph_snow(unicode: bool) -> Seq<char> {
    if unicode {
        "❄"@
    } else {
        "*"@
    }
}

/// The list bullet.
pub open spec fn glyph_bullet(unicode: bool) -> Seq<char> {
    if unicode {
        "•"@
    } else {
        "-"@
    }
}

/// Every frame glyph is one narrow character.
proof fn lemma_frame_glyphs(u: bool)
    ensures
        glyph_tl(u).len() == 1 && is_narrow_glyph(glyph_tl(u)[0]),
        glyph_tr(u).len() == 1 && is_narrow_glyph(glyph_tr(u)[0]),
        glyph_bl(u).len() == 1 && is_narrow_glyph(glyph_bl(u)[0]),
        glyph_br(u).len() == 1 && is_narrow_glyph(glyph_br(u)[0]),
        glyph_h(u).len() == 1 && is_narrow_glyph(glyph_h(u)[0]),
        glyph_v(u).len() == 1 && is_narrow_glyph(glyph_v(u)[0]),
        " "@.len() == 1 && is_narrow_glyph(" "@[0]),
{
    reveal_strlit("╭");
    reveal_strlit("╮");
    reveal_strlit("╰");
    reveal_strlit("╯");
    reveal_strlit("─");
    reveal_strlit("│");
    reveal_strlit("+");
    reveal_strlit("-");
    reveal_strlit("|");
    reveal_strlit(" ");
}

/// A text made of narrow glyphs.
pub open spec fn all_narrow(s: Seq<char>) -> bool {
    forall|k: int| 0 <= k < s.len() ==> is_narrow_glyph(#[trigger] s[k])
}

/// A run of one narrow glyph, between two narrow glyphs, is all narrow and
/// two longer than the run.
proof fn lemma_narrow_run(a: Seq<char>, h: Seq<char>, n: nat, b: Seq<char>)
    requires
        a.len() == 1 && is_narrow_glyph(a[0]),
        h.len() == 1 && is_narrow_glyph(h[0]),
        b.len() == 1 && is_narrow_glyph(b[0]),
    ensures
        all_narrow(a + spec_repeat(h, n) + b),
        (a + spec_repeat(h, n) + b).len() == n + 2,
{
    crate::text::lemma_repeat_char(h, n);
    let s = a + spec_repeat(h, n) + b;
    assert forall|k: int| 0 <= k < s.len() implies is_narrow_glyph(#[trigger] s[k]) by {
        if k == 0 {
            assert(s[k] == a[0]);
        } else if k < n + 1 {
            assert(s[k] == spec_repeat(h, n)[k - 1]);
        } else {
            assert(s[k] == b[0]);
        }
    }
}

struct Glyphs {
    tl: &'static str,
    tr: &'static str,
    bl: &'static str,
    br: &'static str,
    h: &'static str,
    v: &'static str,
    snow: &'static str,
    bullet: &'static str,
}

fn glyphs(caps: &Capability) -> (g: Glyphs)
    ensures
        g.tl@ == glyph_tl(caps.unicode),
        g.tr@ == glyph_tr(caps.unicode),
        g.bl@ == glyph_bl(caps.unicode),
        g.br@ == glyph_br(caps.unicode),
        g.h@ == glyph_h(caps.unicode),
        g.v@ == glyph_v(caps.unicode),
        g.snow@ == glyph_snow(caps.unicode),
        g.bullet@ == glyph_bullet(caps.unicode),
{
    if caps.unicode {
        Glyphs { tl: "╭", tr: "╮", bl: "╰", br: "╯", h: "─", v: "│", snow: "❄", bullet: "•" }
    } else {
        Glyphs { tl: "+", tr: "+", bl: "+", br: "+", h: "-", v: "|", snow: "*", bullet: "-" }
    }
}

/// The view of an optional string.
pub open spec fn opt_string(o: Option<String>) -> Option<Seq<char>> {
    match o {
        Some(s) => Some(s@),
        None => None,
    }
}

// ── Callout ────────────────────────────────────────────────────────────────

/// A severity-tagged one-line admonition.
#[derive(Clone, Debug)]
pub struct Callout {
    pub severity: CalloutSeverity,
    pub message: String,
    pub title: Option<String>,
}

/// The one line of a callout: the severity mark (glyph on a unicode
/// terminal, `[TAG] ` otherwise), an optional bold `title: ` lead-in, then
/// the message as body text.
pub open spec fn callout_line(
    severity: CalloutSeverity,
    message: Seq<char>,
    title: Option<Seq<char>>,
    unicode: bool,
) -> Seq<FragmentView> {
    let role = severity_role(severity);
    let mark = if unicode {
        seq![styled_frag(severity_glyph(severity), role), plain_frag(" "@)]
    } else {
        seq![plain_frag("["@), styled_frag(severity_tag(severity), role), plain_frag("] "@)]
    };
    let lead = match title {
        Some(t) => seq![accent_frag(t, role), plain_frag(": "@)],
        None => Seq::empty(),
    };
    mark + lead + seq![styled_frag(message, Role::Text)]
}

impl Callout {
    pub fn new(severity: CalloutSeverity, message: &str) -> (c: Callout)
        ensures
            c.severity == severity,
            c.message@ == message@,
            c.title is None,
    {
        Callout { severity, message: owned(message), title: None }
    }

    /// Give the callout a bold lead-in title (`title: message`).
    pub fn with_title(self, title: &str) -> (c: Callout)
        ensures
            c.severity == self.severity,
            c.message == self.message,
            opt_string(c.title) == Some(title@),
    {
        Callout { severity: self.severity, message: self.message, title: Some(owned(title)) }
    }
}

impl BlockRender for Callout {
    open spec fn spec_layout(&self, caps: Capability, theme: Theme) -> Seq<Seq<FragmentView>> {
        seq![callout_line(self.severity, self.message@, opt_string(self.title), caps.unicode)]
    }

    fn layout(&self, caps: &Capability, theme: Theme) -> (r: Vec<StyledLine>) {
        let role = self.severity.role();
        let mut line: StyledLine = Vec::new();
        if caps.unicode {
            line.push(Fragment::styled(self.severity.glyph(), role));
            line.push(Fragment::plain(" "));
        } else {
            line.push(Fragment::plain("["));
            line.push(Fragment::styled(self.severity.tag(), role));
            line.push(Fragment::plain("] "));
        }
        match &self.title {
            Some(title) => {
                line.push(Fragment::accent(title.as_str(), role));
                line.push(Fragment::plain(": "));
            },
            None => {},
        }
        line.push(Fragment::styled(self.message.as_str(), Role::Text));
        let ghost expect = callout_line(self.severity, self.message@, opt_string(self.title), caps.unicode);
        assert(crate::ir::line_view(line@) =~= expect);
        let mut lines: Vec<StyledLine> = Vec::new();
        lines.push(line);
        assert(crate::ir::lines_view(lines@) =~= seq![expect]);
        lines
    }
}


// ── Banner ─────────────────────────────────────────────────────────────────

/// A boxed title header: rounded box on a unicode terminal, `+`-box on ASCII.
#[derive(Clone, Debug)]
pub struct Banner {
    pub title: String,
    pub snowflake: bool,
}

/// `a + b`, saturating at `usize::MAX`.
pub open spec fn sat_add(a: int, b: int) -> int {
    if a + b > usize::MAX {
        usize::MAX as int
    } else {
        a + b
    }
}

/// The banner's boxed text: the optional mark and a space, then the title.
pub open spec fn banner_content(title: Seq<char>, snowflake: bool, unicode: bool) -> Seq<char> {
    (if snowflake {
        glyph_snow(unicode) + seq![' ']
    } else {
        Seq::empty()
    }) + title
}

/// The banner's three lines: a top border, the framed content padded by one
/// space each side, a bottom border.  The borders run over the content's
/// display width plus the two padding columns.
pub open spec fn banner_lines(title: Seq<char>, snowflake: bool, unicode: bool) -> Seq<
    Seq<FragmentView>,
> {
    let content = banner_content(title, snowflake, unicode);
    let inner = sat_add(display_width(content) as int, 2) as nat;
    let top = glyph_tl(unicode) + spec_repeat(glyph_h(unicode), inner) + glyph_tr(unicode);
    let bottom = glyph_bl(unicode) + spec_repeat(glyph_h(unicode), inner) + glyph_br(unicode);
    seq![
        seq![styled_frag(top, Role::Border)],
        seq![
            styled_frag(glyph_v(unicode), Role::Border),
            plain_frag(" "@),
            accent_frag(content, Role::Primary),
            plain_frag(" "@),
            styled_frag(glyph_v(unicode), Role::Border),
        ],
        seq![styled_frag(bottom, Role::Border)],
    ]
}

impl Banner {
    pub fn new(title: &str) -> (b: Banner)
        ensures
            b.title@ == title@,
            b.snowflake,
    {
        Banner { title: owned(title), snowflake: true }
    }

    /// Drop the leading mark.
    pub fn bare(self) -> (b: Banner)
        ensures
            b.title == self.title,
            !b.snowflake,
    {
        Banner { title: self.title, snowflake: false }
    }
}

impl BlockRender for Banner {
    open spec fn spec_layout(&self, caps: Capability, theme: Theme) -> Seq<Seq<FragmentView>> {
        banner_lines(self.title@, self.snowflake, caps.unicode)
    }

    /// The box closes: each of the three lines is as wide as the content
    /// plus four columns.
    fn layout(&self, caps: &Capability, theme: Theme) -> (r: Vec<StyledLine>)
        ensures
            forall|i: int|
                0 <= i < 3 ==> spec_line_width(#[trigger] lines_view(r@)[i]) == display_width(
                    banner_content(self.title@, self.snowflake, caps.unicode),
                ) + 4,
    {
        let g = glyphs(caps);
        let mut content = String::new();
        if self.snowflake {
            content.append(g.snow);
            push_char(&mut content, ' ');
        }
        content.append(self.title.as_str());
        assert(content@ =~= banner_content(self.title@, self.snowflake, caps.unicode));
        let content_w = str_width(content.as_str());
        let inner = content_w.saturating_add(2);
        let mut top = String::new();
        top.append(g.tl);
        top.append(repeat(g.h, inner).as_str());
        top.append(g.tr);
        let mut bottom = String::new();
        bottom.append(g.bl);
        bottom.append(repeat(g.h, inner).as_str());
        bottom.append(g.br);
        let mut l0: StyledLine = Vec::new();
        l0.push(Fragment::styled(top.as_str(), Role::Border));
        let mut l1: StyledLine = Vec::new();
        l1.push(Fragment::styled(g.v, Role::Border));
        l1.push(Fragment::plain(" "));
        l1.push(Fragment::accent(content.as_str(), Role::Primary));
        l1.push(Fragment::plain(" "));
        l1.push(Fragment::styled(g.v, Role::Border));
        let mut l2: StyledLine = Vec::new();
        l2.push(Fragment::styled(bottom.as_str(), Role::Border));
        let ghost (v0, v1, v2) = (
            crate::ir::line_view(l0@),
            crate::ir::line_view(l1@),
            crate::ir::line_view(l2@),
        );
        let mut lines: Vec<StyledLine> = Vec::new();
        lines.push(l0);
        lines.push(l1);
        lines.push(l2);
        let ghost expect = banner_lines(self.title@, self.snowflake, caps.unicode);
        assert(v0 =~= expect[0]);
        assert(v1 =~= expect[1]);
        assert(v2 =~= expect[2]);
        assert(crate::ir::lines_view(lines@) =~= expect);
        // Measure the frame pieces: the borders and the sides are narrow glyphs.
        let top_w = str_width(top.as_str());
        let bottom_w = str_width(bottom.as_str());
        let side_w = str_width(g.v);
        let space_w = str_width(" ");
        proof {
            let u = caps.unicode;
            lemma_frame_glyphs(u);
            lemma_narrow_run(glyph_tl(u), glyph_h(u), inner as nat, glyph_tr(u));
            lemma_narrow_run(glyph_bl(u), glyph_h(u), inner as nat, glyph_br(u));
            assert(top@ =~= glyph_tl(u) + spec_repeat(glyph_h(u), inner as nat) + glyph_tr(u));
            assert(bottom@ =~= glyph_bl(u) + spec_repeat(glyph_h(u), inner as nat) + glyph_br(u));
            assert(all_narrow(top@));
            assert(all_narrow(bottom@));
            assert(top_w == inner + 2);
            assert(bottom_w == inner + 2);
            assert(inner == content_w + 2);
            assert(side_w == 1) by {
                assert(all_narrow(g.v@));
            }
            assert(space_w == 1) by {
                assert(all_narrow(" "@));
            }
            let e = Seq::<FragmentView>::empty();
            lemma_line_width_push(e, v0[0]);
            assert(v0 =~= e.push(v0[0]));
            lemma_line_width_push(e, v2[0]);
            assert(v2 =~= e.push(v2[0]));
            lemma_line_width_push(e, v1[0]);
            lemma_line_width_push(e.push(v1[0]), v1[1]);
            lemma_line_width_push(e.push(v1[0]).push(v1[1]), v1[2]);
            lemma_line_width_push(e.push(v1[0]).push(v1[1]).push(v1[2]), v1[3]);
            lemma_line_width_push(e.push(v1[0]).push(v1[1]).push(v1[2]).push(v1[3]), v1[4]);
            assert(v1 =~= e.push(v1[0]).push(v1[1]).push(v1[2]).push(v1[3]).push(v1[4]));
            assert(lines_view(lines@)[0] == v0);
            assert(lines_view(lines@)[1] == v1);
            assert(lines_view(lines@)[2] == v2);
        }
        lines
    }
}

// ── Rule ───────────────────────────────────────────────────────────────────

/// A full-width horizontal divider, optionally labelled.
#[derive(Clone, Debug)]
pub struct Rule {
    pub label: Option<String>,
}

/// The columns left for the tail of a labelled rule: the width less the
/// two-column lead, the label and its two spaces; zero when that does not
/// fit.
pub open spec fn rule_rest(width: int, label_w: int) -> nat {
    if label_w + 4 > width {
        0
    } else {
        (width - label_w - 4) as nat
    }
}

/// The rule's single line: the rule glyph across the full width, or a
/// two-glyph lead, a space, the label, a space and the rest of the width in
/// rule glyphs.
pub open spec fn rule_line(label: Option<Seq<char>>, width: u16, unicode: bool) -> Seq<FragmentView> {
    match label {
        None => seq![styled_frag(spec_repeat(glyph_h(unicode), width as nat), Role::Border)],
        Some(l) => seq![
            styled_frag(spec_repeat(glyph_h(unicode), 2) + seq![' '], Role::Border),
            styled_frag(l, Role::TextMuted),
            plain_frag(" "@),
            styled_frag(
                spec_repeat(glyph_h(unicode), rule_rest(width as int, display_width(l) as int)),
                Role::Border,
            ),
        ],
    }
}

impl Rule {
    pub fn new() -> (r: Rule)
        ensures
            r.label is None,
    {
        Rule { label: None }
    }

    pub fn labelled(label: &str) -> (r: Rule)
        ensures
            opt_string(r.label) == Some(label@),
    {
        Rule { label: Some(owned(label)) }
    }
}

impl Default for Rule {
    fn default() -> (r: Self)
        ensures
            r.label is None,
    {
        Rule::new()
    }
}

impl BlockRender for Rule {
    open spec fn spec_layout(&self, caps: Capability, theme: Theme) -> Seq<Seq<FragmentView>> {
        seq![rule_line(opt_string(self.label), caps.width, caps.unicode)]
    }

    /// The rule spans the width: the line is `width` columns wide, or the
    /// label plus its four columns of lead and spacing when that is wider.
    fn layout(&self, caps: &Capability, theme: Theme) -> (r: Vec<StyledLine>)
        ensures
            spec_line_width(lines_view(r@)[0]) == match opt_string(self.label) {
                None => caps.width as int,
                Some(l) => if display_width(l) + 4 > caps.width {
                    display_width(l) + 4
                } else {
                    caps.width as int
                },
            },
    {
        let g = glyphs(caps);
        let width = caps.width as usize;
        let mut line: StyledLine = Vec::new();
        let ghost u = caps.unicode;
        proof {
            lemma_frame_glyphs(u);
        }
        match &self.label {
            None => {
                let fill = repeat(g.h, width);
                // Measure the fill: a run of narrow glyphs.
                let fill_w = str_width(fill.as_str());
                proof {
                    crate::text::lemma_repeat_char(glyph_h(u), width as nat);
                    assert(all_narrow(fill@));
                }
                line.push(Fragment::styled(fill.as_str(), Role::Border));
                assert(crate::ir::line_view(line@) =~= rule_line(opt_string(self.label), caps.width, caps.unicode));
                proof {
                    let e = Seq::<FragmentView>::empty();
                    let v = line_view(line@);
                    lemma_line_width_push(e, v[0]);
                    assert(v =~= e.push(v[0]));
                }
            },
            Some(label) => {
                let label_w = str_width(label.as_str());
                let rest: usize = if label_w > width || width - label_w < 4 {
                    0
                } else {
                    width - label_w - 4
                };
                let mut lead = repeat(g.h, 2);
                push_char(&mut lead, ' ');
                let fill = repeat(g.h, rest);
                // Measure the lead, the gap and the fill: runs of narrow glyphs.
                let lead_w = str_width(lead.as_str());
                let gap_w = str_width(" ");
                let fill_w = str_width(fill.as_str());
                proof {
                    crate::text::lemma_repeat_char(glyph_h(u), 2);
                    crate::text::lemma_repeat_char(glyph_h(u), rest as nat);
                    assert(lead@ =~= spec_repeat(glyph_h(u), 2) + seq![' ']);
                    assert(all_narrow(lead@)) by {
                        assert forall|k: int| 0 <= k < lead@.len() implies is_narrow_glyph(
                            #[trigger] lead@[k],
                        ) by {
                            if k < 2 {
                                assert(lead@[k] == spec_repeat(glyph_h(u), 2)[k]);
                            }
                        }
                    }
                    assert(all_narrow(fill@));
                    assert(all_narrow(" "@));
                }
                line.push(Fragment::styled(lead.as_str(), Role::Border));
                line.push(Fragment::styled(label.as_str(), Role::TextMuted));
                line.push(Fragment::plain(" "));
                line.push(Fragment::styled(fill.as_str(), Role::Border));
                assert(rest == rule_rest(width as int, display_width(label@) as int));
                assert(crate::ir::line_view(line@)[0].text =~= spec_repeat(glyph_h(caps.unicode), 2) + seq![' ']);
                assert(crate::ir::line_view(line@) =~= rule_line(opt_string(self.label), caps.width, caps.unicode));
                proof {
                    let e = Seq::<FragmentView>::empty();
                    let v = line_view(line@);
                    lemma_line_width_push(e, v[0]);
                    lemma_line_width_push(e.push(v[0]), v[1]);
                    lemma_line_width_push(e.push(v[0]).push(v[1]), v[2]);
                    lemma_line_width_push(e.push(v[0]).push(v[1]).push(v[2]), v[3]);
                    assert(v =~= e.push(v[0]).push(v[1]).push(v[2]).push(v[3]));
                    assert(lead_w == 3 && gap_w == 1 && fill_w == rest);
                }
            },
        }
        let ghost expect = rule_line(opt_string(self.label), caps.width, caps.unicode);
        assert(crate::ir::line_view(line@) =~= expect);
        let mut lines: Vec<StyledLine> = Vec::new();
        lines.push(line);
        assert(crate::ir::lines_view(lines@) =~= seq![expect]);
        assert(lines_view(lines@)[0] == line_view(line@));
        lines
    }
}

// ── Badge ──────────────────────────────────────────────────────────────────

/// An inline `[ TEXT ]` pill, colored by a role.
#[derive(Clone, Debug)]
pub struct Badge {
    pub text: String,
    pub role: Role,
}

/// The badge's single line: bracket, the text in bold in its role, bracket.
pub open spec fn badge_line(text: Seq<char>, role: Role) -> Seq<FragmentView> {
    seq![styled_frag("[ "@, Role::Border), accent_frag(text, role), styled_frag(" ]"@, Role::Border)]
}

impl Badge {
    pub fn new(text: &str, role: Role) -> (b: Badge)
        ensures
            b.text@ == text@,
            b.role == role,
    {
        Badge { text: owned(text), role }
    }

    /// A badge in the role of a severity.
    pub fn severity(text: &str, sev: CalloutSeverity) -> (b: Badge)
        ensures
            b.text@ == text@,
            b.role == severity_role(sev),
    {
        Badge { text: owned(text), role: sev.role() }
    }
}

impl BlockRender for Badge {
    open spec fn spec_layout(&self, caps: Capability, theme: Theme) -> Seq<Seq<FragmentView>> {
        seq![badge_line(self.text@, self.role)]
    }

    fn layout(&self, caps: &Capability, theme: Theme) -> (r: Vec<StyledLine>) {
        let mut line: StyledLine = Vec::new();
        line.push(Fragment::styled("[ ", Role::Border));
        line.push(Fragment::accent(self.text.as_str(), self.role));
        line.push(Fragment::styled(" ]", Role::Border));
        let ghost expect = badge_line(self.text@, self.role);
        assert(crate::ir::line_view(line@) =~= expect);
        let mut lines: Vec<StyledLine> = Vec::new();
        lines.push(line);
        assert(crate::ir::lines_view(lines@) =~= seq![expect]);
        lines
    }
}


// ── Panel ──────────────────────────────────────────────────────────────────

/// An aligned key → value panel.
#[derive(Clone, Debug)]
pub struct Panel {
    pub title: Option<String>,
    pub rows: Vec<(String, String)>,
}

/// The widest key, in display columns (zero for no rows).
pub open spec fn max_key_width(rows: Seq<(String, String)>) -> nat
    decreases rows.len(),
{
    if rows.len() == 0 {
        0
    } else {
        let w = display_width(rows.last().0@) as nat;
        let m = max_key_width(rows.drop_last());
        if w > m {
            w
        } else {
            m
        }
    }
}

/// The number of lines before a panel's rows: one for a title.
pub open spec fn panel_head(title: Option<String>) -> int {
    if title is Some {
        1
    } else {
        0
    }
}

/// No key is wider than the widest key.
pub proof fn lemma_max_key_width_bounds(rows: Seq<(String, String)>, i: int)
    requires
        0 <= i < rows.len(),
    ensures
        display_width(rows[i].0@) <= max_key_width(rows),
    decreases rows.len(),
{
    if i < rows.len() - 1 {
        lemma_max_key_width_bounds(rows.drop_last(), i);
        assert(rows.drop_last()[i] == rows[i]);
    }
}

/// One panel row: two spaces, the key padded with spaces to the widest key,
/// a dim ` : `, then the value.
pub open spec fn panel_row_line(key: Seq<char>, value: Seq<char>, key_w: nat) -> Seq<FragmentView> {
    let pad = if key_w >= display_width(key) {
        (key_w - display_width(key)) as nat
    } else {
        0
    };
    seq![
        styled_frag("  "@ + key + spec_repeat(" "@, pad), Role::TextMuted),
        styled_frag(" : "@, Role::TextDim),
        styled_frag(value, Role::Text),
    ]
}

/// The panel's lines: the title in bold accent when there is one, then one
/// line per row, keys padded to the same width.
pub open spec fn panel_lines(title: Option<Seq<char>>, rows: Seq<(String, String)>) -> Seq<
    Seq<FragmentView>,
> {
    let head = match title {
        Some(t) => seq![seq![accent_frag(t, Role::Primary)]],
        None => Seq::empty(),
    };
    head + Seq::new(
        rows.len(),
        |i: int| panel_row_line(rows[i].0@, rows[i].1@, max_key_width(rows)),
    )
}

impl Panel {
    pub fn new() -> (p: Panel)
        ensures
            p.title is None,
            p.rows@.len() == 0,
    {
        Panel { title: None, rows: Vec::new() }
    }

    pub fn titled(title: &str) -> (p: Panel)
        ensures
            opt_string(p.title) == Some(title@),
            p.rows@.len() == 0,
    {
        Panel { title: Some(owned(title)), rows: Vec::new() }
    }

    /// Append a key → value row.
    pub fn row(self, key: &str, value: &str) -> (p: Panel)
        ensures
            p.title == self.title,
            p.rows@.len() == self.rows@.len() + 1,
            p.rows@.drop_last() == self.rows@,
            p.rows@.last().0@ == key@,
            p.rows@.last().1@ == value@,
    {
        let mut rows = self.rows;
        rows.push((owned(key), owned(value)));
        Panel { title: self.title, rows }
    }
}

impl Default for Panel {
    fn default() -> (p: Self)
        ensures
            p.title is None,
            p.rows@.len() == 0,
    {
        Panel::new()
    }
}

/// The widest key of the rows.
fn widest_key(rows: &Vec<(String, String)>) -> (w: usize)
    ensures
        w == max_key_width(rows@),
{
    let mut w: usize = 0;
    let mut i: usize = 0;
    while i < rows.len()
        invariant
            i <= rows@.len(),
            w == max_key_width(rows@.take(i as int)),
        decreases rows@.len() - i,
    {
        let kw = str_width(rows[i].0.as_str());
        assert(rows@.take(i + 1).drop_last() =~= rows@.take(i as int));
        if kw > w {
            w = kw;
        }
        i += 1;
    }
    assert(rows@.take(rows@.len() as int) =~= rows@);
    w
}

impl BlockRender for Panel {
    open spec fn spec_layout(&self, caps: Capability, theme: Theme) -> Seq<Seq<FragmentView>> {
        panel_lines(opt_string(self.title), self.rows@)
    }

    /// Keys align: on every row the padded key is two columns wider than
    /// the widest key, so every ` : ` starts in the same column.
    fn layout(&self, caps: &Capability, theme: Theme) -> (r: Vec<StyledLine>)
        ensures
            forall|j: int|
                panel_head(self.title) <= j < panel_head(self.title) + self.rows@.len() ==> display_width(
                    (#[trigger] lines_view(r@)[j])[0].text,
                ) == max_key_width(self.rows@) + 2,
    {
        let key_w = widest_key(&self.rows);
        let mut lines: Vec<StyledLine> = Vec::new();
        let ghost head = match opt_string(self.title) {
            Some(t) => seq![seq![accent_frag(t, Role::Primary)]],
            None => Seq::<Seq<FragmentView>>::empty(),
        };
        match &self.title {
            Some(title) => {
                let mut l: StyledLine = Vec::new();
                l.push(Fragment::accent(title.as_str(), Role::Primary));
                lines.push(l);
                assert(crate::ir::lines_view(lines@) =~~= head);
            },
            None => {
                assert(crate::ir::lines_view(lines@) =~= head);
            },
        }
        let ghost n0 = lines@.len();
        let mut i: usize = 0;
        while i < self.rows.len()
            invariant
                i <= self.rows@.len(),
                key_w == max_key_width(self.rows@),
                lines@.len() == n0 + i,
                crate::ir::lines_view(lines@) =~= head + Seq::new(
                    i as nat,
                    |j: int| panel_row_line(self.rows@[j].0@, self.rows@[j].1@, key_w as nat),
                ),
                forall|j: int|
                    0 <= j < i ==> display_width(
                        (#[trigger] panel_row_line(self.rows@[j].0@, self.rows@[j].1@, key_w as nat))[0].text,
                    ) == key_w + 2,
            decreases self.rows@.len() - i,
        {
            let k = &self.rows[i].0;
            let v = &self.rows[i].1;
            let kw = str_width(k.as_str());
            let pad: usize = if key_w >= kw {
                key_w - kw
            } else {
                0
            };
            let mut key = String::new();
            key.append("  ");
            key.append(k.as_str());
            key.append(repeat(" ", pad).as_str());
            // Measure the padded key: spaces around the key add a column each.
            let padded_w = str_width(key.as_str());
            proof {
                reveal_strlit("  ");
                reveal_strlit(" ");
                crate::text::lemma_repeat_char(" "@, pad as nat);
                lemma_max_key_width_bounds(self.rows@, i as int);
                let ks = key@;
                let n: int = k@.len() as int;
                assert(ks =~= "  "@ + k@ + spec_repeat(" "@, pad as nat));
                assert(ks.subrange(2, 2 + n) =~= k@);
                assert forall|t: int| 0 <= t < 2 implies #[trigger] ks[t] == ' ' by {}
                assert forall|t: int| 2 + n <= t < ks.len() implies #[trigger] ks[t] == ' ' by {
                    assert(ks[t] == spec_repeat(" "@, pad as nat)[t - 2 - n]);
                }
                assert(crate::ir::space_padded(ks, 2, 2 + n));
                assert(padded_w == 2 + kw + pad);
            }
            let mut l: StyledLine = Vec::new();
            l.push(Fragment::styled(key.as_str(), Role::TextMuted));
            l.push(Fragment::styled(" : ", Role::TextDim));
            l.push(Fragment::styled(v.as_str(), Role::Text));
            assert(crate::ir::line_view(l@) =~= panel_row_line(k@, v@, key_w as nat));
            assert(panel_row_line(k@, v@, key_w as nat)[0].text == key@);
            let ghost prev = crate::ir::lines_view(lines@);
            lines.push(l);
            assert(crate::ir::lines_view(lines@) =~= prev.push(crate::ir::line_view(l@)));
            assert(Seq::new(
                (i + 1) as nat,
                |j: int| panel_row_line(self.rows@[j].0@, self.rows@[j].1@, key_w as nat),
            ) =~= Seq::new(
                i as nat,
                |j: int| panel_row_line(self.rows@[j].0@, self.rows@[j].1@, key_w as nat),
            ).push(panel_row_line(k@, v@, key_w as nat)));
            i += 1;
        }
        lines
    }
}

// ── List ───────────────────────────────────────────────────────────────────

/// One list item: a bullet, or a task carrying a status severity.
#[derive(Clone, Debug)]
pub struct ListItem {
    pub text: String,
    pub status: Option<CalloutSeverity>,
}

/// A bullet / task list.
#[derive(Clone, Debug)]
pub struct List {
    pub items: Vec<ListItem>,
}

/// An item's marker and its role: the severity glyph (unicode) or `[TAG]`
/// (ASCII) in the severity's role for a task, the bullet in the accent role
/// otherwise.
pub open spec fn list_marker(status: Option<CalloutSeverity>, unicode: bool) -> (Seq<char>, Role) {
    match status {
        Some(sev) => if unicode {
            (severity_glyph(sev), severity_role(sev))
        } else {
            (seq!['['] + severity_tag(sev) + seq![']'], severity_role(sev))
        },
        None => (glyph_bullet(unicode), Role::Primary),
    }
}

/// One list line: two spaces, the marker, a space, the item text.
pub open spec fn list_item_line(text: Seq<char>, status: Option<CalloutSeverity>, unicode: bool) -> Seq<
    FragmentView,
> {
    let (marker, role) = list_marker(status, unicode);
    seq![
        plain_frag("  "@),
        styled_frag(marker, role),
        plain_frag(" "@),
        styled_frag(text, Role::Text),
    ]
}

/// One line per item, in order.
pub open spec fn list_lines(items: Seq<ListItem>, unicode: bool) -> Seq<Seq<FragmentView>> {
    Seq::new(items.len(), |i: int| list_item_line(items[i].text@, items[i].status, unicode))
}

impl List {
    pub fn new() -> (l: List)
        ensures
            l.items@.len() == 0,
    {
        List { items: Vec::new() }
    }

    /// Append a bullet item.
    pub fn bullet(self, text: &str) -> (l: List)
        ensures
            l.items@.len() == self.items@.len() + 1,
            l.items@.drop_last() == self.items@,
            l.items@.last().text@ == text@,
            l.items@.last().status is None,
    {
        let mut items = self.items;
        items.push(ListItem { text: owned(text), status: None });
        List { items }
    }

    /// Append a task item carrying a status.
    pub fn task(self, status: CalloutSeverity, text: &str) -> (l: List)
        ensures
            l.items@.len() == self.items@.len() + 1,
            l.items@.drop_last() == self.items@,
            l.items@.last().text@ == text@,
            l.items@.last().status == Some(status),
    {
        let mut items = self.items;
        items.push(ListItem { text: owned(text), status: Some(status) });
        List { items }
    }
}

impl Default for List {
    fn default() -> (l: Self)
        ensures
            l.items@.len() == 0,
    {
        List::new()
    }
}

impl BlockRender for List {
    open spec fn spec_layout(&self, caps: Capability, theme: Theme) -> Seq<Seq<FragmentView>> {
        list_lines(self.items@, caps.unicode)
    }

    fn layout(&self, caps: &Capability, theme: Theme) -> (r: Vec<StyledLine>) {
        let g = glyphs(caps);
        let mut lines: Vec<StyledLine> = Vec::new();
        let mut i: usize = 0;
        while i < self.items.len()
            invariant
                i <= self.items@.len(),
                g.bullet@ == glyph_bullet(caps.unicode),
                crate::ir::lines_view(lines@) =~= list_lines(self.items@.take(i as int), caps.unicode),
            decreases self.items@.len() - i,
        {
            let item = &self.items[i];
            let mut marker = String::new();
            let role = match item.status {
                Some(sev) => {
                    if caps.unicode {
                        marker.append(sev.glyph());
                    } else {
                        push_char(&mut marker, '[');
                        marker.append(sev.tag());
                        push_char(&mut marker, ']');
                    }
                    sev.role()
                },
                None => {
                    marker.append(g.bullet);
                    Role::Primary
                },
            };
            assert(marker@ =~= list_marker(item.status, caps.unicode).0);
            let mut l: StyledLine = Vec::new();
            l.push(Fragment::plain("  "));
            l.push(Fragment::styled(marker.as_str(), role));
            l.push(Fragment::plain(" "));
            l.push(Fragment::styled(item.text.as_str(), Role::Text));
            assert(crate::ir::line_view(l@) =~= list_item_line(item.text@, item.status, caps.unicode));
            lines.push(l);
            assert(list_lines(self.items@.take(i + 1), caps.unicode) =~= list_lines(
                self.items@.take(i as int),
                caps.unicode,
            ).push(list_item_line(item.text@, item.status, caps.unicode)));
            i += 1;
        }
        assert(self.items@.take(self.items@.len() as int) =~= self.items@);
        lines
    }
}


// ── Table ──────────────────────────────────────────────────────────────────

/// A table: a header row and body rows, columns aligned to their widest
/// cell.  The header fixes the number of columns; missing cells are empty
/// and extra cells are not shown.
#[derive(Clone, Debug)]
pub struct Table {
    pub headers: Vec<String>,
    pub rows: Vec<Vec<String>>,
}

/// The text of cell `c` of a row (empty when the row is shorter).
pub open spec fn cell_text(row: Seq<String>, c: int) -> Seq<char> {
    if 0 <= c < row.len() {
        row[c]@
    } else {
        Seq::empty()
    }
}

/// The display width of cell `c` of a row (zero when the row is shorter).
pub open spec fn cell_width(row: Seq<String>, c: int) -> nat {
    if 0 <= c < row.len() {
        display_width(row[c]@) as nat
    } else {
        0
    }
}

/// The width of column `c`: its widest cell over the header and the rows.
pub open spec fn column_width(headers: Seq<String>, rows: Seq<Vec<String>>, c: int) -> nat
    decreases rows.len(),
{
    if rows.len() == 0 {
        cell_width(headers, c)
    } else {
        let m = column_width(headers, rows.drop_last(), c);
        let w = cell_width(rows.last()@, c);
        if w > m {
            w
        } else {
            m
        }
    }
}

/// A cell as laid out: two spaces before every column but the first, the
/// cell text, then spaces up to the column width.
pub open spec fn table_cell(row: Seq<String>, c: int, width: nat) -> Seq<char> {
    let pad = if width >= cell_width(row, c) {
        (width - cell_width(row, c)) as nat
    } else {
        0
    };
    (if c > 0 {
        "  "@
    } else {
        Seq::empty()
    }) + cell_text(row, c) + spec_repeat(" "@, pad)
}

/// One table line: a fragment per column, bold accent for the header, body
/// text otherwise.
pub open spec fn table_line(row: Seq<String>, headers: Seq<String>, rows: Seq<Vec<String>>, header: bool) -> Seq<FragmentView> {
    Seq::new(
        headers.len(),
        |c: int|
            FragmentView {
                text: table_cell(row, c, column_width(headers, rows, c)),
                role: Some(
                    if header {
                        Role::Primary
                    } else {
                        Role::Text
                    },
                ),
                bold: header,
                dim: false,
            },
    )
}

/// The header line, then one line per row.
pub open spec fn table_lines(headers: Seq<String>, rows: Seq<Vec<String>>) -> Seq<Seq<FragmentView>> {
    seq![table_line(headers, headers, rows, true)] + Seq::new(
        rows.len(),
        |r: int| table_line(rows[r]@, headers, rows, false),
    )
}

impl Table {
    pub fn new(headers: Vec<String>) -> (t: Table)
        ensures
            t.headers == headers,
            t.rows@.len() == 0,
    {
        Table { headers, rows: Vec::new() }
    }

    /// Append a body row.
    pub fn row(self, cells: Vec<String>) -> (t: Table)
        ensures
            t.headers == self.headers,
            t.rows@ == self.rows@.push(cells),
    {
        let mut rows = self.rows;
        rows.push(cells);
        Table { headers: self.headers, rows }
    }
}

fn cell_width_of(row: &Vec<String>, c: usize) -> (w: usize)
    ensures
        w == cell_width(row@, c as int),
{
    if c < row.len() {
        str_width(row[c].as_str())
    } else {
        0
    }
}

fn column_width_of(headers: &Vec<String>, rows: &Vec<Vec<String>>, c: usize) -> (w: usize)
    ensures
        w == column_width(headers@, rows@, c as int),
{
    let mut w = cell_width_of(headers, c);
    let mut r: usize = 0;
    while r < rows.len()
        invariant
            r <= rows@.len(),
            w == column_width(headers@, rows@.take(r as int), c as int),
        decreases rows@.len() - r,
    {
        let cw = cell_width_of(&rows[r], c);
        assert(rows@.take(r + 1).drop_last() =~= rows@.take(r as int));
        if cw > w {
            w = cw;
        }
        r += 1;
    }
    assert(rows@.take(rows@.len() as int) =~= rows@);
    w
}

fn table_line_of(row: &Vec<String>, widths: &Vec<usize>, headers: Ghost<Seq<String>>, rows: Ghost<Seq<Vec<String>>>, header: bool) -> (l: StyledLine)
    requires
        widths@.len() == headers@.len(),
        forall|c: int| 0 <= c < widths@.len() ==> widths@[c] == column_width(headers@, rows@, c),
    ensures
        crate::ir::line_view(l@) =~= table_line(row@, headers@, rows@, header),
{
    let mut l: StyledLine = Vec::new();
    let mut c: usize = 0;
    while c < widths.len()
        invariant
            c <= widths@.len(),
            widths@.len() == headers@.len(),
            forall|k: int| 0 <= k < widths@.len() ==> widths@[k] == column_width(headers@, rows@, k),
            crate::ir::line_view(l@) =~= table_line(row@, headers@, rows@, header).take(c as int),
        decreases widths@.len() - c,
    {
        let cw = cell_width_of(row, c);
        let w = widths[c];
        let pad: usize = if w >= cw {
            w - cw
        } else {
            0
        };
        let mut text = String::new();
        if c > 0 {
            text.append("  ");
        }
        if c < row.len() {
            text.append(row[c].as_str());
        }
        text.append(repeat(" ", pad).as_str());
        assert(text@ =~= table_cell(row@, c as int, column_width(headers@, rows@, c as int)));
        let frag = if header {
            Fragment::accent(text.as_str(), Role::Primary)
        } else {
            Fragment::styled(text.as_str(), Role::Text)
        };
        l.push(frag);
        assert(table_line(row@, headers@, rows@, header).take(c + 1) =~= table_line(
            row@,
            headers@,
            rows@,
            header,
        ).take(c as int).push(frag@));
        c += 1;
    }
    assert(table_line(row@, headers@, rows@, header).take(widths@.len() as int) =~= table_line(
        row@,
        headers@,
        rows@,
        header,
    ));
    l
}

impl BlockRender for Table {
    open spec fn spec_layout(&self, caps: Capability, theme: Theme) -> Seq<Seq<FragmentView>> {
        table_lines(self.headers@, self.rows@)
    }

    fn layout(&self, caps: &Capability, theme: Theme) -> (r: Vec<StyledLine>) {
        let mut widths: Vec<usize> = Vec::new();
        let mut c: usize = 0;
        while c < self.headers.len()
            invariant
                c <= self.headers@.len(),
                widths@.len() == c,
                forall|k: int| 0 <= k < c ==> widths@[k] == column_width(self.headers@, self.rows@, k),
            decreases self.headers@.len() - c,
        {
            widths.push(column_width_of(&self.headers, &self.rows, c));
            c += 1;
        }
        let mut lines: Vec<StyledLine> = Vec::new();
        let hl = table_line_of(&self.headers, &widths, Ghost(self.headers@), Ghost(self.rows@), true);
        lines.push(hl);
        let mut r: usize = 0;
        while r < self.rows.len()
            invariant
                r <= self.rows@.len(),
                widths@.len() == self.headers@.len(),
                forall|k: int| 0 <= k < widths@.len() ==> widths@[k] == column_width(self.headers@, self.rows@, k),
                crate::ir::lines_view(lines@) =~~= table_lines(self.headers@, self.rows@).take(r + 1),
            decreases self.rows@.len() - r,
        {
            let l = table_line_of(&self.rows[r], &widths, Ghost(self.headers@), Ghost(self.rows@), false);
            let ghost prev = crate::ir::lines_view(lines@);
            lines.push(l);
            assert(crate::ir::lines_view(lines@) =~= prev.push(crate::ir::line_view(l@)));
            assert(table_lines(self.headers@, self.rows@).take(r + 2) =~= table_lines(self.headers@, self.rows@).take(r + 1).push(table_line(self.rows@[r as int]@, self.headers@, self.rows@, false)));
            r += 1;
        }
        assert(table_lines(self.headers@, self.rows@).take(self.rows@.len() as int + 1) =~= table_lines(self.headers@, self.rows@));
        lines
    }
}


// ── values of the blocks ──────────────────────────────────────────────────

/// The value of a [`Callout`].
pub struct CalloutView {
    pub severity: CalloutSeverity,
    pub message: Seq<char>,
    pub title: Option<Seq<char>>,
}

/// The value of a [`Banner`].
pub struct BannerView {
    pub title: Seq<char>,
    pub snowflake: bool,
}

/// The value of a [`Rule`].
pub struct RuleView {
    pub label: Option<Seq<char>>,
}

/// The value of a [`Badge`].
pub struct BadgeView {
    pub text: Seq<char>,
    pub role: Role,
}

/// The value of a [`Panel`]: its title and its key → value rows.
pub struct PanelView {
    pub title: Option<Seq<char>>,
    pub rows: Seq<(Seq<char>, Seq<char>)>,
}

/// The value of a [`List`]: each item's text and status.
pub struct ListView {
    pub items: Seq<(Seq<char>, Option<CalloutSeverity>)>,
}

/// The value of a [`Table`]: header cells and body rows of cells.
pub struct TableView {
    pub headers: Seq<Seq<char>>,
    pub rows: Seq<Seq<Seq<char>>>,
}

impl View for Callout {
    type V = CalloutView;

    open spec fn view(&self) -> CalloutView {
        CalloutView { severity: self.severity, message: self.message@, title: opt_string(self.title) }
    }
}

impl View for Banner {
    type V = BannerView;

    open spec fn view(&self) -> BannerView {
        BannerView { title: self.title@, snowflake: self.snowflake }
    }
}

impl View for Rule {
    type V = RuleView;

    open spec fn view(&self) -> RuleView {
        RuleView { label: opt_string(self.label) }
    }
}

impl View for Badge {
    type V = BadgeView;

    open spec fn view(&self) -> BadgeView {
        BadgeView { text: self.text@, role: self.role }
    }
}

impl View for Panel {
    type V = PanelView;

    open spec fn view(&self) -> PanelView {
        PanelView {
            title: opt_string(self.title),
            rows: self.rows@.map_values(|r: (String, String)| (r.0@, r.1@)),
        }
    }
}

impl View for List {
    type V = ListView;

    open spec fn view(&self) -> ListView {
        ListView { items: self.items@.map_values(|it: ListItem| (it.text@, it.status)) }
    }
}

/// The values of a row of cells.
pub open spec fn cells_view(cells: Seq<String>) -> Seq<Seq<char>> {
    cells.map_values(|c: String| c@)
}

impl View for Table {
    type V = TableView;

    open spec fn view(&self) -> TableView {
        TableView {
            headers: cells_view(self.headers@),
            rows: self.rows@.map_values(|r: Vec<String>| cells_view(r@)),
        }
    }
}

} // verus!
