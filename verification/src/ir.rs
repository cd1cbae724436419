//! The capability-independent block IR: pure data, no depth, no width.
//!
//! A [`Fragment`] is a run of text that names a [`Role`] (never a color), so
//! its display width is measurable on the escape-free text.  A
//! [`StyledLine`] is a row of fragments.
use vstd::prelude::*;

use crate::theme::Role;

verus! {

/// The display width of a string in terminal columns, as `unicode-width`
/// measures it.
pub uninterp spec fn display_width(s: Seq<char>) -> usize;

/// Printable ASCII, or one of the box-drawing glyphs `╭ ╮ ╰ ╯ ─ │`.
pub open spec fn is_narrow_glyph(c: char) -> bool {
    (' ' <= c && c <= '~') || c == '╭' || c == '╮' || c == '╰' || c == '╯' || c == '─' || c == '│'
}

/// The first `i` characters and those from `j` on are spaces.
pub open spec fn space_padded(s: Seq<char>, i: int, j: int) -> bool {
    &&& 0 <= i <= j <= s.len()
    &&& forall|k: int| 0 <= k < i ==> #[trigger] s[k] == ' '
    &&& forall|k: int| j <= k < s.len() ==> #[trigger] s[k] == ' '
}

/// Display width of `s`.
///
/// Trusted: `unicode_width::UnicodeWidthStr::width` is a function of the
/// string alone (its Unicode tables).  Two facts its source shows are
/// stated of the string measured: `lookup::str_width` folds the characters
/// from the end, and a printable ASCII character or a box-drawing glyph that
/// is followed by no variation selector counts one column and leaves the
/// fold in its initial state, so a string made only of them is as wide as it
/// is long; a space always counts one column and resets the fold, so spaces
/// around a text add one column each to the text's own width.  Nothing else
/// of the function is stated.
#[verifier::external_body]
pub(crate) fn str_width(s: &str) -> (w: usize)
    ensures
        w == display_width(s@),
        (forall|k: int| 0 <= k < s@.len() ==> is_narrow_glyph(#[trigger] s@[k])) ==> w == s@.len(),
        forall|i: int, j: int|
            #[trigger] space_padded(s@, i, j) ==> w == i + display_width(s@.subrange(i, j)) + (
            s@.len() - j),
{
    unicode_width::UnicodeWidthStr::width(s)
}

/// One styled run of text: a role, not a color.
#[derive(Clone, Debug, PartialEq, Eq)]
pub struct Fragment {
    pub text: String,
    pub role: Option<Role>,
    pub bold: bool,
    pub dim: bool,
}

/// The mathematical value of a [`Fragment`].
pub struct FragmentView {
    pub text: Seq<char>,
    pub role: Option<Role>,
    pub bold: bool,
    pub dim: bool,
}

impl View for Fragment {
    type V = FragmentView;

    open spec fn view(&self) -> FragmentView {
        FragmentView { text: self.text@, role: self.role, bold: self.bold, dim: self.dim }
    }
}

/// Unstyled text.
pub open spec fn plain_frag(text: Seq<char>) -> FragmentView {
    FragmentView { text, role: None, bold: false, dim: false }
}

/// Text in a role.
pub open spec fn styled_frag(text: Seq<char>, role: Role) -> FragmentView {
    FragmentView { text, role: Some(role), bold: false, dim: false }
}

/// Bold text in a role.
pub open spec fn accent_frag(text: Seq<char>, role: Role) -> FragmentView {
    FragmentView { text, role: Some(role), bold: true, dim: false }
}

/// Dimmed text in a role.
pub open spec fn faint_frag(text: Seq<char>, role: Role) -> FragmentView {
    FragmentView { text, role: Some(role), bold: false, dim: true }
}

impl Fragment {
    /// Unstyled text.
    pub fn plain(text: &str) -> (f: Fragment)
        ensures
            f@ == plain_frag(text@),
    {
        Fragment { text: text.to_owned(), role: None, bold: false, dim: false }
    }

    /// Text in a role.
    pub fn styled(text: &str, role: Role) -> (f: Fragment)
        ensures
            f@ == styled_frag(text@, role),
    {
        Fragment { text: text.to_owned(), role: Some(role), bold: false, dim: false }
    }

    /// A bold accent fragment.
    pub fn accent(text: &str, role: Role) -> (f: Fragment)
        ensures
            f@ == accent_frag(text@, role),
    {
        Fragment { text: text.to_owned(), role: Some(role), bold: true, dim: false }
    }

    /// A dimmed fragment.
    pub fn faint(text: &str, role: Role) -> (f: Fragment)
        ensures
            f@ == faint_frag(text@, role),
    {
        Fragment { text: text.to_owned(), role: Some(role), bold: false, dim: true }
    }

    /// Display width of the text (escape-free).
    pub fn width(&self) -> (w: usize)
        ensures
            w == display_width(self.text@),
    {
        str_width(self.text.as_str())
    }
}

/// A rendered line: an ordered row of fragments.
pub type StyledLine = Vec<Fragment>;

/// The value of a line.
pub open spec fn line_view(l: Seq<Fragment>) -> Seq<FragmentView> {
    l.map_values(|f: Fragment| f@)
}

/// The value of a list of lines.
pub open spec fn lines_view(ls: Seq<StyledLine>) -> Seq<Seq<FragmentView>> {
    ls.map_values(|l: StyledLine| line_view(l@))
}

/// Total display width of a line: the sum of its fragments' widths.
pub open spec fn spec_line_width(line: Seq<FragmentView>) -> nat
    decreases line.len(),
{
    if line.len() == 0 {
        0
    } else {
        spec_line_width(line.drop_last()) + display_width(line.last().text) as nat
    }
}

/// Total display width of a styled line.
pub fn line_width(line: &StyledLine) -> (w: usize)
    requires
        spec_line_width(line_view(line@)) <= usize::MAX,
    ensures
        w == spec_line_width(line_view(line@)),
{
    let mut total: usize = 0;
    let mut i: usize = 0;
    while i < line.len()
        invariant
            i <= line@.len(),
            spec_line_width(line_view(line@)) <= usize::MAX,
            total == spec_line_width(line_view(line@.take(i as int))),
        decreases line@.len() - i,
    {
        proof {
            assert(line_view(line@.take(i + 1)).drop_last() =~= line_view(line@.take(i as int)));
            lemma_line_width_prefix(line_view(line@), (i + 1) as nat);
            assert(line_view(line@.take(i + 1)) =~= line_view(line@).take(i + 1));
        }
        total = total + line[i].width();
        i += 1;
    }
    assert(line@.take(line@.len() as int) =~= line@);
    total
}

/// Total display width of a styled line, or `None` when it does not fit in
/// a `usize`.
pub fn checked_line_width(line: &StyledLine) -> (r: Option<usize>)
    ensures
        match r {
            Some(w) => w == spec_line_width(line_view(line@)),
            None => spec_line_width(line_view(line@)) > usize::MAX,
        },
{
    let mut total: usize = 0;
    let mut i: usize = 0;
    while i < line.len()
        invariant
            i <= line@.len(),
            total == spec_line_width(line_view(line@.take(i as int))),
        decreases line@.len() - i,
    {
        proof {
            assert(line_view(line@.take(i + 1)).drop_last() =~= line_view(line@.take(i as int)));
        }
        match total.checked_add(line[i].width()) {
            Some(t) => total = t,
            None => {
                proof {
                    lemma_line_width_prefix(line_view(line@), (i + 1) as nat);
                    assert(line_view(line@.take(i + 1)) =~= line_view(line@).take(i + 1));
                }
                return None;
            },
        }
        i += 1;
    }
    assert(line@.take(line@.len() as int) =~= line@);
    Some(total)
}

/// Appending a fragment adds its text's width.
pub proof fn lemma_line_width_push(line: Seq<FragmentView>, f: FragmentView)
    ensures
        spec_line_width(line.push(f)) == spec_line_width(line) + display_width(f.text),
{
    assert(line.push(f).drop_last() =~= line);
}

/// A prefix of a line is no wider than the line.
pub proof fn lemma_line_width_prefix(line: Seq<FragmentView>, n: nat)
    requires
        n <= line.len(),
    ensures
        spec_line_width(line.take(n as int)) <= spec_line_width(line),
    decreases line.len(),
{
    if n < line.len() {
        assert(line.drop_last().take(n as int) =~= line.take(n as int));
        lemma_line_width_prefix(line.drop_last(), n);
    } else {
        assert(line.take(n as int) =~= line);
    }
}

/// The severity ladder shared by callouts, task markers and badges.
#[derive(Clone, Copy, PartialEq, Eq, Debug, Hash, Structural)]
pub enum CalloutSeverity {
    Note,
    Info,
    Success,
    Warn,
    Error,
    Debug,
}

/// The role a severity resolves through.
pub open spec fn severity_role(s: CalloutSeverity) -> Role {
    match s {
        CalloutSeverity::Note => Role::TextMuted,
        CalloutSeverity::Info => Role::Info,
        CalloutSeverity::Success => Role::Success,
        CalloutSeverity::Warn => Role::Warn,
        CalloutSeverity::Error => Role::Error,
        CalloutSeverity::Debug => Role::TextDim,
    }
}

/// The uppercase tag of the plain projection: `[ERROR] message`.
pub open spec fn severity_tag(s: CalloutSeverity) -> Seq<char> {
    match s {
        CalloutSeverity::Note => "NOTE"@,
        CalloutSeverity::Info => "INFO"@,
        CalloutSeverity::Success => "OK"@,
        CalloutSeverity::Warn => "WARN"@,
        CalloutSeverity::Error => "ERROR"@,
        CalloutSeverity::Debug => "DEBUG"@,
    }
}

/// The unicode glyph used on a capable terminal.
pub open spec fn severity_glyph(s: CalloutSeverity) -> Seq<char> {
    match s {
        CalloutSeverity::Note => "•"@,
        CalloutSeverity::Info => "ℹ"@,
        CalloutSeverity::Success => "✓"@,
        CalloutSeverity::Warn => "⚠"@,
        CalloutSeverity::Error => "✗"@,
        CalloutSeverity::Debug => "»"@,
    }
}

impl CalloutSeverity {
    /// Every severity.
    pub const ALL: [CalloutSeverity; 6] = [
        CalloutSeverity::Note,
        CalloutSeverity::Info,
        CalloutSeverity::Success,
        CalloutSeverity::Warn,
        CalloutSeverity::Error,
        CalloutSeverity::Debug,
    ];

    /// The role this severity resolves through.
    pub fn role(self) -> (r: Role)
        ensures
            r == severity_role(self),
    {
        match self {
            CalloutSeverity::Note => Role::TextMuted,
            CalloutSeverity::Info => Role::Info,
            CalloutSeverity::Success => Role::Success,
            CalloutSeverity::Warn => Role::Warn,
            CalloutSeverity::Error => Role::Error,
            CalloutSeverity::Debug => Role::TextDim,
        }
    }

    /// The uppercase tag used in the plain projection.
    pub fn tag(self) -> (t: &'static str)
        ensures
            t@ == severity_tag(self),
    {
        match self {
            CalloutSeverity::Note => "NOTE",
            CalloutSeverity::Info => "INFO",
            CalloutSeverity::Success => "OK",
            CalloutSeverity::Warn => "WARN",
            CalloutSeverity::Error => "ERROR",
            CalloutSeverity::Debug => "DEBUG",
        }
    }

    /// The unicode glyph used on a capable terminal.
    pub fn glyph(self) -> (g: &'static str)
        ensures
            g@ == severity_glyph(self),
    {
        match self {
            CalloutSeverity::Note => "•",
            CalloutSeverity::Info => "ℹ",
            CalloutSeverity::Success => "✓",
            CalloutSeverity::Warn => "⚠",
            CalloutSeverity::Error => "✗",
            CalloutSeverity::Debug => "»",
        }
    }
}

} // verus!
