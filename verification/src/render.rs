//! The interpreter: lay a block out under a capability and emit it.
//!
//! [`RenderEnvironment`] is the seam: where the capability comes from and
//! where the text goes.  [`MockEnvironment`] fixes a capability and collects
//! the text in memory, so every color depth can be exercised without a
//! terminal.
use vstd::prelude::*;

use crate::caps::Capability;
use crate::ir::{lines_view, line_view, FragmentView, StyledLine};
use crate::style::{spec_paint, spec_resolve, StyleAtom};
use crate::theme::Theme;

verus! {

/// What one fragment emits: its text, wrapped in the SGR of its role under
/// the capability; an unstyled fragment emits its bare text.
pub open spec fn frag_out(f: FragmentView, caps: Capability, theme: Theme) -> Seq<char> {
    match f.role {
        Some(role) => spec_paint(spec_resolve(role, theme, caps, f.bold, f.dim), f.text),
        None => f.text,
    }
}

/// What a line emits: its fragments, in order.
pub open spec fn line_out(line: Seq<FragmentView>, caps: Capability, theme: Theme) -> Seq<char>
    decreases line.len(),
{
    if line.len() == 0 {
        Seq::empty()
    } else {
        line_out(line.drop_last(), caps, theme) + frag_out(line.last(), caps, theme)
    }
}

/// What a block's lines emit: each line followed by a newline.
pub open spec fn lines_out(lines: Seq<Seq<FragmentView>>, caps: Capability, theme: Theme) -> Seq<
    char,
>
    decreases lines.len(),
{
    if lines.len() == 0 {
        Seq::empty()
    } else {
        lines_out(lines.drop_last(), caps, theme) + line_out(lines.last(), caps, theme) + seq!['\n']
    }
}

/// A block: a pure value that lays itself out given only the capability and
/// theme.
pub trait BlockRender {
    /// The lines this block lays out into.
    spec fn spec_layout(&self, caps: Capability, theme: Theme) -> Seq<Seq<FragmentView>>;

    fn layout(&self, caps: &Capability, theme: Theme) -> (r: Vec<StyledLine>)
        ensures
            lines_view(r@) == self.spec_layout(*caps, theme),
    ;
}

/// Where the capability comes from and where the text goes.
pub trait RenderEnvironment {
    spec fn spec_caps(&self) -> Capability;

    spec fn spec_theme(&self) -> Theme;

    /// Everything written so far.
    spec fn output(&self) -> Seq<char>;

    fn caps(&self) -> (c: Capability)
        ensures
            c == self.spec_caps(),
    ;

    fn theme(&self) -> (t: Theme)
        ensures
            t == self.spec_theme(),
    ;

    /// Appends `s` to the output.
    fn write_str(&mut self, s: &str)
        ensures
            final(self).output() == old(self).output() + s@,
            final(self).spec_caps() == old(self).spec_caps(),
            final(self).spec_theme() == old(self).spec_theme(),
    ;
}

/// Appends one line's emitted text to `out`.
fn emit_line(line: &StyledLine, caps: &Capability, theme: Theme, out: &mut String)
    ensures
        final(out)@ == old(out)@ + line_out(line_view(line@), *caps, theme),
{
    let mut i: usize = 0;
    while i < line.len()
        invariant
            i <= line@.len(),
            out@ == old(out)@ + line_out(line_view(line@.take(i as int)), *caps, theme),
        decreases line@.len() - i,
    {
        let frag = &line[i];
        match frag.role {
            Some(role) => {
                StyleAtom::resolve(role, theme, caps, frag.bold, frag.dim).write_into(
                    out,
                    frag.text.as_str(),
                );
            },
            None => {
                out.append(frag.text.as_str());
            },
        }
        proof {
            assert(line_view(line@.take(i + 1)).drop_last() =~= line_view(line@.take(i as int)));
        }
        i += 1;
    }
    assert(line@.take(line@.len() as int) =~= line@);
}

/// The text a whole layout emits.
fn emit_lines(lines: &Vec<StyledLine>, caps: &Capability, theme: Theme) -> (s: String)
    ensures
        s@ == lines_out(lines_view(lines@), *caps, theme),
{
    let mut out = String::new();
    let mut i: usize = 0;
    while i < lines.len()
        invariant
            i <= lines@.len(),
            out@ == lines_out(lines_view(lines@.take(i as int)), *caps, theme),
        decreases lines@.len() - i,
    {
        emit_line(&lines[i], caps, theme, &mut out);
        out.append("\n");
        proof {
            reveal_strlit("\n");
            assert(lines_view(lines@.take(i + 1)).drop_last() =~= lines_view(lines@.take(i as int)));
        }
        i += 1;
    }
    assert(lines@.take(lines@.len() as int) =~= lines@);
    out
}

/// Lay `block` out under `env`'s capability and emit it, one line per row.
pub fn render<B: BlockRender, E: RenderEnvironment>(block: &B, env: &mut E)
    ensures
        final(env).output() == old(env).output() + lines_out(
            block.spec_layout(old(env).spec_caps(), old(env).spec_theme()),
            old(env).spec_caps(),
            old(env).spec_theme(),
        ),
        final(env).spec_caps() == old(env).spec_caps(),
        final(env).spec_theme() == old(env).spec_theme(),
{
    let caps = env.caps();
    let theme = env.theme();
    let lines = block.layout(&caps, theme);
    let text = emit_lines(&lines, &caps, theme);
    env.write_str(text.as_str());
}

/// An environment with a fixed capability that collects the text in memory.
pub struct MockEnvironment {
    caps: Capability,
    theme: Theme,
    buf: String,
}

impl MockEnvironment {
    /// A mock at a fixed capability, dark-Nord theme, nothing written yet.
    pub fn new(caps: Capability) -> (m: MockEnvironment)
        ensures
            m.spec_caps() == caps,
            m.spec_theme() == Theme::PlemeDark,
            m.output() == Seq::<char>::empty(),
    {
        MockEnvironment { caps, theme: Theme::PlemeDark, buf: String::new() }
    }

    /// The text emitted so far.
    pub fn rendered(&self) -> (s: String)
        ensures
            s@ == self.output(),
    {
        self.buf.clone()
    }

    /// `true` when the output holds no escape character.
    pub fn has_no_escapes(&self) -> (r: bool)
        ensures
            r == !self.output().contains('\u{1b}'),
    {
        let cs = crate::text::chars_of(self.buf.as_str());
        let mut i: usize = 0;
        while i < cs.len()
            invariant
                cs@ == self.output(),
                i <= cs@.len(),
                forall|k: int| 0 <= k < i ==> cs@[k] != '\u{1b}',
            decreases cs@.len() - i,
        {
            if cs[i] == '\u{1b}' {
                return false;
            }
            i += 1;
        }
        true
    }
}

impl RenderEnvironment for MockEnvironment {
    closed spec fn spec_caps(&self) -> Capability {
        self.caps
    }

    closed spec fn spec_theme(&self) -> Theme {
        self.theme
    }

    closed spec fn output(&self) -> Seq<char> {
        self.buf@
    }

    fn caps(&self) -> (c: Capability) {
        self.caps
    }

    fn theme(&self) -> (t: Theme) {
        self.theme
    }

    fn write_str(&mut self, s: &str) {
        self.buf.append(s);
    }
}

/// Rendering conveniences for every block.
pub trait Print: BlockRender {
    /// Render into an explicit environment.
    fn render_to<E: RenderEnvironment>(&self, env: &mut E)
        ensures
            final(env).output() == old(env).output() + lines_out(
                self.spec_layout(old(env).spec_caps(), old(env).spec_theme()),
                old(env).spec_caps(),
                old(env).spec_theme(),
            ),
            final(env).spec_caps() == old(env).spec_caps(),
            final(env).spec_theme() == old(env).spec_theme(),
    ;

    /// Render to a `String` at a fixed capability under the dark-Nord theme.
    fn to_string_at(&self, caps: Capability) -> (s: String)
        ensures
            s@ == lines_out(self.spec_layout(caps, Theme::PlemeDark), caps, Theme::PlemeDark),
    ;
}

impl<T: BlockRender> Print for T {
    fn render_to<E: RenderEnvironment>(&self, env: &mut E) {
        render(self, env)
    }

    fn to_string_at(&self, caps: Capability) -> (s: String) {
        let mut env = MockEnvironment::new(caps);
        render(self, &mut env);
        env.rendered()
    }
}

} // verus!
