//! The `(def<block> …)` authoring vocabulary: a small S-expression reader
//! and the interpreter that turns a form into a block.
use vstd::prelude::*;

use crate::caps::{all_digits, is_digit};
use crate::text::{ascii_lower, chars_of, owned, push_char, str_eq, string_from_chars};
use crate::blocks::{
    Badge, BadgeView, Banner, BannerView, Callout, CalloutView, List, ListView, Panel, PanelView, Rule,
    RuleView, Table, TableView,
};
use crate::caps::Capability;
use crate::ir::{severity_role, CalloutSeverity, FragmentView, StyledLine};
use crate::render::BlockRender;
use crate::theme::Theme;
use crate::theme::Role;

verus! {

/// A parsed S-expression.  A number keeps the text of its token.
#[derive(Debug)]
pub enum Sexp {
    Sym(String),
    /// A `:keyword`, without the colon.
    Kw(String),
    Str(String),
    Num(String),
    List(Vec<Sexp>),
}

/// The mathematical value of an [`Sexp`].
pub enum SexpView {
    Sym(Seq<char>),
    Kw(Seq<char>),
    Str(Seq<char>),
    Num(Seq<char>),
    List(Seq<SexpView>),
}

impl View for Sexp {
    type V = SexpView;

    open spec fn view(&self) -> SexpView
        decreases self,
    {
        match self {
            Sexp::Sym(s) => SexpView::Sym(s@),
            Sexp::Kw(s) => SexpView::Kw(s@),
            Sexp::Str(s) => SexpView::Str(s@),
            Sexp::Num(s) => SexpView::Num(s@),
            Sexp::List(v) => SexpView::List(
                Seq::new(v@.len(), |i: int| if 0 <= i < v@.len() { v@[i].view() } else { SexpView::List(Seq::empty()) }),
            ),
        }
    }
}


/// A typed authoring error.
#[derive(Debug, Clone, PartialEq, Eq)]
pub enum LispError {
    Unterminated(&'static str),
    Unexpected(char),
    Empty,
    ExpectedList,
    UnknownForm(String),
    BadArg(&'static str),
}

/// The mathematical value of a [`LispError`].
pub enum LispErrorView {
    Unterminated(Seq<char>),
    Unexpected(char),
    Empty,
    ExpectedList,
    UnknownForm(Seq<char>),
    BadArg(Seq<char>),
}

impl View for LispError {
    type V = LispErrorView;

    open spec fn view(&self) -> LispErrorView {
        match self {
            LispError::Unterminated(w) => LispErrorView::Unterminated(w@),
            LispError::Unexpected(c) => LispErrorView::Unexpected(*c),
            LispError::Empty => LispErrorView::Empty,
            LispError::ExpectedList => LispErrorView::ExpectedList,
            LispError::UnknownForm(f) => LispErrorView::UnknownForm(f@),
            LispError::BadArg(m) => LispErrorView::BadArg(m@),
        }
    }
}

// ── the grammar ────────────────────────────────────────────────────────────

/// Unicode `White_Space` (what `char::is_whitespace` tests).
pub open spec fn is_ws(c: char) -> bool {
    ('\u{9}' <= c && c <= '\u{d}') || c == ' ' || c == '\u{85}' || c == '\u{a0}' || c == '\u{1680}'
        || ('\u{2000}' <= c && c <= '\u{200a}') || c == '\u{2028}' || c == '\u{2029}' || c
        == '\u{202f}' || c == '\u{205f}' || c == '\u{3000}'
}

/// Skips whitespace and `;` line comments (a comment runs through its
/// newline) from `p`; `in_comment` says whether a comment is open.
pub open spec fn skip_from(s: Seq<char>, p: nat, in_comment: bool) -> nat
    decreases s.len() - p,
{
    if p >= s.len() {
        p
    } else if in_comment {
        skip_from(s, p + 1, s[p as int] != '\n')
    } else if is_ws(s[p as int]) {
        skip_from(s, p + 1, false)
    } else if s[p as int] == ';' {
        skip_from(s, p + 1, true)
    } else {
        p
    }
}

/// Where an atom starting at `p` ends: at whitespace, a parenthesis, a
/// double quote or the end of input.
pub open spec fn atom_end(s: Seq<char>, p: nat) -> nat
    decreases s.len() - p,
{
    if p >= s.len() || is_ws(s[p as int]) || s[p as int] == '(' || s[p as int] == ')' || s[p as int]
        == '"' {
        p
    } else {
        atom_end(s, p + 1)
    }
}

/// An optional sign, then what follows it.
pub open spec fn unsigned(t: Seq<char>) -> Seq<char> {
    if t.len() > 0 && (t[0] == '+' || t[0] == '-') {
        t.skip(1)
    } else {
        t
    }
}

/// Digits with at most one `.` and at least one digit:
/// `Digit+ | Digit+ '.' Digit* | Digit* '.' Digit+`.
pub open spec fn is_mantissa(m: Seq<char>) -> bool {
    &&& forall|i: int| 0 <= i < m.len() ==> is_digit(#[trigger] m[i]) || m[i] == '.'
    &&& exists|i: int| 0 <= i < m.len() && is_digit(#[trigger] m[i])
    &&& forall|i: int, j: int| 0 <= i < m.len() && 0 <= j < m.len() && #[trigger] m[i] == '.' && #[trigger] m[j] == '.' ==> i == j
}

/// `Sign? Digit+`.
pub open spec fn is_exponent(x: Seq<char>) -> bool {
    let d = unsigned(x);
    d.len() > 0 && all_digits(d)
}

/// `Mantissa ('e' Exponent)?`, split at the first `e`.
pub open spec fn is_decimal(b: Seq<char>) -> bool {
    ||| (forall|i: int| 0 <= i < b.len() ==> #[trigger] b[i] != 'e') && is_mantissa(b)
    ||| exists|k: int|
        0 <= k < b.len() && #[trigger] b[k] == 'e' && (forall|i: int| 0 <= i < k ==> #[trigger] b[i] != 'e')
            && is_mantissa(b.take(k)) && is_exponent(b.skip(k + 1))
}

/// A token `str::parse::<f64>` accepts: lower-cased, an optional sign, then
/// `inf`, `infinity`, `nan` or a decimal number.
pub open spec fn is_float_literal(t: Seq<char>) -> bool {
    let b = unsigned(t.map_values(|c: char| ascii_lower(c)));
    b == "inf"@ || b == "infinity"@ || b == "nan"@ || is_decimal(b)
}

/// What an atom token reads as: a keyword after a leading `:`, a number if
/// it parses as one, a symbol otherwise.
pub open spec fn atom_of(tok: Seq<char>) -> SexpView {
    if tok.len() > 0 && tok[0] == ':' {
        SexpView::Kw(tok.skip(1))
    } else if is_float_literal(tok) {
        SexpView::Num(tok)
    } else {
        SexpView::Sym(tok)
    }
}

/// A string body from `p` (just after the opening quote), `acc` read so far;
/// `\n` and `\t` are escapes, `\x` stands for `x`.
pub open spec fn read_string_spec(s: Seq<char>, p: nat, acc: Seq<char>) -> Result<(SexpView, nat), LispErrorView>
    decreases s.len() - p,
{
    if p >= s.len() {
        Err(LispErrorView::Unterminated("string"@))
    } else if s[p as int] == '"' {
        Ok((SexpView::Str(acc), p + 1))
    } else if s[p as int] == '\\' {
        if p + 1 >= s.len() {
            Err(LispErrorView::Unterminated("string"@))
        } else {
            let c = s[p + 1int];
            let e = if c == 'n' {
                '\n'
            } else if c == 't' {
                '\t'
            } else {
                c
            };
            read_string_spec(s, p + 2, acc.push(e))
        }
    } else {
        read_string_spec(s, p + 1, acc.push(s[p as int]))
    }
}

/// Skipping never moves backwards, and stays within the input.
pub proof fn lemma_skip_bounds(s: Seq<char>, p: nat, in_comment: bool)
    ensures
        p <= skip_from(s, p, in_comment),
        p <= s.len() ==> skip_from(s, p, in_comment) <= s.len(),
        skip_from(s, p, in_comment) < s.len() ==> !is_ws(s[skip_from(s, p, in_comment) as int])
            && s[skip_from(s, p, in_comment) as int] != ';',
    decreases s.len() - p,
{
    if p < s.len() {
        if in_comment {
            lemma_skip_bounds(s, p + 1, s[p as int] != '\n');
        } else if is_ws(s[p as int]) || s[p as int] == ';' {
            lemma_skip_bounds(s, p + 1, s[p as int] == ';');
        }
    }
}

/// One expression from `p`: what it reads as and where reading stopped.
pub open spec fn read_spec(s: Seq<char>, p: nat) -> Result<(SexpView, nat), LispErrorView>
    decreases s.len() - p, 1nat,
{
    let q = skip_from(s, p, false);
    proof {
        lemma_skip_bounds(s, p, false);
    }
    if q >= s.len() {
        Err(LispErrorView::Empty)
    } else if s[q as int] == '(' {
        read_list_spec(s, q + 1, Seq::empty())
    } else if s[q as int] == '"' {
        read_string_spec(s, q + 1, Seq::empty())
    } else if s[q as int] == ')' {
        Err(LispErrorView::Unexpected(')'))
    } else {
        Ok((atom_of(s.subrange(q as int, atom_end(s, q) as int)), atom_end(s, q)))
    }
}

/// The rest of a list from `p` (after its `(`), `items` read so far.
pub open spec fn read_list_spec(s: Seq<char>, p: nat, items: Seq<SexpView>) -> Result<
    (SexpView, nat),
    LispErrorView,
>
    decreases s.len() - p, 2nat,
{
    let q = skip_from(s, p, false);
    proof {
        lemma_skip_bounds(s, p, false);
    }
    if q >= s.len() {
        Err(LispErrorView::Unterminated("list"@))
    } else if s[q as int] == ')' {
        Ok((SexpView::List(items), q + 1))
    } else {
        match read_spec(s, q) {
            Err(e) => Err(e),
            Ok((x, r)) => if q < r <= s.len() {
                read_list_spec(s, r, items.push(x))
            } else {
                Err(LispErrorView::Empty)
            },
        }
    }
}


// ── the reader ───────────────────────────────────────────────────────────

/// The result of a read as a value: what was read and where reading stopped.
pub open spec fn read_result(r: Result<Sexp, LispError>, pos: nat) -> Result<(SexpView, nat), LispErrorView> {
    match r {
        Ok(x) => Ok((x@, pos)),
        Err(e) => Err(e@),
    }
}

/// Unicode `White_Space`, as `char::is_whitespace`.
pub fn is_whitespace(c: char) -> (r: bool)
    ensures
        r == is_ws(c),
{
    ('\u{9}' <= c && c <= '\u{d}') || c == ' ' || c == '\u{85}' || c == '\u{a0}' || c == '\u{1680}'
        || ('\u{2000}' <= c && c <= '\u{200a}') || c == '\u{2028}' || c == '\u{2029}' || c
        == '\u{202f}' || c == '\u{205f}' || c == '\u{3000}'
}

/// Whether `b[lo..hi]` equals `lit`.
fn slice_is(b: &Vec<char>, lo: usize, hi: usize, lit: &str) -> (r: bool)
    requires
        lo <= hi <= b@.len(),
    ensures
        r == (b@.subrange(lo as int, hi as int) == lit@),
{
    let l = chars_of(lit);
    if hi - lo != l.len() {
        assert(b@.subrange(lo as int, hi as int).len() != lit@.len());
        return false;
    }
    let mut i: usize = 0;
    while i < l.len()
        invariant
            lo <= hi <= b@.len(),
            hi - lo == l@.len(),
            l@ == lit@,
            i <= l@.len(),
            forall|k: int| 0 <= k < i ==> b@[lo + k] == l@[k],
        decreases l@.len() - i,
    {
        if b[lo + i] != l[i] {
            assert(b@.subrange(lo as int, hi as int)[i as int] != lit@[i as int]);
            return false;
        }
        i += 1;
    }
    assert(b@.subrange(lo as int, hi as int) =~= lit@);
    true
}

/// Whether `b[lo..hi]` is a mantissa (see [`is_mantissa`]).
fn mantissa_ok(b: &Vec<char>, lo: usize, hi: usize) -> (r: bool)
    requires
        lo <= hi <= b@.len(),
    ensures
        r == is_mantissa(b@.subrange(lo as int, hi as int)),
{
    let ghost m = b@.subrange(lo as int, hi as int);
    let mut digit_seen = false;
    let mut dot_at: Option<usize> = None;
    let mut i: usize = lo;
    while i < hi
        invariant
            lo <= i <= hi <= b@.len(),
            m == b@.subrange(lo as int, hi as int),
            forall|k: int| 0 <= k < i - lo ==> is_digit(#[trigger] m[k]) || m[k] == '.',
            digit_seen <==> exists|k: int| 0 <= k < i - lo && is_digit(#[trigger] m[k]),
            match dot_at {
                Some(d) => lo <= d < i && m[d - lo] == '.' && forall|k: int|
                    0 <= k < i - lo && #[trigger] m[k] == '.' ==> k == d - lo,
                None => forall|k: int| 0 <= k < i - lo ==> #[trigger] m[k] != '.',
            },
        decreases hi - i,
    {
        let c = b[i];
        assert(m[i - lo] == c);
        if '0' <= c && c <= '9' {
            digit_seen = true;
        } else if c == '.' {
            match dot_at {
                Some(d) => {
                    assert(m[d - lo] == '.' && m[i - lo] == '.');
                    return false;
                },
                None => {
                    dot_at = Some(i);
                },
            }
        } else {
            assert(!(is_digit(m[i - lo]) || m[i - lo] == '.'));
            return false;
        }
        i += 1;
    }
    if !digit_seen {
        return false;
    }
    assert forall|x: int, y: int|
        0 <= x < m.len() && 0 <= y < m.len() && #[trigger] m[x] == '.' && #[trigger] m[y] == '.' implies x == y by {
    }
    true
}

/// Whether `b[lo..hi]` is an exponent: an optional sign, then digits.
fn exponent_ok(b: &Vec<char>, lo: usize, hi: usize) -> (r: bool)
    requires
        lo <= hi <= b@.len(),
    ensures
        r == is_exponent(b@.subrange(lo as int, hi as int)),
{
    let ghost x = b@.subrange(lo as int, hi as int);
    let start = if lo < hi && (b[lo] == '+' || b[lo] == '-') {
        assert(x[0] == b@[lo as int]);
        lo + 1
    } else {
        assert(lo < hi ==> x[0] == b@[lo as int]);
        lo
    };
    assert(crate::lisp::unsigned(x) =~= b@.subrange(start as int, hi as int));
    if start >= hi {
        return false;
    }
    let mut i = start;
    while i < hi
        invariant
            lo <= start <= i <= hi <= b@.len(),
            x == b@.subrange(lo as int, hi as int),
            unsigned(x) == b@.subrange(start as int, hi as int),
            forall|k: int| start <= k < i ==> is_digit(#[trigger] b@[k]),
        decreases hi - i,
    {
        if !('0' <= b[i] && b[i] <= '9') {
            assert(!is_digit(b@.subrange(start as int, hi as int)[i - start]));
            return false;
        }
        i += 1;
    }
    assert forall|k: int| 0 <= k < hi - start implies is_digit(#[trigger] b@.subrange(start as int, hi as int)[k]) by {
        assert(b@.subrange(start as int, hi as int)[k] == b@[start + k]);
    }
    true
}

/// Whether `b[lo..hi]` is a decimal number (see [`is_decimal`]).
fn decimal_ok(b: &Vec<char>, lo: usize, hi: usize) -> (r: bool)
    requires
        lo <= hi <= b@.len(),
    ensures
        r == is_decimal(b@.subrange(lo as int, hi as int)),
{
    let ghost body = b@.subrange(lo as int, hi as int);
    let mut k: usize = lo;
    while k < hi
        invariant
            lo <= k <= hi <= b@.len(),
            forall|j: int| lo <= j < k ==> #[trigger] b@[j] != 'e',
        ensures
            lo <= k <= hi,
            forall|j: int| lo <= j < k ==> #[trigger] b@[j] != 'e',
            k < hi ==> b@[k as int] == 'e',
        decreases hi - k,
    {
        if b[k] == 'e' {
            break;
        }
        k += 1;
    }
    if k == hi {
        assert forall|j: int| 0 <= j < body.len() implies #[trigger] body[j] != 'e' by {
            assert(body[j] == b@[lo + j]);
        }
        return mantissa_ok(b, lo, hi);
    }
    assert(body[k - lo] == b@[k as int]);
    assert forall|j: int| 0 <= j < k - lo implies #[trigger] body[j] != 'e' by {
        assert(body[j] == b@[lo + j]);
    }
    assert(body.take(k - lo) =~= b@.subrange(lo as int, k as int));
    assert(body.skip(k - lo + 1) =~= b@.subrange(k + 1, hi as int));
    let m = mantissa_ok(b, lo, k);
    let e = exponent_ok(b, k + 1, hi);
    proof {
        if !(m && e) && is_decimal(body) {
            let k2 = choose|k2: int|
                0 <= k2 < body.len() && #[trigger] body[k2] == 'e' && (forall|i: int|
                    0 <= i < k2 ==> #[trigger] body[i] != 'e') && is_mantissa(body.take(k2))
                    && is_exponent(body.skip(k2 + 1));
            if k2 < k - lo {
                assert(body[k2] == b@[lo + k2]);
            } else if k2 > k - lo {
                assert(body[k - lo] != 'e');
            }
        }
    }
    m && e
}

/// The ASCII lower-casing of a token.
fn lowered(tok: &Vec<char>) -> (b: Vec<char>)
    ensures
        b@ == tok@.map_values(|c: char| ascii_lower(c)),
{
    let mut b: Vec<char> = Vec::new();
    let mut i: usize = 0;
    while i < tok.len()
        invariant
            i <= tok@.len(),
            b@ == tok@.take(i as int).map_values(|c: char| ascii_lower(c)),
        decreases tok@.len() - i,
    {
        let c = tok[i];
        let l = if 'A' <= c && c <= 'Z' {
            let code: u8 = ((c as u32) + 32) as u8;
            code as char
        } else {
            c
        };
        b.push(l);
        i += 1;
        assert(b@ =~= tok@.take(i as int).map_values(|c: char| ascii_lower(c)));
    }
    assert(tok@.take(tok@.len() as int) =~= tok@);
    b
}

/// Whether a token parses as an `f64` (see [`is_float_literal`]).
pub fn float_literal(tok: &Vec<char>) -> (r: bool)
    ensures
        r == is_float_literal(tok@),
{
    let b = lowered(tok);
    let n = b.len();
    let start: usize = if n > 0 && (b[0] == '+' || b[0] == '-') {
        1
    } else {
        0
    };
    assert(unsigned(b@) =~= b@.subrange(start as int, n as int));
    slice_is(&b, start, n, "inf") || slice_is(&b, start, n, "infinity") || slice_is(
        &b,
        start,
        n,
        "nan",
    ) || decimal_ok(&b, start, n)
}

/// An atom never ends before it starts.
proof fn lemma_atom_end_ge(s: Seq<char>, p: nat)
    ensures
        p <= atom_end(s, p),
        p <= s.len() ==> atom_end(s, p) <= s.len(),
    decreases s.len() - p,
{
    if p < s.len() && !(is_ws(s[p as int]) || s[p as int] == '(' || s[p as int] == ')' || s[p as int] == '"') {
        lemma_atom_end_ge(s, p + 1);
    }
}

/// The views of a vector of expressions.
pub open spec fn sexps_view(v: Seq<Sexp>) -> Seq<SexpView> {
    Seq::new(v.len(), |i: int| v[i]@)
}

struct Reader {
    chars: Vec<char>,
    pos: usize,
}

impl Reader {
    fn new(src: &str) -> (r: Reader)
        ensures
            r.chars@ == src@,
            r.pos == 0,
    {
        Reader { chars: chars_of(src), pos: 0 }
    }

    fn skip_ws(&mut self)
        requires
            old(self).pos <= old(self).chars@.len(),
        ensures
            final(self).chars@ == old(self).chars@,
            final(self).pos == skip_from(old(self).chars@, old(self).pos as nat, false),
    {
        let ghost target = skip_from(self.chars@, self.pos as nat, false);
        let mut in_comment = false;
        while self.pos < self.chars.len()
            invariant
                self.chars@ == old(self).chars@,
                self.pos <= self.chars@.len(),
                skip_from(self.chars@, self.pos as nat, in_comment) == target,
                target == skip_from(old(self).chars@, old(self).pos as nat, false),
            decreases self.chars@.len() - self.pos,
        {
            let c = self.chars[self.pos];
            if in_comment {
                in_comment = c != '\n';
            } else if is_whitespace(c) {
            } else if c == ';' {
                in_comment = true;
            } else {
                return;
            }
            self.pos += 1;
        }
    }

    fn read_string(&mut self) -> (r: Result<Sexp, LispError>)
        requires
            old(self).pos <= old(self).chars@.len(),
        ensures
            final(self).chars@ == old(self).chars@,
            final(self).pos <= final(self).chars@.len(),
            r is Ok ==> old(self).pos < final(self).pos,
            read_result(r, final(self).pos as nat) == read_string_spec(
                old(self).chars@,
                old(self).pos as nat,
                Seq::empty(),
            ),
    {
        let ghost s = self.chars@;
        let ghost target = read_string_spec(s, self.pos as nat, Seq::empty());
        let ghost p0 = self.pos;
        let mut acc = String::new();
        loop
            invariant
                self.chars@ == s,
                s == old(self).chars@,
                p0 == old(self).pos,
                p0 <= self.pos <= s.len(),
                read_string_spec(s, self.pos as nat, acc@) == target,
                target == read_string_spec(s, p0 as nat, Seq::empty()),
            decreases s.len() - self.pos,
        {
            if self.pos >= self.chars.len() {
                assert(read_string_spec(s, self.pos as nat, acc@) == Err::<(SexpView, nat), LispErrorView>(LispErrorView::Unterminated("string"@)));
                return Err(LispError::Unterminated("string"));
            }
            let c = self.chars[self.pos];
            if c == '"' {
                self.pos += 1;
                let r = Sexp::Str(acc);
                assert(r@ == SexpView::Str(acc@));
                return Ok(r);
            } else if c == '\\' {
                if self.pos + 1 >= self.chars.len() {
                    return Err(LispError::Unterminated("string"));
                }
                let n = self.chars[self.pos + 1];
                let e = if n == 'n' {
                    '\n'
                } else if n == 't' {
                    '\t'
                } else {
                    n
                };
                push_char(&mut acc, e);
                self.pos += 2;
            } else {
                push_char(&mut acc, c);
                self.pos += 1;
            }
        }
    }

    fn read_atom(&mut self) -> (r: Sexp)
        requires
            old(self).pos <= old(self).chars@.len(),
        ensures
            old(self).pos < old(self).chars@.len() && !is_ws(old(self).chars@[old(self).pos as int])
                && old(self).chars@[old(self).pos as int] != '(' && old(self).chars@[old(self).pos as int] != ')'
                && old(self).chars@[old(self).pos as int] != '"' ==> old(self).pos < final(self).pos,
            final(self).pos <= final(self).chars@.len(),
            final(self).chars@ == old(self).chars@,
            final(self).pos == atom_end(old(self).chars@, old(self).pos as nat),
            r@ == atom_of(old(self).chars@.subrange(old(self).pos as int, final(self).pos as int)),
    {
        let ghost s = self.chars@;
        let start = self.pos;
        let ghost target = atom_end(s, start as nat);
        while self.pos < self.chars.len()
            invariant
                self.chars@ == s,
                start <= self.pos <= s.len(),
                atom_end(s, self.pos as nat) == target,
                target == atom_end(s, start as nat),
            ensures
                self.chars@ == s,
                start <= self.pos <= s.len(),
                self.pos == target,
                target == atom_end(s, start as nat),
            decreases s.len() - self.pos,
        {
            let c = self.chars[self.pos];
            if is_whitespace(c) || c == '(' || c == ')' || c == '"' {
                break;
            }
            self.pos += 1;
        }
        let end = self.pos;
        let mut tok: Vec<char> = Vec::new();
        let mut i = start;
        while i < end
            invariant
                self.chars@ == s,
                start <= i <= end <= s.len(),
                tok@ == s.subrange(start as int, i as int),
            decreases end - i,
        {
            tok.push(self.chars[i]);
            i += 1;
            assert(tok@ =~= s.subrange(start as int, i as int));
        }
        proof {
            if start < s.len() && !is_ws(s[start as int]) && s[start as int] != '(' && s[start as int] != ')' && s[start as int] != '"' {
                assert(atom_end(s, start as nat) == atom_end(s, start as nat + 1));
                lemma_atom_end_ge(s, start as nat + 1);
            }
        }
        if tok.len() > 0 && tok[0] == ':' {
            let rest = string_from_chars(tok.as_slice().split_at(1).1);
            assert(tok@.skip(1) =~= rest@);
            Sexp::Kw(rest)
        } else if float_literal(&tok) {
            Sexp::Num(string_from_chars(tok.as_slice()))
        } else {
            Sexp::Sym(string_from_chars(tok.as_slice()))
        }
    }
}

impl Reader {
    fn read(&mut self) -> (r: Result<Sexp, LispError>)
        requires
            old(self).pos <= old(self).chars@.len(),
        ensures
            final(self).chars@ == old(self).chars@,
            final(self).pos <= final(self).chars@.len(),
            r is Ok ==> old(self).pos < final(self).pos,
            read_result(r, final(self).pos as nat) == read_spec(old(self).chars@, old(self).pos as nat),
        decreases old(self).chars@.len() - old(self).pos, 1nat,
    {
        let ghost s = self.chars@;
        proof {
            lemma_skip_bounds(s, self.pos as nat, false);
        }
        self.skip_ws();
        if self.pos >= self.chars.len() {
            return Err(LispError::Empty);
        }
        let c = self.chars[self.pos];
        if c == '(' {
            self.pos += 1;
            self.read_list()
        } else if c == '"' {
            self.pos += 1;
            self.read_string()
        } else if c == ')' {
            Err(LispError::Unexpected(')'))
        } else {
            Ok(self.read_atom())
        }
    }

    fn read_list(&mut self) -> (r: Result<Sexp, LispError>)
        requires
            old(self).pos <= old(self).chars@.len(),
        ensures
            final(self).chars@ == old(self).chars@,
            final(self).pos <= final(self).chars@.len(),
            r is Ok ==> old(self).pos < final(self).pos,
            read_result(r, final(self).pos as nat) == read_list_spec(
                old(self).chars@,
                old(self).pos as nat,
                Seq::empty(),
            ),
        decreases old(self).chars@.len() - old(self).pos, 2nat,
    {
        let ghost s = self.chars@;
        let ghost p0 = self.pos;
        let ghost target = read_list_spec(s, p0 as nat, Seq::empty());
        let mut items: Vec<Sexp> = Vec::new();
        assert(sexps_view(items@) =~= Seq::<SexpView>::empty());
        loop
            invariant
                self.chars@ == s,
                s == old(self).chars@,
                p0 == old(self).pos,
                p0 <= self.pos <= s.len(),
                target == read_list_spec(s, p0 as nat, Seq::empty()),
                read_list_spec(s, self.pos as nat, sexps_view(items@)) == target,
            decreases s.len() - self.pos,
        {
            proof {
                lemma_skip_bounds(s, self.pos as nat, false);
            }
            let ghost before = self.pos;
            self.skip_ws();
            if self.pos >= self.chars.len() {
                return Err(LispError::Unterminated("list"));
            }
            if self.chars[self.pos] == ')' {
                self.pos += 1;
                let r = Sexp::List(items);
                assert(r@ == SexpView::List(sexps_view(items@))) by {
                    assert(sexps_view(items@) =~= match r@ {
                        SexpView::List(v) => v,
                        _ => Seq::empty(),
                    });
                }
                return Ok(r);
            }
            let q = self.pos;
            match self.read() {
                Err(e) => {
                    return Err(e);
                },
                Ok(x) => {
                    let ghost prev = sexps_view(items@);
                    items.push(x);
                    assert(sexps_view(items@) =~= prev.push(x@));
                },
            }
        }
    }
}

/// What [`parse`] gives: the first expression of `src`.
pub open spec fn spec_parse(src: Seq<char>) -> Result<SexpView, LispErrorView> {
    match read_spec(src, 0) {
        Ok((x, _)) => Ok(x),
        Err(e) => Err(e),
    }
}

/// Parse a single S-expression from `src` (anything after it is ignored).
pub fn parse(src: &str) -> (r: Result<Sexp, LispError>)
    ensures
        match r {
            Ok(x) => spec_parse(src@) == Ok::<SexpView, LispErrorView>(x@),
            Err(e) => spec_parse(src@) == Err::<SexpView, LispErrorView>(e@),
        },
{
    let mut reader = Reader::new(src);
    reader.read()
}


// ── accessors ────────────────────────────────────────────────────────────

/// The elements of a list, or `ExpectedList`.
pub open spec fn spec_as_list(x: SexpView) -> Result<Seq<SexpView>, LispErrorView> {
    match x {
        SexpView::List(v) => Ok(v),
        _ => Err(LispErrorView::ExpectedList),
    }
}

/// The text of a string or symbol.
pub open spec fn spec_as_text(x: SexpView) -> Result<Seq<char>, LispErrorView> {
    match x {
        SexpView::Str(s) => Ok(s),
        SexpView::Sym(s) => Ok(s),
        _ => Err(LispErrorView::BadArg("expected a string or symbol"@)),
    }
}

/// The name of a symbol.
pub open spec fn spec_as_sym(x: SexpView) -> Result<Seq<char>, LispErrorView> {
    match x {
        SexpView::Sym(s) => Ok(s),
        _ => Err(LispErrorView::BadArg("expected a symbol"@)),
    }
}

/// The token of a number.
pub open spec fn spec_as_num(x: SexpView) -> Result<Seq<char>, LispErrorView> {
    match x {
        SexpView::Num(s) => Ok(s),
        _ => Err(LispErrorView::BadArg("expected a number"@)),
    }
}

impl Sexp {
    /// The elements of a list.
    pub fn as_list(&self) -> (r: Result<&Vec<Sexp>, LispError>)
        ensures
            match r {
                Ok(v) => spec_as_list(self@) == Ok::<Seq<SexpView>, LispErrorView>(sexps_view(v@)),
                Err(e) => spec_as_list(self@) == Err::<Seq<SexpView>, LispErrorView>(e@),
            },
    {
        match self {
            Sexp::List(v) => {
                assert(sexps_view(v@) =~= match self@ {
                    SexpView::List(w) => w,
                    _ => Seq::empty(),
                });
                Ok(v)
            },
            _ => Err(LispError::ExpectedList),
        }
    }

    /// The text of a string or symbol.
    pub fn as_text(&self) -> (r: Result<String, LispError>)
        ensures
            match r {
                Ok(t) => spec_as_text(self@) == Ok::<Seq<char>, LispErrorView>(t@),
                Err(e) => spec_as_text(self@) == Err::<Seq<char>, LispErrorView>(e@),
            },
    {
        match self {
            Sexp::Str(s) => Ok(owned(s.as_str())),
            Sexp::Sym(s) => Ok(owned(s.as_str())),
            _ => Err(LispError::BadArg("expected a string or symbol")),
        }
    }

    /// The name of a symbol.
    pub fn as_sym(&self) -> (r: Result<&str, LispError>)
        ensures
            match r {
                Ok(t) => spec_as_sym(self@) == Ok::<Seq<char>, LispErrorView>(t@),
                Err(e) => spec_as_sym(self@) == Err::<Seq<char>, LispErrorView>(e@),
            },
    {
        match self {
            Sexp::Sym(s) => Ok(s.as_str()),
            _ => Err(LispError::BadArg("expected a symbol")),
        }
    }

    /// The token of a number.
    pub fn as_num(&self) -> (r: Result<&str, LispError>)
        ensures
            match r {
                Ok(t) => spec_as_num(self@) == Ok::<Seq<char>, LispErrorView>(t@),
                Err(e) => spec_as_num(self@) == Err::<Seq<char>, LispErrorView>(e@),
            },
    {
        match self {
            Sexp::Num(s) => Ok(s.as_str()),
            _ => Err(LispError::BadArg("expected a number")),
        }
    }
}

/// The `:key value` pairs of a form's tail from position `i`: a keyword
/// followed by anything makes a pair; any other element is skipped.
pub open spec fn spec_kwargs(tail: Seq<SexpView>, i: nat) -> Seq<(Seq<char>, SexpView)>
    decreases tail.len() - i,
{
    if i >= tail.len() {
        Seq::empty()
    } else if tail[i as int] is Kw && i + 1 < tail.len() {
        seq![(tail[i as int]->Kw_0, tail[i + 1int])] + spec_kwargs(tail, i + 2)
    } else {
        spec_kwargs(tail, i + 1)
    }
}

/// The value of the first pair with `key`.
pub open spec fn spec_get(args: Seq<(Seq<char>, SexpView)>, key: Seq<char>) -> Option<SexpView>
    decreases args.len(),
{
    if args.len() == 0 {
        None
    } else if args[0].0 == key {
        Some(args[0].1)
    } else {
        spec_get(args.skip(1), key)
    }
}

/// The value given for `:key` in a form's tail.
pub open spec fn spec_arg(tail: Seq<SexpView>, key: Seq<char>) -> Option<SexpView> {
    spec_get(spec_kwargs(tail, 0), key)
}

/// The value given for `:key` among `list[1..]` (the tail of a form).
fn get_arg<'a>(list: &'a Vec<Sexp>, key: &str) -> (r: Option<&'a Sexp>)
    requires
        list@.len() >= 1,
    ensures
        match r {
            Some(x) => spec_arg(sexps_view(list@).skip(1), key@) == Some(x@),
            None => spec_arg(sexps_view(list@).skip(1), key@) is None,
        },
{
    let ghost tail = sexps_view(list@).skip(1);
    let ghost target = spec_arg(tail, key@);
    let mut i: usize = 1;
    while i < list.len()
        invariant
            1 <= i,
            list@.len() >= 1,
            tail == sexps_view(list@).skip(1),
            target == spec_arg(tail, key@),
            spec_get(spec_kwargs(tail, (i - 1) as nat), key@) == target,
        decreases list@.len() - i,
    {
        assert(tail[i - 1] == list@[i as int]@);
        match &list[i] {
            Sexp::Kw(k) => {
                if i + 1 < list.len() {
                    assert(tail[i as int] == list@[i + 1]@);
                    let ghost rest = spec_kwargs(tail, (i + 1) as nat);
                    assert(spec_kwargs(tail, (i - 1) as nat) == seq![(k@, tail[i as int])] + rest);
                    assert((seq![(k@, tail[i as int])] + rest).skip(1) =~= rest);
                    if str_eq(k.as_str(), key) {
                        return Some(&list[i + 1]);
                    }
                    i += 2;
                } else {
                    i += 1;
                }
            },
            _ => {
                i += 1;
            },
        }
    }
    None
}

/// The severity a symbol names.
pub open spec fn spec_severity(sym: Seq<char>) -> Result<CalloutSeverity, LispErrorView> {
    if sym == "note"@ {
        Ok(CalloutSeverity::Note)
    } else if sym == "info"@ {
        Ok(CalloutSeverity::Info)
    } else if sym == "ok"@ {
        Ok(CalloutSeverity::Success)
    } else if sym == "warn"@ {
        Ok(CalloutSeverity::Warn)
    } else if sym == "error"@ {
        Ok(CalloutSeverity::Error)
    } else if sym == "debug"@ {
        Ok(CalloutSeverity::Debug)
    } else {
        Err(LispErrorView::BadArg("unknown severity"@))
    }
}

fn severity_from(sym: &str) -> (r: Result<CalloutSeverity, LispError>)
    ensures
        match r {
            Ok(v) => spec_severity(sym@) == Ok::<CalloutSeverity, LispErrorView>(v),
            Err(e) => spec_severity(sym@) == Err::<CalloutSeverity, LispErrorView>(e@),
        },
{
    if str_eq(sym, "note") {
        Ok(CalloutSeverity::Note)
    } else if str_eq(sym, "info") {
        Ok(CalloutSeverity::Info)
    } else if str_eq(sym, "ok") {
        Ok(CalloutSeverity::Success)
    } else if str_eq(sym, "warn") {
        Ok(CalloutSeverity::Warn)
    } else if str_eq(sym, "error") {
        Ok(CalloutSeverity::Error)
    } else if str_eq(sym, "debug") {
        Ok(CalloutSeverity::Debug)
    } else {
        Err(LispError::BadArg("unknown severity"))
    }
}

/// The role a symbol names.
pub open spec fn spec_role(sym: Seq<char>) -> Result<Role, LispErrorView> {
    if sym == "primary"@ {
        Ok(Role::Primary)
    } else if sym == "text"@ {
        Ok(Role::Text)
    } else if sym == "muted"@ || sym == "text-muted"@ {
        Ok(Role::TextMuted)
    } else if sym == "dim"@ || sym == "text-dim"@ {
        Ok(Role::TextDim)
    } else if sym == "border"@ {
        Ok(Role::Border)
    } else if sym == "error"@ {
        Ok(Role::Error)
    } else if sym == "warn"@ {
        Ok(Role::Warn)
    } else if sym == "pending"@ {
        Ok(Role::Pending)
    } else if sym == "ok"@ {
        Ok(Role::Success)
    } else if sym == "info"@ {
        Ok(Role::Info)
    } else if sym == "ident"@ {
        Ok(Role::Ident)
    } else {
        Err(LispErrorView::BadArg("unknown role"@))
    }
}

fn role_from(sym: &str) -> (r: Result<Role, LispError>)
    ensures
        match r {
            Ok(v) => spec_role(sym@) == Ok::<Role, LispErrorView>(v),
            Err(e) => spec_role(sym@) == Err::<Role, LispErrorView>(e@),
        },
{
    if str_eq(sym, "primary") {
        Ok(Role::Primary)
    } else if str_eq(sym, "text") {
        Ok(Role::Text)
    } else if str_eq(sym, "muted") || str_eq(sym, "text-muted") {
        Ok(Role::TextMuted)
    } else if str_eq(sym, "dim") || str_eq(sym, "text-dim") {
        Ok(Role::TextDim)
    } else if str_eq(sym, "border") {
        Ok(Role::Border)
    } else if str_eq(sym, "error") {
        Ok(Role::Error)
    } else if str_eq(sym, "warn") {
        Ok(Role::Warn)
    } else if str_eq(sym, "pending") {
        Ok(Role::Pending)
    } else if str_eq(sym, "ok") {
        Ok(Role::Success)
    } else if str_eq(sym, "info") {
        Ok(Role::Info)
    } else if str_eq(sym, "ident") {
        Ok(Role::Ident)
    } else {
        Err(LispError::BadArg("unknown role"))
    }
}


// ── the forms ─────────────────────────────────────────────────────────────

/// Any block a form can describe.
pub enum Block {
    Callout(Callout),
    Banner(Banner),
    Rule(Rule),
    Panel(Panel),
    List(List),
    Badge(Badge),
    Table(Table),
}

/// The value of a [`Block`].
pub enum BlockView {
    Callout(CalloutView),
    Banner(BannerView),
    Rule(RuleView),
    Panel(PanelView),
    List(ListView),
    Badge(BadgeView),
    Table(TableView),
}

impl View for Block {
    type V = BlockView;

    open spec fn view(&self) -> BlockView {
        match self {
            Block::Callout(b) => BlockView::Callout(b@),
            Block::Banner(b) => BlockView::Banner(b@),
            Block::Rule(b) => BlockView::Rule(b@),
            Block::Panel(b) => BlockView::Panel(b@),
            Block::List(b) => BlockView::List(b@),
            Block::Badge(b) => BlockView::Badge(b@),
            Block::Table(b) => BlockView::Table(b@),
        }
    }
}

/// The value of a form's outcome.
pub open spec fn block_result(r: Result<Block, LispError>) -> Result<BlockView, LispErrorView> {
    match r {
        Ok(b) => Ok(b@),
        Err(e) => Err(e@),
    }
}

/// A required `:key`: its value, or `BadArg(msg)` when it is missing.
pub open spec fn spec_need(tail: Seq<SexpView>, key: Seq<char>, msg: Seq<char>) -> Result<SexpView, LispErrorView> {
    match spec_arg(tail, key) {
        Some(v) => Ok(v),
        None => Err(LispErrorView::BadArg(msg)),
    }
}

/// `(defcallout :severity <sym> :message <text> [:title <text>])`.
pub open spec fn spec_callout_form(tail: Seq<SexpView>) -> Result<BlockView, LispErrorView> {
    match spec_need(tail, "severity"@, "callout needs :severity"@) {
        Err(e) => Err(e),
        Ok(sv) => match spec_as_sym(sv) {
            Err(e) => Err(e),
            Ok(sym) => match spec_severity(sym) {
                Err(e) => Err(e),
                Ok(sev) => match spec_need(tail, "message"@, "callout needs :message"@) {
                    Err(e) => Err(e),
                    Ok(mv) => match spec_as_text(mv) {
                        Err(e) => Err(e),
                        Ok(msg) => match spec_arg(tail, "title"@) {
                            None => Ok(
                                BlockView::Callout(
                                    CalloutView { severity: sev, message: msg, title: None },
                                ),
                            ),
                            Some(tv) => match spec_as_text(tv) {
                                Err(e) => Err(e),
                                Ok(t) => Ok(
                                    BlockView::Callout(
                                        CalloutView { severity: sev, message: msg, title: Some(t) },
                                    ),
                                ),
                            },
                        },
                    },
                },
            },
        },
    }
}

/// `(defbanner :title <text> [:snowflake false|no])`.
pub open spec fn spec_banner_form(tail: Seq<SexpView>) -> Result<BlockView, LispErrorView> {
    match spec_need(tail, "title"@, "banner needs :title"@) {
        Err(e) => Err(e),
        Ok(tv) => match spec_as_text(tv) {
            Err(e) => Err(e),
            Ok(t) => Ok(
                BlockView::Banner(
                    BannerView {
                        title: t,
                        snowflake: !(spec_arg(tail, "snowflake"@) matches Some(SexpView::Sym(f))
                            && (f == "false"@ || f == "no"@)),
                    },
                ),
            ),
        },
    }
}

/// `(defrule [:label <text>])`.
pub open spec fn spec_rule_form(tail: Seq<SexpView>) -> Result<BlockView, LispErrorView> {
    match spec_arg(tail, "label"@) {
        None => Ok(BlockView::Rule(RuleView { label: None })),
        Some(lv) => match spec_as_text(lv) {
            Err(e) => Err(e),
            Ok(l) => Ok(BlockView::Rule(RuleView { label: Some(l) })),
        },
    }
}

/// The role of a badge: from `:severity`, else from `:role`, else the accent.
pub open spec fn spec_badge_role(tail: Seq<SexpView>) -> Result<Role, LispErrorView> {
    match spec_arg(tail, "severity"@) {
        Some(sv) => match spec_as_sym(sv) {
            Err(e) => Err(e),
            Ok(sym) => match spec_severity(sym) {
                Err(e) => Err(e),
                Ok(sev) => Ok(severity_role(sev)),
            },
        },
        None => match spec_arg(tail, "role"@) {
            Some(rv) => match spec_as_sym(rv) {
                Err(e) => Err(e),
                Ok(sym) => spec_role(sym),
            },
            None => Ok(Role::Primary),
        },
    }
}

/// `(defbadge :text <text> [:severity <sym> | :role <sym>])`.
pub open spec fn spec_badge_form(tail: Seq<SexpView>) -> Result<BlockView, LispErrorView> {
    match spec_need(tail, "text"@, "badge needs :text"@) {
        Err(e) => Err(e),
        Ok(tv) => match spec_as_text(tv) {
            Err(e) => Err(e),
            Ok(t) => match spec_badge_role(tail) {
                Err(e) => Err(e),
                Ok(role) => Ok(BlockView::Badge(BadgeView { text: t, role })),
            },
        },
    }
}

/// One panel row: a list whose first two elements are the key and value.
pub open spec fn spec_panel_row(pair: SexpView) -> Result<(Seq<char>, Seq<char>), LispErrorView> {
    match spec_as_list(pair) {
        Err(e) => Err(e),
        Ok(kv) => if kv.len() == 0 {
            Err(LispErrorView::BadArg("panel row needs a key"@))
        } else {
            match spec_as_text(kv[0]) {
                Err(e) => Err(e),
                Ok(k) => if kv.len() < 2 {
                    Err(LispErrorView::BadArg("panel row needs a value"@))
                } else {
                    match spec_as_text(kv[1]) {
                        Err(e) => Err(e),
                        Ok(v) => Ok((k, v)),
                    }
                },
            }
        },
    }
}

/// The panel rows, in order; the first failing row's error.
pub open spec fn spec_panel_rows(items: Seq<SexpView>) -> Result<Seq<(Seq<char>, Seq<char>)>, LispErrorView>
    decreases items.len(),
{
    if items.len() == 0 {
        Ok(Seq::empty())
    } else {
        match spec_panel_rows(items.drop_last()) {
            Err(e) => Err(e),
            Ok(rs) => match spec_panel_row(items.last()) {
                Err(e) => Err(e),
                Ok(r) => Ok(rs.push(r)),
            },
        }
    }
}

/// A failing row fails the whole fold, with its error.
proof fn lemma_panel_rows_err(items: Seq<SexpView>, n: nat)
    requires
        n <= items.len(),
        spec_panel_rows(items.take(n as int)) is Err,
    ensures
        spec_panel_rows(items) == spec_panel_rows(items.take(n as int)),
    decreases items.len(),
{
    if n < items.len() {
        assert(items.drop_last().take(n as int) =~= items.take(n as int));
        lemma_panel_rows_err(items.drop_last(), n);
    } else {
        assert(items.take(n as int) =~= items);
    }
}

/// `(defpanel [:title <text>] [:rows ((<key> <value>) …)])`.
pub open spec fn spec_panel_form(tail: Seq<SexpView>) -> Result<BlockView, LispErrorView> {
    let title: Result<Option<Seq<char>>, LispErrorView> = match spec_arg(tail, "title"@) {
        None => Ok(None),
        Some(tv) => match spec_as_text(tv) {
            Err(e) => Err(e),
            Ok(t) => Ok(Some(t)),
        },
    };
    match title {
        Err(e) => Err(e),
        Ok(title) => match spec_arg(tail, "rows"@) {
            None => Ok(BlockView::Panel(PanelView { title, rows: Seq::empty() })),
            Some(rv) => match spec_as_list(rv) {
                Err(e) => Err(e),
                Ok(items) => match spec_panel_rows(items) {
                    Err(e) => Err(e),
                    Ok(rows) => Ok(BlockView::Panel(PanelView { title, rows })),
                },
            },
        },
    }
}

/// A list whose first element is the symbol `task`.
pub open spec fn is_task(item: SexpView) -> bool {
    item matches SexpView::List(parts) && parts.len() > 0 && parts[0] == SexpView::Sym("task"@)
}

/// One list item: `(task <severity> <text>)` is a task, anything else is a
/// bullet whose text is the element's text.
pub open spec fn spec_list_item(item: SexpView) -> Result<(Seq<char>, Option<CalloutSeverity>), LispErrorView> {
    if is_task(item) {
        let parts = item->List_0;
        if parts.len() < 2 {
            Err(LispErrorView::BadArg("task needs a severity"@))
        } else {
            match spec_as_sym(parts[1]) {
                Err(e) => Err(e),
                Ok(sym) => match spec_severity(sym) {
                    Err(e) => Err(e),
                    Ok(sev) => if parts.len() < 3 {
                        Err(LispErrorView::BadArg("task needs text"@))
                    } else {
                        match spec_as_text(parts[2]) {
                            Err(e) => Err(e),
                            Ok(t) => Ok((t, Some(sev))),
                        }
                    },
                },
            }
        }
    } else {
        match spec_as_text(item) {
            Err(e) => Err(e),
            Ok(t) => Ok((t, None)),
        }
    }
}

/// The list items, in order; the first failing item's error.
pub open spec fn spec_list_items(items: Seq<SexpView>) -> Result<Seq<(Seq<char>, Option<CalloutSeverity>)>, LispErrorView>
    decreases items.len(),
{
    if items.len() == 0 {
        Ok(Seq::empty())
    } else {
        match spec_list_items(items.drop_last()) {
            Err(e) => Err(e),
            Ok(rs) => match spec_list_item(items.last()) {
                Err(e) => Err(e),
                Ok(r) => Ok(rs.push(r)),
            },
        }
    }
}

/// A failing item fails the whole fold, with its error.
proof fn lemma_list_items_err(items: Seq<SexpView>, n: nat)
    requires
        n <= items.len(),
        spec_list_items(items.take(n as int)) is Err,
    ensures
        spec_list_items(items) == spec_list_items(items.take(n as int)),
    decreases items.len(),
{
    if n < items.len() {
        assert(items.drop_last().take(n as int) =~= items.take(n as int));
        lemma_list_items_err(items.drop_last(), n);
    } else {
        assert(items.take(n as int) =~= items);
    }
}

/// `(deflist [:items (<item> …)])`.
pub open spec fn spec_list_form(tail: Seq<SexpView>) -> Result<BlockView, LispErrorView> {
    match spec_arg(tail, "items"@) {
        None => Ok(BlockView::List(ListView { items: Seq::empty() })),
        Some(iv) => match spec_as_list(iv) {
            Err(e) => Err(e),
            Ok(items) => match spec_list_items(items) {
                Err(e) => Err(e),
                Ok(items) => Ok(BlockView::List(ListView { items })),
            },
        },
    }
}

/// The text of a cell: a string's or symbol's text, empty for anything else.
pub open spec fn text_or_empty(x: SexpView) -> Seq<char> {
    match spec_as_text(x) {
        Ok(t) => t,
        Err(_) => Seq::empty(),
    }
}

/// The cells of a row.
pub open spec fn cells_of(xs: Seq<SexpView>) -> Seq<Seq<char>> {
    xs.map_values(|x: SexpView| text_or_empty(x))
}

/// The table rows, in order; each must be a list.
pub open spec fn spec_table_rows(items: Seq<SexpView>) -> Result<Seq<Seq<Seq<char>>>, LispErrorView>
    decreases items.len(),
{
    if items.len() == 0 {
        Ok(Seq::empty())
    } else {
        match spec_table_rows(items.drop_last()) {
            Err(e) => Err(e),
            Ok(rs) => match spec_as_list(items.last()) {
                Err(e) => Err(e),
                Ok(cells) => Ok(rs.push(cells_of(cells))),
            },
        }
    }
}

/// A failing row fails the whole fold, with its error.
proof fn lemma_table_rows_err(items: Seq<SexpView>, n: nat)
    requires
        n <= items.len(),
        spec_table_rows(items.take(n as int)) is Err,
    ensures
        spec_table_rows(items) == spec_table_rows(items.take(n as int)),
    decreases items.len(),
{
    if n < items.len() {
        assert(items.drop_last().take(n as int) =~= items.take(n as int));
        lemma_table_rows_err(items.drop_last(), n);
    } else {
        assert(items.take(n as int) =~= items);
    }
}

/// `(deftable :headers (<text> …) [:rows ((<text> …) …)])`.
pub open spec fn spec_table_form(tail: Seq<SexpView>) -> Result<BlockView, LispErrorView> {
    match spec_need(tail, "headers"@, "table needs :headers"@) {
        Err(e) => Err(e),
        Ok(hv) => match spec_as_list(hv) {
            Err(e) => Err(e),
            Ok(hs) => match spec_arg(tail, "rows"@) {
                None => Ok(BlockView::Table(TableView { headers: cells_of(hs), rows: Seq::empty() })),
                Some(rv) => match spec_as_list(rv) {
                    Err(e) => Err(e),
                    Ok(items) => match spec_table_rows(items) {
                        Err(e) => Err(e),
                        Ok(rows) => Ok(BlockView::Table(TableView { headers: cells_of(hs), rows })),
                    },
                },
            },
        },
    }
}

/// The block a parsed form describes: a list whose head symbol names the
/// form and whose tail holds `:key value` arguments.
pub open spec fn spec_block(x: SexpView) -> Result<BlockView, LispErrorView> {
    match spec_as_list(x) {
        Err(e) => Err(e),
        Ok(list) => if list.len() == 0 {
            Err(LispErrorView::Empty)
        } else {
            match spec_as_sym(list[0]) {
                Err(e) => Err(e),
                Ok(head) => {
                    let tail = list.skip(1);
                    if head == "defcallout"@ {
                        spec_callout_form(tail)
                    } else if head == "defbanner"@ {
                        spec_banner_form(tail)
                    } else if head == "defrule"@ {
                        spec_rule_form(tail)
                    } else if head == "defbadge"@ {
                        spec_badge_form(tail)
                    } else if head == "defpanel"@ {
                        spec_panel_form(tail)
                    } else if head == "deflist"@ {
                        spec_list_form(tail)
                    } else if head == "deftable"@ {
                        spec_table_form(tail)
                    } else {
                        Err(LispErrorView::UnknownForm(head))
                    }
                },
            }
        },
    }
}

/// What [`block_from_lisp`] gives for a source text.
pub open spec fn spec_block_from_lisp(src: Seq<char>) -> Result<BlockView, LispErrorView> {
    match spec_parse(src) {
        Err(e) => Err(e),
        Ok(x) => spec_block(x),
    }
}


// ── the interpreter ───────────────────────────────────────────────────────

/// The tail of a form, as values.
pub open spec fn form_tail(list: Seq<Sexp>) -> Seq<SexpView> {
    sexps_view(list).skip(1)
}

fn need_arg<'a>(list: &'a Vec<Sexp>, key: &str, msg: &'static str) -> (r: Result<&'a Sexp, LispError>)
    requires
        list@.len() >= 1,
    ensures
        match r {
            Ok(x) => spec_need(form_tail(list@), key@, msg@) == Ok::<SexpView, LispErrorView>(x@),
            Err(e) => spec_need(form_tail(list@), key@, msg@) == Err::<SexpView, LispErrorView>(e@),
        },
{
    match get_arg(list, key) {
        Some(x) => Ok(x),
        None => Err(LispError::BadArg(msg)),
    }
}

fn callout_form(list: &Vec<Sexp>) -> (r: Result<Block, LispError>)
    requires
        list@.len() >= 1,
    ensures
        block_result(r) == spec_callout_form(form_tail(list@)),
{
    let sv = match need_arg(list, "severity", "callout needs :severity") {
        Ok(x) => x,
        Err(e) => return Err(e),
    };
    let sym = match sv.as_sym() {
        Ok(x) => x,
        Err(e) => return Err(e),
    };
    let sev = match severity_from(sym) {
        Ok(x) => x,
        Err(e) => return Err(e),
    };
    let mv = match need_arg(list, "message", "callout needs :message") {
        Ok(x) => x,
        Err(e) => return Err(e),
    };
    let msg = match mv.as_text() {
        Ok(x) => x,
        Err(e) => return Err(e),
    };
    let c = Callout::new(sev, msg.as_str());
    match get_arg(list, "title") {
        None => Ok(Block::Callout(c)),
        Some(tv) => match tv.as_text() {
            Err(e) => Err(e),
            Ok(t) => Ok(Block::Callout(c.with_title(t.as_str()))),
        },
    }
}

fn banner_form(list: &Vec<Sexp>) -> (r: Result<Block, LispError>)
    requires
        list@.len() >= 1,
    ensures
        block_result(r) == spec_banner_form(form_tail(list@)),
{
    let tv = match need_arg(list, "title", "banner needs :title") {
        Ok(x) => x,
        Err(e) => return Err(e),
    };
    let t = match tv.as_text() {
        Ok(x) => x,
        Err(e) => return Err(e),
    };
    let b = Banner::new(t.as_str());
    match get_arg(list, "snowflake") {
        Some(Sexp::Sym(f)) => {
            if str_eq(f.as_str(), "false") || str_eq(f.as_str(), "no") {
                return Ok(Block::Banner(b.bare()));
            }
            Ok(Block::Banner(b))
        },
        _ => Ok(Block::Banner(b)),
    }
}

fn rule_form(list: &Vec<Sexp>) -> (r: Result<Block, LispError>)
    requires
        list@.len() >= 1,
    ensures
        block_result(r) == spec_rule_form(form_tail(list@)),
{
    match get_arg(list, "label") {
        Some(l) => match l.as_text() {
            Ok(t) => Ok(Block::Rule(Rule::labelled(t.as_str()))),
            Err(e) => Err(e),
        },
        None => Ok(Block::Rule(Rule::new())),
    }
}

fn badge_role(list: &Vec<Sexp>) -> (r: Result<Role, LispError>)
    requires
        list@.len() >= 1,
    ensures
        match r {
            Ok(v) => spec_badge_role(form_tail(list@)) == Ok::<Role, LispErrorView>(v),
            Err(e) => spec_badge_role(form_tail(list@)) == Err::<Role, LispErrorView>(e@),
        },
{
    match get_arg(list, "severity") {
        Some(sv) => {
            let sym = match sv.as_sym() {
                Ok(x) => x,
                Err(e) => return Err(e),
            };
            match severity_from(sym) {
                Ok(sev) => Ok(sev.role()),
                Err(e) => Err(e),
            }
        },
        None => match get_arg(list, "role") {
            Some(rv) => {
                let sym = match rv.as_sym() {
                    Ok(x) => x,
                    Err(e) => return Err(e),
                };
                role_from(sym)
            },
            None => Ok(Role::Primary),
        },
    }
}

fn badge_form(list: &Vec<Sexp>) -> (r: Result<Block, LispError>)
    requires
        list@.len() >= 1,
    ensures
        block_result(r) == spec_badge_form(form_tail(list@)),
{
    let tv = match need_arg(list, "text", "badge needs :text") {
        Ok(x) => x,
        Err(e) => return Err(e),
    };
    let t = match tv.as_text() {
        Ok(x) => x,
        Err(e) => return Err(e),
    };
    match badge_role(list) {
        Ok(role) => Ok(Block::Badge(Badge::new(t.as_str(), role))),
        Err(e) => Err(e),
    }
}


fn panel_row_of(pair: &Sexp) -> (r: Result<(String, String), LispError>)
    ensures
        match r {
            Ok(kv) => spec_panel_row(pair@) == Ok::<(Seq<char>, Seq<char>), LispErrorView>((kv.0@, kv.1@)),
            Err(e) => spec_panel_row(pair@) == Err::<(Seq<char>, Seq<char>), LispErrorView>(e@),
        },
{
    let kv = match pair.as_list() {
        Ok(x) => x,
        Err(e) => return Err(e),
    };
    if kv.len() == 0 {
        return Err(LispError::BadArg("panel row needs a key"));
    }
    assert(sexps_view(kv@)[0] == kv@[0]@);
    let k = match kv[0].as_text() {
        Ok(x) => x,
        Err(e) => return Err(e),
    };
    if kv.len() < 2 {
        return Err(LispError::BadArg("panel row needs a value"));
    }
    assert(sexps_view(kv@)[1] == kv@[1]@);
    let v = match kv[1].as_text() {
        Ok(x) => x,
        Err(e) => return Err(e),
    };
    Ok((k, v))
}

#[verifier::loop_isolation(false)]
fn panel_form(list: &Vec<Sexp>) -> (r: Result<Block, LispError>)
    requires
        list@.len() >= 1,
    ensures
        block_result(r) == spec_panel_form(form_tail(list@)),
{
    let mut p = Panel::new();
    match get_arg(list, "title") {
        Some(tv) => match tv.as_text() {
            Ok(t) => {
                p = Panel::titled(t.as_str());
            },
            Err(e) => return Err(e),
        },
        None => {},
    }
    let ghost title = p@.title;
    assert(p@.rows =~= Seq::<(Seq<char>, Seq<char>)>::empty());
    match get_arg(list, "rows") {
        None => Ok(Block::Panel(p)),
        Some(rv) => {
            let items = match rv.as_list() {
                Ok(x) => x,
                Err(e) => return Err(e),
            };
            let ghost iv = sexps_view(items@);
            let mut i: usize = 0;
            while i < items.len()
                invariant
                    i <= items@.len(),
                    iv == sexps_view(items@),
                    p@.title == title,
                    spec_panel_rows(iv.take(i as int)) == Ok::<Seq<(Seq<char>, Seq<char>)>, LispErrorView>(p@.rows),
                decreases items@.len() - i,
            {
                assert(iv.take(i + 1).drop_last() =~= iv.take(i as int));
                assert(iv.take(i + 1).last() == items@[i as int]@);
                let (k, v) = match panel_row_of(&items[i]) {
                    Ok(x) => x,
                    Err(e) => {
                        proof {
                            lemma_panel_rows_err(iv, (i + 1) as nat);
                        }
                        return Err(e);
                    },
                };
                let ghost before = p@.rows;
                p = p.row(k.as_str(), v.as_str());
                assert(p@.rows =~= before.push((k@, v@)));
                i += 1;
            }
            assert(iv.take(items@.len() as int) =~= iv);
            Ok(Block::Panel(p))
        },
    }
}

fn is_task_item(item: &Sexp) -> (r: bool)
    ensures
        r == is_task(item@),
{
    match item {
        Sexp::List(parts) => {
            if parts.len() == 0 {
                return false;
            }
            assert(match item@ {
                SexpView::List(v) => v[0] == parts@[0]@,
                _ => false,
            });
            match &parts[0] {
                Sexp::Sym(h) => {
                    let r = str_eq(h.as_str(), "task");
                    assert(r ==> parts@[0]@ == SexpView::Sym("task"@));
                    assert(parts@[0]@ == SexpView::Sym("task"@) ==> h@ == "task"@);
                    r
                },
                _ => false,
            }
        },
        _ => false,
    }
}

fn list_item_of(item: &Sexp) -> (r: Result<(String, Option<CalloutSeverity>), LispError>)
    ensures
        match r {
            Ok(it) => spec_list_item(item@) == Ok::<(Seq<char>, Option<CalloutSeverity>), LispErrorView>((it.0@, it.1)),
            Err(e) => spec_list_item(item@) == Err::<(Seq<char>, Option<CalloutSeverity>), LispErrorView>(e@),
        },
{
    if !is_task_item(item) {
        return match item.as_text() {
            Ok(t) => Ok((t, None)),
            Err(e) => Err(e),
        };
    }
    let parts = match item.as_list() {
        Ok(x) => x,
        Err(e) => return Err(e),
    };
    if parts.len() < 2 {
        return Err(LispError::BadArg("task needs a severity"));
    }
    assert(sexps_view(parts@)[1] == parts@[1]@);
    let sym = match parts[1].as_sym() {
        Ok(x) => x,
        Err(e) => return Err(e),
    };
    let sev = match severity_from(sym) {
        Ok(x) => x,
        Err(e) => return Err(e),
    };
    if parts.len() < 3 {
        return Err(LispError::BadArg("task needs text"));
    }
    assert(sexps_view(parts@)[2] == parts@[2]@);
    match parts[2].as_text() {
        Ok(t) => Ok((t, Some(sev))),
        Err(e) => Err(e),
    }
}

#[verifier::loop_isolation(false)]
fn list_form(list: &Vec<Sexp>) -> (r: Result<Block, LispError>)
    requires
        list@.len() >= 1,
    ensures
        block_result(r) == spec_list_form(form_tail(list@)),
{
    let mut l = List::new();
    assert(l@.items =~= Seq::<(Seq<char>, Option<CalloutSeverity>)>::empty());
    match get_arg(list, "items") {
        None => Ok(Block::List(l)),
        Some(iv0) => {
            let items = match iv0.as_list() {
                Ok(x) => x,
                Err(e) => return Err(e),
            };
            let ghost iv = sexps_view(items@);
            let mut i: usize = 0;
            while i < items.len()
                invariant
                    i <= items@.len(),
                    iv == sexps_view(items@),
                    spec_list_items(iv.take(i as int)) == Ok::<Seq<(Seq<char>, Option<CalloutSeverity>)>, LispErrorView>(l@.items),
                decreases items@.len() - i,
            {
                assert(iv.take(i + 1).drop_last() =~= iv.take(i as int));
                assert(iv.take(i + 1).last() == items@[i as int]@);
                let (t, status) = match list_item_of(&items[i]) {
                    Ok(x) => x,
                    Err(e) => {
                        proof {
                            lemma_list_items_err(iv, (i + 1) as nat);
                        }
                        return Err(e);
                    },
                };
                let ghost before = l@.items;
                l = match status {
                    Some(sev) => l.task(sev, t.as_str()),
                    None => l.bullet(t.as_str()),
                };
                assert(l@.items =~= before.push((t@, status)));
                i += 1;
            }
            assert(iv.take(items@.len() as int) =~= iv);
            Ok(Block::List(l))
        },
    }
}

fn cells_from(xs: &Vec<Sexp>) -> (r: Vec<String>)
    ensures
        crate::blocks::cells_view(r@) == cells_of(sexps_view(xs@)),
{
    let mut out: Vec<String> = Vec::new();
    let mut i: usize = 0;
    while i < xs.len()
        invariant
            i <= xs@.len(),
            crate::blocks::cells_view(out@) =~= cells_of(sexps_view(xs@).take(i as int)),
        decreases xs@.len() - i,
    {
        let t = match xs[i].as_text() {
            Ok(t) => t,
            Err(_) => String::new(),
        };
        out.push(t);
        assert(cells_of(sexps_view(xs@).take(i + 1)) =~= cells_of(sexps_view(xs@).take(i as int)).push(text_or_empty(xs@[i as int]@)));
        i += 1;
    }
    assert(sexps_view(xs@).take(xs@.len() as int) =~= sexps_view(xs@));
    out
}

#[verifier::loop_isolation(false)]
fn table_form(list: &Vec<Sexp>) -> (r: Result<Block, LispError>)
    requires
        list@.len() >= 1,
    ensures
        block_result(r) == spec_table_form(form_tail(list@)),
{
    let hv = match need_arg(list, "headers", "table needs :headers") {
        Ok(x) => x,
        Err(e) => return Err(e),
    };
    let hs = match hv.as_list() {
        Ok(x) => x,
        Err(e) => return Err(e),
    };
    let mut t = Table::new(cells_from(hs));
    assert(t@.rows =~= Seq::<Seq<Seq<char>>>::empty());
    match get_arg(list, "rows") {
        None => Ok(Block::Table(t)),
        Some(rv) => {
            let items = match rv.as_list() {
                Ok(x) => x,
                Err(e) => return Err(e),
            };
            let ghost iv = sexps_view(items@);
            let ghost headers = t@.headers;
            let mut i: usize = 0;
            while i < items.len()
                invariant
                    i <= items@.len(),
                    iv == sexps_view(items@),
                    t@.headers == headers,
                    spec_table_rows(iv.take(i as int)) == Ok::<Seq<Seq<Seq<char>>>, LispErrorView>(t@.rows),
                decreases items@.len() - i,
            {
                assert(iv.take(i + 1).drop_last() =~= iv.take(i as int));
                assert(iv.take(i + 1).last() == items@[i as int]@);
                let cells = match items[i].as_list() {
                    Ok(x) => x,
                    Err(e) => {
                        proof {
                            lemma_table_rows_err(iv, (i + 1) as nat);
                        }
                        return Err(e);
                    },
                };
                let row = cells_from(cells);
                let ghost before = t@.rows;
                let ghost rv = crate::blocks::cells_view(row@);
                t = t.row(row);
                assert(t@.rows =~= before.push(rv));
                i += 1;
            }
            assert(iv.take(items@.len() as int) =~= iv);
            Ok(Block::Table(t))
        },
    }
}

/// Parse a `(def<block> …)` form into a renderable block.
pub fn block_from_lisp(src: &str) -> (r: Result<Block, LispError>)
    ensures
        block_result(r) == spec_block_from_lisp(src@),
{
    let sexp = match parse(src) {
        Ok(x) => x,
        Err(e) => return Err(e),
    };
    let list = match sexp.as_list() {
        Ok(x) => x,
        Err(e) => return Err(e),
    };
    if list.len() == 0 {
        return Err(LispError::Empty);
    }
    assert(sexps_view(list@)[0] == list@[0]@);
    let head = match list[0].as_sym() {
        Ok(x) => x,
        Err(e) => return Err(e),
    };
    if str_eq(head, "defcallout") {
        callout_form(list)
    } else if str_eq(head, "defbanner") {
        banner_form(list)
    } else if str_eq(head, "defrule") {
        rule_form(list)
    } else if str_eq(head, "defbadge") {
        badge_form(list)
    } else if str_eq(head, "defpanel") {
        panel_form(list)
    } else if str_eq(head, "deflist") {
        list_form(list)
    } else if str_eq(head, "deftable") {
        table_form(list)
    } else {
        Err(LispError::UnknownForm(owned(head)))
    }
}


impl BlockRender for Block {
    open spec fn spec_layout(&self, caps: Capability, theme: Theme) -> Seq<Seq<FragmentView>> {
        match self {
            Block::Callout(b) => b.spec_layout(caps, theme),
            Block::Banner(b) => b.spec_layout(caps, theme),
            Block::Rule(b) => b.spec_layout(caps, theme),
            Block::Panel(b) => b.spec_layout(caps, theme),
            Block::List(b) => b.spec_layout(caps, theme),
            Block::Badge(b) => b.spec_layout(caps, theme),
            Block::Table(b) => b.spec_layout(caps, theme),
        }
    }

    fn layout(&self, caps: &Capability, theme: Theme) -> (r: Vec<StyledLine>) {
        match self {
            Block::Callout(b) => b.layout(caps, theme),
            Block::Banner(b) => b.layout(caps, theme),
            Block::Rule(b) => b.layout(caps, theme),
            Block::Panel(b) => b.layout(caps, theme),
            Block::List(b) => b.layout(caps, theme),
            Block::Badge(b) => b.layout(caps, theme),
            Block::Table(b) => b.layout(caps, theme),
        }
    }
}

/// The human-readable text of an error.
pub open spec fn error_message(e: LispErrorView) -> Seq<char> {
    match e {
        LispErrorView::Unterminated(w) => "unterminated "@ + w,
        LispErrorView::Unexpected(c) => "unexpected char "@ + seq![c],
        LispErrorView::Empty => "empty input"@,
        LispErrorView::ExpectedList => "expected a (form …) list"@,
        LispErrorView::UnknownForm(f) => "unknown form: "@ + f,
        LispErrorView::BadArg(m) => "bad argument: "@ + m,
    }
}

impl LispError {
    /// The human-readable text of this error.
    pub fn to_string(&self) -> (s: String)
        ensures
            s@ == error_message(self@),
    {
        let mut out = String::new();
        match self {
            LispError::Unterminated(w) => {
                out.append("unterminated ");
                out.append(w);
            },
            LispError::Unexpected(c) => {
                out.append("unexpected char ");
                push_char(&mut out, *c);
            },
            LispError::Empty => out.append("empty input"),
            LispError::ExpectedList => out.append("expected a (form …) list"),
            LispError::UnknownForm(f) => {
                out.append("unknown form: ");
                out.append(f.as_str());
            },
            LispError::BadArg(m) => {
                out.append("bad argument: ");
                out.append(m);
            },
        }
        out
    }
}

} // verus!
