//! The expression tokenizer: finds the next delimited expression in the
//! template text, classifies it, and reports the literal run before it,
//! the expression content, and where scanning resumes.  Whitespace-trim
//! markers (`~` just after an opener or just before a closer) shrink the
//! neighbouring literal runs.

use vstd::prelude::*;
use crate::CompileError;
use crate::text::{
    find_from, lemma_skip_spaces, lemma_spec_find_props, match_at, matches_at, skip_spaces,
    skip_spaces_exec, spec_find, trim_back, trim_back_exec,
};

verus! {

/// The several expression flavours a delimiter pair can carry.
#[derive(Clone, Copy, Debug, PartialEq, Eq, Structural)]
pub enum ExprKind {
    /// `{{! ... }}` or `{{!-- ... --}}`: contributes nothing.
    Comment,
    /// `{{name}}`: value emission through the HTML escaper.
    HtmlEscaped,
    /// `{{{name}}}`: value emission without escaping.
    Raw,
    /// `{{#head ...}}`: a block header.
    Open,
    /// `{{/name}}`: a block footer.
    Close,
    /// `\{{ ... }}`: the content is re-emitted as literal text.
    Escaped,
}

/// The mathematical form of one scanned expression: the literal run
/// before the tag, the tag content, and the index where scanning resumes.
#[verifier::ext_equal]
pub struct ExprV {
    pub kind: ExprKind,
    pub prefix: Seq<char>,
    pub content: Seq<char>,
    pub next: int,
}

/// The opening delimiter `{{`.
pub open spec fn open_delim() -> Seq<char> {
    seq!['{', '{']
}

/// The plain closing delimiter `}}`.
pub open spec fn close_delim() -> Seq<char> {
    seq!['}', '}']
}

/// The raw-output closing delimiter `}}}`.
pub open spec fn close_raw() -> Seq<char> {
    seq!['}', '}', '}']
}

/// The block-comment marker `--`.
pub open spec fn dashes() -> Seq<char> {
    seq!['-', '-']
}

/// The block-comment closing delimiter `--}}`.
pub open spec fn close_comment() -> Seq<char> {
    seq!['-', '-', '}', '}']
}

/// Completes a classified expression: the closer is sought from
/// `cstart`; a `~` just before it trims the content and the literal run
/// that follows the tag.  No closer before end of input is fatal.
pub open spec fn close_spec(
    s: Seq<char>,
    kind: ExprKind,
    plo: int,
    phi: int,
    cstart: int,
    closer: Seq<char>,
) -> Result<Option<ExprV>, CompileError> {
    match spec_find(s, closer, cstart) {
        None => Err(CompileError::UnterminatedExpression),
        Some(cpos) => {
            if cpos > cstart && s[cpos - 1] == '~' {
                Ok(
                    Some(
                        ExprV {
                            kind,
                            prefix: s.subrange(plo, phi),
                            content: s.subrange(cstart, cpos - 1),
                            next: skip_spaces(s, cpos + closer.len()),
                        },
                    ),
                )
            } else {
                Ok(
                    Some(
                        ExprV {
                            kind,
                            prefix: s.subrange(plo, phi),
                            content: s.subrange(cstart, cpos),
                            next: cpos + closer.len(),
                        },
                    ),
                )
            }
        },
    }
}

/// Classifies by the marker character at index `m` (the first content
/// character after the opener, and after a `~` trim marker if present).
pub open spec fn marker_spec(s: Seq<char>, plo: int, phi: int, m: int) -> Result<
    Option<ExprV>,
    CompileError,
> {
    if s[m] == '{' {
        close_spec(s, ExprKind::Raw, plo, phi, m + 1, close_raw())
    } else if s[m] == '!' {
        if matches_at(s, dashes(), m + 1) {
            close_spec(s, ExprKind::Comment, plo, phi, m + 3, close_comment())
        } else {
            close_spec(s, ExprKind::Comment, plo, phi, m + 1, close_delim())
        }
    } else if s[m] == '#' {
        close_spec(s, ExprKind::Open, plo, phi, m + 1, close_delim())
    } else if s[m] == '/' {
        close_spec(s, ExprKind::Close, plo, phi, m + 1, close_delim())
    } else {
        close_spec(s, ExprKind::HtmlEscaped, plo, phi, m, close_delim())
    }
}

/// The next expression of `s` at or after `pos`: `Ok(None)` when no
/// opener remains (the rest is a trailing literal), an error when an
/// opener is found but the input ends before the expression completes.
pub open spec fn next_expr_spec(s: Seq<char>, pos: int) -> Result<Option<ExprV>, CompileError> {
    match spec_find(s, open_delim(), pos) {
        None => Ok(None),
        Some(start) => {
            if start + 3 >= s.len() {
                Err(CompileError::UnterminatedExpression)
            } else if start > pos && s[start - 1] == '\\' {
                close_spec(s, ExprKind::Escaped, pos, start - 1, start + 2, close_delim())
            } else if s[start + 2] == '~' {
                if start + 4 >= s.len() {
                    Err(CompileError::UnterminatedExpression)
                } else {
                    marker_spec(s, pos, trim_back(s, pos, start), start + 3)
                }
            } else {
                marker_spec(s, pos, start, start + 2)
            }
        },
    }
}

/// Scanning always advances: a scanned expression resumes strictly past
/// where it began, and within the input.
pub proof fn lemma_next_expr_progress(s: Seq<char>, pos: int)
    ensures
        next_expr_spec(s, pos) matches Ok(Some(e)) ==> pos < e.next <= s.len(),
{
    lemma_spec_find_props(s, open_delim(), pos);
    match spec_find(s, open_delim(), pos) {
        None => {},
        Some(start) => {
            if start + 3 >= s.len() {
            } else if start > pos && s[start - 1] == '\\' {
                lemma_close_progress(s, pos, ExprKind::Escaped, pos, start - 1, start + 2,
                    close_delim());
            } else if s[start + 2] == '~' {
                if start + 4 < s.len() {
                    lemma_marker_progress(s, pos, pos, trim_back(s, pos, start), start + 3);
                }
            } else {
                lemma_marker_progress(s, pos, pos, start, start + 2);
            }
        },
    }
}

proof fn lemma_marker_progress(s: Seq<char>, pos: int, plo: int, phi: int, m: int)
    requires
        pos <= m,
    ensures
        marker_spec(s, plo, phi, m) matches Ok(Some(e)) ==> pos < e.next <= s.len(),
{
    if s[m] == '{' {
        lemma_close_progress(s, pos, ExprKind::Raw, plo, phi, m + 1, close_raw());
    } else if s[m] == '!' {
        if matches_at(s, dashes(), m + 1) {
            lemma_close_progress(s, pos, ExprKind::Comment, plo, phi, m + 3, close_comment());
        } else {
            lemma_close_progress(s, pos, ExprKind::Comment, plo, phi, m + 1, close_delim());
        }
    } else if s[m] == '#' {
        lemma_close_progress(s, pos, ExprKind::Open, plo, phi, m + 1, close_delim());
    } else if s[m] == '/' {
        lemma_close_progress(s, pos, ExprKind::Close, plo, phi, m + 1, close_delim());
    } else {
        lemma_close_progress(s, pos, ExprKind::HtmlEscaped, plo, phi, m, close_delim());
    }
}

proof fn lemma_close_progress(
    s: Seq<char>,
    pos: int,
    kind: ExprKind,
    plo: int,
    phi: int,
    cstart: int,
    closer: Seq<char>,
)
    requires
        pos < cstart + closer.len(),
        closer.len() >= 1,
    ensures
        close_spec(s, kind, plo, phi, cstart, closer) matches Ok(Some(e)) ==> pos < e.next
            <= s.len(),
{
    lemma_spec_find_props(s, closer, cstart);
    match spec_find(s, closer, cstart) {
        None => {},
        Some(cpos) => {
            lemma_skip_spaces(s, cpos + closer.len());
        },
    }
}

/// One scanned expression, as spans over the template buffer.
pub struct Expression {
    pub kind: ExprKind,
    pub prefix_lo: usize,
    pub prefix_hi: usize,
    pub content_lo: usize,
    pub content_hi: usize,
    pub next: usize,
}

impl Expression {
    /// The spans lie within the buffer.
    pub open spec fn wf(&self, s: Seq<char>) -> bool {
        self.prefix_lo <= self.prefix_hi <= s.len() && self.content_lo <= self.content_hi
            <= s.len() && self.next <= s.len()
    }

    /// The mathematical form of this expression over the buffer `s`.
    pub open spec fn model(&self, s: Seq<char>) -> ExprV {
        ExprV {
            kind: self.kind,
            prefix: s.subrange(self.prefix_lo as int, self.prefix_hi as int),
            content: s.subrange(self.content_lo as int, self.content_hi as int),
            next: self.next as int,
        }
    }
}

fn close_tok(
    src: &Vec<char>,
    kind: ExprKind,
    plo: usize,
    phi: usize,
    cstart: usize,
    closer: &Vec<char>,
) -> (r: Result<Option<Expression>, CompileError>)
    requires
        plo <= phi <= src@.len(),
        cstart <= src@.len(),
        1 <= closer@.len(),
    ensures
        match r {
            Ok(Some(e)) => e.wf(src@) && cstart < e.next && close_spec(
                src@,
                kind,
                plo as int,
                phi as int,
                cstart as int,
                closer@,
            ) == Ok::<Option<ExprV>, CompileError>(Some(e.model(src@))),
            Ok(None) => false,
            Err(er) => close_spec(
                src@,
                kind,
                plo as int,
                phi as int,
                cstart as int,
                closer@,
            ) == Err::<Option<ExprV>, CompileError>(er),
        },
{
    let n = src.len();
    match find_from(src, closer, cstart) {
        None => Err(CompileError::UnterminatedExpression),
        Some(cpos) => {
            assert(cpos + closer@.len() <= n);
            if cpos > cstart && src[cpos - 1] == '~' {
                let nx = skip_spaces_exec(src, cpos + closer.len());
                let e = Expression {
                    kind,
                    prefix_lo: plo,
                    prefix_hi: phi,
                    content_lo: cstart,
                    content_hi: cpos - 1,
                    next: nx,
                };
                proof {
                    assert(e.model(src@) =~= close_spec(
                        src@,
                        kind,
                        plo as int,
                        phi as int,
                        cstart as int,
                        closer@,
                    )->Ok_0->Some_0);
                }
                Ok(Some(e))
            } else {
                let e = Expression {
                    kind,
                    prefix_lo: plo,
                    prefix_hi: phi,
                    content_lo: cstart,
                    content_hi: cpos,
                    next: cpos + closer.len(),
                };
                proof {
                    assert(e.model(src@) =~= close_spec(
                        src@,
                        kind,
                        plo as int,
                        phi as int,
                        cstart as int,
                        closer@,
                    )->Ok_0->Some_0);
                }
                Ok(Some(e))
            }
        },
    }
}

fn marker_tok(src: &Vec<char>, plo: usize, phi: usize, m: usize) -> (r: Result<
    Option<Expression>,
    CompileError,
>)
    requires
        plo <= phi <= src@.len(),
        m < src@.len(),
    ensures
        match r {
            Ok(Some(e)) => e.wf(src@) && m < e.next && marker_spec(
                src@,
                plo as int,
                phi as int,
                m as int,
            ) == Ok::<Option<ExprV>, CompileError>(Some(e.model(src@))),
            Ok(None) => false,
            Err(er) => marker_spec(src@, plo as int, phi as int, m as int) == Err::<
                Option<ExprV>,
                CompileError,
            >(er),
        },
{
    let n = src.len();
    let c = src[m];
    if c == '{' {
        let closer = make_close_raw();
        close_tok(src, ExprKind::Raw, plo, phi, m + 1, &closer)
    } else if c == '!' {
        let dd = make_dashes();
        let is_block = n - (m + 1) >= 2 && match_at(src, &dd, m + 1);
        if is_block {
            let closer = make_close_comment();
            close_tok(src, ExprKind::Comment, plo, phi, m + 3, &closer)
        } else {
            proof {
                assert(!matches_at(src@, dashes(), m + 1));
            }
            let closer = make_close_delim();
            close_tok(src, ExprKind::Comment, plo, phi, m + 1, &closer)
        }
    } else if c == '#' {
        let closer = make_close_delim();
        close_tok(src, ExprKind::Open, plo, phi, m + 1, &closer)
    } else if c == '/' {
        let closer = make_close_delim();
        close_tok(src, ExprKind::Close, plo, phi, m + 1, &closer)
    } else {
        let closer = make_close_delim();
        close_tok(src, ExprKind::HtmlEscaped, plo, phi, m, &closer)
    }
}

/// Scans the next expression of the buffer at or after `pos`.
pub fn next_expression(src: &Vec<char>, pos: usize) -> (r: Result<
    Option<Expression>,
    CompileError,
>)
    requires
        pos <= src@.len(),
    ensures
        match r {
            Ok(Some(e)) => e.wf(src@) && pos < e.next && next_expr_spec(src@, pos as int) == Ok::<
                Option<ExprV>,
                CompileError,
            >(Some(e.model(src@))),
            Ok(None) => next_expr_spec(src@, pos as int) == Ok::<Option<ExprV>, CompileError>(
                None,
            ),
            Err(er) => next_expr_spec(src@, pos as int) == Err::<Option<ExprV>, CompileError>(er),
        },
{
    let opener = make_open_delim();
    match find_from(src, &opener, pos) {
        None => Ok(None),
        Some(start) => {
            let n = src.len();
            if n - start < 4 {
                assert(start + 3 >= src@.len());
                return Err(CompileError::UnterminatedExpression);
            }
            assert(start + 3 < src@.len());
            if start > pos && src[start - 1] == '\\' {
                let closer = make_close_delim();
                close_tok(src, ExprKind::Escaped, pos, start - 1, start + 2, &closer)
            } else if src[start + 2] == '~' {
                if n - start < 5 {
                    assert(start + 4 >= src@.len());
                    return Err(CompileError::UnterminatedExpression);
                }
                assert(start + 4 < src@.len());
                let phi = trim_back_exec(src, pos, start);
                marker_tok(src, pos, phi, start + 3)
            } else {
                marker_tok(src, pos, start, start + 2)
            }
        },
    }
}

/// `{{` as an owned buffer.
pub fn make_open_delim() -> (r: Vec<char>)
    ensures
        r@ == open_delim(),
{
    let mut v: Vec<char> = Vec::new();
    v.push('{');
    v.push('{');
    proof {
        assert(v@ =~= open_delim());
    }
    v
}

/// `}}` as an owned buffer.
pub fn make_close_delim() -> (r: Vec<char>)
    ensures
        r@ == close_delim(),
{
    let mut v: Vec<char> = Vec::new();
    v.push('}');
    v.push('}');
    proof {
        assert(v@ =~= close_delim());
    }
    v
}

/// `}}}` as an owned buffer.
pub fn make_close_raw() -> (r: Vec<char>)
    ensures
        r@ == close_raw(),
{
    let mut v: Vec<char> = Vec::new();
    v.push('}');
    v.push('}');
    v.push('}');
    proof {
        assert(v@ =~= close_raw());
    }
    v
}

/// `--` as an owned buffer.
pub fn make_dashes() -> (r: Vec<char>)
    ensures
        r@ == dashes(),
{
    let mut v: Vec<char> = Vec::new();
    v.push('-');
    v.push('-');
    proof {
        assert(v@ =~= dashes());
    }
    v
}

/// `--}}` as an owned buffer.
pub fn make_close_comment() -> (r: Vec<char>)
    ensures
        r@ == close_comment(),
{
    let mut v: Vec<char> = Vec::new();
    v.push('-');
    v.push('-');
    v.push('}');
    v.push('}');
    proof {
        assert(v@ =~= close_comment());
    }
    v
}

} // verus!
