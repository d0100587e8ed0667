//! The compiler driver: walks the expression stream end to end, emits
//! literal runs (whitespace-collapsed between bracket pairs and escaped
//! for embedding in a string constant), dispatches each expression kind
//! to the resolver, and concatenates the resulting instruction text.

use vstd::prelude::*;
use crate::CompileError;
use crate::resolver::{close_spec, open_spec, resolve_spec, Compile, ScopeV};
use crate::text::{
    chars_of, chars_to_string, copy_range, lemma_skip_spaces, skip_spaces, skip_spaces_exec,
    spec_find, trim_back, trim_back_exec,
};
use crate::tokenizer::{
    lemma_next_expr_progress, next_expr_spec, next_expression, open_delim, ExprKind, ExprV,
};

verus! {

/// Collapses every whitespace run lying strictly between a closing and
/// an opening bracket (`>`, spaces, `<`) to the bare bracket pair,
/// scanning left to right from index `i`.
pub open spec fn collapse_from(s: Seq<char>, i: int) -> Seq<char>
    decreases s.len() - i,
{
    if i < 0 || i >= s.len() {
        Seq::empty()
    } else if s[i] == '>' {
        let k = skip_spaces(s, i + 1);
        if k > i + 1 && k < s.len() && s[k] == '<' {
            proof {
                lemma_skip_spaces(s, i + 1);
            }
            seq!['>', '<'] + collapse_from(s, k + 1)
        } else {
            seq![s[i]] + collapse_from(s, i + 1)
        }
    } else {
        seq![s[i]] + collapse_from(s, i + 1)
    }
}

/// Prefixes every backslash and double quote with a backslash, from
/// index `i` on, so the text can stand inside a string constant.
pub open spec fn escape_from(s: Seq<char>, i: int) -> Seq<char>
    decreases s.len() - i,
{
    if i < 0 || i >= s.len() {
        Seq::empty()
    } else if s[i] == '\\' || s[i] == '"' {
        seq!['\\', s[i]] + escape_from(s, i + 1)
    } else {
        seq![s[i]] + escape_from(s, i + 1)
    }
}

/// `s` with leading and trailing whitespace removed.
pub open spec fn trimmed(s: Seq<char>) -> Seq<char> {
    let lo = skip_spaces(s, 0);
    let hi = trim_back(s, lo, s.len() as int);
    s.subrange(lo, hi)
}

/// The literal-emit instruction for the literal run `s`: nothing when
/// `s` is empty, else one write of the collapsed and escaped text.
pub open spec fn write_lit_spec(s: Seq<char>) -> Seq<char> {
    if s.len() == 0 {
        Seq::empty()
    } else {
        "f.write_str(\""@ + escape_from(collapse_from(s, 0), 0) + "\")?;"@
    }
}

/// The emission frame of a raw (unescaped) value.
pub open spec fn raw_pre() -> Seq<char> {
    "Display::fmt(&("@
}

pub open spec fn raw_post() -> Seq<char> {
    "),f)?;"@
}

/// The emission frame of an HTML-escaped value.
pub open spec fn esc_pre() -> Seq<char> {
    "rusty_hbs_helpers::escape(&("@
}

pub open spec fn esc_post() -> Seq<char> {
    "), f)?;"@
}

/// The whole compilation from position `pos` with instruction text
/// `out` built and blocks `stack` open: scans expression by expression,
/// emits, and fails on the first invalid construct; blocks still open at
/// end of input are fatal.
pub open spec fn compile_from(s: Seq<char>, pos: int, out: Seq<char>, stack: Seq<ScopeV>) -> Result<
    Seq<char>,
    CompileError,
>
    decreases s.len() - pos,
{
    match next_expr_spec(s, pos) {
        Err(e) => Err(e),
        Ok(None) => {
            if stack.len() == 0 {
                Ok(out + write_lit_spec(s.subrange(pos, s.len() as int)))
            } else {
                Err(CompileError::MismatchedBlock)
            }
        },
        Ok(Some(e)) => {
            proof {
                lemma_next_expr_progress(s, pos);
            }
            let out1 = out + write_lit_spec(e.prefix);
            match e.kind {
                ExprKind::Raw => {
                    let rr = resolve_spec(out1, stack, e.content, raw_pre(), raw_post());
                    compile_from(s, e.next, rr.0, rr.1)
                },
                ExprKind::HtmlEscaped => {
                    let rr = resolve_spec(out1, stack, e.content, esc_pre(), esc_post());
                    compile_from(s, e.next, rr.0, rr.1)
                },
                ExprKind::Open => match open_spec(out1, stack, e.content) {
                    Ok(p) => compile_from(s, e.next, p.0, p.1),
                    Err(er) => Err(er),
                },
                ExprKind::Close => match close_spec(out1, stack, trimmed(e.content)) {
                    Ok(p) => compile_from(s, e.next, p.0, p.1),
                    Err(er) => Err(er),
                },
                ExprKind::Escaped => compile_from(s, e.next, out1 + write_lit_spec(e.content), stack),
                ExprKind::Comment => compile_from(s, e.next, out1, stack),
            }
        },
    }
}

/// What compiling the template text `s` yields: the full instruction
/// text, or the first error.
pub open spec fn compile_spec(s: Seq<char>) -> Result<Seq<char>, CompileError> {
    compile_from(s, 0, Seq::empty(), Seq::empty())
}

/// A template holding no opening delimiter compiles, without error, to
/// exactly one literal-emit instruction holding the whole input after
/// the whitespace-collapse and escaping rules.
pub proof fn lemma_literal_only(s: Seq<char>)
    requires
        spec_find(s, open_delim(), 0) is None,
        s.len() > 0,
    ensures
        compile_spec(s) == Ok::<Seq<char>, CompileError>(write_lit_spec(s)),
        write_lit_spec(s) == "f.write_str(\""@ + escape_from(collapse_from(s, 0), 0) + "\")?;"@,
{
    assert(s.subrange(0, s.len() as int) =~= s);
    assert(Seq::<char>::empty() + write_lit_spec(s) =~= write_lit_spec(s));
}

/// A comment contributes no output, whatever it holds: compilation
/// continues past it with only the literal run before it emitted, and
/// with the open blocks unchanged.
pub proof fn lemma_comment_contributes_nothing(
    s: Seq<char>,
    pos: int,
    out: Seq<char>,
    stack: Seq<ScopeV>,
    e: ExprV,
)
    requires
        next_expr_spec(s, pos) == Ok::<Option<ExprV>, CompileError>(Some(e)),
        e.kind is Comment,
    ensures
        compile_from(s, pos, out, stack) == compile_from(
            s,
            e.next,
            out + write_lit_spec(e.prefix),
            stack,
        ),
{
}

/// An escaped-literal expression re-emits its content as ordinary
/// literal text, through the same collapse and escaping rules as any
/// literal run, with the open blocks unchanged.
pub proof fn lemma_escaped_literal_reemits(
    s: Seq<char>,
    pos: int,
    out: Seq<char>,
    stack: Seq<ScopeV>,
    e: ExprV,
)
    requires
        next_expr_spec(s, pos) == Ok::<Option<ExprV>, CompileError>(Some(e)),
        e.kind is Escaped,
    ensures
        compile_from(s, pos, out, stack) == compile_from(
            s,
            e.next,
            out + write_lit_spec(e.prefix) + write_lit_spec(e.content),
            stack,
        ),
{
}

/// The template compiler.  One `compile` call is independent of every
/// other: no state persists between calls.
pub struct Compiler {}

impl Compiler {
    pub fn new() -> (r: Compiler) {
        Compiler {}
    }

    /// The collapsed and escaped form of a literal run.
    pub fn escape(&self, content: &Vec<char>) -> (r: Vec<char>)
        ensures
            r@ == escape_from(content@, 0),
    {
        let n = content.len();
        let mut r: Vec<char> = Vec::new();
        let mut i: usize = 0;
        while i < n
            invariant
                0 <= i <= n,
                n == content@.len(),
                escape_from(content@, 0) == r@ + escape_from(content@, i as int),
            decreases n - i,
        {
            let c = content[i];
            if c == '\\' || c == '"' {
                r.push('\\');
                r.push(c);
            } else {
                r.push(c);
            }
            i += 1;
            proof {
                assert(escape_from(content@, 0) =~= r@ + escape_from(content@, i as int));
            }
        }
        proof {
            assert(escape_from(content@, i as int) =~= Seq::<char>::empty());
            assert(escape_from(content@, 0) =~= r@);
        }
        r
    }

    /// Collapses whitespace runs between bracket pairs.
    pub fn strip_ws(&self, content: &Vec<char>) -> (r: Vec<char>)
        ensures
            r@ == collapse_from(content@, 0),
    {
        let n = content.len();
        let mut r: Vec<char> = Vec::new();
        let mut i: usize = 0;
        while i < n
            invariant
                0 <= i <= n,
                n == content@.len(),
                collapse_from(content@, 0) == r@ + collapse_from(content@, i as int),
            decreases n - i,
        {
            let c = content[i];
            if c == '>' {
                let k = skip_spaces_exec(content, i + 1);
                if k > i + 1 && k < n && content[k] == '<' {
                    r.push('>');
                    r.push('<');
                    proof {
                        assert(collapse_from(content@, i as int) == seq!['>', '<']
                            + collapse_from(content@, k + 1));
                        assert(collapse_from(content@, 0) =~= r@ + collapse_from(
                            content@,
                            k + 1,
                        ));
                    }
                    i = k + 1;
                    continue ;
                }
            }
            r.push(c);
            i += 1;
            proof {
                assert(collapse_from(content@, 0) =~= r@ + collapse_from(content@, i as int));
            }
        }
        proof {
            assert(collapse_from(content@, i as int) =~= Seq::<char>::empty());
            assert(collapse_from(content@, 0) =~= r@);
        }
        r
    }

    /// Emits the literal run `src.subrange(lo, hi)` as one literal-emit
    /// instruction; an empty run emits nothing.
    pub fn write_str(&self, out: &mut Compile, src: &Vec<char>, lo: usize, hi: usize)
        requires
            lo <= hi <= src@.len(),
        ensures
            final(out).rust@ == old(out).rust@ + write_lit_spec(
                src@.subrange(lo as int, hi as int),
            ),
            final(out).open_stack == old(out).open_stack,
    {
        if lo == hi {
            proof {
                assert(src@.subrange(lo as int, hi as int).len() == 0);
                assert(old(out).rust@ + write_lit_spec(src@.subrange(lo as int, hi as int))
                    =~= old(out).rust@);
            }
            return ;
        }
        let content = copy_range(src, lo, hi);
        let collapsed = self.strip_ws(&content);
        let escaped = self.escape(&collapsed);
        out.write("f.write_str(\"");
        out.write_buf(&escaped);
        out.write("\")?;");
        proof {
            assert(final(out).rust@ =~= old(out).rust@ + write_lit_spec(
                src@.subrange(lo as int, hi as int),
            ));
        }
    }

    /// Compiles the template `src` into its instruction text, or fails
    /// with the first error.
    pub fn compile(&self, src: &str) -> (r: Result<String, CompileError>)
        ensures
            match r {
                Ok(out) => compile_spec(src@) == Ok::<Seq<char>, CompileError>(out@),
                Err(e) => compile_spec(src@) == Err::<Seq<char>, CompileError>(e),
            },
    {
        let chars = chars_of(src);
        let mut out = Compile::new();
        let mut pos: usize = 0;
        proof {
            assert(out.rust@ =~= Seq::<char>::empty());
        }
        loop
            invariant
                pos <= chars@.len(),
                chars@ == src@,
                compile_spec(src@) == compile_from(chars@, pos as int, out.rust@, out.scopes()),
            decreases chars@.len() - pos,
        {
            let ghost out0 = out.rust@;
            let ghost st0 = out.scopes();
            match next_expression(&chars, pos) {
                Err(e) => {
                    return Err(e);
                },
                Ok(None) => {
                    self.write_str(&mut out, &chars, pos, chars.len());
                    if out.open_stack.len() > 0 {
                        proof {
                            assert(st0.len() > 0);
                        }
                        return Err(CompileError::MismatchedBlock);
                    }
                    proof {
                        assert(st0.len() == 0);
                    }
                    let text = chars_to_string(&out.rust);
                    return Ok(text);
                },
                Ok(Some(e)) => {
                    let ghost ev = e.model(chars@);
                    self.write_str(&mut out, &chars, e.prefix_lo, e.prefix_hi);
                    match e.kind {
                        ExprKind::Raw => {
                            let c = copy_range(&chars, e.content_lo, e.content_hi);
                            out.resolve(&c, "Display::fmt(&(", "),f)?;");
                        },
                        ExprKind::HtmlEscaped => {
                            let c = copy_range(&chars, e.content_lo, e.content_hi);
                            out.resolve(&c, "rusty_hbs_helpers::escape(&(", "), f)?;");
                        },
                        ExprKind::Open => {
                            let c = copy_range(&chars, e.content_lo, e.content_hi);
                            match out.open(&c) {
                                Ok(u) => {},
                                Err(er) => {
                                    return Err(er);
                                },
                            }
                        },
                        ExprKind::Close => {
                            let c = trim_content(&chars, e.content_lo, e.content_hi);
                            match out.close(&c) {
                                Ok(u) => {},
                                Err(er) => {
                                    return Err(er);
                                },
                            }
                        },
                        ExprKind::Escaped => {
                            self.write_str(&mut out, &chars, e.content_lo, e.content_hi);
                        },
                        ExprKind::Comment => {},
                    }
                    pos = e.next;
                },
            }
        }
    }
}

/// The trimmed text of `src.subrange(lo, hi)` as an owned buffer.
fn trim_content(src: &Vec<char>, lo: usize, hi: usize) -> (r: Vec<char>)
    requires
        lo <= hi <= src@.len(),
    ensures
        r@ == trimmed(src@.subrange(lo as int, hi as int)),
{
    let ghost content = src@.subrange(lo as int, hi as int);
    let a = skip_spaces_exec(src, lo);
    let a2 = if a > hi {
        hi
    } else {
        a
    };
    let b = trim_back_exec(src, a2, hi);
    proof {
        lemma_skip_spaces(src@, lo as int);
        lemma_trim_spans(src@, lo as int, hi as int);
        assert(trim_bounds_match(src@, lo as int, hi as int, a2 as int, b as int));
    }
    let r = copy_range(src, a2, b);
    proof {
        assert(r@ =~= trimmed(content));
    }
    r
}

/// The trim bounds computed over the whole buffer coincide with the
/// bounds computed over the copied content.
spec fn trim_bounds_match(s: Seq<char>, lo: int, hi: int, a2: int, b: int) -> bool {
    let content = s.subrange(lo, hi);
    let clo = skip_spaces(content, 0);
    let chi = trim_back(content, clo, content.len() as int);
    a2 - lo == clo && b - lo == chi
}

proof fn lemma_trim_spans(s: Seq<char>, lo: int, hi: int)
    requires
        0 <= lo <= hi <= s.len(),
    ensures
        ({
            let a = skip_spaces(s, lo);
            let a2 = if a > hi {
                hi
            } else {
                a
            };
            trim_bounds_match(s, lo, hi, a2, trim_back(s, a2, hi))
        }),
{
    let content = s.subrange(lo, hi);
    lemma_skip_spaces(s, lo);
    lemma_skip_aligned(s, lo, hi, lo);
    let a = skip_spaces(s, lo);
    let a2 = if a > hi {
        hi
    } else {
        a
    };
    lemma_trim_aligned(s, lo, hi, a2, hi);
}

/// Skipping spaces inside the subrange mirrors skipping in the whole
/// buffer, capped at the subrange end.
proof fn lemma_skip_aligned(s: Seq<char>, lo: int, hi: int, i: int)
    requires
        0 <= lo <= i <= hi <= s.len(),
    ensures
        ({
            let a = skip_spaces(s, i);
            let cap = if a > hi {
                hi
            } else {
                a
            };
            skip_spaces(s.subrange(lo, hi), i - lo) == cap - lo
        }),
    decreases hi - i,
{
    let content = s.subrange(lo, hi);
    if i < hi && is_space_at(s, i) {
        assert(content[i - lo] == s[i]);
        lemma_skip_aligned(s, lo, hi, i + 1);
        assert(skip_spaces(content, i - lo) == skip_spaces(content, i - lo + 1));
    } else if i < hi {
        assert(content[i - lo] == s[i]);
        assert(skip_spaces(content, i - lo) == i - lo);
        assert(skip_spaces(s, i) == i);
    } else {
        assert(skip_spaces(content, i - lo) == i - lo);
        lemma_skip_spaces(s, hi);
    }
}

/// Whether position `i` of `s` holds a space.
spec fn is_space_at(s: Seq<char>, i: int) -> bool {
    crate::text::is_space_char(s[i])
}

proof fn lemma_trim_aligned(s: Seq<char>, lo: int, hi: int, a: int, j: int)
    requires
        0 <= lo <= a <= j <= hi <= s.len(),
    ensures
        trim_back(s.subrange(lo, hi), a - lo, j - lo) == trim_back(s, a, j) - lo,
    decreases j - a,
{
    if a < j && is_space_at(s, j - 1) {
        lemma_trim_aligned(s, lo, hi, a, j - 1);
    }
}

} // verus!
