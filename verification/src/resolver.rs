//! The scope stack and block resolver: compiles block headers and
//! footers and variable references into the target control flow,
//! tracking the open helper kind, the current context qualifier, and the
//! current local binder of every nested block.

use vstd::prelude::*;
use crate::CompileError;
use crate::text::{
    chars_of, copy_range, eq_chars, find_from, match_at, matches_at, spec_find, split_tokens,
    tokens_of,
};

verus! {

/// The block-helper kinds a scope can be opened with.
#[derive(Clone, Copy, Debug, PartialEq, Eq, Structural)]
pub enum OpenType {
    If,
    Else,
    Unless,
    Each,
    With,
}

/// One open block: its kind, the context qualifier inherited or set at
/// push time, and the locally-bound name, if any.
pub struct Scope {
    pub opened: OpenType,
    pub this: Option<Vec<char>>,
    pub local: Option<Vec<char>>,
}

/// The mathematical form of a scope.
#[verifier::ext_equal]
pub struct ScopeV {
    pub opened: OpenType,
    pub this: Option<Seq<char>>,
    pub local: Option<Seq<char>>,
}

impl View for Scope {
    type V = ScopeV;

    open spec fn view(&self) -> ScopeV {
        ScopeV { opened: self.opened, this: self.this.deep_view(), local: self.local.deep_view() }
    }
}

pub open spec fn if_kw() -> Seq<char> {
    "if"@
}

pub open spec fn unless_kw() -> Seq<char> {
    "unless"@
}

pub open spec fn each_kw() -> Seq<char> {
    "each"@
}

pub open spec fn with_kw() -> Seq<char> {
    "with"@
}

pub open spec fn some_kw() -> Seq<char> {
    "some"@
}

pub open spec fn as_kw() -> Seq<char> {
    "as"@
}

pub open spec fn else_kw() -> Seq<char> {
    "else"@
}

pub open spec fn this_kw() -> Seq<char> {
    "this"@
}

/// The member-access joiner.
pub open spec fn dot_str() -> Seq<char> {
    seq!['.']
}

/// The parent-scope marker `../`.
pub open spec fn parent_marker() -> Seq<char> {
    seq!['.', '.', '/']
}

/// Walks the stack from innermost to outermost; each leading `../` of
/// the variable consumes one level.  Yields the rest of the variable and
/// the scope that resolution settled on, or nothing when the stack runs
/// out first.
pub open spec fn find_scope_spec(stack: Seq<ScopeV>, var: Seq<char>) -> Option<(Seq<char>, ScopeV)>
    decreases stack.len(),
{
    if stack.len() == 0 {
        None
    } else if matches_at(var, parent_marker(), 0) {
        find_scope_spec(stack.drop_last(), var.subrange(3, var.len() as int))
    } else {
        Some((var, stack.last()))
    }
}

/// The text a variable reference compiles to: unqualified when it names
/// the settled scope's local binder (judged by its first path segment) or
/// when that scope has no qualifier, else the qualifier, a dot, and the
/// variable.
pub open spec fn var_text(stack: Seq<ScopeV>, var: Seq<char>) -> Seq<char> {
    match find_scope_spec(stack, var) {
        None => var,
        Some((v, sc)) => {
            let stop = match spec_find(v, dot_str(), 0) {
                Some(d) => d,
                None => v.len() as int,
            };
            let first_seg = v.subrange(0, stop);
            let use_local = match sc.local {
                Some(l) => l == first_seg,
                None => false,
            };
            if use_local {
                v
            } else {
                match sc.this {
                    Some(t) => t + dot_str() + v,
                    None => v,
                }
            }
        },
    }
}

/// A new scope of kind `opened` with binder `local`, its qualifier
/// inherited from the enclosing scope.
pub open spec fn pushed_scope(
    stack: Seq<ScopeV>,
    opened: OpenType,
    local: Option<Seq<char>>,
) -> Seq<ScopeV> {
    let inherited = if stack.len() > 0 {
        stack.last().this
    } else {
        None
    };
    stack.push(ScopeV { opened, this: inherited, local })
}

/// The positional arguments of a call form, compiled left to right with
/// an opening parenthesis before the first and commas between.
pub open spec fn args_upto(stack: Seq<ScopeV>, toks: Seq<Seq<char>>, i: int) -> Seq<char>
    decreases i,
{
    if i <= 1 {
        Seq::empty()
    } else {
        args_upto(stack, toks, i - 1) + seq![
            if i == 2 {
                '('
            } else {
                ','
            },
        ] + var_text(stack, toks[i - 1])
    }
}

/// Value emission and the `else` pseudo-block.  An `else` head with an
/// `if`/`unless` innermost scope begins the alternate branch; any other
/// content is a value or call form, each token resolved as a variable.
pub open spec fn resolve_spec(
    out: Seq<char>,
    stack: Seq<ScopeV>,
    content: Seq<char>,
    pre: Seq<char>,
    post: Seq<char>,
) -> (Seq<char>, Seq<ScopeV>) {
    let toks = tokens_of(content);
    if toks.len() == 0 {
        (out, stack)
    } else if toks[0] == else_kw() && stack.len() > 0 && (stack.last().opened is If
        || stack.last().opened is Unless) {
        (out + "}else{"@, pushed_scope(stack, OpenType::Else, None))
    } else {
        (
            out + pre + var_text(stack, toks[0]) + args_upto(stack, toks, toks.len() as int) + (
            if toks.len() > 1 {
                seq![')']
            } else {
                Seq::<char>::empty()
            }) + post,
            stack,
        )
    }
}

/// The `if` header forms: bare truthiness (`if VAR`), presence
/// (`if some VAR`), and presence with a destructuring bind
/// (`if some VAR as LOCAL`).
pub open spec fn if_spec(out: Seq<char>, stack: Seq<ScopeV>, toks: Seq<Seq<char>>) -> Result<
    (Seq<char>, Seq<ScopeV>),
    CompileError,
> {
    let n = toks.len();
    if n <= 1 {
        Ok((out + "if "@ + "true"@ + seq!['{'], pushed_scope(stack, OpenType::If, None)))
    } else if toks[1] == some_kw() {
        if n == 2 {
            Ok(
                (
                    out + "if "@ + var_text(stack, some_kw()) + seq!['{'],
                    pushed_scope(stack, OpenType::If, None),
                ),
            )
        } else if n == 3 {
            Ok(
                (
                    out + "if "@ + var_text(stack, toks[2]) + ".is_some()"@ + seq!['{'],
                    pushed_scope(stack, OpenType::If, None),
                ),
            )
        } else if toks[3] == as_kw() {
            if n >= 5 {
                Ok(
                    (
                        out + "if "@ + "let Some("@ + toks[4] + ") = "@ + var_text(stack, toks[2])
                            + seq!['{'],
                        pushed_scope(stack, OpenType::If, Some(toks[4])),
                    ),
                )
            } else {
                Err(CompileError::InvalidBlockSyntax)
            }
        } else {
            Err(CompileError::InvalidBlockSyntax)
        }
    } else if n == 2 {
        Ok(
            (
                out + "if "@ + var_text(stack, toks[1]) + seq!['{'],
                pushed_scope(stack, OpenType::If, None),
            ),
        )
    } else {
        Err(CompileError::InvalidBlockSyntax)
    }
}

/// The `unless` header forms: negated truthiness (`unless VAR`) and
/// negated presence (`unless some VAR`); a bare `unless some` negates a
/// variable literally named `some`.
pub open spec fn unless_spec(out: Seq<char>, stack: Seq<ScopeV>, toks: Seq<Seq<char>>) -> Result<
    (Seq<char>, Seq<ScopeV>),
    CompileError,
> {
    let n = toks.len();
    if n <= 1 {
        Ok((out + "if "@ + "false"@ + seq!['{'], pushed_scope(stack, OpenType::Unless, None)))
    } else if toks[1] == some_kw() {
        if n == 2 {
            Ok(
                (
                    out + "if "@ + seq!['!'] + var_text(stack, some_kw()) + seq!['{'],
                    pushed_scope(stack, OpenType::Unless, None),
                ),
            )
        } else {
            Ok(
                (
                    out + "if "@ + var_text(stack, toks[2]) + ".is_none()"@ + seq!['{'],
                    pushed_scope(stack, OpenType::Unless, None),
                ),
            )
        }
    } else {
        Ok(
            (
                out + "if "@ + seq!['!'] + var_text(stack, toks[1]) + seq!['{'],
                pushed_scope(stack, OpenType::Unless, None),
            ),
        )
    }
}

/// The `each` header: `each VAR` binds the default name `this`,
/// `each VAR as LOCAL` binds `LOCAL`; the iterated variable is resolved
/// against the enclosing scopes, and the qualifier is inherited
/// unchanged.
pub open spec fn each_spec(out: Seq<char>, stack: Seq<ScopeV>, toks: Seq<Seq<char>>) -> Result<
    (Seq<char>, Seq<ScopeV>),
    CompileError,
> {
    let n = toks.len();
    if n < 2 {
        Err(CompileError::InvalidBlockSyntax)
    } else if n == 2 {
        Ok(each_built(out, stack, toks[1], this_kw()))
    } else if toks[2] == as_kw() {
        if n >= 4 {
            Ok(each_built(out, stack, toks[1], toks[3]))
        } else {
            Err(CompileError::InvalidBlockSyntax)
        }
    } else {
        Err(CompileError::InvalidBlockSyntax)
    }
}

pub open spec fn each_built(
    out: Seq<char>,
    stack: Seq<ScopeV>,
    var: Seq<char>,
    local: Seq<char>,
) -> (Seq<char>, Seq<ScopeV>) {
    (
        out + "for "@ + local + " in "@ + var_text(stack, var) + seq!['{'],
        pushed_scope(stack, OpenType::Each, Some(local)),
    )
}

/// The `with` header: a pure compile-time context rebinding.  The new
/// scope's qualifier is the header's variable, nothing is emitted, and
/// closing it emits nothing either.
pub open spec fn with_spec(out: Seq<char>, stack: Seq<ScopeV>, toks: Seq<Seq<char>>) -> Result<
    (Seq<char>, Seq<ScopeV>),
    CompileError,
> {
    if toks.len() < 2 {
        Err(CompileError::InvalidBlockSyntax)
    } else {
        Ok(
            (
                out,
                stack.push(ScopeV { opened: OpenType::With, this: Some(toks[1]), local: None }),
            ),
        )
    }
}

/// Block-open dispatch by the first header token.
pub open spec fn open_spec(out: Seq<char>, stack: Seq<ScopeV>, content: Seq<char>) -> Result<
    (Seq<char>, Seq<ScopeV>),
    CompileError,
> {
    let toks = tokens_of(content);
    if toks.len() == 0 {
        Err(CompileError::InvalidBlockSyntax)
    } else if toks[0] == if_kw() {
        if_spec(out, stack, toks)
    } else if toks[0] == unless_kw() {
        unless_spec(out, stack, toks)
    } else if toks[0] == each_kw() {
        each_spec(out, stack, toks)
    } else if toks[0] == with_kw() {
        with_spec(out, stack, toks)
    } else {
        Err(CompileError::InvalidBlockSyntax)
    }
}

/// Block close: pops the innermost scope, which must match the closing
/// name; an `else` entry also pops and matches the `if`/`unless` beneath
/// it.  Every close emits the closing brace except `with`, which emits
/// nothing.
pub open spec fn close_spec(out: Seq<char>, stack: Seq<ScopeV>, name: Seq<char>) -> Result<
    (Seq<char>, Seq<ScopeV>),
    CompileError,
> {
    if stack.len() == 0 {
        Err(CompileError::MismatchedBlock)
    } else {
        let sc = stack.last();
        let rest = stack.drop_last();
        match sc.opened {
            OpenType::If => if name == if_kw() {
                Ok((out + seq!['}'], rest))
            } else {
                Err(CompileError::MismatchedBlock)
            },
            OpenType::Unless => if name == unless_kw() {
                Ok((out + seq!['}'], rest))
            } else {
                Err(CompileError::MismatchedBlock)
            },
            OpenType::Each => if name == each_kw() {
                Ok((out + seq!['}'], rest))
            } else {
                Err(CompileError::MismatchedBlock)
            },
            OpenType::With => if name == with_kw() {
                Ok((out, rest))
            } else {
                Err(CompileError::MismatchedBlock)
            },
            OpenType::Else => if rest.len() == 0 {
                Err(CompileError::MismatchedBlock)
            } else {
                let under = rest.last();
                let rest2 = rest.drop_last();
                match under.opened {
                    OpenType::If => if name == if_kw() {
                        Ok((out + seq!['}'], rest2))
                    } else {
                        Err(CompileError::MismatchedBlock)
                    },
                    OpenType::Unless => if name == unless_kw() {
                        Ok((out + seq!['}'], rest2))
                    } else {
                        Err(CompileError::MismatchedBlock)
                    },
                    _ => Err(CompileError::MismatchedBlock),
                }
            },
        }
    }
}

/// The in-progress compilation: the instruction text built so far and
/// the stack of currently-open blocks.
pub struct Compile {
    pub rust: Vec<char>,
    pub open_stack: Vec<Scope>,
}

impl Compile {
    /// The scope stack as a mathematical sequence.
    pub open spec fn scopes(&self) -> Seq<ScopeV> {
        self.open_stack@.map_values(|sc: Scope| sc@)
    }

    pub fn new() -> (r: Compile)
        ensures
            r.rust@ == Seq::<char>::empty(),
            r.scopes() == Seq::<ScopeV>::empty(),
    {
        let r = Compile { rust: Vec::new(), open_stack: Vec::new() };
        proof {
            assert(r.scopes() =~= Seq::<ScopeV>::empty());
        }
        r
    }

    /// Appends fixed instruction text.
    pub fn write(&mut self, content: &str)
        ensures
            final(self).rust@ == old(self).rust@ + content@,
            final(self).open_stack == old(self).open_stack,
    {
        let mut v = chars_of(content);
        self.rust.append(&mut v);
    }

    /// Appends buffered text.
    pub fn write_buf(&mut self, content: &Vec<char>)
        ensures
            final(self).rust@ == old(self).rust@ + content@,
            final(self).open_stack == old(self).open_stack,
    {
        let mut v = copy_range(content, 0, content.len());
        proof {
            assert(v@ =~= content@);
        }
        self.rust.append(&mut v);
    }

    /// Appends one character.
    pub fn push(&mut self, c: char)
        ensures
            final(self).rust@ == old(self).rust@ + seq![c],
            final(self).open_stack == old(self).open_stack,
    {
        self.rust.push(c);
        proof {
            assert(self.rust@ =~= old(self).rust@ + seq![c]);
        }
    }

    /// Pushes a scope of kind `opened` with binder `local`, inheriting
    /// the enclosing qualifier.
    pub fn push_scope_with_local(&mut self, opened: OpenType, local: Option<Vec<char>>)
        ensures
            final(self).rust == old(self).rust,
            final(self).scopes() == pushed_scope(old(self).scopes(), opened, local.deep_view()),
    {
        let inherited: Option<Vec<char>> = if self.open_stack.len() > 0 {
            match &self.open_stack[self.open_stack.len() - 1].this {
                Some(t) => Some(copy_range(t, 0, t.len())),
                None => None,
            }
        } else {
            None
        };
        proof {
            if old(self).scopes().len() > 0 {
                assert(self.scopes()[self.scopes().len() - 1]
                    == self.open_stack@[self.open_stack@.len() - 1]@);
                match self.open_stack@[self.open_stack@.len() - 1].this {
                    Some(t) => {
                        assert(t@.subrange(0, t@.len() as int) =~= t@);
                    },
                    None => {},
                }
            }
        }
        let sc = Scope { opened, this: inherited, local };
        self.open_stack.push(sc);
        proof {
            assert(self.scopes() =~= old(self).scopes().push(sc@));
            assert(sc@ =~= ScopeV {
                opened,
                this: if old(self).scopes().len() > 0 {
                    old(self).scopes().last().this
                } else {
                    None
                },
                local: local.deep_view(),
            });
        }
    }

    /// Pushes a scope with no binder.
    pub fn push_scope(&mut self, opened: OpenType)
        ensures
            final(self).rust == old(self).rust,
            final(self).scopes() == pushed_scope(old(self).scopes(), opened, None),
    {
        self.push_scope_with_local(opened, None);
    }

    /// Walks the stack resolving `../` prefixes; yields the offset where
    /// the rest of the variable starts and the index of the settled
    /// scope.
    pub fn find_scope(&self, var: &Vec<char>) -> (r: Option<(usize, usize)>)
        ensures
            match r {
                Some(p) => p.0 <= var@.len() && p.1 < self.open_stack@.len() && find_scope_spec(
                    self.scopes(),
                    var@,
                ) == Some(
                    (var@.subrange(p.0 as int, var@.len() as int), self.scopes()[p.1 as int]),
                ),
                None => find_scope_spec(self.scopes(), var@) is None,
            },
    {
        let parent = make_parent_marker();
        let mut k = self.open_stack.len();
        let mut off: usize = 0;
        proof {
            assert(self.scopes().subrange(0, k as int) =~= self.scopes());
            assert(var@.subrange(0, var@.len() as int) =~= var@);
        }
        while k > 0
            invariant
                0 <= k <= self.open_stack@.len(),
                off <= var@.len(),
                parent@ == parent_marker(),
                find_scope_spec(self.scopes(), var@) == find_scope_spec(
                    self.scopes().subrange(0, k as int),
                    var@.subrange(off as int, var@.len() as int),
                ),
            decreases k,
        {
            let ghost cur_stack = self.scopes().subrange(0, k as int);
            let ghost cur_var = var@.subrange(off as int, var@.len() as int);
            if var.len() - off >= 3 && match_at(var, &parent, off) {
                proof {
                    assert(cur_var.subrange(0, 3) =~= var@.subrange(off as int, off + 3));
                    assert(matches_at(cur_var, parent_marker(), 0));
                    assert(cur_stack.drop_last() =~= self.scopes().subrange(0, k - 1));
                    assert(cur_var.subrange(3, cur_var.len() as int) =~= var@.subrange(
                        off + 3,
                        var@.len() as int,
                    ));
                }
                off += 3;
                k -= 1;
            } else {
                proof {
                    if off + 3 <= var@.len() {
                        assert(var@.subrange(off as int, off + 3) =~= cur_var.subrange(0, 3));
                    }
                    assert(!matches_at(cur_var, parent_marker(), 0));
                    assert(cur_stack.last() == self.scopes()[k - 1]);
                }
                return Some((off, k - 1));
            }
        }
        proof {
            assert(self.scopes().subrange(0, 0) =~= Seq::<ScopeV>::empty());
        }
        None
    }

    /// Compiles one variable reference and appends its text.
    pub fn write_var(&mut self, var: &Vec<char>)
        ensures
            final(self).rust@ == old(self).rust@ + var_text(old(self).scopes(), var@),
            final(self).open_stack == old(self).open_stack,
    {
        let found = self.find_scope(var);
        match found {
            None => {
                self.write_buf(var);
            },
            Some((off, idx)) => {
                let ghost sc_spec = self.scopes()[idx as int];
                proof {
                    assert(sc_spec == self.open_stack@[idx as int]@);
                }
                let v = copy_range(var, off, var.len());
                let dotv = make_dot();
                let stop: usize = match find_from(&v, &dotv, 0) {
                    Some(d) => d,
                    None => v.len(),
                };
                let first_seg = copy_range(&v, 0, stop);
                let use_local: bool = match &self.open_stack[idx].local {
                    Some(l) => {
                        proof {
                            assert(l.deep_view() =~= l@);
                            assert(sc_spec.local == Some(l@));
                        }
                        eq_chars(l, &first_seg)
                    },
                    None => false,
                };
                if use_local {
                    self.write_buf(&v);
                } else {
                    let thisv: Option<Vec<char>> = match &self.open_stack[idx].this {
                        Some(t) => {
                            proof {
                                assert(t.deep_view() =~= t@);
                                assert(sc_spec.this == Some(t@));
                                assert(t@.subrange(0, t@.len() as int) =~= t@);
                            }
                            Some(copy_range(t, 0, t.len()))
                        },
                        None => None,
                    };
                    match thisv {
                        Some(t) => {
                            proof {
                                assert(t@ == sc_spec.this->Some_0);
                            }
                            self.write_buf(&t);
                            self.push('.');
                            self.write_buf(&v);
                            proof {
                                assert(self.rust@ =~= old(self).rust@ + (t@ + dot_str() + v@));
                            }
                        },
                        None => {
                            self.write_buf(&v);
                        },
                    }
                }
            },
        }
    }
}

/// Each token buffer reads, through the deep view, as the token text.
proof fn lemma_tok_view(toks: Vec<Vec<char>>, i: int)
    requires
        0 <= i < toks@.len(),
    ensures
        toks.deep_view().len() == toks@.len(),
        toks.deep_view()[i] == toks@[i]@,
{
    assert(toks@[i].deep_view() =~= toks@[i]@);
}

impl Compile {
    /// Value emission and the `else` pseudo-block for one expression
    /// content.
    pub fn resolve(&mut self, content: &Vec<char>, pre: &str, post: &str)
        ensures
            ({
                let rr = resolve_spec(
                    old(self).rust@,
                    old(self).scopes(),
                    content@,
                    pre@,
                    post@,
                );
                final(self).rust@ == rr.0 && final(self).scopes() == rr.1
            }),
    {
        let toks = split_tokens(content);
        let ghost tv = tokens_of(content@);
        if toks.len() == 0 {
            proof {
                assert(tv.len() == 0);
            }
            return ;
        }
        proof {
            lemma_tok_view(toks, 0);
        }
        let elsekw = chars_of("else");
        let is_else_tok = eq_chars(&toks[0], &elsekw);
        if is_else_tok && self.open_stack.len() > 0 {
            let last_idx = self.open_stack.len() - 1;
            let top = self.open_stack[last_idx].opened;
            proof {
                assert(self.scopes().last() == self.open_stack@[last_idx as int]@);
            }
            let is_cond = match top {
                OpenType::If => true,
                OpenType::Unless => true,
                _ => false,
            };
            if is_cond {
                self.write("}else{");
                self.push_scope_with_local(OpenType::Else, None);
                return ;
            }
        }
        self.write(pre);
        self.write_var(&toks[0]);
        let n = toks.len();
        let mut i: usize = 1;
        while i < n
            invariant
                1 <= i <= n,
                n == toks@.len(),
                toks.deep_view() == tv,
                tv.len() == n,
                self.open_stack == old(self).open_stack,
                self.rust@ == old(self).rust@ + pre@ + var_text(old(self).scopes(), tv[0])
                    + args_upto(old(self).scopes(), tv, i as int),
            decreases n - i,
        {
            proof {
                lemma_tok_view(toks, i as int);
            }
            if i == 1 {
                self.push('(');
            } else {
                self.push(',');
            }
            self.write_var(&toks[i]);
            proof {
                assert(self.rust@ =~= old(self).rust@ + pre@ + var_text(
                    old(self).scopes(),
                    tv[0],
                ) + args_upto(old(self).scopes(), tv, i + 1));
            }
            i += 1;
        }
        if n > 1 {
            self.push(')');
        }
        self.write(post);
        proof {
            let rr = resolve_spec(old(self).rust@, old(self).scopes(), content@, pre@, post@);
            assert(self.rust@ =~= rr.0);
        }
    }

    /// Compiles an `if` header.
    pub fn resolve_if(&mut self, toks: &Vec<Vec<char>>) -> (r: Result<(), CompileError>)
        ensures
            match r {
                Ok(u) => ({
                    let rr = if_spec(old(self).rust@, old(self).scopes(), toks.deep_view());
                    rr matches Ok(p) && final(self).rust@ == p.0 && final(self).scopes() == p.1
                }),
                Err(e) => if_spec(old(self).rust@, old(self).scopes(), toks.deep_view()) == Err::<
                    (Seq<char>, Seq<ScopeV>),
                    CompileError,
                >(e),
            },
    {
        let n = toks.len();
        self.write("if ");
        if n <= 1 {
            self.write("true");
            self.push_scope_with_local(OpenType::If, None);
            self.push('{');
            proof {
                assert(self.rust@ =~= old(self).rust@ + "if "@ + "true"@ + seq!['{']);
            }
            return Ok(());
        }
        proof {
            lemma_tok_view(*toks, 1);
        }
        let somekw = chars_of("some");
        if eq_chars(&toks[1], &somekw) {
            if n == 2 {
                let s = chars_of("some");
                self.write_var(&s);
                self.push_scope_with_local(OpenType::If, None);
                self.push('{');
                proof {
                    assert(self.rust@ =~= old(self).rust@ + "if "@ + var_text(
                        old(self).scopes(),
                        some_kw(),
                    ) + seq!['{']);
                }
                Ok(())
            } else if n == 3 {
                proof {
                    lemma_tok_view(*toks, 2);
                }
                self.write_var(&toks[2]);
                self.write(".is_some()");
                self.push_scope_with_local(OpenType::If, None);
                self.push('{');
                proof {
                    assert(self.rust@ =~= old(self).rust@ + "if "@ + var_text(
                        old(self).scopes(),
                        toks.deep_view()[2],
                    ) + ".is_some()"@ + seq!['{']);
                }
                Ok(())
            } else {
                proof {
                    lemma_tok_view(*toks, 3);
                }
                let askw = chars_of("as");
                if eq_chars(&toks[3], &askw) {
                    if n >= 5 {
                        proof {
                            lemma_tok_view(*toks, 2);
                            lemma_tok_view(*toks, 4);
                        }
                        self.write("let Some(");
                        self.write_buf(&toks[4]);
                        self.write(") = ");
                        self.write_var(&toks[2]);
                        let lcopy = copy_range(&toks[4], 0, toks[4].len());
                        proof {
                            assert(lcopy@ =~= toks@[4]@);
                        }
                        self.push_scope_with_local(OpenType::If, Some(lcopy));
                        self.push('{');
                        proof {
                            assert(self.rust@ =~= old(self).rust@ + "if "@ + "let Some("@
                                + toks.deep_view()[4] + ") = "@ + var_text(
                                old(self).scopes(),
                                toks.deep_view()[2],
                            ) + seq!['{']);
                        }
                        Ok(())
                    } else {
                        Err(CompileError::InvalidBlockSyntax)
                    }
                } else {
                    Err(CompileError::InvalidBlockSyntax)
                }
            }
        } else if n == 2 {
            self.write_var(&toks[1]);
            self.push_scope_with_local(OpenType::If, None);
            self.push('{');
            proof {
                assert(self.rust@ =~= old(self).rust@ + "if "@ + var_text(
                    old(self).scopes(),
                    toks.deep_view()[1],
                ) + seq!['{']);
            }
            Ok(())
        } else {
            Err(CompileError::InvalidBlockSyntax)
        }
    }

    /// Compiles an `unless` header.
    pub fn resolve_unless(&mut self, toks: &Vec<Vec<char>>) -> (r: Result<(), CompileError>)
        ensures
            match r {
                Ok(u) => ({
                    let rr = unless_spec(old(self).rust@, old(self).scopes(), toks.deep_view());
                    rr matches Ok(p) && final(self).rust@ == p.0 && final(self).scopes() == p.1
                }),
                Err(e) => unless_spec(old(self).rust@, old(self).scopes(), toks.deep_view())
                    == Err::<(Seq<char>, Seq<ScopeV>), CompileError>(e),
            },
    {
        let n = toks.len();
        self.write("if ");
        if n <= 1 {
            self.write("false");
            self.push('{');
            self.push_scope_with_local(OpenType::Unless, None);
            proof {
                assert(self.rust@ =~= old(self).rust@ + "if "@ + "false"@ + seq!['{']);
            }
            return Ok(());
        }
        proof {
            lemma_tok_view(*toks, 1);
        }
        let somekw = chars_of("some");
        if eq_chars(&toks[1], &somekw) {
            if n == 2 {
                self.push('!');
                let s = chars_of("some");
                self.write_var(&s);
                self.push('{');
                self.push_scope_with_local(OpenType::Unless, None);
                proof {
                    assert(self.rust@ =~= old(self).rust@ + "if "@ + seq!['!'] + var_text(
                        old(self).scopes(),
                        some_kw(),
                    ) + seq!['{']);
                }
                Ok(())
            } else {
                proof {
                    lemma_tok_view(*toks, 2);
                }
                self.write_var(&toks[2]);
                self.write(".is_none()");
                self.push('{');
                self.push_scope_with_local(OpenType::Unless, None);
                proof {
                    assert(self.rust@ =~= old(self).rust@ + "if "@ + var_text(
                        old(self).scopes(),
                        toks.deep_view()[2],
                    ) + ".is_none()"@ + seq!['{']);
                }
                Ok(())
            }
        } else {
            self.push('!');
            self.write_var(&toks[1]);
            self.push('{');
            self.push_scope_with_local(OpenType::Unless, None);
            proof {
                assert(self.rust@ =~= old(self).rust@ + "if "@ + seq!['!'] + var_text(
                    old(self).scopes(),
                    toks.deep_view()[1],
                ) + seq!['{']);
            }
            Ok(())
        }
    }

    /// Compiles an `each` header.
    pub fn resolve_each(&mut self, toks: &Vec<Vec<char>>) -> (r: Result<(), CompileError>)
        ensures
            match r {
                Ok(u) => ({
                    let rr = each_spec(old(self).rust@, old(self).scopes(), toks.deep_view());
                    rr matches Ok(p) && final(self).rust@ == p.0 && final(self).scopes() == p.1
                }),
                Err(e) => each_spec(old(self).rust@, old(self).scopes(), toks.deep_view()) == Err::<
                    (Seq<char>, Seq<ScopeV>),
                    CompileError,
                >(e),
            },
    {
        let n = toks.len();
        if n < 2 {
            return Err(CompileError::InvalidBlockSyntax);
        }
        proof {
            lemma_tok_view(*toks, 1);
        }
        let local: Vec<char>;
        if n == 2 {
            local = chars_of("this");
        } else {
            proof {
                lemma_tok_view(*toks, 2);
            }
            let askw = chars_of("as");
            if eq_chars(&toks[2], &askw) {
                if n >= 4 {
                    proof {
                        lemma_tok_view(*toks, 3);
                    }
                    local = copy_range(&toks[3], 0, toks[3].len());
                    proof {
                        assert(local@ =~= toks@[3]@);
                    }
                } else {
                    return Err(CompileError::InvalidBlockSyntax);
                }
            } else {
                return Err(CompileError::InvalidBlockSyntax);
            }
        }
        let ghost lv = local@;
        proof {
            assert(local.deep_view() =~= lv);
        }
        self.write("for ");
        self.write_buf(&local);
        self.write(" in ");
        self.write_var(&toks[1]);
        self.push('{');
        self.push_scope_with_local(OpenType::Each, Some(local));
        proof {
            assert(self.rust@ =~= old(self).rust@ + "for "@ + lv + " in "@ + var_text(
                old(self).scopes(),
                toks.deep_view()[1],
            ) + seq!['{']);
        }
        Ok(())
    }

    /// Compiles a `with` header: nothing is emitted; the scope's
    /// qualifier becomes the header's variable.
    pub fn resolve_with(&mut self, toks: &Vec<Vec<char>>) -> (r: Result<(), CompileError>)
        ensures
            match r {
                Ok(u) => ({
                    let rr = with_spec(old(self).rust@, old(self).scopes(), toks.deep_view());
                    rr matches Ok(p) && final(self).rust@ == p.0 && final(self).scopes() == p.1
                }),
                Err(e) => with_spec(old(self).rust@, old(self).scopes(), toks.deep_view()) == Err::<
                    (Seq<char>, Seq<ScopeV>),
                    CompileError,
                >(e),
            },
    {
        if toks.len() < 2 {
            return Err(CompileError::InvalidBlockSyntax);
        }
        proof {
            lemma_tok_view(*toks, 1);
        }
        let t = copy_range(&toks[1], 0, toks[1].len());
        proof {
            assert(t@ =~= toks@[1]@);
        }
        let sc = Scope { opened: OpenType::With, this: Some(t), local: None };
        self.open_stack.push(sc);
        proof {
            assert(self.scopes() =~= old(self).scopes().push(sc@));
            assert(sc@ =~= ScopeV {
                opened: OpenType::With,
                this: Some(toks.deep_view()[1]),
                local: None,
            });
        }
        Ok(())
    }

    /// Block-open dispatch for one header content.
    pub fn open(&mut self, content: &Vec<char>) -> (r: Result<(), CompileError>)
        ensures
            match r {
                Ok(u) => ({
                    let rr = open_spec(old(self).rust@, old(self).scopes(), content@);
                    rr matches Ok(p) && final(self).rust@ == p.0 && final(self).scopes() == p.1
                }),
                Err(e) => open_spec(old(self).rust@, old(self).scopes(), content@) == Err::<
                    (Seq<char>, Seq<ScopeV>),
                    CompileError,
                >(e),
            },
    {
        let toks = split_tokens(content);
        if toks.len() == 0 {
            return Err(CompileError::InvalidBlockSyntax);
        }
        proof {
            lemma_tok_view(toks, 0);
        }
        let ifkw = chars_of("if");
        let unlesskw = chars_of("unless");
        let eachkw = chars_of("each");
        let withkw = chars_of("with");
        if eq_chars(&toks[0], &ifkw) {
            self.resolve_if(&toks)
        } else if eq_chars(&toks[0], &unlesskw) {
            self.resolve_unless(&toks)
        } else if eq_chars(&toks[0], &eachkw) {
            self.resolve_each(&toks)
        } else if eq_chars(&toks[0], &withkw) {
            self.resolve_with(&toks)
        } else {
            Err(CompileError::InvalidBlockSyntax)
        }
    }

    /// Block close for one trimmed footer name.
    pub fn close(&mut self, name: &Vec<char>) -> (r: Result<(), CompileError>)
        ensures
            match r {
                Ok(u) => ({
                    let rr = close_spec(old(self).rust@, old(self).scopes(), name@);
                    rr matches Ok(p) && final(self).rust@ == p.0 && final(self).scopes() == p.1
                }),
                Err(e) => close_spec(old(self).rust@, old(self).scopes(), name@) == Err::<
                    (Seq<char>, Seq<ScopeV>),
                    CompileError,
                >(e),
            },
    {
        let popped = match self.open_stack.pop() {
            Some(sc) => sc,
            None => {
                return Err(CompileError::MismatchedBlock);
            },
        };
        proof {
            assert(popped@ == old(self).scopes().last());
            assert(self.scopes() =~= old(self).scopes().drop_last());
        }
        let ghost mid_scopes = self.scopes();
        match popped.opened {
            OpenType::If => {
                let ifkw = chars_of("if");
                if eq_chars(name, &ifkw) {
                    self.push('}');
                    Ok(())
                } else {
                    Err(CompileError::MismatchedBlock)
                }
            },
            OpenType::Unless => {
                let unlesskw = chars_of("unless");
                if eq_chars(name, &unlesskw) {
                    self.push('}');
                    Ok(())
                } else {
                    Err(CompileError::MismatchedBlock)
                }
            },
            OpenType::Each => {
                let eachkw = chars_of("each");
                if eq_chars(name, &eachkw) {
                    self.push('}');
                    Ok(())
                } else {
                    Err(CompileError::MismatchedBlock)
                }
            },
            OpenType::With => {
                let withkw = chars_of("with");
                if eq_chars(name, &withkw) {
                    Ok(())
                } else {
                    Err(CompileError::MismatchedBlock)
                }
            },
            OpenType::Else => {
                let under = match self.open_stack.pop() {
                    Some(sc) => sc,
                    None => {
                        return Err(CompileError::MismatchedBlock);
                    },
                };
                proof {
                    assert(under@ == mid_scopes.last());
                    assert(self.scopes() =~= mid_scopes.drop_last());
                }
                match under.opened {
                    OpenType::If => {
                        let ifkw = chars_of("if");
                        if eq_chars(name, &ifkw) {
                            self.push('}');
                            Ok(())
                        } else {
                            Err(CompileError::MismatchedBlock)
                        }
                    },
                    OpenType::Unless => {
                        let unlesskw = chars_of("unless");
                        if eq_chars(name, &unlesskw) {
                            self.push('}');
                            Ok(())
                        } else {
                            Err(CompileError::MismatchedBlock)
                        }
                    },
                    _ => Err(CompileError::MismatchedBlock),
                }
            },
        }
    }
}

/// `.` as an owned buffer.
pub fn make_dot() -> (r: Vec<char>)
    ensures
        r@ == dot_str(),
{
    let mut v: Vec<char> = Vec::new();
    v.push('.');
    proof {
        assert(v@ =~= dot_str());
    }
    v
}

/// `../` as an owned buffer.
pub fn make_parent_marker() -> (r: Vec<char>)
    ensures
        r@ == parent_marker(),
{
    let mut v: Vec<char> = Vec::new();
    v.push('.');
    v.push('.');
    v.push('/');
    proof {
        assert(v@ =~= parent_marker());
    }
    v
}

} // verus!
