//! A compiler for a mustache/Handlebars-flavoured template language.
//!
//! A template is a text buffer holding literal runs and delimited
//! expressions (`{{name}}`, `{{{raw}}}`, `{{! comment }}`, `{{#if ...}}`,
//! `{{/if}}`, and the `\{{` literal escape).  Compilation turns the
//! template into a linear sequence of render instructions: literal emits,
//! value emits, and the control-flow tokens of the target language.
//! Nested block helpers (`if`, `unless`, `each`, `with`, `else`) are
//! resolved through a scope stack that tracks the current context
//! qualifier and local binder names, including explicit parent-scope
//! traversal with `../`.

use vstd::prelude::*;

pub mod text;
pub mod tokenizer;
pub mod resolver;
pub mod compiler;
pub mod escape;

pub use compiler::Compiler;
pub use escape::escape;
pub use escape::HtmlEscaped;

verus! {

/// An error that aborts a compilation; no partial output is produced.
#[derive(Clone, Copy, Debug, PartialEq, Eq, Structural)]
pub enum CompileError {
    /// An opening delimiter has no matching closer before end of input.
    UnterminatedExpression,
    /// A block header starts with an unknown helper, or a known helper's
    /// arguments do not match one of its defined forms.
    InvalidBlockSyntax,
    /// A close tag appears with nothing open, its name does not match the
    /// innermost open block, or input ends with blocks still open.
    MismatchedBlock,
}

} // verus!
