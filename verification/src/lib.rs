//! A scanner for the source text of a small scripting language: it turns a
//! text into its tokens and the diagnostics of its lexical issues.
//!
//! `grammar` says what the tokens and diagnostics of a text are, `scanner`
//! computes them, and `theorems` proves what holds of them for every text.

pub mod chars;
pub mod diagnostics;
pub mod grammar;
pub mod scanner;
pub mod text;
pub mod theorems;
pub mod tokens;

pub use diagnostics::{Diagnostic, DiagnosticKind};
pub use scanner::Scanner;
pub use tokens::{Literal, Token, TokenType};
