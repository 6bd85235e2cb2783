//! A small expression-oriented scripting language: a tokenizer, a backtracking
//! recursive-descent parser over a persistent token list, and a tree-walking
//! evaluator over a chain of lexical scopes.
//!
//! Decisions that the language leaves open are settled here as follows.
//! - Each `.name` and each `::name` after an expression wraps it in one
//!   lookup node, left to right: `a.b::c` is a method lookup on an attribute
//!   lookup, and `(e).a` one on a parenthesized expression. A `.` or `::`
//!   that no identifier follows ends the expression.
//! - A function call needs at least one argument: `f;` does not parse, and
//!   `( f )` is `f` in parentheses, not a call. A callee written between
//!   backticks follows the first argument.
//! - A call evaluates to `Unit`; the built-in's own result is not passed on.
//! - A function value displays as its name; a block value has no display
//!   form, and printing one is an error.
//! - `print` writes its line into the scope, which hands the lines out with
//!   `take_output`; whoever runs the program writes them out.
//! - Evaluation errors are values of `EvalError`, and each ends the run of
//!   the program; a failed `var` leaves the scope as it was.

pub mod ast;
pub mod chain_map;
pub mod cursor;
pub mod environment;
pub mod eval;
pub mod grammar;
pub mod parser;
pub mod properties;
pub mod scope;
pub mod token;
pub mod value;
