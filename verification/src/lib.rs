//! Evaluation of small spreadsheet formulas.
//!
//! The text of a formula, such as `A1 + sheet!$B$2 * 2`, is split into
//! tokens by [`expr::lex`], read into a syntax tree by [`expr::parse`], and
//! evaluated by [`expr::machine`] to a [`expr::Value`] or an
//! [`expr::Error`]. Cells are named by the references of [`data`].
//!
//! Every function is verified against a mathematical description of what
//! it computes: the text form of a reference is read back as that reference,
//! the lexer and the parser compute the functions [`expr::lex::lex`] and
//! [`expr::parse::parse_tokens`], and the evaluation computes
//! [`expr::semantics::evaluate`].
//!
//! The library holds no floating-point arithmetic. A floating-point number
//! is held by its bit pattern, which is enough to compare two of them and to
//! convert an integer to one; where an operator needs arithmetic on them, the
//! evaluation stops and asks its host for the result.

pub mod cell_index;
pub mod data;
pub mod expr;
pub mod text;
pub mod utils;
