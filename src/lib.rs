//! wl: the session input pipeline of a Wolfram Language front-end.
//!
//! The library holds the lexer and expression parser, the bounded line
//! history, the read loop's decision function and the prompt texts.

pub mod expr;
pub mod history;
pub mod lexer;
pub mod parser;
pub mod prompt;
pub mod session;

pub use expr::{Assoc, Expr, ExprKind, LeafKind, Op};
pub use history::History;
pub use parser::{line_col, Expected, ParseError, Reason, WLParser};
pub use prompt::{get_in_prompt, get_out_prompt};
pub use session::{Action, Event, Mode, Prompt, Session};
