//! Log message parsing and evaluation.

use vstd::prelude::*;

pub mod ast;
pub mod parser;
pub mod props;
pub mod types;

pub use self::ast::condition;
pub use self::parser::{extract_condition_texts, process_log_message};

use self::ast::types::EmoteTextProcessError;
use self::parser::ParseError;

verus! {

/// Error produced while turning a raw log message into final text.
#[derive(Debug, Clone)]
pub enum EmoteTextError {
    /// The input did not conform to the message grammar.
    ParseError(ParseError),
    /// The grammar matched but the intermediate tree could not be shaped
    /// into an AST.
    AstError(ParseError),
    /// The parsed message could not be accessed.
    MessageParseError,
    /// The AST could not be reduced to condition texts.
    ProcessError(EmoteTextProcessError),
}

} // verus!
