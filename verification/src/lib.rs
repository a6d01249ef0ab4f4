//! A compiler front-end for tape scripts: a line-oriented language that
//! describes terminal-automation actions (typing text, pressing keys,
//! sleeping, taking screenshots, and adjusting rendering settings).
//!
//! The crate turns source text into a sequence of typed commands together
//! with a list of parse errors; one malformed command never stops the
//! parse of the rest of the script.

pub mod chars;
pub mod token;
pub mod lexer;
pub mod number;
pub mod duration;
pub mod command;
pub mod paths;
pub mod pattern;
pub mod parser;
pub mod laws;

use vstd::prelude::*;

use crate::command::Commands;
use crate::command::CommandsV;
use crate::command::ParseError;
use crate::command::SpecError;
use crate::lexer::lex_init;
use crate::lexer::spec_tokens;
use crate::lexer::Lexer;
use crate::parser::spec_parse;
use crate::parser::Parser;

verus! {

/// The commands and the errors that parsing a source text yields.
pub open spec fn spec_parse_source(input: Seq<char>) -> (Seq<CommandsV>, Seq<SpecError>) {
    spec_parse(spec_tokens(lex_init(input)), 0)
}

/// Parse a whole tape script: the commands in source order, and the
/// errors recorded along the way.
pub fn parse_source(input: &str) -> (r: (Vec<Commands>, Vec<ParseError>))
    requires
        input@.len() < usize::MAX,
    ensures
        ({
            let (cs, es) = spec_parse_source(input@);
            r.0.deep_view() == cs && r.1.deep_view() == es
        }),
{
    let lexer = Lexer::new(input);
    let mut parser = Parser::new(lexer);
    let cmds = parser.parse();
    proof {
        assert(Seq::<SpecError>::empty() + spec_parse_source(input@).1 =~= spec_parse_source(
            input@,
        ).1);
    }
    let errs = parser.into_errors();
    (cmds, errs)
}

} // verus!
