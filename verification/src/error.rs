use vstd::prelude::*;

use shakmaty::fen::ParseFenError;
use shakmaty::uci::ParseUciMoveError;

use crate::integer::IntErrorKind;

verus! {

/// Why a line of the UCI protocol, or an option setting, was refused.
#[derive(Debug)]
pub enum UciParseError {
    Empty,
    UnknownCommand(String),
    MissingArgument(&'static str),
    InvalidInteger { field: &'static str, source: IntErrorKind },
    InvalidFen(ParseFenError),
    InvalidUciMove(ParseUciMoveError),
    UnknownOption(String),
}

/// `UciParseError` with its texts as character sequences.
pub enum ParseErrorView {
    Empty,
    UnknownCommand(Seq<char>),
    MissingArgument(&'static str),
    InvalidInteger { field: &'static str, source: IntErrorKind },
    InvalidFen(ParseFenError),
    InvalidUciMove(ParseUciMoveError),
    UnknownOption(Seq<char>),
}

impl View for UciParseError {
    type V = ParseErrorView;

    open spec fn view(&self) -> ParseErrorView {
        match self {
            UciParseError::Empty => ParseErrorView::Empty,
            UciParseError::UnknownCommand(s) => ParseErrorView::UnknownCommand(s@),
            UciParseError::MissingArgument(f) => ParseErrorView::MissingArgument(*f),
            UciParseError::InvalidInteger { field, source } => ParseErrorView::InvalidInteger {
                field: *field,
                source: *source,
            },
            UciParseError::InvalidFen(e) => ParseErrorView::InvalidFen(*e),
            UciParseError::InvalidUciMove(e) => ParseErrorView::InvalidUciMove(*e),
            UciParseError::UnknownOption(s) => ParseErrorView::UnknownOption(s@),
        }
    }
}

} // verus!
