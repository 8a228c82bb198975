use vstd::prelude::*;

use shakmaty::fen::{Fen, ParseFenError};
use shakmaty::uci::{IllegalUciMoveError, ParseUciMoveError, UciMove};
use shakmaty::{CastlingMode, Chess, Move, Position, PositionError};

verus! {

#[verifier::external_type_specification]
#[verifier::external_body]
pub struct ExUciMove(UciMove);

#[verifier::external_type_specification]
#[verifier::external_body]
pub struct ExParseUciMoveError(ParseUciMoveError);

#[verifier::external_type_specification]
#[verifier::external_body]
pub struct ExFen(shakmaty::fen::Fen);

#[verifier::external_type_specification]
#[verifier::external_body]
pub struct ExParseFenError(ParseFenError);

#[verifier::external_type_specification]
#[verifier::external_body]
pub struct ExChess(Chess);

#[verifier::external_type_specification]
#[verifier::external_body]
pub struct ExMove(Move);

#[verifier::external_type_specification]
#[verifier::external_body]
pub struct ExIllegalUciMoveError(IllegalUciMoveError);

#[verifier::external_type_specification]
#[verifier::external_body]
#[verifier::reject_recursive_types(P)]
pub struct ExPositionError<P>(PositionError<P>);

/// `Move` derives `Clone` and `Copy`: a clone is the same move.
pub assume_specification[ <shakmaty::Move as Clone>::clone ](m: &shakmaty::Move) -> (r: shakmaty::Move)
    ensures
        r == *m,
;

/// `UciMove` derives `Clone` and `Copy`: a clone is the same move.
pub assume_specification[ <UciMove as Clone>::clone ](m: &UciMove) -> (r: UciMove)
    ensures
        r == *m,
;

/// `Fen` derives `Clone`: a clone is the same FEN.
pub assume_specification[ <shakmaty::fen::Fen as Clone>::clone ](f: &shakmaty::fen::Fen) -> (r: shakmaty::fen::Fen)
    ensures
        r == *f,
;

/// What `shakmaty::uci::UciMove::from_ascii` returns for the bytes of `text`.
pub uninterp spec fn uci_move_parse(text: Seq<char>) -> Result<UciMove, ParseUciMoveError>;

/// What `shakmaty::fen::Fen::from_ascii` returns for the bytes of `text`.
pub uninterp spec fn fen_parse(text: Seq<char>) -> Result<Fen, ParseFenError>;

/// Reads a move in UCI notation with `UciMove::from_ascii`. The contract claims
/// only that the result is a function of the text; which texts shakmaty accepts
/// is left to its source.
#[verifier::external_body]
pub fn parse_uci_move(text: &str) -> (r: Result<UciMove, ParseUciMoveError>)
    ensures
        r == uci_move_parse(text@),
{
    UciMove::from_ascii(text.as_bytes())
}

/// Reads a FEN with `Fen::from_ascii`. The contract claims only that the result
/// is a function of the text; which texts shakmaty accepts is left to its source.
#[verifier::external_body]
pub fn parse_fen(text: &str) -> (r: Result<Fen, ParseFenError>)
    ensures
        r == fen_parse(text@),
{
    Fen::from_ascii(text.as_bytes())
}

/// The legal moves of `position`, in the order `Position::legal_moves` lists them.
pub uninterp spec fn legal_moves_of(position: Chess) -> Seq<Move>;

/// The position after `m` is played in `position`.
pub uninterp spec fn after_move(position: Chess, m: Move) -> Chess;

/// Whether the side to move in `position` is in check.
pub uninterp spec fn in_check(position: Chess) -> bool;

/// What `UciMove::to_move` returns for `m` in `position`.
pub uninterp spec fn uci_to_move(m: UciMove, position: Chess) -> Result<Move, IllegalUciMoveError>;

/// What `Fen::into_position` returns for `fen` in standard castling mode.
pub uninterp spec fn fen_to_position(fen: Fen) -> Result<Chess, PositionError<Chess>>;

/// What `Move::to_uci` returns for `m` in standard castling mode.
pub uninterp spec fn move_to_uci(m: Move) -> UciMove;

/// The legal moves of a position, from `Position::legal_moves`; the contract
/// names the list and does not spell out the rules of chess.
#[verifier::external_body]
pub fn legal_moves(position: &Chess) -> (r: Vec<Move>)
    ensures
        r@ == legal_moves_of(*position),
{
    position.legal_moves().to_vec()
}

/// The position after a legal move, from `Position::play_unchecked` on a copy;
/// shakmaty leaves an illegal move undefined, so the move must be legal.
#[verifier::external_body]
pub fn play(position: &Chess, m: Move) -> (r: Chess)
    requires
        legal_moves_of(*position).contains(m),
    ensures
        r == after_move(*position, m),
{
    let mut child = position.clone();
    child.play_unchecked(m);
    child
}

/// Whether the side to move is in check, from `Position::is_check`.
#[verifier::external_body]
pub fn is_check(position: &Chess) -> (r: bool)
    ensures
        r == in_check(*position),
{
    position.is_check()
}

/// The move that a UCI move stands for in a position, from `UciMove::to_move`,
/// which returns a move only when it is legal there.
#[verifier::external_body]
pub fn resolve_uci_move(m: UciMove, position: &Chess) -> (r: Result<Move, IllegalUciMoveError>)
    ensures
        r == uci_to_move(m, *position),
        r matches Ok(mv) ==> legal_moves_of(*position).contains(mv),
{
    m.to_move(position)
}

/// The position of a FEN, from `Fen::into_position` in standard castling mode.
#[verifier::external_body]
pub fn position_from_fen(fen: Fen) -> (r: Result<Chess, PositionError<Chess>>)
    ensures
        r == fen_to_position(fen),
{
    fen.into_position(CastlingMode::Standard)
}

/// Whether `position` is what `Fen::from_ascii` and then `Fen::into_position`
/// make of the FEN `text`.
pub open spec fn position_of_fen_text(text: Seq<char>, position: Chess) -> bool {
    fen_parse(text) matches Ok(f) && fen_to_position(f) matches Ok(p) && p == position
}

/// The FEN of the standard start position.
pub open spec fn start_fen() -> Seq<char> {
    "rnbqkbnr/pppppppp/8/8/8/8/PPPPPPPP/RNBQKBNR w KQkq - 0 1"@
}

/// The standard start position, `Chess::default()`, which is `Chess::new()`. The
/// contract claims it is the position of the start FEN: `Fen::from_ascii` reads
/// that FEN as `Fen::default()`, the initial setup, and `into_position` builds
/// from it the same board, turn, castling rights, counters and no en passant
/// square that `Chess::new()` holds.
#[verifier::external_body]
pub fn start_position() -> (r: Chess)
    ensures
        position_of_fen_text(start_fen(), r),
{
    Chess::default()
}

/// The UCI notation of a move, from `Move::to_uci` in standard castling mode.
#[verifier::external_body]
pub fn uci_of_move(m: Move) -> (r: UciMove)
    ensures
        r == move_to_uci(m),
{
    m.to_uci(CastlingMode::Standard)
}

} // verus!
