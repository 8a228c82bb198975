use vstd::prelude::*;

use shakmaty::uci::{IllegalUciMoveError, UciMove};
use shakmaty::{Chess, PositionError};

use crate::chess::{
    after_move, fen_parse, fen_to_position, play, position_from_fen, resolve_uci_move, start_fen, start_position,
    uci_to_move,
};
use crate::command::PositionSpec;

verus! {

/// Why the position of a `position` command could not be set up.
#[derive(Debug)]
pub enum ResolveError {
    InvalidPosition(PositionError<Chess>),
    IllegalMove(IllegalUciMoveError),
}

/// `board` after the UCI moves `moves`, played in order; the first move that is
/// illegal where it stands ends it with an error.
pub open spec fn play_all(board: Chess, moves: Seq<UciMove>) -> Result<Chess, IllegalUciMoveError>
    decreases moves.len(),
{
    if moves.len() == 0 {
        Ok(board)
    } else {
        match uci_to_move(moves[0], board) {
            Err(e) => Err(e),
            Ok(m) => play_all(after_move(board, m), moves.drop_first()),
        }
    }
}

/// The board after playing `moves` from `start`, or the illegal move's error.
pub open spec fn played_from(start: Chess, moves: Seq<UciMove>) -> Result<Chess, ResolveError> {
    match play_all(start, moves) {
        Ok(b) => Ok(b),
        Err(e) => Err(ResolveError::IllegalMove(e)),
    }
}

/// Plays the UCI moves `moves` on `board`, in order.
pub fn play_moves(board: Chess, moves: &Vec<UciMove>) -> (r: Result<Chess, IllegalUciMoveError>)
    ensures
        r == play_all(board, moves@),
{
    let mut current = board;
    let mut i: usize = 0;
    assert(moves@.skip(0) == moves@);
    while i < moves.len()
        invariant
            i <= moves@.len(),
            play_all(current, moves@.skip(i as int)) == play_all(board, moves@),
        decreases moves.len() - i,
    {
        assert(moves@.skip(i as int).drop_first() == moves@.skip(i + 1));
        assert(moves@.skip(i as int)[0] == moves@[i as int]);
        match resolve_uci_move(moves[i], &current) {
            Ok(m) => {
                current = play(&current, m);
            },
            Err(e) => {
                return Err(e);
            },
        }
        i += 1;
    }
    assert(moves@.skip(i as int).len() == 0);
    Ok(current)
}

/// The board that a `position` command sets up: the start position (the position
/// of the start FEN) or the FEN's, with the moves played on it.
pub fn resolve_board(spec: PositionSpec) -> (r: Result<Chess, ResolveError>)
    ensures
        match spec {
            PositionSpec::Fen { fen, moves } => match fen_to_position(fen) {
                Err(e) => r == Err::<Chess, ResolveError>(ResolveError::InvalidPosition(e)),
                Ok(p) => match play_all(p, moves@) {
                    Ok(b) => r == Ok::<Chess, ResolveError>(b),
                    Err(e) => r == Err::<Chess, ResolveError>(ResolveError::IllegalMove(e)),
                },
            },
            PositionSpec::StartPos { moves } => fen_parse(start_fen()) matches Ok(f) && fen_to_position(f) matches Ok(
                start,
            ) && played_from(start, moves@) == r,
        },
{
    let (board, moves) = match spec {
        PositionSpec::StartPos { moves } => (start_position(), moves),
        PositionSpec::Fen { fen, moves } => match position_from_fen(fen) {
            Ok(p) => (p, moves),
            Err(e) => {
                return Err(ResolveError::InvalidPosition(e));
            },
        },
    };
    let r = match play_moves(board, &moves) {
        Ok(b) => Ok(b),
        Err(e) => Err(ResolveError::IllegalMove(e)),
    };
    assert(played_from(board, moves@) == r);
    r
}

} // verus!
