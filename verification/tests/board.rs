use aspen::board::{play_moves, resolve_board, ResolveError};
use aspen::command::{PositionSpec, UciCommand};
use shakmaty::fen::Fen;
use shakmaty::uci::UciMove;
use shakmaty::{CastlingMode, Chess, EnPassantMode};

fn spec(line: &str) -> PositionSpec {
    match line.parse::<UciCommand>().unwrap() {
        UciCommand::Position(spec) => spec,
        _ => panic!("expected position"),
    }
}

fn fen_of(board: &Chess) -> String {
    Fen::from_position(board, EnPassantMode::Legal).to_string()
}

#[test]
fn start_position_with_moves() {
    let board = resolve_board(spec("position startpos moves e2e4 e7e5")).unwrap();
    assert_eq!(
        fen_of(&board),
        "rnbqkbnr/pppp1ppp/8/4p3/4P3/8/PPPP1PPP/RNBQKBNR w KQkq - 0 2"
    );
}

#[test]
fn fen_position_without_moves() {
    let board = resolve_board(spec("position fen 4k3/8/8/8/8/8/8/3QK3 b - - 0 1")).unwrap();
    assert_eq!(fen_of(&board), "4k3/8/8/8/8/8/8/3QK3 b - - 0 1");
}

#[test]
fn illegal_move_is_refused() {
    assert!(matches!(
        resolve_board(spec("position startpos moves e2e5")),
        Err(ResolveError::IllegalMove(_))
    ));
    assert!(matches!(
        resolve_board(spec("position startpos moves 0000")),
        Err(ResolveError::IllegalMove(_))
    ));
}

#[test]
fn impossible_fen_is_refused() {
    assert!(matches!(
        resolve_board(spec("position fen 8/8/8/8/8/8/8/8 w - - 0 1")),
        Err(ResolveError::InvalidPosition(_))
    ));
}

#[test]
fn moves_play_in_order() {
    let moves: Vec<UciMove> = vec!["g1f3".parse().unwrap(), "g8f6".parse().unwrap()];
    let board = play_moves(Chess::default(), &moves).unwrap();
    assert_eq!(
        fen_of(&board),
        "rnbqkb1r/pppppppp/5n2/8/8/5N2/PPPPPPPP/RNBQKB1R w KQkq - 2 2"
    );
    let reversed: Vec<UciMove> = vec!["g8f6".parse().unwrap()];
    assert!(play_moves(Chess::default(), &reversed).is_err());
}

#[test]
fn fen_round_trip_through_castling_mode() {
    let board = resolve_board(spec("position fen rnbqkbnr/pppppppp/8/8/8/8/PPPPPPPP/RNBQKBNR w KQkq - 0 1")).unwrap();
    assert_eq!(board, Chess::default());
    let _ = CastlingMode::Standard;
}

#[test]
fn start_position_is_the_start_fen() {
    let from_fen: Chess = "rnbqkbnr/pppppppp/8/8/8/8/PPPPPPPP/RNBQKBNR w KQkq - 0 1"
        .parse::<Fen>()
        .unwrap()
        .into_position(CastlingMode::Standard)
        .unwrap();
    let start = aspen::chess::start_position();
    assert_eq!(start, from_fen);
    assert_eq!(fen_of(&start), fen_of(&from_fen));
    let board = resolve_board(spec("position startpos")).unwrap();
    assert_eq!(fen_of(&board), "rnbqkbnr/pppppppp/8/8/8/8/PPPPPPPP/RNBQKBNR w KQkq - 0 1");
}
