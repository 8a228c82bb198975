use aspen::command::{PositionSpec, UciCommand};
use aspen::error::UciParseError;
use shakmaty::uci::UciMove;

fn uci_move(text: &str) -> UciMove {
    text.parse().unwrap()
}

#[test]
fn parses_keyword_commands() {
    assert!(matches!("uci".parse(), Ok(UciCommand::Uci)));
    assert!(matches!("isready".parse(), Ok(UciCommand::IsReady)));
    assert!(matches!("ucinewgame".parse(), Ok(UciCommand::UciNewGame)));
    assert!(matches!("stop".parse(), Ok(UciCommand::Stop)));
    assert!(matches!("ponderhit".parse(), Ok(UciCommand::PonderHit)));
    assert!(matches!("quit".parse(), Ok(UciCommand::Quit)));
    assert!(matches!("debug on".parse(), Ok(UciCommand::Debug(true))));
    assert!(matches!("debug off".parse(), Ok(UciCommand::Debug(false))));
}

#[test]
fn parses_startpos_with_moves() {
    let UciCommand::Position(PositionSpec::StartPos { moves }) =
        "position startpos moves e2e4 e7e5".parse().unwrap()
    else {
        panic!("expected startpos");
    };
    assert_eq!(moves, [uci_move("e2e4"), uci_move("e7e5")]);
}

#[test]
fn parses_fen_with_moves() {
    let command =
        "position fen rnbqkbnr/pppppppp/8/8/8/8/PPPPPPPP/RNBQKBNR w KQkq - 0 1 moves e2e4"
            .parse()
            .unwrap();
    let UciCommand::Position(PositionSpec::Fen { moves, .. }) = command else {
        panic!("expected fen");
    };
    assert_eq!(moves, [uci_move("e2e4")]);
}

#[test]
fn parses_go_parameters() {
    let UciCommand::Go(params) = "go wtime 1000 btime 2000 movestogo 30 depth 7 infinite"
        .parse()
        .unwrap()
    else {
        panic!("expected go");
    };
    assert_eq!(params.white_time, Some(1000));
    assert_eq!(params.black_time, Some(2000));
    assert_eq!(params.moves_to_go, Some(30));
    assert_eq!(params.depth, Some(7));
    assert!(params.infinite);
}

#[test]
fn parses_go_searchmoves() {
    let UciCommand::Go(params) = "go searchmoves e2e4 d2d4 depth 3".parse().unwrap() else {
        panic!("expected go");
    };
    assert_eq!(params.search_moves, [uci_move("e2e4"), uci_move("d2d4")]);
    assert_eq!(params.depth, Some(3));
}

#[test]
fn parses_setoption_with_spaced_name() {
    let UciCommand::SetOption { name, value } = "setoption name Clear Hash".parse().unwrap()
    else {
        panic!("expected setoption");
    };
    assert_eq!(name, "Clear Hash");
    assert_eq!(value, None);

    let UciCommand::SetOption { name, value } = "setoption name Hash value 32".parse().unwrap()
    else {
        panic!("expected setoption");
    };
    assert_eq!(name, "Hash");
    assert_eq!(value.as_deref(), Some("32"));
}

#[test]
fn reports_parse_errors() {
    assert!(matches!("".parse::<UciCommand>(), Err(UciParseError::Empty)));
    assert!(matches!(
        "frobnicate".parse::<UciCommand>(),
        Err(UciParseError::UnknownCommand(_))
    ));
    assert!(matches!(
        "position startpos moves z9z9".parse::<UciCommand>(),
        Err(UciParseError::InvalidUciMove(_))
    ));
    assert!(matches!(
        "position fen not a fen".parse::<UciCommand>(),
        Err(UciParseError::InvalidFen(_))
    ));
    assert!(matches!(
        "go depth notanumber".parse::<UciCommand>(),
        Err(UciParseError::InvalidInteger { .. })
    ));
}
