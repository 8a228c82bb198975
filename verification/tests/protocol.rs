use aspen::command::{GoParams, PositionSpec, UciCommand};
use aspen::driver::{
    announcement, initial_state, null_uci_move, step, DriverAction, DriverEvent, DriverState,
};
use aspen::error::UciParseError;
use aspen::integer::IntErrorKind;
use aspen::options::{UciOptionDeclaration, UciOptionKind};
use aspen::response::{uci_move_string, write_best_move, Response};
use shakmaty::uci::UciMove;

fn command(line: &str) -> UciCommand {
    line.parse().unwrap()
}

#[test]
fn writes_responses() {
    let e2e4: UciMove = "e2e4".parse().unwrap();
    let e7e5: UciMove = "e7e5".parse().unwrap();
    assert_eq!(Response::IdName("aspen").to_string(), "id name aspen");
    assert_eq!(Response::IdAuthor("aspen authors").to_string(), "id author aspen authors");
    assert_eq!(Response::UciOk.to_string(), "uciok");
    assert_eq!(Response::ReadyOk.to_string(), "readyok");
    assert_eq!(Response::BestMove { best: e2e4, ponder: None }.to_string(), "bestmove e2e4");
    assert_eq!(
        Response::BestMove { best: e2e4, ponder: Some(e7e5) }.to_string(),
        "bestmove e2e4 ponder e7e5"
    );
    let declaration = UciOptionDeclaration { name: "Ponder", kind: UciOptionKind::Check { default: true } };
    assert_eq!(Response::Option(declaration).to_string(), "option name Ponder type check default true");
    assert_eq!(uci_move_string(&"e7e8q".parse().unwrap()), "e7e8q");
    let mut out = String::new();
    write_best_move(null_uci_move(), None, &mut out);
    assert_eq!(out, "bestmove 0000");
}

#[test]
fn more_parse_errors() {
    assert!(matches!("debug".parse::<UciCommand>(), Err(UciParseError::MissingArgument("debug"))));
    assert!(matches!("debug maybe".parse::<UciCommand>(), Err(UciParseError::MissingArgument("debug"))));
    assert!(matches!("setoption Hash".parse::<UciCommand>(), Err(UciParseError::MissingArgument("name"))));
    assert!(matches!("setoption name value 3".parse::<UciCommand>(), Err(UciParseError::MissingArgument("name"))));
    assert!(matches!("position".parse::<UciCommand>(), Err(UciParseError::MissingArgument("position"))));
    assert!(matches!("position somewhere".parse::<UciCommand>(), Err(UciParseError::UnknownCommand(k)) if k == "somewhere"));
    assert!(matches!("go wtime".parse::<UciCommand>(), Err(UciParseError::MissingArgument("wtime"))));
    assert!(matches!(
        "go depth 4294967296".parse::<UciCommand>(),
        Err(UciParseError::InvalidInteger { field: "depth", source: IntErrorKind::PosOverflow })
    ));
    assert!(matches!("  \t ".parse::<UciCommand>(), Err(UciParseError::Empty)));
}

#[test]
fn more_parse_cases() {
    let UciCommand::Go(params) = command("go searchmoves e2e4 zz depth 2 ponder mate 3 movetime 10 nodes 9 winc 1 binc 2")
    else {
        panic!("expected go");
    };
    assert_eq!(params.search_moves, vec!["e2e4".parse::<UciMove>().unwrap()]);
    assert_eq!(params.depth, Some(2));
    assert!(params.ponder);
    assert_eq!(params.mate, Some(3));
    assert_eq!(params.move_time, Some(10));
    assert_eq!(params.nodes, Some(9));
    assert_eq!(params.white_increment, Some(1));
    assert_eq!(params.black_increment, Some(2));
    assert!(!params.infinite);
    let UciCommand::SetOption { name, value } = command("setoption   name  Syzygy   Path value  /a  b ") else {
        panic!("expected setoption");
    };
    assert_eq!(name, "Syzygy Path");
    assert_eq!(value.as_deref(), Some("/a b"));
    let UciCommand::SetOption { value, .. } = command("setoption name Hash value") else {
        panic!("expected setoption");
    };
    assert_eq!(value.as_deref(), Some(""));
    let UciCommand::Position(PositionSpec::StartPos { moves }) = command("position startpos e2e4") else {
        panic!("expected startpos");
    };
    assert!(moves.is_empty());
    let UciCommand::Position(PositionSpec::Fen { moves, .. }) = command("position fen 8/8/8/8/8/8/8/K6k w - - 0 1") else {
        panic!("expected fen");
    };
    assert!(moves.is_empty());
    let defaults = GoParams::default();
    assert!(defaults.search_moves.is_empty() && defaults.depth.is_none() && !defaults.infinite);
}

#[test]
fn driver_decisions() {
    let state = initial_state();
    assert_eq!(state, DriverState { debug: false, engine_idle: true, pending: false });
    let (state, actions) = step(state, DriverEvent::Command(command("debug on")));
    assert!(state.debug && actions.is_empty());
    let (_, actions) = step(state, DriverEvent::Command(command("uci")));
    assert!(matches!(actions.as_slice(), [DriverAction::Announce]));
    let (_, actions) = step(state, DriverEvent::Command(command("isready")));
    assert!(matches!(actions.as_slice(), [DriverAction::Send(Response::ReadyOk)]));
    let (_, actions) = step(state, DriverEvent::Command(command("ucinewgame")));
    assert!(matches!(actions.as_slice(), [DriverAction::ResetBoard, DriverAction::StartNewGame]));
    let (searching, actions) = step(state, DriverEvent::Command(command("go depth 3")));
    assert!(matches!(actions.as_slice(), [DriverAction::StartSearch(_)]));
    assert!(!searching.engine_idle && searching.pending);
    let (again, actions) = step(searching, DriverEvent::Command(command("go depth 3")));
    assert!(actions.is_empty() && again == searching);
    let (_, actions) = step(searching, DriverEvent::Command(command("setoption name Hash value 1")));
    assert!(actions.is_empty());
    let (_, actions) = step(searching, DriverEvent::Command(command("ucinewgame")));
    assert!(matches!(actions.as_slice(), [DriverAction::ResetBoard]));
    let (_, actions) = step(searching, DriverEvent::Command(command("stop")));
    assert!(matches!(actions.as_slice(), [DriverAction::RaiseStop]));
    let (_, actions) = step(searching, DriverEvent::SearchFinished);
    assert!(matches!(actions.as_slice(), [DriverAction::CollectResult]));
    let (done, actions) = step(searching, DriverEvent::SearchResult(None));
    assert!(done.engine_idle && !done.pending);
    assert!(matches!(actions.as_slice(), [DriverAction::Send(r @ Response::BestMove { .. })] if r.to_string() == "bestmove 0000"));
    let (lost, actions) = step(searching, DriverEvent::SearchLost);
    assert!(!lost.engine_idle && !lost.pending && actions.is_empty());
    let (_, actions) = step(state, DriverEvent::SearchFinished);
    assert!(actions.is_empty());
    let (_, actions) = step(state, DriverEvent::Command(command("quit")));
    assert!(matches!(actions.as_slice(), [DriverAction::RaiseStop, DriverAction::Exit]));
    let (_, actions) = step(state, DriverEvent::Command(command("setoption name Hash value 1")));
    assert!(matches!(actions.as_slice(), [DriverAction::ApplyOption { name, value: Some(v) }] if name == "Hash" && v == "1"));
    let (_, actions) = step(state, DriverEvent::Command(command("position startpos")));
    assert!(matches!(actions.as_slice(), [DriverAction::SetPosition(PositionSpec::StartPos { .. })]));
    let (same, actions) = step(state, DriverEvent::Command(command("ponderhit")));
    assert!(same == state && actions.is_empty());
}

#[test]
fn announces_identity_and_options() {
    let lines: Vec<String> = announcement(
        "aspen",
        "aspen authors",
        vec![
            UciOptionDeclaration { name: "Hash", kind: UciOptionKind::Spin { default: 16, min: 1, max: 1024 } },
            UciOptionDeclaration { name: "Clear Hash", kind: UciOptionKind::Button },
        ],
    )
    .iter()
    .map(|r| r.to_string())
    .collect();
    assert_eq!(
        lines,
        vec![
            "id name aspen",
            "id author aspen authors",
            "option name Hash type spin default 16 min 1 max 1024",
            "option name Clear Hash type button",
            "uciok",
        ]
    );
}
