use std::sync::atomic::AtomicBool;
use std::time::Instant;

use aspen::command::{GoParams, UciCommand};
use aspen::evaluation::tapered_score;
use aspen::info::{uci_info, Score};
use aspen::search::{
    abort_decision, budget_from_millis, budget_spent, extend_principal_variation, limit_reached,
    nodes_per_second, search, search_limits, terminal_score, time_budget, SearchInfo,
    SearchLimits, Searcher,
};
use shakmaty::fen::Fen;
use shakmaty::{CastlingMode, Chess, Color, Move, Position, Role};

fn position(fen: &str) -> Chess {
    fen.parse::<Fen>()
        .unwrap()
        .into_position(CastlingMode::Standard)
        .unwrap()
}

fn material(position: &Chess) -> i32 {
    let mut score = 0;
    for (_, piece) in position.board().iter() {
        let value = match piece.role {
            Role::Pawn => 100,
            Role::Knight => 300,
            Role::Bishop => 300,
            Role::Rook => 500,
            Role::Queen => 900,
            Role::King => 0,
        };
        if piece.color == position.turn() {
            score += value;
        } else {
            score -= value;
        }
    }
    score
}

fn best_move(position: &Chess, depth: u32) -> Move {
    let limits = SearchLimits { depth: Some(depth), ..SearchLimits::default() };
    let stop = AtomicBool::new(false);
    let mut report: Vec<SearchInfo> = Vec::new();
    search(position, &limits, &stop, &material, &mut report).unwrap()
}

fn long_algebraic(legal_move: Move) -> String {
    legal_move.to_uci(CastlingMode::Standard).to_string()
}

fn go(line: &str) -> GoParams {
    match line.parse::<UciCommand>().unwrap() {
        UciCommand::Go(params) => params,
        _ => panic!("expected go"),
    }
}

#[test]
fn finds_mate_in_one() {
    let position = position("6k1/5ppp/8/8/8/8/8/R6K w - - 0 1");
    assert_eq!(long_algebraic(best_move(&position, 3)), "a1a8");
}

#[test]
fn grabs_a_hanging_queen() {
    let position = position("4k3/8/8/8/3q4/8/8/3RK3 w - - 0 1");
    assert_eq!(long_algebraic(best_move(&position, 2)), "d1d4");
}

#[test]
fn returns_a_legal_move_from_startpos() {
    let chosen = best_move(&Chess::default(), 4);
    assert!(Chess::default().legal_moves().contains(&chosen));
}

#[test]
fn reports_one_info_per_finished_depth() {
    let position = position("6k1/5ppp/8/8/8/8/8/R6K w - - 0 1");
    let limits = SearchLimits { depth: Some(3), ..SearchLimits::default() };
    let stop = AtomicBool::new(false);
    let mut report: Vec<SearchInfo> = Vec::new();
    search(&position, &limits, &stop, &material, &mut report).unwrap();
    let depths: Vec<u32> = report.iter().map(|info| info.depth).collect();
    assert_eq!(depths, vec![1, 2, 3]);
    assert_eq!(report[2].score, 29_000 - 1);
    assert_eq!(long_algebraic(report[2].pv[0]), "a1a8");
}

#[test]
fn no_move_without_legal_moves() {
    let mated = position("R5k1/5ppp/8/8/8/8/8/7K b - - 1 1");
    let limits = SearchLimits { depth: Some(2), ..SearchLimits::default() };
    let stop = AtomicBool::new(false);
    let mut report: Vec<SearchInfo> = Vec::new();
    assert!(search(&mated, &limits, &stop, &material, &mut report).is_none());
    assert_eq!(report.len(), 2);
    assert_eq!(report[0].score, -29_000);
}

#[test]
fn depth_zero_falls_back_to_first_legal_move() {
    let limits = SearchLimits { depth: Some(0), ..SearchLimits::default() };
    let stop = AtomicBool::new(false);
    let mut report: Vec<SearchInfo> = Vec::new();
    let chosen = search(&Chess::default(), &limits, &stop, &material, &mut report).unwrap();
    assert_eq!(chosen, Chess::default().legal_moves()[0]);
    assert!(report.is_empty());
}

#[test]
fn terminal_scores() {
    let mated = position("R5k1/5ppp/8/8/8/8/8/7K b - - 1 1");
    assert_eq!(terminal_score(&mated, 3), -29_000 + 3);
    let stalemate = position("7k/5Q2/6K1/8/8/8/8/8 b - - 0 1");
    assert_eq!(terminal_score(&stalemate, 3), 0);
}

#[test]
fn principal_variation_is_head_then_tail() {
    let moves = Chess::default().legal_moves();
    let mut pv = vec![moves[5]];
    extend_principal_variation(&mut pv, moves[0], &vec![moves[1], moves[2]]);
    assert_eq!(pv, vec![moves[0], moves[1], moves[2]]);
}

#[test]
fn budget_keeps_overhead_and_one_millisecond() {
    assert_eq!(budget_from_millis(1000), 970);
    assert_eq!(budget_from_millis(30), 1);
    assert_eq!(budget_from_millis(0), 1);
    assert_eq!(budget_from_millis(31), 1);
    assert_eq!(budget_from_millis(32), 2);
}

#[test]
fn time_budget_cases() {
    assert_eq!(time_budget(&go("go infinite wtime 1000"), Color::White), None);
    assert_eq!(time_budget(&go("go movetime 500 wtime 100000"), Color::White), Some(470));
    assert_eq!(time_budget(&go("go btime 60000"), Color::White), None);
    assert_eq!(time_budget(&go("go wtime 60000 winc 1000"), Color::White), Some(3000 + 500 - 30));
    assert_eq!(time_budget(&go("go wtime 60000 btime 20000 movestogo 10"), Color::Black), Some(1970));
    assert_eq!(time_budget(&go("go wtime 100 winc 1000 movestogo 0"), Color::White), Some(70));
}

#[test]
fn search_limits_follow_go() {
    let limits = search_limits(&go("go depth 5 nodes 1000 wtime 60000"), Color::White);
    assert_eq!(limits.depth, Some(5));
    assert_eq!(limits.nodes, Some(1000));
    assert_eq!(limits.time, Some(2970));
    assert!(!limits.infinite);
}

#[test]
fn nodes_per_second_cases() {
    assert_eq!(nodes_per_second(1000, 0), None);
    assert_eq!(nodes_per_second(1000, 500_000_000), Some(2000));
    assert_eq!(nodes_per_second(u64::MAX, 1), Some(u64::MAX));
    assert_eq!(nodes_per_second(3, 2_000_000_000), Some(1));
}

#[test]
fn external_limits() {
    assert!(limit_reached(true, 0, None));
    assert!(!limit_reached(false, 5, None));
    assert!(limit_reached(false, 5, Some(5)));
    assert!(!limit_reached(false, 4, Some(5)));
    assert!(budget_spent(500_000_000, Some(1000)));
    assert!(!budget_spent(499_999_999, Some(1000)));
    assert!(!budget_spent(u128::MAX, None));
}

#[test]
fn node_limit_aborts_for_good() {
    let stop = AtomicBool::new(false);
    let limits = SearchLimits { nodes: Some(3), ..SearchLimits::default() };
    let mut searcher = Searcher::new(Instant::now(), &limits, &stop);
    assert_eq!(searcher.budget, None);
    searcher.nodes = 2;
    assert!(!searcher.should_abort());
    searcher.nodes = 3;
    assert!(searcher.should_abort());
    searcher.nodes = 0;
    assert!(searcher.should_abort());
}

#[test]
fn stop_flag_aborts_at_checkpoint() {
    let stop = AtomicBool::new(true);
    let limits = SearchLimits { time: Some(1000), ..SearchLimits::default() };
    let mut searcher = Searcher::new(Instant::now(), &limits, &stop);
    assert_eq!(searcher.deadline, Some(1_000_000_000));
    searcher.nodes = 1;
    assert!(!searcher.should_abort());
    searcher.nodes = 2048;
    assert!(searcher.should_abort());
    assert!(!searcher.should_stop_deepening());
}

#[test]
fn infinite_search_has_no_budget() {
    let stop = AtomicBool::new(false);
    let limits = SearchLimits { time: Some(1000), infinite: true, ..SearchLimits::default() };
    let searcher = Searcher::new(Instant::now(), &limits, &stop);
    assert_eq!(searcher.budget, None);
    assert_eq!(searcher.deadline, None);
    assert!(!searcher.should_stop_deepening());
}

#[test]
fn info_from_search_report() {
    let moves = Chess::default().legal_moves();
    let info = uci_info(SearchInfo {
        depth: 4,
        score: 35,
        nodes: 5000,
        time: 2_500_000_000,
        pv: vec![moves[0]],
    });
    assert_eq!(info.depth, 4);
    assert!(matches!(info.score, Score::Centipawns(35)));
    assert_eq!(info.nps, Some(2000));
    assert_eq!(info.time_ms, 2500);
    assert_eq!(info.pv, vec![moves[0].to_uci(CastlingMode::Standard)]);
}

#[test]
fn white_relative_signs() {
    assert_eq!(aspen::evaluation::white_relative(Color::White), 1);
    assert_eq!(aspen::evaluation::white_relative(Color::Black), -1);
}


#[test]
fn node_counts_grow_and_stay_below_the_limit() {
    let start = Chess::default();
    let limits = SearchLimits { depth: Some(3), ..SearchLimits::default() };
    let stop = AtomicBool::new(false);
    let mut report: Vec<SearchInfo> = Vec::new();
    search(&start, &limits, &stop, &material, &mut report).unwrap();
    assert_eq!(report.len(), 3);
    assert_eq!(report[0].nodes, 20);
    assert!(report.windows(2).all(|pair| pair[0].nodes <= pair[1].nodes));

    let limited = SearchLimits { nodes: Some(30), ..SearchLimits::default() };
    let mut report: Vec<SearchInfo> = Vec::new();
    let chosen = search(&start, &limited, &stop, &material, &mut report).unwrap();
    assert_eq!(report.len(), 1);
    assert!(report.iter().all(|info| info.nodes < 30));
    assert_eq!(chosen, report[0].pv[0]);
}

#[test]
fn zero_node_limit_reports_nothing() {
    let start = Chess::default();
    let limits = SearchLimits { nodes: Some(0), ..SearchLimits::default() };
    let stop = AtomicBool::new(false);
    let mut report: Vec<SearchInfo> = Vec::new();
    let chosen = search(&start, &limits, &stop, &material, &mut report).unwrap();
    assert!(report.is_empty());
    assert_eq!(chosen, start.legal_moves()[0]);
}

#[test]
fn raised_stop_flag_reports_nothing() {
    let start = Chess::default();
    let limits = SearchLimits { depth: Some(5), ..SearchLimits::default() };
    let stop = AtomicBool::new(true);
    let mut report: Vec<SearchInfo> = Vec::new();
    let chosen = search(&start, &limits, &stop, &material, &mut report).unwrap();
    assert!(report.is_empty());
    assert_eq!(chosen, start.legal_moves()[0]);
}

#[test]
fn depth_limit_bounds_the_reports() {
    let start = Chess::default();
    let limits = SearchLimits { depth: Some(2), ..SearchLimits::default() };
    let stop = AtomicBool::new(false);
    let mut report: Vec<SearchInfo> = Vec::new();
    search(&start, &limits, &stop, &material, &mut report).unwrap();
    assert_eq!(report.iter().map(|info| info.depth).collect::<Vec<u32>>(), vec![1, 2]);
}

#[test]
fn tapered_score_blends_by_phase() {
    assert_eq!(tapered_score(100, 200, 24, Color::White), 100);
    assert_eq!(tapered_score(100, 200, 40, Color::White), 100);
    assert_eq!(tapered_score(100, 200, 0, Color::White), 200);
    assert_eq!(tapered_score(100, 200, 12, Color::White), 150);
    assert_eq!(tapered_score(100, 200, 12, Color::Black), -150);
    assert_eq!(tapered_score(-1, 0, 12, Color::White), 0);
    assert_eq!(tapered_score(-47, 0, 12, Color::White), -23);
    assert_eq!(tapered_score(0, 0, 5, Color::Black), 0);
}

#[test]
fn abort_decision_cases() {
    assert!(abort_decision(true, 5, None, false));
    assert!(abort_decision(false, 10, Some(10), false));
    assert!(!abort_decision(false, 9, Some(10), false));
    assert!(abort_decision(false, 4096, None, true));
    assert!(!abort_decision(false, 4097, None, true));
    assert!(!abort_decision(false, 4096, None, false));
    assert!(abort_decision(false, 0, Some(100), true));
}
