use vstd::prelude::*;

use shakmaty::uci::{ParseUciMoveError, UciMove};

use crate::chess::uci_move_parse;
use crate::command::{GoParams, PositionSpec, UciCommand};
use crate::options::UciOptionDeclaration;
use crate::response::{uci_text, Response};

verus! {

/// Whether `text` reads as the UCI move `m`.
pub open spec fn parses_to(text: Seq<char>, m: UciMove) -> bool {
    uci_move_parse(text) == Ok::<UciMove, ParseUciMoveError>(m)
}

/// The null move `0000`, which `bestmove` reports when the search found no move.
#[verifier::external_body]
pub fn null_uci_move() -> (r: UciMove)
    ensures
        uci_text(r) == "0000"@,
        parses_to("0000"@, r),
{
    UciMove::Null
}

/// What the protocol driver keeps between events.
#[derive(Debug, Clone, Copy, PartialEq, Eq, Structural)]
pub struct DriverState {
    /// Whether the GUI switched debug output on.
    pub debug: bool,
    /// Whether the driver holds the engine, rather than a running search.
    pub engine_idle: bool,
    /// Whether a search's result is still to be collected.
    pub pending: bool,
}

/// What happens to the driver.
#[derive(Debug)]
pub enum DriverEvent {
    /// A line from the GUI was read.
    Command(UciCommand),
    /// A search announced that it has ended.
    SearchFinished,
    /// The result of the ended search was received, with its best move if any.
    SearchResult(Option<UciMove>),
    /// The result of the ended search could not be received.
    SearchLost,
}

/// What the driver asks its environment to do, in order.
#[derive(Debug)]
pub enum DriverAction {
    /// Write a line to the GUI.
    Send(Response),
    /// Send the engine's identification, its options and `uciok`.
    Announce,
    /// Set an engine option; an error is reported and otherwise ignored.
    ApplyOption { name: String, value: Option<String> },
    /// Set the board to the standard start position.
    ResetBoard,
    /// Tell the engine that a new game starts.
    StartNewGame,
    /// Set the board to a position; an illegal one is reported and ignored.
    SetPosition(PositionSpec),
    /// Clear the stop flag, lend the engine the board and start a search.
    StartSearch(GoParams),
    /// Raise the stop flag.
    RaiseStop,
    /// Receive the result of the ended search.
    CollectResult,
    /// Leave the loop.
    Exit,
}

impl DriverState {
    /// A driver that holds its engine, with debug output off.
    pub open spec fn initial() -> DriverState {
        DriverState { debug: false, engine_idle: true, pending: false }
    }

    /// A search lent the engine is the only search whose result is awaited.
    pub open spec fn valid(self) -> bool {
        self.pending ==> !self.engine_idle
    }
}

/// A driver that holds its engine, with debug output off.
pub fn initial_state() -> (r: DriverState)
    ensures
        r == DriverState::initial(),
{
    DriverState { debug: false, engine_idle: true, pending: false }
}

/// The driver's next state and actions for an event.
pub open spec fn step_model(state: DriverState, event: DriverEvent) -> (DriverState, Seq<DriverAction>) {
    match event {
        DriverEvent::Command(command) => match command {
            UciCommand::Uci => (state, seq![DriverAction::Announce]),
            UciCommand::Debug(on) => (DriverState { debug: on, ..state }, seq![]),
            UciCommand::IsReady => (state, seq![DriverAction::Send(Response::ReadyOk)]),
            UciCommand::SetOption { name, value } => if state.engine_idle {
                (state, seq![DriverAction::ApplyOption { name: name, value: value }])
            } else {
                (state, seq![])
            },
            UciCommand::UciNewGame => if state.engine_idle {
                (state, seq![DriverAction::ResetBoard, DriverAction::StartNewGame])
            } else {
                (state, seq![DriverAction::ResetBoard])
            },
            UciCommand::Position(spec) => (state, seq![DriverAction::SetPosition(spec)]),
            UciCommand::Go(params) => if state.engine_idle {
                (
                    DriverState { engine_idle: false, pending: true, ..state },
                    seq![DriverAction::StartSearch(params)],
                )
            } else {
                (state, seq![])
            },
            UciCommand::Stop => (state, seq![DriverAction::RaiseStop]),
            UciCommand::PonderHit => (state, seq![]),
            UciCommand::Quit => (state, seq![DriverAction::RaiseStop, DriverAction::Exit]),
        },
        DriverEvent::SearchFinished => if state.pending {
            (state, seq![DriverAction::CollectResult])
        } else {
            (state, seq![])
        },
        DriverEvent::SearchResult(best) => if state.pending {
            (
                DriverState { engine_idle: true, pending: false, ..state },
                seq![DriverAction::Send(Response::BestMove { best: match best {
                    Some(m) => m,
                    None => null_move_value(),
                }, ponder: None })],
            )
        } else {
            (state, seq![])
        },
        DriverEvent::SearchLost => (DriverState { pending: false, ..state }, seq![]),
    }
}

/// The move that stands for "no move" in a `bestmove` line.
pub open spec fn null_move_value() -> UciMove {
    uci_move_parse("0000"@)->Ok_0
}

/// Decides what the driver does on `event`.
pub fn step(state: DriverState, event: DriverEvent) -> (r: (DriverState, Vec<DriverAction>))
    ensures
        (r.0, r.1@) == step_model(state, event),
{
    match event {
        DriverEvent::Command(command) => match command {
            UciCommand::Uci => (state, vec![DriverAction::Announce]),
            UciCommand::Debug(on) => (DriverState { debug: on, ..state }, Vec::new()),
            UciCommand::IsReady => (state, vec![DriverAction::Send(Response::ReadyOk)]),
            UciCommand::SetOption { name, value } => if state.engine_idle {
                (state, vec![DriverAction::ApplyOption { name, value }])
            } else {
                (state, Vec::new())
            },
            UciCommand::UciNewGame => if state.engine_idle {
                (state, vec![DriverAction::ResetBoard, DriverAction::StartNewGame])
            } else {
                (state, vec![DriverAction::ResetBoard])
            },
            UciCommand::Position(spec) => (state, vec![DriverAction::SetPosition(spec)]),
            UciCommand::Go(params) => if state.engine_idle {
                (
                    DriverState { engine_idle: false, pending: true, ..state },
                    vec![DriverAction::StartSearch(params)],
                )
            } else {
                (state, Vec::new())
            },
            UciCommand::Stop => (state, vec![DriverAction::RaiseStop]),
            UciCommand::PonderHit => (state, Vec::new()),
            UciCommand::Quit => (state, vec![DriverAction::RaiseStop, DriverAction::Exit]),
        },
        DriverEvent::SearchFinished => if state.pending {
            (state, vec![DriverAction::CollectResult])
        } else {
            (state, Vec::new())
        },
        DriverEvent::SearchResult(best) => if state.pending {
            let best = match best {
                Some(m) => m,
                None => null_uci_move(),
            };
            (
                DriverState { engine_idle: true, pending: false, ..state },
                vec![DriverAction::Send(Response::BestMove { best, ponder: None })],
            )
        } else {
            (state, Vec::new())
        },
        DriverEvent::SearchLost => (DriverState { pending: false, ..state }, Vec::new()),
    }
}

/// Every step keeps the driver's state valid: a result is awaited only while the
/// engine is lent to a search.
pub proof fn lemma_step_keeps_valid(state: DriverState, event: DriverEvent)
    requires
        state.valid(),
    ensures
        step_model(state, event).0.valid(),
{
}

/// `isready` is always answered with `readyok` alone, and changes nothing.
pub proof fn lemma_isready_answered(state: DriverState)
    ensures
        step_model(state, DriverEvent::Command(UciCommand::IsReady)) == (state, seq![DriverAction::Send(Response::ReadyOk)]),
{
}

/// `quit` always raises the stop flag and then leaves the loop.
pub proof fn lemma_quit_stops_and_exits(state: DriverState)
    ensures
        step_model(state, DriverEvent::Command(UciCommand::Quit)).1 == seq![DriverAction::RaiseStop, DriverAction::Exit],
{
}

/// One search at a time: `go` starts a search only while the driver holds the
/// engine, and lends it; while a search runs, `go` is ignored.
pub proof fn lemma_one_search_at_a_time(state: DriverState, params: GoParams)
    ensures
        ({
            let (next, actions) = step_model(state, DriverEvent::Command(UciCommand::Go(params)));
            &&& state.engine_idle ==> actions == seq![DriverAction::StartSearch(params)] && !next.engine_idle && next.pending
            &&& !state.engine_idle ==> actions.len() == 0 && next == state
        }),
{
}

/// The result of an awaited search is answered by exactly one `bestmove` line,
/// with the null move when there was no move, and the engine returns to the driver.
pub proof fn lemma_result_answered(state: DriverState, best: Option<UciMove>)
    requires
        state.pending,
    ensures
        ({
            let (next, actions) = step_model(state, DriverEvent::SearchResult(best));
            &&& next.engine_idle && !next.pending
            &&& actions.len() == 1
            &&& actions[0] matches DriverAction::Send(Response::BestMove { best: m, ponder: None })
                && m == match best {
                Some(b) => b,
                None => null_move_value(),
            }
        }),
{
}

/// A `position` command sets the board to exactly the position it names, whether
/// the start position or a FEN, with its moves, in any state, and changes nothing
/// else.
pub proof fn lemma_position_sets_named_board(state: DriverState, spec: PositionSpec)
    ensures
        ({
            let (next, actions) = step_model(state, DriverEvent::Command(UciCommand::Position(spec)));
            &&& next == state
            &&& actions.len() == 1
            &&& actions[0] matches DriverAction::SetPosition(p) && p == spec
        }),
{
}

/// Options are changed only while the driver holds the engine; while a search
/// runs, `setoption` is ignored.
pub proof fn lemma_options_only_when_idle(state: DriverState, name: String, value: Option<String>)
    ensures
        ({
            let (next, actions) = step_model(state, DriverEvent::Command(UciCommand::SetOption { name, value }));
            &&& next == state
            &&& state.engine_idle ==> actions == seq![DriverAction::ApplyOption { name, value }]
            &&& !state.engine_idle ==> actions.len() == 0
        }),
{
}

/// The lines that answer `uci`: the engine's name and author, one `option` line
/// per declaration in order, and `uciok`.
pub open spec fn announcement_model(name: &'static str, author: &'static str, declarations: Seq<UciOptionDeclaration>) -> Seq<Response> {
    seq![Response::IdName(name), Response::IdAuthor(author)] + declarations.map_values(
        |d: UciOptionDeclaration| Response::Option(d),
    ) + seq![Response::UciOk]
}

/// The lines that answer `uci`.
pub fn announcement(name: &'static str, author: &'static str, declarations: Vec<UciOptionDeclaration>) -> (r: Vec<Response>)
    ensures
        r@ == announcement_model(name, author, declarations@),
{
    let ghost decls = declarations@;
    assert(decls.len() == declarations.len());
    let mut out: Vec<Response> = vec![Response::IdName(name), Response::IdAuthor(author)];
    let mut rest = declarations;
    let mut k: usize = 0;
    while rest.len() > 0
        invariant
            k + rest@.len() == decls.len(),
            decls.len() <= usize::MAX,
            rest@ == decls.skip(k as int),
            out@ == seq![Response::IdName(name), Response::IdAuthor(author)] + decls.take(k as int).map_values(
                |d: UciOptionDeclaration| Response::Option(d),
            ),
        decreases rest.len(),
    {
        let d = rest.remove(0);
        assert(d == decls[k as int]);
        assert(decls.take(k + 1) == decls.take(k as int).push(d));
        assert(decls.take(k + 1).map_values(|d: UciOptionDeclaration| Response::Option(d))
            == decls.take(k as int).map_values(|d: UciOptionDeclaration| Response::Option(d)).push(Response::Option(d)));
        out.push(Response::Option(d));
        k += 1;
        assert(rest@ == decls.skip(k as int));
    }
    assert(decls.take(k as int) == decls);
    out.push(Response::UciOk);
    out
}

} // verus!
