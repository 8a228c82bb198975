use vstd::prelude::*;

use shakmaty::fen::Fen;
use shakmaty::uci::UciMove;

use crate::chess::{fen_parse, parse_fen, parse_uci_move, uci_move_parse};
use crate::error::{ParseErrorView, UciParseError};
use crate::integer::{parse_unsigned, unsigned_value};
use crate::text::{
    find_token, find_word, is_word, join_range, join_rest, joined, lemma_find_word_at,
    lemma_words_of_joined, split_words, str_eq, string_views, words,
};

verus! {

/// A command sent by the GUI to the engine.
#[derive(Debug, Clone)]
pub enum UciCommand {
    Uci,
    Debug(bool),
    IsReady,
    SetOption { name: String, value: Option<String> },
    UciNewGame,
    Position(PositionSpec),
    Go(GoParams),
    Stop,
    PonderHit,
    Quit,
}

/// The position named by a `position` command.
#[derive(Debug, Clone)]
pub enum PositionSpec {
    StartPos { moves: Vec<UciMove> },
    Fen { fen: Fen, moves: Vec<UciMove> },
}

/// The parameters of a `go` command.
#[derive(Debug, Clone)]
pub struct GoParams {
    pub search_moves: Vec<UciMove>,
    pub ponder: bool,
    pub white_time: Option<u64>,
    pub black_time: Option<u64>,
    pub white_increment: Option<u64>,
    pub black_increment: Option<u64>,
    pub moves_to_go: Option<u32>,
    pub depth: Option<u32>,
    pub nodes: Option<u64>,
    pub mate: Option<u32>,
    pub move_time: Option<u64>,
    pub infinite: bool,
}

/// `GoParams` with its move list as a sequence.
pub struct GoParamsView {
    pub search_moves: Seq<UciMove>,
    pub ponder: bool,
    pub white_time: Option<u64>,
    pub black_time: Option<u64>,
    pub white_increment: Option<u64>,
    pub black_increment: Option<u64>,
    pub moves_to_go: Option<u32>,
    pub depth: Option<u32>,
    pub nodes: Option<u64>,
    pub mate: Option<u32>,
    pub move_time: Option<u64>,
    pub infinite: bool,
}

/// `PositionSpec` with its move list as a sequence.
pub enum PositionView {
    StartPos { moves: Seq<UciMove> },
    Fen { fen: Fen, moves: Seq<UciMove> },
}

/// `UciCommand` with its texts and lists as sequences.
pub enum CommandView {
    Uci,
    Debug(bool),
    IsReady,
    SetOption { name: Seq<char>, value: Option<Seq<char>> },
    UciNewGame,
    Position(PositionView),
    Go(GoParamsView),
    Stop,
    PonderHit,
    Quit,
}

impl View for GoParams {
    type V = GoParamsView;

    open spec fn view(&self) -> GoParamsView {
        GoParamsView {
            search_moves: self.search_moves@,
            ponder: self.ponder,
            white_time: self.white_time,
            black_time: self.black_time,
            white_increment: self.white_increment,
            black_increment: self.black_increment,
            moves_to_go: self.moves_to_go,
            depth: self.depth,
            nodes: self.nodes,
            mate: self.mate,
            move_time: self.move_time,
            infinite: self.infinite,
        }
    }
}

impl View for PositionSpec {
    type V = PositionView;

    open spec fn view(&self) -> PositionView {
        match self {
            PositionSpec::StartPos { moves } => PositionView::StartPos { moves: moves@ },
            PositionSpec::Fen { fen, moves } => PositionView::Fen { fen: *fen, moves: moves@ },
        }
    }
}

impl View for UciCommand {
    type V = CommandView;

    open spec fn view(&self) -> CommandView {
        match self {
            UciCommand::Uci => CommandView::Uci,
            UciCommand::Debug(on) => CommandView::Debug(*on),
            UciCommand::IsReady => CommandView::IsReady,
            UciCommand::SetOption { name, value } => CommandView::SetOption {
                name: name@,
                value: match value {
                    Some(v) => Some(v@),
                    None => None,
                },
            },
            UciCommand::UciNewGame => CommandView::UciNewGame,
            UciCommand::Position(p) => CommandView::Position(p@),
            UciCommand::Go(g) => CommandView::Go(g@),
            UciCommand::Stop => CommandView::Stop,
            UciCommand::PonderHit => CommandView::PonderHit,
            UciCommand::Quit => CommandView::Quit,
        }
    }
}

impl GoParamsView {
    /// No limit and no flag set.
    pub open spec fn initial() -> GoParamsView {
        GoParamsView {
            search_moves: seq![],
            ponder: false,
            white_time: None,
            black_time: None,
            white_increment: None,
            black_increment: None,
            moves_to_go: None,
            depth: None,
            nodes: None,
            mate: None,
            move_time: None,
            infinite: false,
        }
    }

    /// These parameters with the integer `field` set to `value`.
    pub open spec fn with_int(self, field: GoIntField, value: int) -> GoParamsView {
        match field {
            GoIntField::WhiteTime => GoParamsView { white_time: Some(value as u64), ..self },
            GoIntField::BlackTime => GoParamsView { black_time: Some(value as u64), ..self },
            GoIntField::WhiteIncrement => GoParamsView { white_increment: Some(value as u64), ..self },
            GoIntField::BlackIncrement => GoParamsView { black_increment: Some(value as u64), ..self },
            GoIntField::MovesToGo => GoParamsView { moves_to_go: Some(value as u32), ..self },
            GoIntField::Depth => GoParamsView { depth: Some(value as u32), ..self },
            GoIntField::Nodes => GoParamsView { nodes: Some(value as u64), ..self },
            GoIntField::Mate => GoParamsView { mate: Some(value as u32), ..self },
            GoIntField::MoveTime => GoParamsView { move_time: Some(value as u64), ..self },
        }
    }
}

impl Default for GoParams {
    fn default() -> (r: GoParams)
        ensures
            r@ == GoParamsView::initial(),
    {
        GoParams {
            search_moves: Vec::new(),
            ponder: false,
            white_time: None,
            black_time: None,
            white_increment: None,
            black_increment: None,
            moves_to_go: None,
            depth: None,
            nodes: None,
            mate: None,
            move_time: None,
            infinite: false,
        }
    }
}

/// The integer parameters of `go`.
#[derive(Debug, Clone, Copy, PartialEq, Eq, Structural)]
pub enum GoIntField {
    WhiteTime,
    BlackTime,
    WhiteIncrement,
    BlackIncrement,
    MovesToGo,
    Depth,
    Nodes,
    Mate,
    MoveTime,
}

impl GoIntField {
    /// The keyword that introduces the parameter.
    pub open spec fn keyword(self) -> &'static str {
        match self {
            GoIntField::WhiteTime => "wtime",
            GoIntField::BlackTime => "btime",
            GoIntField::WhiteIncrement => "winc",
            GoIntField::BlackIncrement => "binc",
            GoIntField::MovesToGo => "movestogo",
            GoIntField::Depth => "depth",
            GoIntField::Nodes => "nodes",
            GoIntField::Mate => "mate",
            GoIntField::MoveTime => "movetime",
        }
    }

    /// The largest value of the parameter's integer type.
    pub open spec fn max_value(self) -> u64 {
        match self {
            GoIntField::MovesToGo | GoIntField::Depth | GoIntField::Mate => 0xffff_ffff,
            _ => 0xffff_ffff_ffff_ffff,
        }
    }

    /// The keyword that introduces the parameter.
    pub fn label(&self) -> (r: &'static str)
        ensures
            r == self.keyword(),
    {
        match self {
            GoIntField::WhiteTime => "wtime",
            GoIntField::BlackTime => "btime",
            GoIntField::WhiteIncrement => "winc",
            GoIntField::BlackIncrement => "binc",
            GoIntField::MovesToGo => "movestogo",
            GoIntField::Depth => "depth",
            GoIntField::Nodes => "nodes",
            GoIntField::Mate => "mate",
            GoIntField::MoveTime => "movetime",
        }
    }

    /// The largest value of the parameter's integer type.
    pub fn max(&self) -> (r: u64)
        ensures
            r == self.max_value(),
    {
        match self {
            GoIntField::MovesToGo | GoIntField::Depth | GoIntField::Mate => 0xffff_ffff,
            _ => 0xffff_ffff_ffff_ffff,
        }
    }
}

/// The integer parameter that `word` introduces, if any.
pub open spec fn int_field_of(word: Seq<char>) -> Option<GoIntField> {
    if word == "wtime"@ {
        Some(GoIntField::WhiteTime)
    } else if word == "btime"@ {
        Some(GoIntField::BlackTime)
    } else if word == "winc"@ {
        Some(GoIntField::WhiteIncrement)
    } else if word == "binc"@ {
        Some(GoIntField::BlackIncrement)
    } else if word == "movestogo"@ {
        Some(GoIntField::MovesToGo)
    } else if word == "depth"@ {
        Some(GoIntField::Depth)
    } else if word == "nodes"@ {
        Some(GoIntField::Nodes)
    } else if word == "mate"@ {
        Some(GoIntField::Mate)
    } else if word == "movetime"@ {
        Some(GoIntField::MoveTime)
    } else {
        None
    }
}

/// The integer parameter that `word` introduces, if any.
pub fn int_field(word: &str) -> (r: Option<GoIntField>)
    ensures
        r == int_field_of(word@),
{
    if str_eq(word, "wtime") {
        Some(GoIntField::WhiteTime)
    } else if str_eq(word, "btime") {
        Some(GoIntField::BlackTime)
    } else if str_eq(word, "winc") {
        Some(GoIntField::WhiteIncrement)
    } else if str_eq(word, "binc") {
        Some(GoIntField::BlackIncrement)
    } else if str_eq(word, "movestogo") {
        Some(GoIntField::MovesToGo)
    } else if str_eq(word, "depth") {
        Some(GoIntField::Depth)
    } else if str_eq(word, "nodes") {
        Some(GoIntField::Nodes)
    } else if str_eq(word, "mate") {
        Some(GoIntField::Mate)
    } else if str_eq(word, "movetime") {
        Some(GoIntField::MoveTime)
    } else {
        None
    }
}

/// The integer argument of `field` at word `i`: missing when there is no such
/// word, invalid when the word is no decimal integer of the parameter's type.
pub open spec fn int_argument(ws: Seq<Seq<char>>, i: int, field: &'static str, max: u64) -> Result<int, ParseErrorView> {
    if i >= ws.len() {
        Err(ParseErrorView::MissingArgument(field))
    } else {
        match unsigned_value(ws[i], max as int) {
            Ok(v) => Ok(v),
            Err(k) => Err(ParseErrorView::InvalidInteger { field: field, source: k }),
        }
    }
}

/// The number of words from `j` on that read as UCI moves, up to the first that does not.
pub open spec fn move_run(ws: Seq<Seq<char>>, j: int) -> int
    decreases ws.len() - j,
{
    if 0 <= j < ws.len() && uci_move_parse(ws[j]) is Ok {
        1 + move_run(ws, j + 1)
    } else {
        0
    }
}

/// The moves of the words counted by `move_run(ws, j)`.
pub open spec fn run_moves(ws: Seq<Seq<char>>, j: int) -> Seq<UciMove>
    decreases ws.len() - j,
{
    if 0 <= j < ws.len() && uci_move_parse(ws[j]) is Ok {
        seq![uci_move_parse(ws[j])->Ok_0] + run_moves(ws, j + 1)
    } else {
        seq![]
    }
}

pub proof fn lemma_move_run_bounds(ws: Seq<Seq<char>>, j: int)
    requires
        0 <= j <= ws.len(),
    ensures
        0 <= move_run(ws, j) <= ws.len() - j,
        run_moves(ws, j).len() == move_run(ws, j),
    decreases ws.len() - j,
{
    if j < ws.len() {
        lemma_move_run_bounds(ws, j + 1);
    }
}

/// The parameters of `go` read from word `i` on, starting from `acc`: flags set,
/// integer parameters read with their argument, `searchmoves` followed by the
/// longest run of moves, any other word skipped; later words override earlier ones.
pub open spec fn go_model(ws: Seq<Seq<char>>, i: int, acc: GoParamsView) -> Result<GoParamsView, ParseErrorView>
    decreases ws.len() - i,
{
    if i < 0 || i >= ws.len() {
        Ok(acc)
    } else if ws[i] == "ponder"@ {
        go_model(ws, i + 1, GoParamsView { ponder: true, ..acc })
    } else if ws[i] == "infinite"@ {
        go_model(ws, i + 1, GoParamsView { infinite: true, ..acc })
    } else if ws[i] == "searchmoves"@ {
        proof {
            lemma_move_run_bounds(ws, i + 1);
        }
        go_model(
            ws,
            i + 1 + move_run(ws, i + 1),
            GoParamsView { search_moves: run_moves(ws, i + 1), ..acc },
        )
    } else {
        match int_field_of(ws[i]) {
            Some(f) => match int_argument(ws, i + 1, f.keyword(), f.max_value()) {
                Ok(v) => go_model(ws, i + 2, acc.with_int(f, v)),
                Err(e) => Err(e),
            },
            None => go_model(ws, i + 1, acc),
        }
    }
}

/// The moves of the words `ts`, in order, or the error of the first word that is no UCI move.
pub open spec fn moves_model(ts: Seq<Seq<char>>) -> Result<Seq<UciMove>, ParseErrorView>
    decreases ts.len(),
{
    if ts.len() == 0 {
        Ok(seq![])
    } else {
        match moves_model(ts.drop_last()) {
            Err(e) => Err(e),
            Ok(ms) => match uci_move_parse(ts.last()) {
                Ok(m) => Ok(ms.push(m)),
                Err(e) => Err(ParseErrorView::InvalidUciMove(e)),
            },
        }
    }
}

/// `debug on` and `debug off`.
pub open spec fn debug_model(ws: Seq<Seq<char>>) -> Result<CommandView, ParseErrorView> {
    if ws.len() > 1 && ws[1] == "on"@ {
        Ok(CommandView::Debug(true))
    } else if ws.len() > 1 && ws[1] == "off"@ {
        Ok(CommandView::Debug(false))
    } else {
        Err(ParseErrorView::MissingArgument("debug"))
    }
}

/// `setoption name <words> [value <words>]`: the name is the words up to `value`,
/// the value all words after it.
pub open spec fn setoption_model(ws: Seq<Seq<char>>) -> Result<CommandView, ParseErrorView> {
    if ws.len() < 2 || ws[1] != "name"@ {
        Err(ParseErrorView::MissingArgument("name"))
    } else {
        let k = find_word(ws, 2, "value"@);
        let name = joined(ws.subrange(2, k));
        if name.len() == 0 {
            Err(ParseErrorView::MissingArgument("name"))
        } else if k < ws.len() {
            Ok(CommandView::SetOption { name: name, value: Some(joined(ws.subrange(k + 1, ws.len() as int))) })
        } else {
            Ok(CommandView::SetOption { name: name, value: None })
        }
    }
}

/// `position fen <words> [moves <moves>]`: the FEN is the words up to `moves`.
pub open spec fn fen_position_model(ws: Seq<Seq<char>>) -> Result<PositionView, ParseErrorView> {
    let k = find_word(ws, 2, "moves"@);
    match fen_parse(joined(ws.subrange(2, k))) {
        Err(e) => Err(ParseErrorView::InvalidFen(e)),
        Ok(fen) => if k < ws.len() {
            match moves_model(ws.subrange(k + 1, ws.len() as int)) {
                Ok(ms) => Ok(PositionView::Fen { fen: fen, moves: ms }),
                Err(e) => Err(e),
            }
        } else {
            Ok(PositionView::Fen { fen: fen, moves: seq![] })
        },
    }
}

/// `position startpos [moves <moves>]` and `position fen ...`.
pub open spec fn position_model(ws: Seq<Seq<char>>) -> Result<PositionView, ParseErrorView> {
    if ws.len() < 2 {
        Err(ParseErrorView::MissingArgument("position"))
    } else if ws[1] == "startpos"@ {
        if ws.len() > 2 && ws[2] == "moves"@ {
            match moves_model(ws.subrange(3, ws.len() as int)) {
                Ok(ms) => Ok(PositionView::StartPos { moves: ms }),
                Err(e) => Err(e),
            }
        } else {
            Ok(PositionView::StartPos { moves: seq![] })
        }
    } else if ws[1] == "fen"@ {
        fen_position_model(ws)
    } else {
        Err(ParseErrorView::UnknownCommand(ws[1]))
    }
}

/// The command that the words `ws` of a line make, or why they make none.
pub open spec fn command_model(ws: Seq<Seq<char>>) -> Result<CommandView, ParseErrorView> {
    if ws.len() == 0 {
        Err(ParseErrorView::Empty)
    } else {
        let k = ws[0];
        if k == "uci"@ {
            Ok(CommandView::Uci)
        } else if k == "isready"@ {
            Ok(CommandView::IsReady)
        } else if k == "ucinewgame"@ {
            Ok(CommandView::UciNewGame)
        } else if k == "stop"@ {
            Ok(CommandView::Stop)
        } else if k == "ponderhit"@ {
            Ok(CommandView::PonderHit)
        } else if k == "quit"@ {
            Ok(CommandView::Quit)
        } else if k == "debug"@ {
            debug_model(ws)
        } else if k == "setoption"@ {
            setoption_model(ws)
        } else if k == "position"@ {
            match position_model(ws) {
                Ok(p) => Ok(CommandView::Position(p)),
                Err(e) => Err(e),
            }
        } else if k == "go"@ {
            match go_model(ws, 1, GoParamsView::initial()) {
                Ok(g) => Ok(CommandView::Go(g)),
                Err(e) => Err(e),
            }
        } else {
            Err(ParseErrorView::UnknownCommand(k))
        }
    }
}

/// A `setoption name <name words> value <value words>` line, whose name words
/// do not include `value`, names the option by its words joined with single
/// spaces (which split back into the same words) and gives the value words
/// joined the same way.
pub proof fn lemma_setoption_reads_name_and_value(name_words: Seq<Seq<char>>, value_words: Seq<Seq<char>>)
    requires
        name_words.len() > 0,
        forall|i: int| 0 <= i < name_words.len() ==> is_word(#[trigger] name_words[i]),
        forall|i: int| 0 <= i < name_words.len() ==> #[trigger] name_words[i] != "value"@,
    ensures
        setoption_model(seq!["setoption"@, "name"@] + name_words + seq!["value"@] + value_words)
            == Ok::<CommandView, ParseErrorView>(CommandView::SetOption {
            name: joined(name_words),
            value: Some(joined(value_words)),
        }),
        words(joined(name_words)) == name_words,
{
    let ws = seq!["setoption"@, "name"@] + name_words + seq!["value"@] + value_words;
    let k: int = name_words.len() as int + 2;
    assert(ws[1] == "name"@);
    assert(ws[k] == "value"@);
    assert forall|j: int| 2 <= j < k implies #[trigger] ws[j] != "value"@ by {
        assert(ws[j] == name_words[j - 2]);
    }
    lemma_find_word_at(ws, 2, k, "value"@);
    assert(ws.subrange(2, k) == name_words);
    assert(ws.subrange(k + 1, ws.len() as int) == value_words);
    lemma_words_of_joined(name_words);
    if joined(name_words).len() == 0 {
        assert(joined(name_words) == Seq::<char>::empty());
        assert(words(Seq::<char>::empty()) == Seq::<Seq<char>>::empty());
    }
}

/// A parse result taken by view.
pub open spec fn command_result(r: Result<UciCommand, UciParseError>) -> Result<CommandView, ParseErrorView> {
    match r {
        Ok(c) => Ok(c@),
        Err(e) => Err(e@),
    }
}

/// Reads the integer argument of `field` at `tokens[i]`.
pub fn next_int(tokens: &Vec<String>, i: usize, field: &'static str, max: u64) -> (r: Result<u64, UciParseError>)
    ensures
        match r {
            Ok(v) => int_argument(string_views(tokens@), i as int, field, max) == Ok::<int, ParseErrorView>(v as int),
            Err(e) => int_argument(string_views(tokens@), i as int, field, max) == Err::<int, ParseErrorView>(e@),
        },
{
    if i >= tokens.len() {
        return Err(UciParseError::MissingArgument(field));
    }
    match parse_unsigned(tokens[i].as_str(), max) {
        Ok(v) => Ok(v),
        Err(source) => Err(UciParseError::InvalidInteger { field, source }),
    }
}

/// Collects the moves from `tokens[start]` on, up to the first word that is no UCI
/// move; returns them with the index of that word.
pub fn collect_search_moves(tokens: &Vec<String>, start: usize) -> (r: (Vec<UciMove>, usize))
    requires
        start <= tokens.len(),
    ensures
        r.0@ == run_moves(string_views(tokens@), start as int),
        r.1 == start + move_run(string_views(tokens@), start as int),
{
    let ghost ws = string_views(tokens@);
    let mut moves: Vec<UciMove> = Vec::new();
    let mut i = start;
    while i < tokens.len()
        invariant
            start <= i <= tokens.len(),
            ws == string_views(tokens@),
            run_moves(ws, start as int) == moves@ + run_moves(ws, i as int),
            move_run(ws, start as int) == (i - start) + move_run(ws, i as int),
        decreases tokens.len() - i,
    {
        match parse_uci_move(tokens[i].as_str()) {
            Ok(m) => {
                assert(moves@.push(m) + run_moves(ws, i + 1) == moves@ + (seq![m] + run_moves(ws, i + 1)));
                moves.push(m);
                i += 1;
            },
            Err(_) => {
                assert(moves@ + run_moves(ws, i as int) == moves@);
                return (moves, i);
            },
        }
    }
    assert(moves@ + run_moves(ws, i as int) == moves@);
    (moves, i)
}

/// Reads the parameters of `go` from `tokens[start]` on.
pub fn parse_go(tokens: &Vec<String>, start: usize) -> (r: Result<GoParams, UciParseError>)
    requires
        start <= tokens.len(),
    ensures
        match r {
            Ok(g) => go_model(string_views(tokens@), start as int, GoParamsView::initial()) == Ok::<GoParamsView, ParseErrorView>(g@),
            Err(e) => go_model(string_views(tokens@), start as int, GoParamsView::initial()) == Err::<GoParamsView, ParseErrorView>(e@),
        },
{
    let ghost ws = string_views(tokens@);
    let mut params = GoParams::default();
    let mut i = start;
    while i < tokens.len()
        invariant
            start <= i <= tokens.len(),
            ws == string_views(tokens@),
            go_model(ws, i as int, params@) == go_model(ws, start as int, GoParamsView::initial()),
        decreases tokens.len() - i,
    {
        let word = tokens[i].as_str();
        if str_eq(word, "ponder") {
            params.ponder = true;
            i += 1;
        } else if str_eq(word, "infinite") {
            params.infinite = true;
            i += 1;
        } else if str_eq(word, "searchmoves") {
            proof { lemma_move_run_bounds(ws, i + 1); }
            let (moves, next) = collect_search_moves(tokens, i + 1);
            params.search_moves = moves;
            i = next;
        } else {
            match int_field(word) {
                Some(f) => {
                    match next_int(tokens, i + 1, f.label(), f.max()) {
                        Ok(v) => {
                            match f {
                                GoIntField::WhiteTime => params.white_time = Some(v),
                                GoIntField::BlackTime => params.black_time = Some(v),
                                GoIntField::WhiteIncrement => params.white_increment = Some(v),
                                GoIntField::BlackIncrement => params.black_increment = Some(v),
                                GoIntField::MovesToGo => params.moves_to_go = Some(v as u32),
                                GoIntField::Depth => params.depth = Some(v as u32),
                                GoIntField::Nodes => params.nodes = Some(v),
                                GoIntField::Mate => params.mate = Some(v as u32),
                                GoIntField::MoveTime => params.move_time = Some(v),
                            }
                            i += 2;
                        },
                        Err(e) => {
                            return Err(e);
                        },
                    }
                },
                None => {
                    i += 1;
                },
            }
        }
    }
    Ok(params)
}

/// Reads all of `tokens[start..]` as UCI moves.
pub fn collect_moves(tokens: &Vec<String>, start: usize) -> (r: Result<Vec<UciMove>, UciParseError>)
    requires
        start <= tokens.len(),
    ensures
        match r {
            Ok(ms) => moves_model(string_views(tokens@).subrange(start as int, tokens@.len() as int)) == Ok::<Seq<UciMove>, ParseErrorView>(ms@),
            Err(e) => moves_model(string_views(tokens@).subrange(start as int, tokens@.len() as int)) == Err::<Seq<UciMove>, ParseErrorView>(e@),
        },
{
    let ghost ws = string_views(tokens@);
    let ghost ts = ws.subrange(start as int, tokens@.len() as int);
    let mut moves: Vec<UciMove> = Vec::new();
    let mut i = start;
    while i < tokens.len()
        invariant
            start <= i <= tokens.len(),
            ws == string_views(tokens@),
            ts == ws.subrange(start as int, tokens@.len() as int),
            moves_model(ts.take(i - start)) == Ok::<Seq<UciMove>, ParseErrorView>(moves@),
        decreases tokens.len() - i,
    {
        let ghost k = i - start;
        assert(ts.take(k + 1).drop_last() == ts.take(k));
        assert(ts.take(k + 1).last() == ws[i as int]);
        match parse_uci_move(tokens[i].as_str()) {
            Ok(m) => {
                moves.push(m);
                i += 1;
            },
            Err(e) => {
                proof { lemma_moves_error_persists(ts, k + 1); }
                return Err(UciParseError::InvalidUciMove(e));
            },
        }
    }
    assert(ts.take(i - start) == ts);
    Ok(moves)
}

proof fn lemma_moves_error_persists(ts: Seq<Seq<char>>, n: int)
    requires
        0 <= n <= ts.len(),
        moves_model(ts.take(n)) is Err,
    ensures
        moves_model(ts) == moves_model(ts.take(n)),
    decreases ts.len() - n,
{
    if n < ts.len() {
        assert(ts.take(n + 1).drop_last() == ts.take(n));
        lemma_moves_error_persists(ts, n + 1);
    } else {
        assert(ts.take(n) == ts);
    }
}

/// The moves after `tokens[start]` when that word is `moves`; none otherwise.
pub fn parse_trailing_moves(tokens: &Vec<String>, start: usize) -> (r: Result<Vec<UciMove>, UciParseError>)
    requires
        start <= tokens.len(),
    ensures
        start < tokens.len() && string_views(tokens@)[start as int] == "moves"@ ==> match r {
            Ok(ms) => moves_model(string_views(tokens@).subrange(start + 1, tokens@.len() as int)) == Ok::<Seq<UciMove>, ParseErrorView>(ms@),
            Err(e) => moves_model(string_views(tokens@).subrange(start + 1, tokens@.len() as int)) == Err::<Seq<UciMove>, ParseErrorView>(e@),
        },
        !(start < tokens.len() && string_views(tokens@)[start as int] == "moves"@) ==> (r matches Ok(ms) && ms@ == Seq::<UciMove>::empty()),
{
    if start < tokens.len() && str_eq(tokens[start].as_str(), "moves") {
        collect_moves(tokens, start + 1)
    } else {
        Ok(Vec::new())
    }
}

/// Reads `position fen ...` whose FEN starts at `tokens[2]`.
pub fn parse_fen_position(tokens: &Vec<String>) -> (r: Result<PositionSpec, UciParseError>)
    requires
        tokens.len() >= 2,
    ensures
        match r {
            Ok(p) => fen_position_model(string_views(tokens@)) == Ok::<PositionView, ParseErrorView>(p@),
            Err(e) => fen_position_model(string_views(tokens@)) == Err::<PositionView, ParseErrorView>(e@),
        },
{
    let k = find_token(tokens, 2, "moves");
    let fen_text = join_range(tokens, 2, k);
    let fen = match parse_fen(fen_text.as_str()) {
        Ok(fen) => fen,
        Err(e) => {
            return Err(UciParseError::InvalidFen(e));
        },
    };
    if k < tokens.len() {
        match collect_moves(tokens, k + 1) {
            Ok(moves) => Ok(PositionSpec::Fen { fen, moves }),
            Err(e) => Err(e),
        }
    } else {
        Ok(PositionSpec::Fen { fen, moves: Vec::new() })
    }
}

/// Reads the arguments of `position`.
pub fn parse_position(tokens: &Vec<String>) -> (r: Result<PositionSpec, UciParseError>)
    ensures
        match r {
            Ok(p) => position_model(string_views(tokens@)) == Ok::<PositionView, ParseErrorView>(p@),
            Err(e) => position_model(string_views(tokens@)) == Err::<PositionView, ParseErrorView>(e@),
        },
{
    if tokens.len() < 2 {
        return Err(UciParseError::MissingArgument("position"));
    }
    let kind = tokens[1].as_str();
    if str_eq(kind, "startpos") {
        match parse_trailing_moves(tokens, 2) {
            Ok(moves) => Ok(PositionSpec::StartPos { moves }),
            Err(e) => Err(e),
        }
    } else if str_eq(kind, "fen") {
        parse_fen_position(tokens)
    } else {
        Err(UciParseError::UnknownCommand(tokens[1].clone()))
    }
}

/// Reads the arguments of `setoption`.
pub fn parse_setoption(tokens: &Vec<String>) -> (r: Result<UciCommand, UciParseError>)
    ensures
        command_result(r) == setoption_model(string_views(tokens@)),
{
    if tokens.len() < 2 || !str_eq(tokens[1].as_str(), "name") {
        return Err(UciParseError::MissingArgument("name"));
    }
    let k = find_token(tokens, 2, "value");
    let name = join_range(tokens, 2, k);
    if name.as_str().is_empty() {
        return Err(UciParseError::MissingArgument("name"));
    }
    let value = if k < tokens.len() {
        Some(join_rest(tokens, k + 1))
    } else {
        None
    };
    Ok(UciCommand::SetOption { name, value })
}

/// Reads the argument of `debug`.
pub fn parse_debug(tokens: &Vec<String>) -> (r: Result<UciCommand, UciParseError>)
    ensures
        command_result(r) == debug_model(string_views(tokens@)),
{
    if tokens.len() > 1 && str_eq(tokens[1].as_str(), "on") {
        Ok(UciCommand::Debug(true))
    } else if tokens.len() > 1 && str_eq(tokens[1].as_str(), "off") {
        Ok(UciCommand::Debug(false))
    } else {
        Err(UciParseError::MissingArgument("debug"))
    }
}

/// Reads one line of the UCI protocol.
pub fn parse_command(line: &str) -> (r: Result<UciCommand, UciParseError>)
    ensures
        command_result(r) == command_model(words(line@)),
{
    let tokens = split_words(line);
    if tokens.len() == 0 {
        return Err(UciParseError::Empty);
    }
    let keyword = tokens[0].as_str();
    if str_eq(keyword, "uci") {
        Ok(UciCommand::Uci)
    } else if str_eq(keyword, "isready") {
        Ok(UciCommand::IsReady)
    } else if str_eq(keyword, "ucinewgame") {
        Ok(UciCommand::UciNewGame)
    } else if str_eq(keyword, "stop") {
        Ok(UciCommand::Stop)
    } else if str_eq(keyword, "ponderhit") {
        Ok(UciCommand::PonderHit)
    } else if str_eq(keyword, "quit") {
        Ok(UciCommand::Quit)
    } else if str_eq(keyword, "debug") {
        parse_debug(&tokens)
    } else if str_eq(keyword, "setoption") {
        parse_setoption(&tokens)
    } else if str_eq(keyword, "position") {
        match parse_position(&tokens) {
            Ok(p) => Ok(UciCommand::Position(p)),
            Err(e) => Err(e),
        }
    } else if str_eq(keyword, "go") {
        match parse_go(&tokens, 1) {
            Ok(g) => Ok(UciCommand::Go(g)),
            Err(e) => Err(e),
        }
    } else {
        Err(UciParseError::UnknownCommand(tokens[0].clone()))
    }
}

impl std::str::FromStr for UciCommand {
    type Err = UciParseError;

    fn from_str(line: &str) -> (r: Result<UciCommand, UciParseError>)
        ensures
            command_result(r) == command_model(words(line@)),
    {
        parse_command(line)
    }
}

} // verus!
