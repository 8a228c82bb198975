use vstd::prelude::*;

use shakmaty::uci::UciMove;

use crate::options::{declaration_line, UciOptionDeclaration};

verus! {

/// What `Display` writes for a UCI move (`e2e4`, `e7e8q`, `0000`).
pub uninterp spec fn uci_text(m: UciMove) -> Seq<char>;

/// The UCI notation of `m`, from shakmaty's `Display` for `UciMove`. The
/// contract names the text and does not spell out the notation.
#[verifier::external_body]
pub fn uci_move_string(m: &UciMove) -> (r: String)
    ensures
        r@ == uci_text(*m),
{
    m.to_string()
}

/// A line sent by the engine to the GUI.
#[derive(Debug, Clone)]
pub enum Response {
    IdName(&'static str),
    IdAuthor(&'static str),
    UciOk,
    ReadyOk,
    BestMove { best: UciMove, ponder: Option<UciMove> },
    Option(UciOptionDeclaration),
}

/// The `bestmove` line for `best` and an optional move to ponder on.
pub open spec fn best_move_line(best: UciMove, ponder: Option<UciMove>) -> Seq<char> {
    "bestmove "@ + uci_text(best) + match ponder {
        Some(p) => " ponder "@ + uci_text(p),
        None => Seq::<char>::empty(),
    }
}

/// The line that a response is sent as.
pub open spec fn response_line(response: Response) -> Seq<char> {
    match response {
        Response::IdName(name) => "id name "@ + name@,
        Response::IdAuthor(author) => "id author "@ + author@,
        Response::UciOk => "uciok"@,
        Response::ReadyOk => "readyok"@,
        Response::BestMove { best, ponder } => best_move_line(best, ponder),
        Response::Option(declaration) => declaration_line(declaration.name@, declaration.kind),
    }
}

/// Appends the `bestmove` line.
pub fn write_best_move(best: UciMove, ponder: Option<UciMove>, out: &mut String)
    ensures
        final(out)@ == old(out)@ + best_move_line(best, ponder),
{
    out.append("bestmove ");
    let text = uci_move_string(&best);
    out.append(text.as_str());
    match ponder {
        Some(p) => {
            out.append(" ponder ");
            let text = uci_move_string(&p);
            out.append(text.as_str());
        },
        None => {},
    }
}

impl Response {
    /// The line that this response is sent as.
    pub fn to_string(&self) -> (r: String)
        ensures
            r@ == response_line(*self),
    {
        let mut out = String::new();
        match self {
            Response::IdName(name) => {
                out.append("id name ");
                out.append(name);
            },
            Response::IdAuthor(author) => {
                out.append("id author ");
                out.append(author);
            },
            Response::UciOk => {
                out.append("uciok");
            },
            Response::ReadyOk => {
                out.append("readyok");
            },
            Response::BestMove { best, ponder } => {
                write_best_move(*best, *ponder, &mut out);
            },
            Response::Option(declaration) => {
                let line = declaration.to_string();
                out.append(line.as_str());
            },
        }
        out
    }
}

} // verus!
