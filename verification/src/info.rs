use vstd::prelude::*;

use shakmaty::uci::UciMove;

use crate::chess::{move_to_uci, uci_of_move};
use crate::search::{nodes_per_second, SearchInfo};

verus! {

/// The score of an `info` line.
#[derive(Debug, Clone, Copy)]
pub enum Score {
    Centipawns(i32),
}

/// What an `info` line reports of a finished search iteration.
#[derive(Debug)]
pub struct Info {
    pub depth: u32,
    pub seldepth: Option<u32>,
    pub score: Score,
    pub nodes: u64,
    pub nps: Option<u64>,
    pub time_ms: u64,
    pub pv: Vec<UciMove>,
}

/// The `info` report of a finished iteration: its depth, score in centipawns,
/// nodes, speed, time in milliseconds and variation in UCI notation.
pub fn uci_info(info: SearchInfo) -> (r: Info)
    ensures
        r.depth == info.depth,
        r.seldepth is None,
        r.score == Score::Centipawns(info.score),
        r.nodes == info.nodes,
        r.nps == (if info.time == 0 {
            None
        } else {
            Some(
                if info.nodes as int * 1_000_000_000 / info.time as int <= u64::MAX {
                    (info.nodes as int * 1_000_000_000 / info.time as int) as u64
                } else {
                    u64::MAX
                },
            )
        }),
        r.time_ms == (info.time / 1_000_000) as u64,
        r.pv@.len() == info.pv@.len(),
        forall|i: int| 0 <= i < info.pv@.len() ==> #[trigger] r.pv@[i] == move_to_uci(info.pv@[i]),
{
    let mut pv: Vec<UciMove> = Vec::new();
    let mut i: usize = 0;
    while i < info.pv.len()
        invariant
            i <= info.pv@.len(),
            pv@.len() == i,
            forall|k: int| 0 <= k < i ==> #[trigger] pv@[k] == move_to_uci(info.pv@[k]),
        decreases info.pv.len() - i,
    {
        pv.push(uci_of_move(info.pv[i]));
        i += 1;
    }
    Info {
        depth: info.depth,
        seldepth: None,
        score: Score::Centipawns(info.score),
        nodes: info.nodes,
        nps: nodes_per_second(info.nodes, info.time),
        time_ms: (info.time / 1_000_000) as u64,
        pv,
    }
}

} // verus!
