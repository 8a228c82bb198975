use vstd::prelude::*;

use std::sync::atomic::AtomicBool;
use std::time::Instant;

use shakmaty::{Chess, Color, Move};

use crate::alphabeta::{
    alpha_beta, best_move_index, bounded, lemma_alpha_beta_correct, lemma_best_move_valid,
    lemma_full_window_is_minimax,
    minimax, principal_variation, best_move_window, scan, scan_choice, scan_choice_window, terminal_value, INFINITY, MATE,
    MAX_DEPTH,
};
use crate::chess::{after_move, is_check, legal_moves, legal_moves_of, play};
use crate::command::{GoParams, GoParamsView};

verus! {

#[verifier::external_type_specification]
pub struct ExColor(Color);

#[verifier::external_type_specification]
#[verifier::external_body]
pub struct ExInstant(Instant);

/// Time kept back from every budget for the delay between engine and GUI.
pub const MOVE_OVERHEAD_MILLIS: u64 = 30;

/// The number of moves that the remaining clock time is shared among when `go`
/// does not say.
pub const DEFAULT_MOVES_TO_GO: u64 = 20;

/// The search reads the stop flag and the clock only when its node count is a
/// multiple of this.
pub const CHECKPOINT_INTERVAL: u64 = 2048;

/// How far and how long a search may go; `time` is a budget in milliseconds.
#[derive(Debug, Clone, Copy)]
pub struct SearchLimits {
    pub depth: Option<u32>,
    pub nodes: Option<u64>,
    pub time: Option<u64>,
    pub infinite: bool,
}

impl Default for SearchLimits {
    fn default() -> (r: SearchLimits)
        ensures
            r.depth is None,
            r.nodes is None,
            r.time is None,
            !r.infinite,
    {
        SearchLimits { depth: None, nodes: None, time: None, infinite: false }
    }
}

/// A budget of `millis` less the overhead, and never below one millisecond.
pub open spec fn budget_millis(millis: int) -> int {
    if millis - MOVE_OVERHEAD_MILLIS >= 1 {
        millis - MOVE_OVERHEAD_MILLIS
    } else {
        1
    }
}

/// The time budget for `millis` of thinking time, in milliseconds.
pub fn budget_from_millis(millis: u64) -> (r: u64)
    ensures
        r == budget_millis(millis as int),
        1 <= r <= if millis >= 1 { millis } else { 1 },
{
    let rest = millis.saturating_sub(MOVE_OVERHEAD_MILLIS);
    if rest >= 1 {
        rest
    } else {
        1
    }
}

/// The clock time left to the side to move.
pub open spec fn remaining_of(params: GoParamsView, side: Color) -> Option<u64> {
    match side {
        Color::White => params.white_time,
        Color::Black => params.black_time,
    }
}

/// The increment of the side to move, zero when none is given.
pub open spec fn increment_of(params: GoParamsView, side: Color) -> int {
    match side {
        Color::White => match params.white_increment {
            Some(i) => i as int,
            None => 0,
        },
        Color::Black => match params.black_increment {
            Some(i) => i as int,
            None => 0,
        },
    }
}

/// The number of moves the remaining time is shared among, at least one.
pub open spec fn divisor_of(params: GoParamsView) -> int {
    match params.moves_to_go {
        Some(m) => if m >= 1 {
            m as int
        } else {
            1
        },
        None => DEFAULT_MOVES_TO_GO as int,
    }
}

/// The share of the remaining time for this move: the remaining time divided
/// among the moves to go, plus half the increment, but never more than remains.
pub open spec fn share_of(remaining: int, params: GoParamsView, side: Color) -> int {
    let raw = remaining / divisor_of(params) + increment_of(params, side) / 2;
    if raw <= remaining {
        raw
    } else {
        remaining
    }
}

/// The time budget of a `go` command for `side`, in milliseconds: none for an
/// infinite search or without a clock; from `movetime` when given; else from the
/// share of the side's remaining time.
pub open spec fn clock_budget(params: GoParamsView, side: Color) -> Option<int> {
    if params.infinite {
        None
    } else if params.move_time is Some {
        Some(budget_millis(params.move_time->0 as int))
    } else {
        match remaining_of(params, side) {
            None => None,
            Some(rem) => Some(budget_millis(share_of(rem as int, params, side))),
        }
    }
}

/// A budget is at least one millisecond, and without `movetime` it never exceeds
/// the clock time the side has left (when any is left).
pub proof fn lemma_budget_within_clock(params: GoParamsView, side: Color)
    ensures
        clock_budget(params, side) matches Some(b) ==> b >= 1,
        !params.infinite && params.move_time is None ==> (remaining_of(params, side) matches Some(rem) ==> (rem >= 1
            ==> (clock_budget(params, side) matches Some(b) && b <= rem))),
        params.infinite ==> clock_budget(params, side) is None,
{
    if let Some(rem) = remaining_of(params, side) {
        let d = divisor_of(params);
        assert(d >= 1);
        assert(rem as int / d >= 0) by (nonlinear_arith)
            requires
                d >= 1,
                rem >= 0,
        ;
        assert(increment_of(params, side) >= 0);
    }
}

/// `params` with the two sides' clocks and increments exchanged.
pub open spec fn swap_sides(params: GoParamsView) -> GoParamsView {
    GoParamsView {
        white_time: params.black_time,
        black_time: params.white_time,
        white_increment: params.black_increment,
        black_increment: params.white_increment,
        ..params
    }
}

/// Each side's budget comes from its own clock and its own increment: without
/// `infinite` or `movetime`, it is the side's remaining time divided among the
/// moves to go (20 when not given, at least one), plus half the side's
/// increment (none counts as zero), at most the remaining time, less the
/// overhead; without a clock for the side there is none.
pub proof fn lemma_budget_from_own_clock(params: GoParamsView)
    requires
        !params.infinite,
        params.move_time is None,
    ensures
        ({
            let divisor = match params.moves_to_go {
                Some(m) => if m >= 1 { m as int } else { 1 },
                None => 20,
            };
            &&& params.white_time matches Some(rem) ==> {
                let inc = match params.white_increment { Some(i) => i as int, None => 0 };
                let raw = rem as int / divisor + inc / 2;
                clock_budget(params, Color::White) == Some(budget_millis(if raw <= rem { raw } else { rem as int }))
            }
            &&& params.black_time matches Some(rem) ==> {
                let inc = match params.black_increment { Some(i) => i as int, None => 0 };
                let raw = rem as int / divisor + inc / 2;
                clock_budget(params, Color::Black) == Some(budget_millis(if raw <= rem { raw } else { rem as int }))
            }
            &&& params.white_time is None ==> clock_budget(params, Color::White) is None
            &&& params.black_time is None ==> clock_budget(params, Color::Black) is None
        }),
{
}

/// The budget does not favour a colour: exchanging the two sides' clocks and
/// increments gives Black exactly the budget White had, and White Black's.
pub proof fn lemma_budget_is_colour_blind(params: GoParamsView)
    ensures
        clock_budget(swap_sides(params), Color::Black) == clock_budget(params, Color::White),
        clock_budget(swap_sides(params), Color::White) == clock_budget(params, Color::Black),
{
}

/// A larger increment for the side to move never shrinks its budget, while the
/// other side's increment does not change it.
pub proof fn lemma_budget_follows_own_increment(params: GoParamsView, more: u64)
    requires
        params.black_increment matches Some(i) ==> i <= more,
    ensures
        clock_budget(params, Color::Black) matches Some(b) ==> clock_budget(
            GoParamsView { black_increment: Some(more), ..params },
            Color::Black,
        ) matches Some(c) && b <= c,
        clock_budget(GoParamsView { white_increment: Some(more), ..params }, Color::Black) == clock_budget(
            params,
            Color::Black,
        ),
{
    if let Some(rem) = params.black_time {
        let d = divisor_of(params);
        let inc = increment_of(params, Color::Black);
        assert(inc <= more);
        assert(inc / 2 <= more as int / 2) by (nonlinear_arith)
            requires
                0 <= inc <= more,
        ;
    }
}

/// The share is computed in `u64`: the quotient plus half the increment must fit.
pub open spec fn share_fits(params: GoParamsView, side: Color) -> bool {
    match remaining_of(params, side) {
        None => true,
        Some(rem) => rem as int / divisor_of(params) + increment_of(params, side) / 2 <= u64::MAX,
    }
}

/// Whether the share of the side's remaining time can be computed in `u64`.
pub fn share_fits_for(params: &GoParams, side: Color) -> (r: bool)
    ensures
        r == share_fits(params@, side),
{
    let (remaining, increment) = match side {
        Color::White => (params.white_time, params.white_increment),
        Color::Black => (params.black_time, params.black_increment),
    };
    let remaining = match remaining {
        Some(r) => r,
        None => {
            return true;
        },
    };
    let increment = match increment {
        Some(i) => i,
        None => 0,
    };
    let divisor: u64 = match params.moves_to_go {
        Some(m) => if m >= 1 {
            m as u64
        } else {
            1
        },
        None => DEFAULT_MOVES_TO_GO,
    };
    (remaining / divisor) as u128 + (increment / 2) as u128 <= u64::MAX as u128
}

/// The time budget of a `go` command for the side to move.
pub fn time_budget(params: &GoParams, side_to_move: Color) -> (r: Option<u64>)
    requires
        share_fits(params@, side_to_move),
    ensures
        match r {
            Some(b) => clock_budget(params@, side_to_move) == Some(b as int),
            None => clock_budget(params@, side_to_move) is None,
        },
{
    if params.infinite {
        return None;
    }
    if let Some(move_time) = params.move_time {
        return Some(budget_from_millis(move_time));
    }
    let (remaining, increment) = match side_to_move {
        Color::White => (params.white_time, params.white_increment),
        Color::Black => (params.black_time, params.black_increment),
    };
    let remaining = match remaining {
        Some(r) => r,
        None => {
            return None;
        },
    };
    let increment = match increment {
        Some(i) => i,
        None => 0,
    };
    let divisor: u64 = match params.moves_to_go {
        Some(m) => if m >= 1 {
            m as u64
        } else {
            1
        },
        None => DEFAULT_MOVES_TO_GO,
    };
    let share = remaining / divisor + increment / 2;
    let raw = if share <= remaining {
        share
    } else {
        remaining
    };
    Some(budget_from_millis(raw))
}

/// The limits of a search for a `go` command.
pub fn search_limits(params: &GoParams, side_to_move: Color) -> (r: SearchLimits)
    requires
        share_fits(params@, side_to_move),
    ensures
        r.depth == params.depth,
        r.nodes == params.nodes,
        r.infinite == params.infinite,
        match r.time {
            Some(b) => clock_budget(params@, side_to_move) == Some(b as int),
            None => clock_budget(params@, side_to_move) is None,
        },
{
    SearchLimits {
        depth: params.depth,
        nodes: params.nodes,
        time: time_budget(params, side_to_move),
        infinite: params.infinite,
    }
}

/// Nodes searched per second, rounded down and capped at `u64::MAX`; none when
/// no time has passed.
pub fn nodes_per_second(nodes: u64, elapsed_nanos: u128) -> (r: Option<u64>)
    ensures
        elapsed_nanos == 0 ==> r is None,
        elapsed_nanos > 0 ==> r == Some(
            if nodes as int * 1_000_000_000 / elapsed_nanos as int <= u64::MAX {
                (nodes as int * 1_000_000_000 / elapsed_nanos as int) as u64
            } else {
                u64::MAX
            },
        ),
{
    if elapsed_nanos == 0 {
        return None;
    }
    let rate = (nodes as u128) * 1_000_000_000 / elapsed_nanos;
    if rate <= u64::MAX as u128 {
        Some(rate as u64)
    } else {
        Some(u64::MAX)
    }
}

/// Nanoseconds since `start`, from `Instant::elapsed`; the clock decides, so
/// nothing is claimed of the value.
#[verifier::external_body]
fn elapsed_nanos(start: &Instant) -> u128 {
    start.elapsed().as_nanos()
}

/// Whether a limit set from outside the search has been reached: the stop flag
/// is set, or the deadline (nanoseconds after the start) has passed.
pub fn limit_reached(stop_flag: bool, elapsed: u128, deadline: Option<u128>) -> (r: bool)
    ensures
        r == (stop_flag || (deadline matches Some(d) && elapsed >= d)),
{
    stop_flag || match deadline {
        Some(d) => elapsed >= d,
        None => false,
    }
}

/// Whether another iteration is not worth starting: half the budget (milliseconds)
/// is spent.
pub fn budget_spent(elapsed: u128, budget: Option<u64>) -> (r: bool)
    ensures
        r == (budget matches Some(b) && elapsed * 2 >= b as int * 1_000_000),
{
    match budget {
        Some(b) => elapsed >= (b as u128) * 500_000,
        None => false,
    }
}

/// Whether a search must end: it already had to, its node count has reached the
/// node limit, or the count is a checkpoint and `external` (the stop flag or the
/// deadline, as read there) says so.
pub open spec fn abort_rule(aborted: bool, nodes: u64, node_limit: Option<u64>, external: bool) -> bool {
    aborted || (node_limit matches Some(l) && nodes >= l) || (is_checkpoint(nodes as int) && external)
}

/// Decides whether a search must end, from whether it already had to, its node
/// count and node limit, and `external`: whether the stop flag was found set or
/// the deadline passed.
pub fn abort_decision(aborted: bool, nodes: u64, node_limit: Option<u64>, external: bool) -> (r: bool)
    ensures
        r == abort_rule(aborted, nodes, node_limit, external),
{
    if aborted {
        return true;
    }
    if let Some(limit) = node_limit {
        if nodes >= limit {
            return true;
        }
    }
    nodes % CHECKPOINT_INTERVAL == 0 && external
}

/// The state of a search that decides when to give up.
pub struct Searcher<'a> {
    pub stop: &'a AtomicBool,
    pub start: Instant,
    /// Nanoseconds after `start` at which the search must end.
    pub deadline: Option<u128>,
    /// The time budget in milliseconds.
    pub budget: Option<u64>,
    pub node_limit: Option<u64>,
    pub nodes: u64,
    pub aborted: bool,
}

/// Whether a node count from `low` to `high`, both included, is a checkpoint.
pub open spec fn passes_checkpoint(low: int, high: int) -> bool {
    exists|n: int| low <= n <= high && #[trigger] is_checkpoint(n)
}

/// Whether the node count `n` is one at which the stop flag and the clock are read.
pub open spec fn is_checkpoint(n: int) -> bool {
    n % (CHECKPOINT_INTERVAL as int) == 0
}

/// A checkpoint between two counts is one between any wider pair of counts.
proof fn lemma_passes_checkpoint_widen(low: int, high: int, wide_low: int, wide_high: int)
    requires
        passes_checkpoint(low, high),
        wide_low <= low,
        high <= wide_high,
    ensures
        passes_checkpoint(wide_low, wide_high),
{
    let n = choose|n: int| low <= n <= high && #[trigger] is_checkpoint(n);
    assert(wide_low <= n <= wide_high && is_checkpoint(n));
}

impl<'a> Searcher<'a> {
    /// Whether the node count has reached the node limit.
    pub open spec fn at_node_limit(&self) -> bool {
        self.node_limit matches Some(l) && self.nodes >= l
    }

    /// A searcher that has visited no node: an infinite search has no budget.
    pub fn new(start: Instant, limits: &SearchLimits, stop: &'a AtomicBool) -> (r: Searcher<'a>)
        ensures
            r.stop == stop,
            r.start == start,
            r.budget == (if limits.infinite { None } else { limits.time }),
            match r.budget {
                Some(b) => r.deadline == Some((b as int * 1_000_000) as u128),
                None => r.deadline is None,
            },
            r.node_limit == limits.nodes,
            r.nodes == 0,
            !r.aborted,
    {
        let budget = if limits.infinite {
            None
        } else {
            limits.time
        };
        let deadline = match budget {
            Some(b) => Some((b as u128) * 1_000_000),
            None => None,
        };
        Searcher { stop, start, deadline, budget, node_limit: limits.nodes, nodes: 0, aborted: false }
    }

    /// Whether the search must end now; once it must, it stays so. The node limit
    /// ends it at once; the stop flag and the deadline are read only at
    /// checkpoints (when nothing else ends it), and `abort_decision` decides on
    /// what was read.
    pub fn should_abort(&mut self) -> (r: bool)
        ensures
            r == final(self).aborted,
            exists|external: bool| r == abort_rule(old(self).aborted, old(self).nodes, old(self).node_limit, external),
            old(self).deadline == Some(0u128) ==> r == abort_rule(old(self).aborted, old(self).nodes, old(self).node_limit, true),
            old(self).aborted ==> r,
            (old(self).node_limit matches Some(l) && old(self).nodes >= l) ==> r,
            r ==> (old(self).aborted || (old(self).node_limit matches Some(l) && old(self).nodes >= l)
                || old(self).nodes % CHECKPOINT_INTERVAL == 0),
            final(self).stop == old(self).stop,
            final(self).start == old(self).start,
            final(self).deadline == old(self).deadline,
            final(self).budget == old(self).budget,
            final(self).node_limit == old(self).node_limit,
            final(self).nodes == old(self).nodes,
    {
        let limit_hit = match self.node_limit {
            Some(limit) => self.nodes >= limit,
            None => false,
        };
        let external = !self.aborted && !limit_hit && self.nodes % CHECKPOINT_INTERVAL == 0
            && self.reached_external_limit();
        self.aborted = abort_decision(self.aborted, self.nodes, self.node_limit, external);
        self.aborted
    }

    /// Whether the stop flag is set or the deadline has passed, as read now. The
    /// flag and the clock decide; a deadline of zero has always passed.
    pub fn reached_external_limit(&self) -> (r: bool)
        ensures
            self.deadline == Some(0u128) ==> r,
    {
        let flag = self.stop.load(std::sync::atomic::Ordering::Relaxed);
        let elapsed = elapsed_nanos(&self.start);
        limit_reached(flag, elapsed, self.deadline)
    }

    /// Whether half the time budget is spent, as read now: never without a
    /// budget, always with a budget of zero; otherwise the clock decides.
    pub fn should_stop_deepening(&self) -> (r: bool)
        ensures
            self.budget is None ==> !r,
            self.budget == Some(0u64) ==> r,
    {
        let elapsed = elapsed_nanos(&self.start);
        budget_spent(elapsed, self.budget)
    }
}

/// The start of a search, from `Instant::now`.
#[verifier::external_body]
fn now() -> Instant {
    Instant::now()
}

/// What a finished iteration of the search reports; `time` is in nanoseconds.
#[derive(Debug)]
pub struct SearchInfo {
    pub depth: u32,
    pub score: i32,
    pub nodes: u64,
    pub time: u128,
    pub pv: Vec<Move>,
}

/// Whether `line` is a sequence of moves each legal where it is played, from `position` on.
pub open spec fn legal_line(position: Chess, line: Seq<Move>) -> bool
    decreases line.len(),
{
    line.len() == 0 || (legal_moves_of(position).contains(line[0]) && legal_line(
        after_move(position, line[0]),
        line.drop_first(),
    ))
}

/// The position reached by playing `line` from `position`, move by move.
pub open spec fn play_line(position: Chess, line: Seq<Move>) -> Chess
    decreases line.len(),
{
    if line.len() == 0 {
        position
    } else {
        play_line(after_move(position, line[0]), line.drop_first())
    }
}

/// The principal variation of alpha-beta search is a legal line that starts with
/// the move the search picks as best and runs `depth` moves deep: it is shorter
/// only when it ends in a position without legal moves (mate or stalemate).
pub proof fn lemma_principal_variation_shape(
    eval: spec_fn(Chess) -> int,
    position: Chess,
    depth: nat,
    ply: int,
    alpha: int,
    beta: int,
)
    requires
        bounded(eval),
        0 <= ply,
        ply + depth <= MAX_DEPTH,
        -INFINITY <= alpha < beta <= INFINITY,
    ensures
        ({
            let line = principal_variation(eval, position, depth, ply, alpha, beta);
            &&& legal_line(position, line)
            &&& line.len() <= depth
            &&& line.len() == depth || legal_moves_of(play_line(position, line)).len() == 0
            &&& depth > 0 && legal_moves_of(position).len() > 0 ==> line.len() >= 1 && line[0]
                == legal_moves_of(position)[best_move_index(eval, position, depth, ply, alpha, beta)]
        }),
    decreases depth,
{
    let line = principal_variation(eval, position, depth, ply, alpha, beta);
    if depth > 0 && legal_moves_of(position).len() > 0 {
        lemma_best_move_valid(eval, position, depth, ply, alpha, beta);
        let k = best_move_index(eval, position, depth, ply, alpha, beta);
        let w = best_move_window(eval, position, depth, ply, alpha, beta);
        let m = legal_moves_of(position)[k];
        let child = after_move(position, m);
        lemma_principal_variation_shape(eval, child, (depth - 1) as nat, ply + 1, -beta, -w);
        let tail = principal_variation(eval, child, (depth - 1) as nat, ply + 1, -beta, -w);
        assert(line == seq![m] + tail);
        assert(line.drop_first() == tail);
        assert(line[0] == m);
        assert(legal_moves_of(position).contains(m));
    }
}

/// The principal variation of a position with legal moves, searched to a depth
/// above zero, is the move the search picks followed by the principal variation
/// that the search of that move's child found.
pub proof fn lemma_principal_variation_extends_child(
    eval: spec_fn(Chess) -> int,
    position: Chess,
    depth: nat,
    ply: int,
    alpha: int,
    beta: int,
)
    requires
        depth > 0,
        legal_moves_of(position).len() > 0,
    ensures
        ({
            let m = legal_moves_of(position)[best_move_index(eval, position, depth, ply, alpha, beta)];
            let w = best_move_window(eval, position, depth, ply, alpha, beta);
            principal_variation(eval, position, depth, ply, alpha, beta) == seq![m] + principal_variation(
                eval,
                after_move(position, m),
                (depth - 1) as nat,
                ply + 1,
                -beta,
                -w,
            )
        }),
{
}

/// The closure `evaluate` computes `eval`: it accepts every position and returns `eval` of it.
pub open spec fn evaluates<E: Fn(&Chess) -> i32>(evaluate: E, eval: spec_fn(Chess) -> int) -> bool {
    &&& forall|q: &Chess| call_requires(evaluate, (q,))
    &&& forall|q: &Chess, v: i32| call_ensures(evaluate, (q,), v) ==> v == eval(*q)
}

/// The closure `evaluate` is a function of the position with scores strictly
/// inside `-INFINITY..INFINITY`.
pub open spec fn sound_evaluation<E: Fn(&Chess) -> i32>(evaluate: E) -> bool {
    exists|eval: spec_fn(Chess) -> int| evaluates(evaluate, eval) && bounded(eval)
}

/// The evaluation function that a sound closure computes.
pub open spec fn evaluation_of<E: Fn(&Chess) -> i32>(evaluate: E) -> spec_fn(Chess) -> int {
    choose|eval: spec_fn(Chess) -> int| evaluates(evaluate, eval) && bounded(eval)
}

/// The score of a position without legal moves.
pub fn terminal_score(position: &Chess, ply: u32) -> (r: i32)
    requires
        ply <= MAX_DEPTH,
    ensures
        r == terminal_value(*position, ply as int),
{
    if is_check(position) {
        -MATE + ply as i32
    } else {
        0
    }
}

/// Makes `pv` the line `head` followed by `tail`.
pub fn extend_principal_variation(pv: &mut Vec<Move>, head: Move, tail: &Vec<Move>)
    ensures
        final(pv)@ == seq![head] + tail@,
{
    pv.clear();
    pv.push(head);
    let mut i: usize = 0;
    while i < tail.len()
        invariant
            i <= tail@.len(),
            pv@ == seq![head] + tail@.take(i as int),
        decreases tail.len() - i,
    {
        assert(tail@.take(i + 1) == tail@.take(i as int).push(tail@[i as int]));
        pv.push(tail[i]);
        i += 1;
    }
    assert(tail@.take(i as int) == tail@);
}

impl<'a> Searcher<'a> {
    /// Alpha-beta search of `position` to `depth` in the window `alpha..beta`,
    /// counting the nodes it visits. Unless the search was aborted, the result is
    /// `alpha_beta` of the position and `pv` holds its principal variation: the
    /// move kept as best followed by the variation its child's search returned. A search that
    /// was already aborted, or starts at the node limit, returns 0 and leaves `pv`
    /// and the count alone; one that aborts on its way was stopped by the node limit
    /// or at a checkpoint. The count never grows past the node limit, and a leaf
    /// (depth 0, or no legal move) adds nothing to it.
    fn negamax<E: Fn(&Chess) -> i32>(
        &mut self,
        position: &Chess,
        depth: u32,
        ply: u32,
        alpha: i32,
        beta: i32,
        pv: &mut Vec<Move>,
        evaluate: &E,
        Ghost(eval): Ghost<spec_fn(Chess) -> int>,
    ) -> (r: i32)
        requires
            evaluates(*evaluate, eval),
            bounded(eval),
            ply + depth <= MAX_DEPTH,
            -INFINITY <= alpha < beta <= INFINITY,
        ensures
            -INFINITY <= r <= INFINITY,
            old(self).aborted ==> final(self).aborted,
            old(self).aborted || old(self).at_node_limit() ==> {
                &&& final(self).aborted
                &&& r == 0
                &&& final(pv)@ == old(pv)@
                &&& final(self).nodes == old(self).nodes
            },
            old(self).nodes <= final(self).nodes,
            depth == 0 || legal_moves_of(*position).len() == 0 ==> final(self).nodes == old(self).nodes,
            !old(self).aborted && !old(self).at_node_limit() && !is_checkpoint(old(self).nodes as int) && (
            depth == 0 || legal_moves_of(*position).len() == 0) ==> !final(self).aborted,
            final(self).aborted && !old(self).aborted ==> final(self).at_node_limit() || passes_checkpoint(
                old(self).nodes as int,
                final(self).nodes as int,
            ),
            !final(self).aborted ==> !final(self).at_node_limit(),
            old(self).node_limit matches Some(l) ==> final(self).nodes <= l || final(self).nodes == old(self).nodes,
            !final(self).aborted ==> r == alpha_beta(eval, *position, depth as nat, ply as int, alpha as int, beta as int),
            !final(self).aborted ==> legal_line(*position, final(pv)@) && final(pv)@.len() <= depth,
            !final(self).aborted && legal_moves_of(*position).len() == 0 ==> final(pv)@.len() == 0,
            !final(self).aborted ==> final(pv)@ == principal_variation(eval, *position, depth as nat, ply as int, alpha as int, beta as int),
            !final(self).aborted && depth > 0 && legal_moves_of(*position).len() > 0 ==> {
                let k = best_move_index(eval, *position, depth as nat, ply as int, alpha as int, beta as int);
                &&& final(pv)@.len() > 0
                &&& 0 <= k < legal_moves_of(*position).len()
                &&& final(pv)@[0] == legal_moves_of(*position)[k]
            },
            final(self).stop == old(self).stop,
            final(self).start == old(self).start,
            final(self).deadline == old(self).deadline,
            final(self).budget == old(self).budget,
            final(self).node_limit == old(self).node_limit,
        decreases depth,
    {
        if self.should_abort() {
            proof {
                if !old(self).aborted && !self.at_node_limit() {
                    assert(is_checkpoint(self.nodes as int));
                }
            }
            return 0;
        }
        if depth == 0 {
            pv.clear();
            return evaluate(position);
        }
        let moves = legal_moves(position);
        if moves.len() == 0 {
            pv.clear();
            return terminal_score(position, ply);
        }
        let mut low = alpha;
        let mut best: i32 = -INFINITY;
        let mut child_pv: Vec<Move> = Vec::new();
        let ghost mut chosen: int = -1;
        let ghost mut chosen_low: int = alpha as int;
        let mut i: usize = 0;
        while i < moves.len()
            invariant
                i <= moves@.len(),
                moves@ == legal_moves_of(*position),
                moves@.len() > 0,
                depth > 0,
                ply + depth <= MAX_DEPTH,
                evaluates(*evaluate, eval),
                bounded(eval),
                -INFINITY <= alpha <= low < beta <= INFINITY,
                !old(self).aborted,
                !old(self).at_node_limit(),
                old(self).nodes <= self.nodes,
                -INFINITY <= best <= INFINITY,
                !self.aborted,
                !self.at_node_limit(),
                scan(eval, *position, depth as nat, ply as int, i as nat, low as int, beta as int, best as int)
                    == alpha_beta(eval, *position, depth as nat, ply as int, alpha as int, beta as int),
                scan_choice(eval, *position, depth as nat, ply as int, i as nat, low as int, beta as int, best as int, chosen)
                    == best_move_index(eval, *position, depth as nat, ply as int, alpha as int, beta as int),
                scan_choice_window(eval, *position, depth as nat, ply as int, i as nat, low as int, beta as int, best as int, chosen_low)
                    == best_move_window(eval, *position, depth as nat, ply as int, alpha as int, beta as int),
                i == 0 ==> best == -INFINITY && chosen == -1,
                i > 0 ==> legal_line(*position, pv@) && 1 <= pv@.len() <= depth,
                i > 0 ==> pv@ == seq![moves@[chosen]] + principal_variation(
                    eval,
                    after_move(*position, moves@[chosen]),
                    (depth - 1) as nat,
                    ply + 1,
                    -beta,
                    -chosen_low,
                ),
                i > 0 ==> 0 <= chosen < i && pv@[0] == moves@[chosen],
                self.stop == old(self).stop,
                self.start == old(self).start,
                self.deadline == old(self).deadline,
                self.budget == old(self).budget,
                self.node_limit == old(self).node_limit,
            decreases moves.len() - i,
        {
            let m = moves[i];
            assert(legal_moves_of(*position).contains(m)) by {
                assert(legal_moves_of(*position)[i as int] == m);
            }
            let child = play(position, m);
            self.nodes = self.nodes.saturating_add(1);
            let ghost entry = self.nodes;
            let child_score = self.negamax(&child, depth - 1, ply + 1, -beta, -low, &mut child_pv, evaluate, Ghost(eval));
            if self.aborted {
                proof {
                    if !self.at_node_limit() {
                        lemma_passes_checkpoint_widen(entry as int, self.nodes as int, old(self).nodes as int, self.nodes as int);
                    }
                }
                return best;
            }
            proof {
                lemma_alpha_beta_correct(eval, child, (depth - 1) as nat, (ply + 1) as int, -beta as int, -low as int);
            }
            let score = -child_score;
            if score > best {
                best = score;
                extend_principal_variation(pv, m, &child_pv);
                assert((seq![m] + child_pv@).drop_first() == child_pv@);
                proof {
                    chosen = i as int;
                    chosen_low = low as int;
                }
            }
            if score > low {
                low = score;
            }
            if low >= beta {
                return best;
            }
            i += 1;
        }
        best
    }
}

/// The deepest iteration a search within `limits` may run: the depth limit, but
/// never beyond `MAX_DEPTH`.
pub open spec fn depth_cap(limits: SearchLimits) -> int {
    match limits.depth {
        Some(d) => if d < MAX_DEPTH {
            d as int
        } else {
            MAX_DEPTH as int
        },
        None => MAX_DEPTH as int,
    }
}

/// Searches `position` deeper and deeper, within the limits, until the search is
/// stopped, the depth limit is reached or half the time budget is spent. Each
/// finished iteration is added to `report` with its depth, its score (the
/// negamax score at that depth) and its principal variation: the best move
/// followed by the variation found below it, as deep as the iteration unless it
/// ends in mate or stalemate. The result is
/// the first move of the deepest finished iteration's variation, else the first
/// legal move; there is one exactly when the position has a legal move. There
/// are at most as many iterations as the depth limit allows, and the node counts
/// they report grow and stay below the node limit.
pub fn search<E: Fn(&Chess) -> i32>(
    position: &Chess,
    limits: &SearchLimits,
    stop: &AtomicBool,
    evaluate: &E,
    report: &mut Vec<SearchInfo>,
) -> (r: Option<Move>)
    requires
        sound_evaluation(*evaluate),
    ensures
        r is Some <==> legal_moves_of(*position).len() > 0,
        r matches Some(m) ==> legal_moves_of(*position).contains(m),
        r == (if final(report)@.len() > old(report)@.len() && final(report)@.last().pv@.len() > 0 {
            Some(final(report)@.last().pv@[0])
        } else if legal_moves_of(*position).len() > 0 {
            Some(legal_moves_of(*position)[0])
        } else {
            None
        }),
        old(report)@.len() <= final(report)@.len(),
        final(report)@.len() - old(report)@.len() <= depth_cap(*limits),
        final(report)@.subrange(0, old(report)@.len() as int) == old(report)@,
        forall|j: int, k: int|
            old(report)@.len() <= j < k < final(report)@.len() ==> #[trigger] final(report)@[j].nodes
                <= #[trigger] final(report)@[k].nodes,
        forall|k: int|
            old(report)@.len() <= k < final(report)@.len() ==> {
                let info = #[trigger] final(report)@[k];
                &&& info.depth == k - old(report)@.len() + 1
                &&& info.depth <= MAX_DEPTH
                &&& limits.nodes matches Some(l) ==> info.nodes < l
                &&& info.score == minimax(evaluation_of(*evaluate), *position, info.depth as nat, 0)
                &&& legal_line(*position, info.pv@)
                &&& info.pv@ == principal_variation(evaluation_of(*evaluate), *position, info.depth as nat, 0, -INFINITY as int, INFINITY as int)
                &&& info.pv@.len() == info.depth || legal_moves_of(play_line(*position, info.pv@)).len() == 0
                &&& legal_moves_of(*position).len() > 0 ==> info.pv@.len() > 0 && info.pv@[0]
                    == legal_moves_of(*position)[best_move_index(
                    evaluation_of(*evaluate),
                    *position,
                    info.depth as nat,
                    0,
                    -INFINITY as int,
                    INFINITY as int,
                )]
            },
{
    let ghost eval = evaluation_of(*evaluate);
    let ghost base = report@.len();
    let start = now();
    let mut searcher = Searcher::new(start, limits, stop);
    let mut best_move: Option<Move> = None;
    let max_depth: u32 = match limits.depth {
        Some(d) => if d < MAX_DEPTH {
            d
        } else {
            MAX_DEPTH
        },
        None => MAX_DEPTH,
    };
    let mut depth: u32 = 1;
    while depth <= max_depth
        invariant
            1 <= depth <= max_depth + 1,
            max_depth <= MAX_DEPTH,
            evaluates(*evaluate, eval),
            bounded(eval),
            best_move matches Some(m) ==> legal_moves_of(*position).contains(m),
            max_depth == depth_cap(*limits),
            searcher.node_limit == limits.nodes,
            base <= report@.len(),
            report@.len() - base <= max_depth,
            report@.subrange(0, base as int) == old(report)@,
            report@.len() - base == depth - 1 || depth == max_depth + 1,
            forall|j: int, k: int|
                base <= j < k < report@.len() ==> #[trigger] report@[j].nodes <= #[trigger] report@[k].nodes,
            forall|k: int| base <= k < report@.len() ==> #[trigger] report@[k].nodes <= searcher.nodes,
            forall|k: int|
                base <= k < report@.len() ==> {
                    let info = #[trigger] report@[k];
                    &&& info.depth == k - base + 1
                    &&& info.depth <= MAX_DEPTH
                    &&& limits.nodes matches Some(l) ==> info.nodes < l
                    &&& info.score == minimax(eval, *position, info.depth as nat, 0)
                    &&& legal_line(*position, info.pv@)
                    &&& info.pv@ == principal_variation(eval, *position, info.depth as nat, 0, -INFINITY as int, INFINITY as int)
                    &&& info.pv@.len() == info.depth || legal_moves_of(play_line(*position, info.pv@)).len() == 0
                    &&& legal_moves_of(*position).len() > 0 ==> info.pv@.len() > 0 && info.pv@[0]
                        == legal_moves_of(*position)[best_move_index(
                        eval,
                        *position,
                        info.depth as nat,
                        0,
                        -INFINITY as int,
                        INFINITY as int,
                    )]
                },
            best_move == (if report@.len() > base && report@.last().pv@.len() > 0 {
                Some(report@.last().pv@[0])
            } else {
                None::<Move>
            }),
        decreases max_depth + 1 - depth,
    {
        let mut pv: Vec<Move> = Vec::new();
        let score = searcher.negamax(position, depth, 0, -INFINITY, INFINITY, &mut pv, evaluate, Ghost(eval));
        if searcher.aborted {
            depth = max_depth + 1;
        } else {
            proof {
                lemma_full_window_is_minimax(eval, *position, depth as nat);
                lemma_principal_variation_shape(eval, *position, depth as nat, 0, -INFINITY as int, INFINITY as int);
            }
            best_move = if pv.len() > 0 {
                Some(pv[0])
            } else {
                None
            };
            assert(legal_moves_of(*position).len() > 0 ==> pv@.len() > 0);
            let ghost before = report@;
            let nodes = searcher.nodes;
            let time = elapsed_nanos(&start);
            report.push(SearchInfo { depth, score, nodes, time, pv });
            assert(report@.subrange(0, base as int) == before.subrange(0, base as int));
            if searcher.should_stop_deepening() {
                depth = max_depth + 1;
            } else {
                depth += 1;
            }
        }
    }
    assert(best_move matches Some(m) ==> legal_moves_of(*position).contains(m));
    match best_move {
        Some(m) => Some(m),
        None => {
            let moves = legal_moves(position);
            if moves.len() > 0 {
                assert(legal_moves_of(*position)[0] == moves[0]);
                Some(moves[0])
            } else {
                None
            }
        },
    }
}

} // verus!
