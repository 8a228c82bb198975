use vstd::prelude::*;

use shakmaty::{Chess, Move};

use crate::chess::{after_move, in_check, legal_moves_of};

verus! {

/// A score beyond any that a position can have.
pub const INFINITY: i32 = 30_000;

/// The score of being mated now; a mate `ply` half-moves away scores `ply` more.
pub const MATE: i32 = 29_000;

/// The deepest search.
pub const MAX_DEPTH: u32 = 64;

/// The score of a position without legal moves, `ply` half-moves from the root:
/// mated when in check, a draw otherwise.
pub open spec fn terminal_value(position: Chess, ply: int) -> int {
    if in_check(position) {
        -MATE + ply
    } else {
        0
    }
}

/// The score from the side to move's point of view `depth` half-moves deep: the
/// static evaluation at depth zero, the terminal score without moves, and
/// otherwise the best of the children's scores negated.
pub open spec fn minimax(eval: spec_fn(Chess) -> int, position: Chess, depth: nat, ply: int) -> int
    decreases depth, 1nat, 0nat,
{
    if depth == 0 {
        eval(position)
    } else if legal_moves_of(position).len() == 0 {
        terminal_value(position, ply)
    } else {
        best_child(eval, position, depth, ply, legal_moves_of(position).len())
    }
}

/// The best negated score among the first `n` children, and `-INFINITY` for none.
pub open spec fn best_child(eval: spec_fn(Chess) -> int, position: Chess, depth: nat, ply: int, n: nat) -> int
    decreases depth, 0nat, n,
{
    if n == 0 || depth == 0 || n > legal_moves_of(position).len() {
        -INFINITY as int
    } else {
        let rest = best_child(eval, position, depth, ply, (n - 1) as nat);
        let score = -minimax(
            eval,
            after_move(position, legal_moves_of(position)[n - 1]),
            (depth - 1) as nat,
            ply + 1,
        );
        if score > rest {
            score
        } else {
            rest
        }
    }
}

/// Alpha-beta search in the window `alpha..beta`, as `negamax` performs it: the
/// moves in order, each child searched in the window `-beta..-alpha`, the best
/// score kept, `alpha` raised to it, and the rest skipped once `alpha >= beta`.
pub open spec fn alpha_beta(eval: spec_fn(Chess) -> int, position: Chess, depth: nat, ply: int, alpha: int, beta: int) -> int
    decreases depth, 1nat, 0nat,
{
    if depth == 0 {
        eval(position)
    } else if legal_moves_of(position).len() == 0 {
        terminal_value(position, ply)
    } else {
        scan(eval, position, depth, ply, 0, alpha, beta, -INFINITY as int)
    }
}

/// The alpha-beta loop from move `i` on, with the window's lower end at `alpha`
/// and the best score so far `best`.
pub open spec fn scan(eval: spec_fn(Chess) -> int, position: Chess, depth: nat, ply: int, i: nat, alpha: int, beta: int, best: int) -> int
    decreases depth, 0nat, legal_moves_of(position).len() - i,
{
    if depth == 0 || i >= legal_moves_of(position).len() {
        best
    } else {
        let score = -alpha_beta(
            eval,
            after_move(position, legal_moves_of(position)[i as int]),
            (depth - 1) as nat,
            ply + 1,
            -beta,
            -alpha,
        );
        let new_best = if score > best {
            score
        } else {
            best
        };
        let new_alpha = if score > alpha {
            score
        } else {
            alpha
        };
        if new_alpha >= beta {
            new_best
        } else {
            scan(eval, position, depth, ply, i + 1, new_alpha, beta, new_best)
        }
    }
}

/// The index of the move whose score the alpha-beta loop from move `i` on keeps
/// as its best: the first move that raises the best score last; `chosen` is the
/// one kept so far.
pub open spec fn scan_choice(
    eval: spec_fn(Chess) -> int,
    position: Chess,
    depth: nat,
    ply: int,
    i: nat,
    alpha: int,
    beta: int,
    best: int,
    chosen: int,
) -> int
    decreases legal_moves_of(position).len() - i,
{
    if depth == 0 || i >= legal_moves_of(position).len() {
        chosen
    } else {
        let score = -alpha_beta(
            eval,
            after_move(position, legal_moves_of(position)[i as int]),
            (depth - 1) as nat,
            ply + 1,
            -beta,
            -alpha,
        );
        let new_best = if score > best {
            score
        } else {
            best
        };
        let new_chosen = if score > best {
            i as int
        } else {
            chosen
        };
        let new_alpha = if score > alpha {
            score
        } else {
            alpha
        };
        if new_alpha >= beta {
            new_chosen
        } else {
            scan_choice(eval, position, depth, ply, i + 1, new_alpha, beta, new_best, new_chosen)
        }
    }
}

/// The index, among the legal moves, of the move that alpha-beta search picks
/// as best in the window `alpha..beta`.
pub open spec fn best_move_index(eval: spec_fn(Chess) -> int, position: Chess, depth: nat, ply: int, alpha: int, beta: int) -> int {
    scan_choice(eval, position, depth, ply, 0, alpha, beta, -INFINITY as int, -1)
}

/// The lower end of the window in which the alpha-beta loop from move `i` on
/// searched the move it keeps as its best; `window` is that of the move kept so
/// far.
pub open spec fn scan_choice_window(
    eval: spec_fn(Chess) -> int,
    position: Chess,
    depth: nat,
    ply: int,
    i: nat,
    alpha: int,
    beta: int,
    best: int,
    window: int,
) -> int
    decreases legal_moves_of(position).len() - i,
{
    if depth == 0 || i >= legal_moves_of(position).len() {
        window
    } else {
        let score = -alpha_beta(
            eval,
            after_move(position, legal_moves_of(position)[i as int]),
            (depth - 1) as nat,
            ply + 1,
            -beta,
            -alpha,
        );
        let new_best = if score > best {
            score
        } else {
            best
        };
        let new_window = if score > best {
            alpha
        } else {
            window
        };
        let new_alpha = if score > alpha {
            score
        } else {
            alpha
        };
        if new_alpha >= beta {
            new_window
        } else {
            scan_choice_window(eval, position, depth, ply, i + 1, new_alpha, beta, new_best, new_window)
        }
    }
}

/// The lower end of the window in which alpha-beta search in the window
/// `alpha..beta` searched the move it picks as best.
pub open spec fn best_move_window(eval: spec_fn(Chess) -> int, position: Chess, depth: nat, ply: int, alpha: int, beta: int) -> int {
    scan_choice_window(eval, position, depth, ply, 0, alpha, beta, -INFINITY as int, alpha)
}

/// The principal variation of alpha-beta search in the window `alpha..beta`:
/// nothing at depth zero or without moves, else the move it picks as best
/// followed by the principal variation of the search of that move's child, in
/// the window that child was searched in.
pub open spec fn principal_variation(
    eval: spec_fn(Chess) -> int,
    position: Chess,
    depth: nat,
    ply: int,
    alpha: int,
    beta: int,
) -> Seq<Move>
    decreases depth,
{
    if depth == 0 || legal_moves_of(position).len() == 0 {
        seq![]
    } else {
        let m = legal_moves_of(position)[best_move_index(eval, position, depth, ply, alpha, beta)];
        let w = best_move_window(eval, position, depth, ply, alpha, beta);
        seq![m] + principal_variation(eval, after_move(position, m), (depth - 1) as nat, ply + 1, -beta, -w)
    }
}

/// The alpha-beta loop from move `i` on, entered with a valid choice so far,
/// keeps a move among the legal ones, searched in a window whose lower end lies
/// in `alpha..beta`.
proof fn lemma_scan_choice_valid(
    eval: spec_fn(Chess) -> int,
    position: Chess,
    depth: nat,
    ply: int,
    i: nat,
    low: int,
    beta: int,
    best: int,
    chosen: int,
    window: int,
    alpha: int,
)
    requires
        bounded(eval),
        0 <= ply,
        ply + depth <= MAX_DEPTH,
        depth > 0,
        i <= legal_moves_of(position).len(),
        legal_moves_of(position).len() > 0,
        -INFINITY <= alpha <= low < beta <= INFINITY,
        i == 0 ==> best == -INFINITY,
        i > 0 ==> 0 <= chosen < i && alpha <= window < beta,
    ensures
        0 <= scan_choice(eval, position, depth, ply, i, low, beta, best, chosen) < legal_moves_of(position).len(),
        alpha <= scan_choice_window(eval, position, depth, ply, i, low, beta, best, window) < beta,
    decreases legal_moves_of(position).len() - i,
{
    let n = legal_moves_of(position).len();
    if i < n {
        let child = after_move(position, legal_moves_of(position)[i as int]);
        lemma_alpha_beta_correct(eval, child, (depth - 1) as nat, ply + 1, -beta, -low);
        let score = -alpha_beta(eval, child, (depth - 1) as nat, ply + 1, -beta, -low);
        let new_best = if score > best { score } else { best };
        let new_chosen = if score > best { i as int } else { chosen };
        let new_window = if score > best { low } else { window };
        let new_alpha = if score > low { score } else { low };
        if new_alpha < beta {
            lemma_scan_choice_valid(eval, position, depth, ply, i + 1, new_alpha, beta, new_best, new_chosen, new_window, alpha);
        }
    }
}

/// The move that alpha-beta search picks as best is a legal move, and it was
/// searched in a window whose lower end lies in `alpha..beta`.
pub proof fn lemma_best_move_valid(eval: spec_fn(Chess) -> int, position: Chess, depth: nat, ply: int, alpha: int, beta: int)
    requires
        bounded(eval),
        0 <= ply,
        ply + depth <= MAX_DEPTH,
        depth > 0,
        legal_moves_of(position).len() > 0,
        -INFINITY <= alpha < beta <= INFINITY,
    ensures
        0 <= best_move_index(eval, position, depth, ply, alpha, beta) < legal_moves_of(position).len(),
        alpha <= best_move_window(eval, position, depth, ply, alpha, beta) < beta,
{
    lemma_scan_choice_valid(eval, position, depth, ply, 0, alpha, beta, -INFINITY as int, -1, alpha, alpha);
}

/// Every static evaluation lies strictly between `-INFINITY` and `INFINITY`.
pub open spec fn bounded(eval: spec_fn(Chess) -> int) -> bool {
    forall|q: Chess| -INFINITY < #[trigger] eval(q) < INFINITY
}

/// Scores stay strictly inside `-INFINITY..INFINITY`.
pub proof fn lemma_minimax_bounds(eval: spec_fn(Chess) -> int, position: Chess, depth: nat, ply: int)
    requires
        bounded(eval),
        0 <= ply,
        ply + depth <= MAX_DEPTH,
    ensures
        -INFINITY < minimax(eval, position, depth, ply) < INFINITY,
    decreases depth, 1nat, 0nat,
{
    if depth > 0 && legal_moves_of(position).len() > 0 {
        lemma_best_child_bounds(eval, position, depth, ply, legal_moves_of(position).len());
    }
}

/// The best of `n >= 1` children lies strictly inside `-INFINITY..INFINITY`.
pub proof fn lemma_best_child_bounds(eval: spec_fn(Chess) -> int, position: Chess, depth: nat, ply: int, n: nat)
    requires
        bounded(eval),
        0 <= ply,
        ply + depth <= MAX_DEPTH,
        depth > 0,
        1 <= n <= legal_moves_of(position).len(),
    ensures
        -INFINITY < best_child(eval, position, depth, ply, n) < INFINITY,
    decreases depth, 0nat, n,
{
    lemma_minimax_bounds(
        eval,
        after_move(position, legal_moves_of(position)[n - 1]),
        (depth - 1) as nat,
        ply + 1,
    );
    if n > 1 {
        lemma_best_child_bounds(eval, position, depth, ply, (n - 1) as nat);
    } else {
        assert(best_child(eval, position, depth, ply, 0) == -INFINITY as int);
    }
}

/// The best of more children is at least the best of fewer.
pub proof fn lemma_best_child_monotone(eval: spec_fn(Chess) -> int, position: Chess, depth: nat, ply: int, k: nat, n: nat)
    requires
        k <= n <= legal_moves_of(position).len(),
    ensures
        best_child(eval, position, depth, ply, k) <= best_child(eval, position, depth, ply, n),
    decreases n - k,
{
    if k < n {
        lemma_best_child_monotone(eval, position, depth, ply, k, (n - 1) as nat);
    }
}

/// Alpha-beta search is exact inside its window and bounds the true score
/// outside it (fail-soft): a result at or below `alpha` is an upper bound, one
/// at or above `beta` a lower bound, and one strictly between is the score.
pub proof fn lemma_alpha_beta_correct(eval: spec_fn(Chess) -> int, position: Chess, depth: nat, ply: int, alpha: int, beta: int)
    requires
        bounded(eval),
        0 <= ply,
        ply + depth <= MAX_DEPTH,
        -INFINITY <= alpha < beta <= INFINITY,
    ensures
        -INFINITY < alpha_beta(eval, position, depth, ply, alpha, beta) < INFINITY,
        alpha_beta(eval, position, depth, ply, alpha, beta) <= alpha ==> minimax(eval, position, depth, ply)
            <= alpha_beta(eval, position, depth, ply, alpha, beta),
        alpha_beta(eval, position, depth, ply, alpha, beta) >= beta ==> minimax(eval, position, depth, ply)
            >= alpha_beta(eval, position, depth, ply, alpha, beta),
        alpha < alpha_beta(eval, position, depth, ply, alpha, beta) < beta ==> minimax(eval, position, depth, ply)
            == alpha_beta(eval, position, depth, ply, alpha, beta),
    decreases depth, 1nat, 0nat,
{
    if depth > 0 && legal_moves_of(position).len() > 0 {
        assert(best_child(eval, position, depth, ply, 0) == -INFINITY as int);
        lemma_scan_correct(eval, position, depth, ply, 0, alpha, beta, -INFINITY as int, alpha);
    }
}

/// The alpha-beta loop, entered at move `i` with the best score `best` and the
/// window's lower end `alpha_i` raised from `alpha` by the scores seen, keeps
/// the bounds of `lemma_alpha_beta_correct` for the node.
proof fn lemma_scan_correct(
    eval: spec_fn(Chess) -> int,
    position: Chess,
    depth: nat,
    ply: int,
    i: nat,
    alpha_i: int,
    beta: int,
    best: int,
    alpha: int,
)
    requires
        bounded(eval),
        0 <= ply,
        ply + depth <= MAX_DEPTH,
        depth > 0,
        i <= legal_moves_of(position).len(),
        legal_moves_of(position).len() > 0,
        -INFINITY <= alpha <= alpha_i < beta <= INFINITY,
        alpha_i == (if best > alpha { best } else { alpha }),
        i == 0 ==> best == -INFINITY,
        i > 0 ==> -INFINITY < best < INFINITY,
        best_child(eval, position, depth, ply, i) <= best,
        best > alpha ==> best_child(eval, position, depth, ply, i) >= best,
    ensures
        ({
            let r = scan(eval, position, depth, ply, i, alpha_i, beta, best);
            let v = best_child(eval, position, depth, ply, legal_moves_of(position).len());
            &&& -INFINITY < r < INFINITY
            &&& r <= alpha ==> v <= r
            &&& r >= beta ==> v >= r
            &&& alpha < r < beta ==> v == r
        }),
    decreases depth, 0nat, legal_moves_of(position).len() - i,
{
    let n = legal_moves_of(position).len();
    if i < n {
        let child = after_move(position, legal_moves_of(position)[i as int]);
        lemma_alpha_beta_correct(eval, child, (depth - 1) as nat, ply + 1, -beta, -alpha_i);
        lemma_minimax_bounds(eval, child, (depth - 1) as nat, ply + 1);
        let rc = alpha_beta(eval, child, (depth - 1) as nat, ply + 1, -beta, -alpha_i);
        let uc = minimax(eval, child, (depth - 1) as nat, ply + 1);
        let score = -rc;
        let new_best = if score > best { score } else { best };
        let new_alpha = if score > alpha_i { score } else { alpha_i };
        assert(best_child(eval, position, depth, ply, i + 1) == (if -uc > best_child(eval, position, depth, ply, i) {
            -uc
        } else {
            best_child(eval, position, depth, ply, i)
        }));
        if new_alpha >= beta {
            lemma_best_child_monotone(eval, position, depth, ply, i + 1, n);
        } else {
            lemma_scan_correct(eval, position, depth, ply, i + 1, new_alpha, beta, new_best, alpha);
        }
    }
}

/// With the full window, alpha-beta search finds the negamax score.
pub proof fn lemma_full_window_is_minimax(eval: spec_fn(Chess) -> int, position: Chess, depth: nat)
    requires
        bounded(eval),
        depth <= MAX_DEPTH,
    ensures
        alpha_beta(eval, position, depth, 0, -INFINITY as int, INFINITY as int) == minimax(eval, position, depth, 0),
        -INFINITY < minimax(eval, position, depth, 0) < INFINITY,
{
    lemma_alpha_beta_correct(eval, position, depth, 0, -INFINITY as int, INFINITY as int);
    lemma_minimax_bounds(eval, position, depth, 0);
}

} // verus!
