//! Depth-bounded negamax: exhaustive adversarial search over the generated
//! moves, negating and propagating the best child score one ply at a time,
//! with the static evaluator at the leaves and actual win detection
//! dominating every heuristic score. The chosen move is pinned to a spec
//! function of the snapshot and the depth alone, so repeated searches of one
//! state at one depth return the same move.

use vstd::prelude::*;

use crate::eval::{evaluate, lemma_eval_bound};
use crate::game::{
    lemma_gen_moves_valid, lemma_square_bounds, lemma_step_wf, Game, GameView, Move,
};

verus! {

/// A terminal score that dominates every static evaluation a well-formed
/// board can produce.
pub const WIN_SCORE: i64 = 100_000_000_000;

/// The negamax value of `v` with `d` plies of search left, from the
/// viewpoint of the player about to move. A finished game scores as a loss
/// for the mover (the previous player just won or filled the board); a
/// depth-exhausted or move-less state scores statically; otherwise the value
/// is the best negated child value.
pub open spec fn nm_value(v: GameView, d: nat) -> int
    decreases 2 * d + 1, 0int,
{
    if v.game_over {
        -(WIN_SCORE as int)
    } else if d == 0 {
        v.eval_score()
    } else {
        let ms = v.gen_moves();
        if ms.len() == 0 {
            v.eval_score()
        } else {
            nm_scan(v, ms, ms.len() as int, (d - 1) as nat).0
        }
    }
}

/// The best score, and the first move attaining it, among the first `i`
/// moves of `ms`, each scored as the negated value of the state it leads to
/// at depth `d`.
pub open spec fn nm_scan(v: GameView, ms: Seq<Move>, i: int, d: nat) -> (int, Move)
    decreases 2 * d + 2, i,
{
    if i <= 1 {
        (-nm_value(v.step(ms[0]), d), ms[0])
    } else {
        let prev = nm_scan(v, ms, i - 1, d);
        let sc = -nm_value(v.step(ms[i - 1]), d);
        if sc > prev.0 {
            (sc, ms[i - 1])
        } else {
            prev
        }
    }
}

/// The move a depth-`d` negamax search of `v` settles on: the first
/// generated move with the maximal negated child value, or `None` when no
/// move can be generated.
pub open spec fn nm_choose(v: GameView, d: nat) -> Option<Move>
    recommends
        d >= 1,
{
    let ms = v.gen_moves();
    if ms.len() == 0 {
        None
    } else {
        Some(nm_scan(v, ms, ms.len() as int, (d - 1) as nat).1)
    }
}

/// Negamax values stay within the terminal score's magnitude.
pub proof fn lemma_nm_value_bound(v: GameView, d: nat)
    requires
        v.wf(),
    ensures
        -WIN_SCORE <= nm_value(v, d) <= WIN_SCORE,
    decreases 2 * d + 1, 0int,
{
    if !v.game_over && d > 0 && v.gen_moves().len() > 0 {
        lemma_gen_moves_valid(v);
        lemma_nm_scan_bound(v, v.gen_moves(), v.gen_moves().len() as int, (d - 1) as nat);
    } else if !v.game_over {
        lemma_square_bounds(v.board.size as int);
        lemma_eval_bound(v);
    }
}

/// A scan's best score is bounded and its best move is one of the scanned
/// moves.
pub proof fn lemma_nm_scan_bound(v: GameView, ms: Seq<Move>, i: int, d: nat)
    requires
        v.wf(),
        1 <= i <= ms.len(),
        forall|t: int| 0 <= t < ms.len() ==> v.is_valid(#[trigger] ms[t]),
    ensures
        -WIN_SCORE <= nm_scan(v, ms, i, d).0 <= WIN_SCORE,
        ms.contains(nm_scan(v, ms, i, d).1),
    decreases 2 * d + 2, i,
{
    lemma_step_wf(v, ms[i - 1]);
    lemma_nm_value_bound(v.step(ms[i - 1]), d);
    if i <= 1 {
        assert(ms[0] == nm_scan(v, ms, i, d).1 || ms.contains(nm_scan(v, ms, i, d).1));
    } else {
        lemma_nm_scan_bound(v, ms, i - 1, d);
    }
}

/// The move a search settles on is a generated, valid move, and one exists
/// exactly when the game offers any move at all.
pub proof fn lemma_nm_choose_valid(v: GameView, d: nat)
    requires
        v.wf(),
    ensures
        nm_choose(v, d) matches Some(m) ==> v.gen_moves().contains(m) && v.is_valid(m),
        (nm_choose(v, d) is Some) <==> v.gen_moves().len() > 0,
{
    let ms = v.gen_moves();
    lemma_gen_moves_valid(v);
    if ms.len() > 0 {
        lemma_nm_scan_bound(v, ms, ms.len() as int, (d - 1) as nat);
        let m = nm_scan(v, ms, ms.len() as int, (d - 1) as nat).1;
        let j = choose|j: int| 0 <= j < ms.len() && ms[j] == m;
    }
}

/// The negamax value of a snapshot, computed to the given remaining depth.
#[verifier::rlimit(60)]
#[verifier::spinoff_prover]
pub fn negamax_value(game: &Game, depth: u8) -> (r: i64)
    requires
        game@.wf(),
    ensures
        r == nm_value(game@, depth as nat),
    decreases depth,
{
    let ghost v = game@;
    if game.game_over {
        return -WIN_SCORE;
    }
    if depth == 0 {
        return evaluate(game);
    }
    let moves = game.generate_moves();
    if moves.len() == 0 {
        return evaluate(game);
    }
    let ghost ms = moves@;
    let ghost d = (depth - 1) as nat;
    let mut child = game.clone();
    proof {
        assert(v.is_valid(ms[0]));
    }
    let _applied = child.apply_move(moves[0]);
    proof {
        lemma_step_wf(v, ms[0]);
        lemma_nm_value_bound(v.step(ms[0]), d);
    }
    let s0 = negamax_value(&child, depth - 1);
    let mut best: i64 = -s0;
    let mut i: usize = 1;
    while i < moves.len()
        invariant
            1 <= i <= ms.len(),
            best == nm_scan(v, ms, i as int, d).0,
        decreases ms.len() - i,
    {
        let mut child = game.clone();
        proof {
            assert(v.is_valid(ms[i as int]));
        }
        let _applied = child.apply_move(moves[i]);
        proof {
            lemma_step_wf(v, ms[i as int]);
            lemma_nm_value_bound(v.step(ms[i as int]), d);
            lemma_nm_scan_bound(v, ms, i as int, d);
        }
        let s = negamax_value(&child, depth - 1);
        let sc = -s;
        if sc > best {
            best = sc;
        }
        i = i + 1;
    }
    best
}

/// The move a depth-bounded negamax search settles on for this snapshot:
/// the first generated move with the best negated child value. The result
/// is a function of the snapshot and the depth alone, so repeated searches
/// agree; it is `Some` exactly while any move can be generated, and always a
/// currently-legal move.
#[verifier::rlimit(60)]
#[verifier::spinoff_prover]
pub fn negamax_move(game: &Game, depth: u8) -> (r: Option<Move>)
    requires
        game@.wf(),
        depth >= 1,
    ensures
        r == nm_choose(game@, depth as nat),
        r matches Some(m) ==> game@.gen_moves().contains(m) && game@.is_valid(m),
        (r is Some) <==> game@.gen_moves().len() > 0,
{
    let ghost v = game@;
    proof {
        lemma_nm_choose_valid(v, depth as nat);
        lemma_gen_moves_valid(v);
    }
    let moves = game.generate_moves();
    if moves.len() == 0 {
        return None;
    }
    let ghost ms = moves@;
    let ghost d = (depth - 1) as nat;
    let mut child = game.clone();
    proof {
        assert(v.is_valid(ms[0]));
    }
    let _applied = child.apply_move(moves[0]);
    proof {
        lemma_step_wf(v, ms[0]);
        lemma_nm_value_bound(v.step(ms[0]), d);
    }
    let s0 = negamax_value(&child, depth - 1);
    let mut best: i64 = -s0;
    let mut best_move: Move = moves[0];
    let mut i: usize = 1;
    while i < moves.len()
        invariant
            1 <= i <= ms.len(),
            best == nm_scan(v, ms, i as int, d).0,
            best_move == nm_scan(v, ms, i as int, d).1,
        decreases ms.len() - i,
    {
        let mut child = game.clone();
        proof {
            assert(v.is_valid(ms[i as int]));
        }
        let _applied = child.apply_move(moves[i]);
        proof {
            lemma_step_wf(v, ms[i as int]);
            lemma_nm_value_bound(v.step(ms[i as int]), d);
            lemma_nm_scan_bound(v, ms, i as int, d);
        }
        let s = negamax_value(&child, depth - 1);
        let sc = -s;
        if sc > best {
            best = sc;
            best_move = moves[i];
        }
        i = i + 1;
    }
    Some(best_move)
}

} // verus!
