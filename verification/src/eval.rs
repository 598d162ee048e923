//! The static evaluator search strategies use to rank non-terminal states:
//! it scans every cell, counts near-complete formations credited to each
//! side, and weights the mover's count three times the opponent's.

use vstd::prelude::*;

use crate::board::{Field, Position};
use crate::game::{lemma_cell_position, lemma_square_bounds, Game, GameView};

verus! {

impl GameView {
    /// `p` is a formation cell credited to the `Wealth` side: exactly one
    /// `Wealth` neighbor beside the one `Birth`, one `Gift`, five `Empty`.
    pub open spec fn wealth_formation_at(self, p: Position) -> bool {
        self.formation_at(p) && self.n_around(p, Field::Wealth) == 1
    }

    /// `p` is a formation cell credited to the `Knowledge` side.
    pub open spec fn knowledge_formation_at(self, p: Position) -> bool {
        &&& self.formation_at(p)
        &&& self.n_around(p, Field::Wealth) != 1
        &&& self.n_around(p, Field::Knowledge) == 1
    }

    /// How many of the first `k` cells are formations credited to `Wealth`.
    pub open spec fn wealth_formations_upto(self, k: int) -> int
        decreases k,
    {
        if k <= 0 {
            0
        } else {
            self.wealth_formations_upto(k - 1) + (if self.wealth_formation_at(
                self.cell_position(k - 1),
            ) {
                1int
            } else {
                0int
            })
        }
    }

    /// How many of the first `k` cells are formations credited to
    /// `Knowledge`.
    pub open spec fn knowledge_formations_upto(self, k: int) -> int
        decreases k,
    {
        if k <= 0 {
            0
        } else {
            self.knowledge_formations_upto(k - 1) + (if self.knowledge_formation_at(
                self.cell_position(k - 1),
            ) {
                1int
            } else {
                0int
            })
        }
    }

    /// The formation count credited to `Wealth` over the whole board.
    pub open spec fn wealth_formations(self) -> int {
        self.wealth_formations_upto((self.board.size * self.board.size) as int)
    }

    /// The formation count credited to `Knowledge` over the whole board.
    pub open spec fn knowledge_formations(self) -> int {
        self.knowledge_formations_upto((self.board.size * self.board.size) as int)
    }

    /// The static score from the viewpoint of the player about to move:
    /// three times the mover's formation count, minus the opponent's.
    pub open spec fn eval_score(self) -> int {
        if self.next_symbol() == Field::Wealth {
            3 * self.wealth_formations() - self.knowledge_formations()
        } else {
            3 * self.knowledge_formations() - self.wealth_formations()
        }
    }

    /// The same position seen with the turn handed to the other player.
    pub open spec fn flip_turn(self) -> GameView {
        GameView { next_player: (1 - self.next_player) as u8, ..self }
    }
}

/// Formation counts never exceed the number of cells scanned.
pub proof fn lemma_formations_upto_bound(v: GameView, k: int)
    requires
        k >= 0,
    ensures
        0 <= v.wealth_formations_upto(k) <= k,
        0 <= v.knowledge_formations_upto(k) <= k,
    decreases k,
{
    if k > 0 {
        lemma_formations_upto_bound(v, k - 1);
    }
}

/// The formation counts read the board alone, so handing the turn to the
/// other player leaves them unchanged.
pub proof fn lemma_formations_board_only(v1: GameView, v2: GameView, k: int)
    requires
        v1.board == v2.board,
    ensures
        v1.wealth_formations_upto(k) == v2.wealth_formations_upto(k),
        v1.knowledge_formations_upto(k) == v2.knowledge_formations_upto(k),
    decreases k,
{
    if k > 0 {
        lemma_formations_board_only(v1, v2, k - 1);
    }
}

/// How the two viewpoints of one state relate: the two scores sum to twice
/// the total formation count. The evaluator weights the mover's formations
/// more heavily, so it is zero-sum exactly on states with no formations at
/// all; that special case follows as [`lemma_eval_no_formations_zero_sum`].
pub proof fn lemma_eval_viewpoints(v: GameView)
    requires
        v.next_player == 0 || v.next_player == 1,
    ensures
        v.eval_score() + v.flip_turn().eval_score() == 2 * (v.wealth_formations()
            + v.knowledge_formations()),
{
    let f = v.flip_turn();
    lemma_formations_board_only(v, f, (v.board.size * v.board.size) as int);
    assert(f.next_symbol() != v.next_symbol());
}

/// On a state with no near-complete formations for either side, the
/// evaluator is zero-sum: the two viewpoints score to exact negations (both
/// zero).
pub proof fn lemma_eval_no_formations_zero_sum(v: GameView)
    requires
        v.next_player == 0 || v.next_player == 1,
        v.wealth_formations() == 0,
        v.knowledge_formations() == 0,
    ensures
        v.eval_score() == -v.flip_turn().eval_score(),
        v.eval_score() == 0,
{
    lemma_eval_viewpoints(v);
    let f = v.flip_turn();
    lemma_formations_board_only(v, f, (v.board.size * v.board.size) as int);
}

/// The evaluator's magnitude is bounded by three times the cell count.
pub proof fn lemma_eval_bound(v: GameView)
    requires
        v.board.wf(),
    ensures
        -3 * (v.board.size * v.board.size) <= v.eval_score() <= 3 * (v.board.size
            * v.board.size),
{
    lemma_formations_upto_bound(v, (v.board.size * v.board.size) as int);
}

/// Static scoring of a state from the perspective of whichever player is
/// about to move.
pub fn evaluate(game: &Game) -> (r: i64)
    requires
        game@.wf(),
    ensures
        r == game@.eval_score(),
{
    let ghost v = game@;
    proof {
        lemma_square_bounds(v.board.size as int);
    }
    let size = game.board.size;
    let n = size * size;
    let mut w_forms: i64 = 0;
    let mut k_forms: i64 = 0;
    let mut k: usize = 0;
    while k < n
        invariant
            k <= n,
            w_forms == v.wealth_formations_upto(k as int),
            k_forms == v.knowledge_formations_upto(k as int),
        decreases n - k,
    {
        proof {
            lemma_cell_position(v, k as int);
            lemma_formations_upto_bound(v, k as int);
        }
        let pos = Position(k / size, k % size);
        proof {
            assert(pos == v.cell_position(k as int));
        }
        let (empty_count, birth_count, gift_count, wealth_count, knowledge_count) =
            game.board.count_around(&pos);
        if birth_count == 1 && gift_count == 1 && empty_count == 5 {
            if wealth_count == 1 {
                w_forms = w_forms + 1;
            } else if knowledge_count == 1 {
                k_forms = k_forms + 1;
            }
        }
        k = k + 1;
    }
    proof {
        lemma_formations_upto_bound(v, n as int);
    }
    let next_player_symbol = game.next_player_symbol();
    if next_player_symbol == Field::Wealth {
        3 * w_forms - k_forms
    } else {
        3 * k_forms - w_forms
    }
}

} // verus!
