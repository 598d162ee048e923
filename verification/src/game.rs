//! The rules engine: a `Game` owns a board plus turn and terminal state,
//! computes the legal symbols for a cell, applies moves, detects the winner,
//! and generates candidate moves with tactical pruning.

use vstd::prelude::*;
use vstd::string::StringExecFns;

use crate::board::{count_of, Board, BoardView, Field, Position};

verus! {

/// "Place this symbol at this position."
#[derive(Clone, Copy, PartialEq, Eq, Structural, Debug)]
pub struct Move {
    pub position: Position,
    pub symbol: Field,
}

impl Move {
    pub fn new(position: Position, symbol: Field) -> (r: Self)
        ensures
            r.position == position,
            r.symbol == symbol,
    {
        Self { position, symbol }
    }
}

/// The claim symbol of the player with the given index: `Wealth` for player
/// 0, `Knowledge` for player 1.
pub open spec fn player_symbol_of(i: u8) -> Field {
    if i == 0 {
        Field::Wealth
    } else {
        Field::Knowledge
    }
}

/// The maximum of a list of cell values under the `Field` order, or `Empty`
/// for an empty list.
pub open spec fn seq_max_field(s: Seq<Field>) -> Field
    decreases s.len(),
{
    if s.len() == 0 {
        Field::Empty
    } else {
        let rest = seq_max_field(s.drop_last());
        if s.last().rank() > rest.rank() {
            s.last()
        } else {
            rest
        }
    }
}

/// `seq_max_field` of a non-empty list is a member that every entry ranks at
/// or below.
pub proof fn lemma_seq_max_field(s: Seq<Field>)
    requires
        s.len() > 0,
    ensures
        s.contains(seq_max_field(s)),
        forall|i: int| 0 <= i < s.len() ==> s[i].rank() <= seq_max_field(s).rank(),
    decreases s.len(),
{
    if s.len() == 1 {
        assert(s.contains(seq_max_field(s))) by {
            reveal_with_fuel(seq_max_field, 2);
            assert(s.drop_last().len() == 0);
            if s[0].rank() <= 0 {
                assert(s[0] == Field::Empty);
            }
            assert(s[0] == seq_max_field(s));
        }
    } else {
        let d = s.drop_last();
        lemma_seq_max_field(d);
        if s.last().rank() > seq_max_field(d).rank() {
            assert(s.contains(seq_max_field(s))) by {
                assert(s[s.len() - 1] == seq_max_field(s));
            }
        } else {
            assert(s.contains(seq_max_field(s))) by {
                let j = choose|j: int| 0 <= j < d.len() && d[j] == seq_max_field(d);
                assert(s[j] == seq_max_field(s));
            }
        }
        assert(forall|i: int| 0 <= i < s.len() - 1 ==> s[i] == d[i]);
    }
}

/// The mathematical content of a [`Game`]: the board, whether play has
/// ended, whose turn it is, and the most recently applied move.
pub struct GameView {
    pub board: BoardView,
    pub game_over: bool,
    pub next_player: u8,
    pub last_move: Option<Move>,
}

impl GameView {
    /// Well-formed game state. The side-length cap is a machine limit: it
    /// keeps the cell count, and with it every score the evaluator can
    /// produce, inside fixed-width integer range.
    pub open spec fn wf(self) -> bool {
        &&& self.board.wf()
        &&& self.board.size <= 46340
        &&& self.next_player == 0 || self.next_player == 1
        &&& self.game_over || !self.board.full()
        &&& match self.last_move {
            Option::Some(m) => self.board.contains_pos(m.position),
            Option::None => true,
        }
    }

    /// The claim symbol of the player about to move.
    pub open spec fn next_symbol(self) -> Field {
        player_symbol_of(self.next_player)
    }

    /// How many neighbors of `p` hold `f`.
    pub open spec fn n_around(self, p: Position, f: Field) -> nat {
        count_of(self.board.around_pos(p), f)
    }

    /// A neighborhood with exactly one `Birth`, one `Gift`, and five `Empty`
    /// cells: the structural prerequisite for placing `Joy`.
    pub open spec fn formation_at(self, p: Position) -> bool {
        &&& self.n_around(p, Field::Birth) == 1
        &&& self.n_around(p, Field::Gift) == 1
        &&& self.n_around(p, Field::Empty) == 5
    }

    /// Whether the player about to move may place `Joy` at `p`: the
    /// neighborhood is a formation and the mover's own claim symbol is
    /// singly present.
    pub open spec fn joy_allowed(self, p: Position) -> bool {
        &&& self.formation_at(p)
        &&& (self.n_around(p, Field::Knowledge) == 1 && self.next_symbol() == Field::Knowledge
            || self.n_around(p, Field::Wealth) == 1 && self.next_symbol() == Field::Wealth)
    }

    /// The legal symbols at `p` for the player about to move, in the order
    /// the rules name them; empty when `p` is occupied. Opaque: proofs that
    /// need the rule cases reveal it.
    #[verifier::opaque]
    pub open spec fn valid_symbols(self, p: Position) -> Seq<Field> {
        if self.board.at_pos(p) != Field::Empty {
            Seq::empty()
        } else {
            (if self.n_around(p, Field::Birth) == 0 && self.n_around(p, Field::Gift) == 0
                && self.n_around(p, Field::Wealth) == 0 && self.n_around(p, Field::Knowledge)
                == 0 {
                seq![Field::Birth]
            } else {
                seq![Field::Gift]
            }) + (if self.n_around(p, Field::Birth) > 0 && self.n_around(p, Field::Gift) > 0 {
                seq![self.next_symbol()]
            } else {
                Seq::empty()
            }) + (if self.joy_allowed(p) {
                seq![Field::Joy]
            } else {
                Seq::empty()
            })
        }
    }

    /// The maximum legal symbol at `p`, or `Empty` when nothing is legal.
    pub open spec fn best_symbol(self, p: Position) -> Field {
        seq_max_field(self.valid_symbols(p))
    }

    /// The move that places the maximum legal symbol at `p`.
    pub open spec fn best_move_at(self, p: Position) -> Move {
        Move { position: p, symbol: self.best_symbol(p) }
    }

    /// A move is valid when its target is on the board and empty and its
    /// symbol is legal there.
    pub open spec fn is_valid(self, m: Move) -> bool {
        &&& self.board.contains_pos(m.position)
        &&& self.board.at_pos(m.position) == Field::Empty
        &&& self.valid_symbols(m.position).contains(m.symbol)
    }

    /// The state after a valid move: the symbol is written, the move is
    /// recorded, the game ends if `Joy` was placed or the board is now full,
    /// and the turn passes to the other player. Opaque: proofs about one
    /// application reveal it, search treats a successor state as one value.
    #[verifier::opaque]
    pub open spec fn step(self, m: Move) -> GameView {
        let cells2 = self.board.cells.update(
            m.position.0 * self.board.size + m.position.1,
            m.symbol,
        );
        let board2 = BoardView { size: self.board.size, cells: cells2 };
        GameView {
            board: board2,
            game_over: self.game_over || m.symbol == Field::Joy || board2.full(),
            next_player: (1 - self.next_player) as u8,
            last_move: Some(m),
        }
    }

    /// The position of row-major cell index `k`.
    pub open spec fn cell_position(self, k: int) -> Position {
        Position(
            (k / self.board.size as int) as usize,
            (k % self.board.size as int) as usize,
        )
    }

    /// The unpruned candidate list over the first `k` cells: for each empty
    /// cell, the move placing the best symbol there, in row-major order.
    pub open spec fn raw_moves_upto(self, k: int) -> Seq<Move>
        decreases k,
    {
        if k <= 0 {
            Seq::empty()
        } else {
            let p = self.cell_position(k - 1);
            self.raw_moves_upto(k - 1) + (if self.board.at_pos(p) == Field::Empty {
                seq![self.best_move_at(p)]
            } else {
                Seq::empty()
            })
        }
    }

    /// The unpruned candidate list over the whole board.
    pub open spec fn raw_moves(self) -> Seq<Move> {
        self.raw_moves_upto((self.board.size * self.board.size) as int)
    }

    /// Placing at `p` would complete a winning formation for the player
    /// about to move: the neighborhood is a formation and the single claim
    /// symbol in it is the mover's own.
    pub open spec fn self_winning(self, p: Position) -> bool {
        &&& self.formation_at(p)
        &&& ((self.n_around(p, Field::Wealth) == 1) <==> (self.next_symbol() == Field::Wealth))
    }

    /// Placing at `p` would complete a winning formation for the opponent.
    pub open spec fn opp_winning(self, p: Position) -> bool {
        &&& self.formation_at(p)
        &&& !((self.n_around(p, Field::Wealth) == 1) <==> (self.next_symbol() == Field::Wealth))
    }

    /// The moves of `s` whose target completes the mover's own formation.
    pub open spec fn self_winning_of(self, s: Seq<Move>) -> Seq<Move>
        decreases s.len(),
    {
        if s.len() == 0 {
            Seq::empty()
        } else {
            self.self_winning_of(s.drop_last()) + (if self.self_winning(s.last().position) {
                seq![s.last()]
            } else {
                Seq::empty()
            })
        }
    }

    /// The moves of `s` whose target completes the opponent's formation.
    pub open spec fn opp_winning_of(self, s: Seq<Move>) -> Seq<Move>
        decreases s.len(),
    {
        if s.len() == 0 {
            Seq::empty()
        } else {
            self.opp_winning_of(s.drop_last()) + (if self.opp_winning(s.last().position) {
                seq![s.last()]
            } else {
                Seq::empty()
            })
        }
    }

    /// Whether `m` lands within Chebyshev distance 1 of some move of `opp`.
    pub open spec fn near_opp(self, opp: Seq<Move>, m: Move) -> bool {
        exists|i: int| 0 <= i < opp.len() && opp[i].position.spec_near(m.position)
    }

    /// The moves of `s` that land near some move of `opp`.
    pub open spec fn near_filtered(self, s: Seq<Move>, opp: Seq<Move>) -> Seq<Move>
        decreases s.len(),
    {
        if s.len() == 0 {
            Seq::empty()
        } else {
            self.near_filtered(s.drop_last(), opp) + (if self.near_opp(opp, s.last()) {
                seq![s.last()]
            } else {
                Seq::empty()
            })
        }
    }

    /// The generated candidate moves with tactical pruning: an immediate own
    /// win beats everything; otherwise, with an opponent win looming, search
    /// narrows to moves near some such threat; otherwise the raw list.
    /// Opaque: search treats the generated list as one value.
    #[verifier::opaque]
    pub open spec fn gen_moves(self) -> Seq<Move> {
        let raw = self.raw_moves();
        let mine = self.self_winning_of(raw);
        let opp = self.opp_winning_of(raw);
        if mine.len() > 0 {
            mine
        } else if opp.len() > 0 {
            self.near_filtered(raw, opp)
        } else {
            raw
        }
    }

    /// The winner once the game is over: if the last move placed `Joy`, the
    /// player whose `Wealth` symbol neighbors it wins as player 0, else
    /// player 1; a game that ended by the board filling has no winner.
    pub open spec fn spec_winner(self) -> Option<u8> {
        if !self.game_over {
            None
        } else {
            match self.last_move {
                Option::Some(m) => if m.symbol == Field::Joy {
                    if self.board.around_pos(m.position).contains(Field::Wealth) {
                        Some(0u8)
                    } else {
                        Some(1u8)
                    }
                } else {
                    None
                },
                Option::None => None,
            }
        }
    }
}

/// The row-major position of cell index `k` is on the board, indexes back to
/// `k`, and holds cell `k`'s value.
pub proof fn lemma_cell_position(v: GameView, k: int)
    requires
        v.board.wf(),
        v.board.size <= usize::MAX,
        0 <= k < v.board.size * v.board.size,
    ensures
        v.board.contains_pos(v.cell_position(k)),
        (v.cell_position(k).0 as int) * v.board.size + (v.cell_position(k).1 as int) == k,
        v.board.at_pos(v.cell_position(k)) == v.board.cells[k],
{
    let s = v.board.size as int;
    vstd::arithmetic::div_mod::lemma_fundamental_div_mod(k, s);
    vstd::arithmetic::div_mod::lemma_mod_pos_bound(k, s);
    vstd::arithmetic::div_mod::lemma_div_pos_is_pos(k, s);
    assert(k / s < s) by {
        if k / s >= s {
            assert(s * (k / s) >= s * s) by (nonlinear_arith)
                requires
                    k / s >= s,
                    s >= 2,
            ;
        }
    }
    let q = k / s;
    let r = k % s;
    assert(q * s == s * q) by (nonlinear_arith);
    assert(k == q * s + r);
    let p = v.cell_position(k);
    assert(p.0 == q && p.1 == r);
    assert((p.0 as int) * v.board.size + (p.1 as int) == k);
}

/// An empty, in-bounds cell always has at least one legal symbol (`Birth` or
/// `Gift`); an occupied cell has none.
pub proof fn lemma_valid_symbols_len(v: GameView, p: Position)
    ensures
        v.board.at_pos(p) == Field::Empty ==> v.valid_symbols(p).len() >= 1,
        v.board.at_pos(p) != Field::Empty ==> v.valid_symbols(p).len() == 0,
{
    reveal(GameView::valid_symbols);
}

/// Placing the best symbol on an empty, in-bounds cell is a valid move.
pub proof fn lemma_best_move_valid(v: GameView, p: Position)
    requires
        v.board.contains_pos(p),
        v.board.at_pos(p) == Field::Empty,
    ensures
        v.is_valid(v.best_move_at(p)),
{
    lemma_valid_symbols_len(v, p);
    lemma_seq_max_field(v.valid_symbols(p));
}

/// Every unpruned candidate move is valid.
pub proof fn lemma_raw_moves_upto_valid(v: GameView, k: int)
    requires
        v.board.wf(),
        v.board.size <= usize::MAX,
        0 <= k <= v.board.size * v.board.size,
    ensures
        forall|i: int|
            0 <= i < v.raw_moves_upto(k).len() ==> v.is_valid(#[trigger] v.raw_moves_upto(k)[i]),
    decreases k,
{
    if k > 0 {
        lemma_raw_moves_upto_valid(v, k - 1);
        let p = v.cell_position(k - 1);
        lemma_cell_position(v, k - 1);
        if v.board.at_pos(p) == Field::Empty {
            lemma_best_move_valid(v, p);
        }
        let r1 = v.raw_moves_upto(k - 1);
        assert forall|i: int| 0 <= i < v.raw_moves_upto(k).len() implies v.is_valid(
            #[trigger] v.raw_moves_upto(k)[i],
        ) by {
            if i < r1.len() {
                assert(v.raw_moves_upto(k)[i] == r1[i]);
            } else {
                assert(v.raw_moves_upto(k)[i] == v.best_move_at(p));
            }
        }
    }
}

/// Once some cell among the first `k` is empty, the unpruned candidate list
/// over the first `k` cells is non-empty.
pub proof fn lemma_raw_moves_upto_nonempty(v: GameView, j: int, k: int)
    requires
        v.board.wf(),
        v.board.size <= usize::MAX,
        0 <= j < k <= v.board.size * v.board.size,
        v.board.cells[j] == Field::Empty,
    ensures
        v.raw_moves_upto(k).len() > 0,
    decreases k,
{
    if k == j + 1 {
        lemma_cell_position(v, j);
    } else {
        lemma_raw_moves_upto_nonempty(v, j, k - 1);
    }
}

/// Every move a filter keeps comes from the filtered list and satisfies the
/// filter's test.
pub proof fn lemma_self_winning_of_sub(v: GameView, s: Seq<Move>)
    ensures
        forall|i: int|
            0 <= i < v.self_winning_of(s).len() ==> s.contains(#[trigger] v.self_winning_of(s)[i])
                && v.self_winning(v.self_winning_of(s)[i].position),
    decreases s.len(),
{
    if s.len() > 0 {
        let d = s.drop_last();
        lemma_self_winning_of_sub(v, d);
        assert forall|i: int| 0 <= i < v.self_winning_of(s).len() implies s.contains(
            #[trigger] v.self_winning_of(s)[i],
        ) && v.self_winning(v.self_winning_of(s)[i].position) by {
            let m = v.self_winning_of(s)[i];
            if i < v.self_winning_of(d).len() {
                assert(d.contains(m) && v.self_winning(m.position));
                let j = choose|j: int| 0 <= j < d.len() && d[j] == m;
                assert(s[j] == m);
            } else {
                assert(m == s.last());
                assert(s[s.len() - 1] == m);
            }
        }
    }
}

/// The analogue of [`lemma_self_winning_of_sub`] for the opponent's filter.
pub proof fn lemma_opp_winning_of_sub(v: GameView, s: Seq<Move>)
    ensures
        forall|i: int|
            0 <= i < v.opp_winning_of(s).len() ==> s.contains(#[trigger] v.opp_winning_of(s)[i])
                && v.opp_winning(v.opp_winning_of(s)[i].position),
    decreases s.len(),
{
    if s.len() > 0 {
        let d = s.drop_last();
        lemma_opp_winning_of_sub(v, d);
        assert forall|i: int| 0 <= i < v.opp_winning_of(s).len() implies s.contains(
            #[trigger] v.opp_winning_of(s)[i],
        ) && v.opp_winning(v.opp_winning_of(s)[i].position) by {
            let m = v.opp_winning_of(s)[i];
            if i < v.opp_winning_of(d).len() {
                assert(d.contains(m) && v.opp_winning(m.position));
                let j = choose|j: int| 0 <= j < d.len() && d[j] == m;
                assert(s[j] == m);
            } else {
                assert(m == s.last());
                assert(s[s.len() - 1] == m);
            }
        }
    }
}

/// The analogue of [`lemma_self_winning_of_sub`] for the nearness filter.
pub proof fn lemma_near_filtered_sub(v: GameView, s: Seq<Move>, opp: Seq<Move>)
    ensures
        forall|i: int|
            0 <= i < v.near_filtered(s, opp).len() ==> s.contains(
                #[trigger] v.near_filtered(s, opp)[i],
            ),
    decreases s.len(),
{
    if s.len() > 0 {
        let d = s.drop_last();
        lemma_near_filtered_sub(v, d, opp);
        assert forall|i: int| 0 <= i < v.near_filtered(s, opp).len() implies s.contains(
            #[trigger] v.near_filtered(s, opp)[i],
        ) by {
            let m = v.near_filtered(s, opp)[i];
            if i < v.near_filtered(d, opp).len() {
                assert(d.contains(m));
                let j = choose|j: int| 0 <= j < d.len() && d[j] == m;
                assert(s[j] == m);
            } else {
                assert(m == s.last());
                assert(s[s.len() - 1] == m);
            }
        }
    }
}

/// A listed move that lands near an opponent threat survives the nearness
/// filter.
pub proof fn lemma_near_filtered_keeps(v: GameView, s: Seq<Move>, opp: Seq<Move>, i: int)
    requires
        0 <= i < s.len(),
        v.near_opp(opp, s[i]),
    ensures
        v.near_filtered(s, opp).contains(s[i]),
    decreases s.len(),
{
    let d = s.drop_last();
    if i == s.len() - 1 {
        let f = v.near_filtered(s, opp);
        assert(f[f.len() - 1] == s[i]);
    } else {
        assert(d[i] == s[i]);
        lemma_near_filtered_keeps(v, d, opp, i);
        let fd = v.near_filtered(d, opp);
        let j = choose|j: int| 0 <= j < fd.len() && fd[j] == s[i];
        assert(v.near_filtered(s, opp)[j] == s[i]);
    }
}

/// Every generated move is valid.
pub proof fn lemma_gen_moves_valid(v: GameView)
    requires
        v.board.wf(),
        v.board.size <= usize::MAX,
    ensures
        forall|i: int|
            0 <= i < v.gen_moves().len() ==> v.is_valid(#[trigger] v.gen_moves()[i]),
{
    reveal(GameView::gen_moves);
    let raw = v.raw_moves();
    lemma_raw_moves_upto_valid(v, (v.board.size * v.board.size) as int);
    lemma_self_winning_of_sub(v, raw);
    lemma_opp_winning_of_sub(v, raw);
    lemma_near_filtered_sub(v, raw, v.opp_winning_of(raw));
    assert forall|i: int| 0 <= i < v.gen_moves().len() implies v.is_valid(
        #[trigger] v.gen_moves()[i],
    ) by {
        let m = v.gen_moves()[i];
        if v.gen_moves() != raw {
            assert(raw.contains(m));
            let j = choose|j: int| 0 <= j < raw.len() && raw[j] == m;
        }
    }
}

/// While the game is not over, the generated move list is non-empty: an own
/// winning move dominates, and each looming opponent win lies near itself,
/// so it survives the nearness filter.
pub proof fn lemma_gen_moves_nonempty(v: GameView)
    requires
        v.wf(),
        !v.game_over,
    ensures
        v.gen_moves().len() > 0,
{
    reveal(GameView::gen_moves);
    let raw = v.raw_moves();
    assert(!v.board.full());
    let j = choose|j: int|
        0 <= j < v.board.cells.len() && v.board.cells[j] == Field::Empty;
    lemma_raw_moves_upto_nonempty(v, j, (v.board.size * v.board.size) as int);
    let mine = v.self_winning_of(raw);
    let opp = v.opp_winning_of(raw);
    if mine.len() == 0 && opp.len() > 0 {
        lemma_opp_winning_of_sub(v, opp);
        let o = opp[0];
        lemma_opp_winning_of_sub(v, raw);
        assert(raw.contains(o));
        let t = choose|t: int| 0 <= t < raw.len() && raw[t] == o;
        assert(v.near_opp(opp, o)) by {
            assert(opp[0].position.spec_near(o.position));
        }
        lemma_near_filtered_keeps(v, raw, opp, t);
        let f = v.near_filtered(raw, opp);
        let w = choose|w: int| 0 <= w < f.len() && f[w] == o;
    }
}

/// The best symbol at a cell is the maximum of the legal set under the
/// `Field` order, and `Empty` exactly when nothing is legal there.
pub proof fn lemma_best_symbol_is_max(v: GameView, p: Position)
    ensures
        v.valid_symbols(p).len() == 0 ==> v.best_symbol(p) == Field::Empty,
        v.valid_symbols(p).len() > 0 ==> v.valid_symbols(p).contains(v.best_symbol(p)),
        forall|i: int|
            0 <= i < v.valid_symbols(p).len() ==> v.valid_symbols(p)[i].rank() <= v.best_symbol(
                p,
            ).rank(),
{
    if v.valid_symbols(p).len() > 0 {
        lemma_seq_max_field(v.valid_symbols(p));
    }
}

/// Applying a move ends the game exactly when `Joy` is placed or the board
/// becomes full, and a finished game never reverts to play: only an
/// explicit reset clears `game_over`.
pub proof fn lemma_game_over_terminal(v: GameView, m: Move)
    ensures
        v.step(m).game_over == (v.game_over || m.symbol == Field::Joy || v.step(
            m,
        ).board.full()),
        v.game_over ==> v.step(m).game_over,
{
    reveal(GameView::step);
}

/// Pruning priority: as soon as any own-winning move exists, the generated
/// list is exactly the own-winning subset of the raw candidates, however
/// many opponent-winning or neutral moves exist.
pub proof fn lemma_pruning_priority(v: GameView)
    requires
        v.self_winning_of(v.raw_moves()).len() > 0,
    ensures
        v.gen_moves() == v.self_winning_of(v.raw_moves()),
{
    reveal(GameView::gen_moves);
}

/// On a board holding no `Joy`, the own-winning classification coincides
/// with the rules' own test that the mover may place `Joy` at `p`: a
/// formation's neighborhood then has exactly one claim symbol, so checking
/// the `Wealth` count alone decides whose it is.
pub proof fn lemma_self_winning_is_joy_rule(v: GameView, p: Position)
    requires
        v.wf(),
        forall|i: int| 0 <= i < v.board.cells.len() ==> v.board.cells[i] != Field::Joy,
    ensures
        v.self_winning(p) == v.joy_allowed(p),
{
    crate::board::lemma_around_profile(v.board, p);
    crate::board::lemma_count_of_partition(v.board.around_pos(p));
    if v.formation_at(p) {
        assert(v.n_around(p, Field::Wealth) + v.n_around(p, Field::Knowledge) == 1);
    }
}

/// Pruning priority in the rules' own terms: on a board holding no `Joy` —
/// true of every state reached through play, since placing `Joy` ends the
/// game — a move is classified own-winning exactly when the mover may
/// complete their own `Joy` there, and as soon as any such move exists the
/// generated list is exactly that subset of the raw candidates.
pub proof fn lemma_pruning_priority_joy_rule(v: GameView)
    requires
        v.wf(),
        forall|i: int| 0 <= i < v.board.cells.len() ==> v.board.cells[i] != Field::Joy,
    ensures
        forall|p: Position| #[trigger] v.self_winning(p) == v.joy_allowed(p),
        v.self_winning_of(v.raw_moves()).len() > 0 ==> v.gen_moves() == v.self_winning_of(
            v.raw_moves(),
        ),
{
    assert forall|p: Position| #[trigger] v.self_winning(p) == v.joy_allowed(p) by {
        lemma_self_winning_is_joy_rule(v, p);
    }
    if v.self_winning_of(v.raw_moves()).len() > 0 {
        lemma_pruning_priority(v);
    }
}

/// Round trip: immediately after a move is applied, the board holds the
/// placed symbol at the move's position.
pub proof fn lemma_apply_round_trip(v: GameView, m: Move)
    requires
        v.board.wf(),
        v.board.contains_pos(m.position),
    ensures
        v.step(m).board.at_pos(m.position) == m.symbol,
{
    reveal(GameView::step);
    crate::board::lemma_row_major_index(
        v.board.size as int,
        m.position.0 as int,
        m.position.1 as int,
    );
}

/// Applying a valid move preserves well-formedness.
pub proof fn lemma_step_wf(v: GameView, m: Move)
    requires
        v.wf(),
        v.is_valid(m),
    ensures
        v.step(m).wf(),
        v.step(m).board.size == v.board.size,
{
    reveal(GameView::step);
    crate::board::lemma_row_major_index(
        v.board.size as int,
        m.position.0 as int,
        m.position.1 as int,
    );
}

/// A capability the driving loop consumes: assign a claim symbol at setup,
/// produce a legal move for a snapshot, and give a display name.
pub trait Player {
    /// The claim symbol this side currently holds.
    spec fn spec_symbol(&self) -> Field;

    /// Assigns the claim symbol this side plays with.
    fn set_symbol(&mut self, symbol: Field)
        ensures
            final(self).spec_symbol() == symbol,
    ;

    /// Chooses a currently-legal move for the given snapshot.
    fn make_move(&mut self, game: Game) -> (m: Move)
        requires
            game@.wf(),
            !game.game_over,
        ensures
            game@.is_valid(m),
    ;

    /// A display name for this player.
    fn name(&self) -> String;
}

/// The full searchable game state. It is cloned cheaply to hand a private
/// snapshot to each strategy before every decision.
pub struct Game {
    pub board: Board,
    pub game_over: bool,
    pub next_player: u8,
    pub last_move: Option<Move>,
}

impl View for Game {
    type V = GameView;

    open spec fn view(&self) -> GameView {
        GameView {
            board: self.board@,
            game_over: self.game_over,
            next_player: self.next_player,
            last_move: self.last_move,
        }
    }
}

impl Clone for Game {
    /// A snapshot with the same mathematical content.
    fn clone(&self) -> (r: Self)
        ensures
            r@ == self@,
    {
        Game {
            board: self.board.clone(),
            game_over: self.game_over,
            next_player: self.next_player,
            last_move: self.last_move,
        }
    }
}

/// Squaring keeps a capped side length inside fixed-width range.
pub proof fn lemma_square_bounds(size: int)
    requires
        2 <= size <= 46340,
    ensures
        4 <= size * size <= 2147395600,
{
    assert(4 <= size * size <= 2147395600) by (nonlinear_arith)
        requires
            2 <= size <= 46340,
    ;
}

impl Game {
    /// A fresh match: an all-`Empty` board except for a single `Birth` at
    /// the exact center, player 0 to move.
    pub fn new(board_size: usize) -> (r: Self)
        requires
            2 <= board_size <= 46340,
        ensures
            r@.wf(),
            r@.board.size == board_size,
            r@.game_over == false,
            r@.next_player == 0,
            r@.last_move is None,
            r@.board.at((board_size / 2) as int, (board_size / 2) as int) == Field::Birth,
            forall|i: int|
                0 <= i < r@.board.cells.len() && i != (board_size / 2) * board_size + (board_size
                    / 2) ==> r@.board.cells[i] == Field::Empty,
    {
        proof {
            lemma_square_bounds(board_size as int);
        }
        let mut board = Board::new(board_size);
        let center = Position(board_size / 2, board_size / 2);
        proof {
            let h = (board_size / 2) as int;
            assert(1 <= h < board_size);
            assert(h * board_size >= board_size) by (nonlinear_arith)
                requires
                    h >= 1,
                    board_size >= 2,
            ;
            crate::board::lemma_row_major_index(board_size as int, h, h);
        }
        board.change(center, Field::Birth);
        proof {
            assert(board@.cells[0] == Field::Empty);
        }
        Game { board, game_over: false, next_player: 0, last_move: None }
    }

    /// Clears the board and hands the first turn back to player 0. The last
    /// applied move stays recorded, as it no longer matters once `game_over`
    /// is cleared.
    pub fn reset(&mut self)
        requires
            old(self)@.wf(),
        ensures
            final(self)@.wf(),
            final(self)@.board.size == old(self)@.board.size,
            forall|i: int|
                0 <= i < final(self)@.board.cells.len() ==> final(self)@.board.cells[i]
                    == Field::Empty,
            final(self)@.game_over == false,
            final(self)@.next_player == 0,
            final(self)@.last_move == old(self)@.last_move,
    {
        proof {
            lemma_square_bounds(self@.board.size as int);
        }
        self.board.reset();
        self.game_over = false;
        self.next_player = 0;
        proof {
            assert(self@.board.cells[0] == Field::Empty);
        }
    }

    /// The claim symbol of the player about to move.
    pub fn next_player_symbol(&self) -> (r: Field)
        ensures
            r == self@.next_symbol(),
    {
        if self.next_player == 0 {
            Field::Wealth
        } else {
            Field::Knowledge
        }
    }

    /// The legal symbols at `position` for the player about to move,
    /// evaluated for an empty cell only (empty list otherwise).
    pub fn valid_symbols_at(&self, position: &Position) -> (r: Vec<Field>)
        requires
            self@.wf(),
            self@.board.contains_pos(*position),
        ensures
            r@ == self@.valid_symbols(*position),
    {
        let ghost v = self@;
        let ghost p = *position;
        proof {
            reveal(GameView::valid_symbols);
        }
        if !self.board.is_empty(position) {
            let r: Vec<Field> = Vec::new();
            proof {
                assert(r@ =~= v.valid_symbols(p));
            }
            return r;
        }
        let (empty_count, birth_count, gift_count, wealth_count, knowledge_count) =
            self.board.count_around(position);
        let mut valid: Vec<Field> = Vec::new();
        if birth_count == 0 && gift_count == 0 && wealth_count == 0 && knowledge_count == 0 {
            valid.push(Field::Birth);
        } else {
            valid.push(Field::Gift);
        }
        let ghost mut exp: Seq<Field> = (if v.n_around(p, Field::Birth) == 0 && v.n_around(
            p,
            Field::Gift,
        ) == 0 && v.n_around(p, Field::Wealth) == 0 && v.n_around(p, Field::Knowledge) == 0 {
            seq![Field::Birth]
        } else {
            seq![Field::Gift]
        });
        proof {
            assert(valid@ =~= exp);
        }
        let player_symbol = self.next_player_symbol();
        if birth_count > 0 && gift_count > 0 {
            valid.push(player_symbol);
        }
        proof {
            exp = exp + (if v.n_around(p, Field::Birth) > 0 && v.n_around(p, Field::Gift) > 0 {
                seq![v.next_symbol()]
            } else {
                Seq::empty()
            });
            assert(valid@ =~= exp);
        }
        if birth_count == 1 && gift_count == 1 && empty_count == 5 && (knowledge_count == 1
            && player_symbol == Field::Knowledge || wealth_count == 1 && player_symbol
            == Field::Wealth) {
            valid.push(Field::Joy);
        }
        proof {
            exp = exp + (if v.joy_allowed(p) {
                seq![Field::Joy]
            } else {
                Seq::empty()
            });
            assert(valid@ =~= exp);
            assert(exp == v.valid_symbols(p));
        }
        valid
    }

    /// The maximum legal symbol at `position`, or `Empty` when nothing is
    /// legal there.
    pub fn best_symbol_at(&self, position: &Position) -> (r: Field)
        requires
            self@.wf(),
            self@.board.contains_pos(*position),
        ensures
            r == self@.best_symbol(*position),
    {
        let valid = self.valid_symbols_at(position);
        let ghost s = valid@;
        let mut best = Field::Empty;
        let mut i: usize = 0;
        while i < valid.len()
            invariant
                i <= s.len(),
                valid@ == s,
                best == seq_max_field(s.subrange(0, i as int)),
            decreases s.len() - i,
        {
            proof {
                assert(s.subrange(0, i + 1).drop_last() =~= s.subrange(0, i as int));
                assert(s.subrange(0, i + 1).last() == s[i as int]);
            }
            if valid[i].rank_u8() > best.rank_u8() {
                best = valid[i];
            }
            i = i + 1;
        }
        proof {
            assert(s.subrange(0, s.len() as int) =~= s);
        }
        best
    }

    /// Whether `move_to_check` is in bounds, targets an empty cell, and
    /// places a symbol that is legal there.
    pub fn is_valid_move(&self, move_to_check: &Move) -> (r: bool)
        requires
            self@.wf(),
        ensures
            r == self@.is_valid(*move_to_check),
    {
        let pos = &move_to_check.position;
        if !(pos.0 < self.board.size && pos.1 < self.board.size) {
            return false;
        }
        if !self.board.is_empty(pos) {
            return false;
        }
        let valid = self.valid_symbols_at(pos);
        let ghost s = valid@;
        let mut i: usize = 0;
        while i < valid.len()
            invariant
                i <= s.len(),
                valid@ == s,
                forall|k: int| 0 <= k < i ==> s[k] != move_to_check.symbol,
            decreases s.len() - i,
        {
            if valid[i] == move_to_check.symbol {
                proof {
                    assert(s.contains(move_to_check.symbol)) by {
                        assert(s[i as int] == move_to_check.symbol);
                    }
                }
                return true;
            }
            i = i + 1;
        }
        false
    }

    /// Writes the symbol when the move is valid, records it as the last
    /// move, ends the game if `Joy` was placed or the board is now full, and
    /// passes the turn; an invalid move is rejected unchanged.
    pub fn apply_move(&mut self, move_to_apply: Move) -> (r: Result<Field, String>)
        requires
            old(self)@.wf(),
        ensures
            final(self)@.wf(),
            old(self)@.is_valid(move_to_apply) ==> final(self)@ == old(self)@.step(move_to_apply),
            old(self)@.is_valid(move_to_apply) ==> r == Ok::<Field, String>(move_to_apply.symbol),
            !old(self)@.is_valid(move_to_apply) ==> final(self)@ == old(self)@,
            !old(self)@.is_valid(move_to_apply) ==> (r matches Err(e) && e@ == "Invalid move"@),
    {
        if !self.is_valid_move(&move_to_apply) {
            return Err(String::from_str("Invalid move"));
        }
        proof {
            reveal(GameView::step);
        }
        self.board.change(move_to_apply.position, move_to_apply.symbol);
        self.last_move = Some(move_to_apply);
        if move_to_apply.symbol == Field::Joy || self.board.is_full() {
            self.game_over = true;
        }
        self.next_player = 1 - self.next_player;
        Ok(move_to_apply.symbol)
    }

    /// Places the maximum legal symbol at `position`, with the same outcome
    /// as [`Game::apply_move`] on that move.
    pub fn apply_best_move_at(&mut self, position: &Position) -> (r: Result<Field, String>)
        requires
            old(self)@.wf(),
            old(self)@.board.contains_pos(*position),
        ensures
            final(self)@.wf(),
            old(self)@.is_valid(old(self)@.best_move_at(*position)) ==> final(self)@ == old(
                self,
            )@.step(old(self)@.best_move_at(*position)),
            old(self)@.is_valid(old(self)@.best_move_at(*position)) ==> r == Ok::<Field, String>(
                old(self)@.best_symbol(*position),
            ),
            !old(self)@.is_valid(old(self)@.best_move_at(*position)) ==> final(self)@ == old(
                self,
            )@,
            !old(self)@.is_valid(old(self)@.best_move_at(*position)) ==> (r matches Err(e) && e@
                == "Invalid move"@),
    {
        let symbol = self.best_symbol_at(position);
        self.apply_move(Move::new(*position, symbol))
    }

    /// The winner once the game is over: the last move placed `Joy` next to
    /// a `Wealth` cell for player 0, away from one for player 1; `None`
    /// while play goes on or after a draw by a full board.
    /// The unpruned candidate list: for every empty cell in row-major order,
    /// the move placing the best symbol there.
    fn raw_move_list(&self) -> (r: Vec<Move>)
        requires
            self@.wf(),
        ensures
            r@ == self@.raw_moves(),
    {
        let ghost v = self@;
        proof {
            lemma_square_bounds(v.board.size as int);
        }
        let size = self.board.size;
        let n = size * size;
        let mut moves: Vec<Move> = Vec::new();
        let mut k: usize = 0;
        while k < n
            invariant
                k <= n,
                moves@ == v.raw_moves_upto(k as int),
            decreases n - k,
        {
            proof {
                lemma_cell_position(v, k as int);
            }
            let pos = Position(k / size, k % size);
            proof {
                assert(pos == v.cell_position(k as int));
            }
            if self.board.is_empty(&pos) {
                let sym = self.best_symbol_at(&pos);
                moves.push(Move::new(pos, sym));
            }
            proof {
                assert(moves@ =~= v.raw_moves_upto(k + 1));
            }
            k = k + 1;
        }
        moves
    }

    /// Splits the raw candidates into own-winning and opponent-winning
    /// moves: those whose target would complete a formation for the one side
    /// or the other.
    fn winning_split(&self, moves: &Vec<Move>) -> (r: (Vec<Move>, Vec<Move>))
        requires
            self@.wf(),
            moves@ == self@.raw_moves(),
        ensures
            r.0@ == self@.self_winning_of(moves@),
            r.1@ == self@.opp_winning_of(moves@),
    {
        let ghost v = self@;
        let ghost raw = v.raw_moves();
        proof {
            lemma_raw_moves_upto_valid(v, (v.board.size * v.board.size) as int);
        }
        let player_symbol = self.next_player_symbol();
        let mut my_winning: Vec<Move> = Vec::new();
        let mut opp_winning: Vec<Move> = Vec::new();
        let mut t: usize = 0;
        while t < moves.len()
            invariant
                t <= raw.len(),
                my_winning@ == v.self_winning_of(raw.subrange(0, t as int)),
                opp_winning@ == v.opp_winning_of(raw.subrange(0, t as int)),
            decreases raw.len() - t,
        {
            let m = moves[t];
            proof {
                assert(v.is_valid(raw[t as int]));
            }
            let (empty_count, birth_count, gift_count, wealth_count, _) =
                self.board.count_around(&m.position);
            if birth_count == 1 && gift_count == 1 && empty_count == 5 {
                if wealth_count == 1 {
                    if player_symbol == Field::Wealth {
                        my_winning.push(m);
                    } else {
                        opp_winning.push(m);
                    }
                } else if player_symbol == Field::Knowledge {
                    my_winning.push(m);
                } else {
                    opp_winning.push(m);
                }
            }
            proof {
                let pre = raw.subrange(0, t + 1);
                assert(pre.drop_last() =~= raw.subrange(0, t as int));
                assert(pre.last() == raw[t as int]);
                assert(my_winning@ =~= v.self_winning_of(pre));
                assert(opp_winning@ =~= v.opp_winning_of(pre));
            }
            t = t + 1;
        }
        proof {
            assert(raw.subrange(0, raw.len() as int) =~= raw);
        }
        (my_winning, opp_winning)
    }

    /// Keeps the moves that land within Chebyshev distance 1 of some
    /// opponent-winning move.
    fn near_filter(&self, moves: &Vec<Move>, opp_winning: &Vec<Move>) -> (r: Vec<Move>)
        ensures
            r@ == self@.near_filtered(moves@, opp_winning@),
    {
        let ghost v = self@;
        let ghost raw = moves@;
        let ghost opps = opp_winning@;
        let mut kept: Vec<Move> = Vec::new();
        let mut a: usize = 0;
        while a < moves.len()
            invariant
                a <= raw.len(),
                kept@ == v.near_filtered(raw.subrange(0, a as int), opps),
            decreases raw.len() - a,
        {
            let m = moves[a];
            let mut found = false;
            let mut b: usize = 0;
            while b < opp_winning.len()
                invariant
                    b <= opps.len(),
                    found == exists|i: int| 0 <= i < b && opps[i].position.spec_near(m.position),
                decreases opps.len() - b,
            {
                if opp_winning[b].position.near(&m.position) {
                    found = true;
                    proof {
                        assert(opps[b as int].position.spec_near(m.position));
                    }
                }
                b = b + 1;
            }
            proof {
                assert(found == v.near_opp(opps, m));
            }
            if found {
                kept.push(m);
            }
            proof {
                let pre = raw.subrange(0, a + 1);
                assert(pre.drop_last() =~= raw.subrange(0, a as int));
                assert(pre.last() == raw[a as int]);
                assert(kept@ =~= v.near_filtered(pre, opps));
            }
            a = a + 1;
        }
        proof {
            assert(raw.subrange(0, raw.len() as int) =~= raw);
        }
        kept
    }

    /// For every empty cell, the move placing the best symbol there, pruned:
    /// if any own-winning move exists, only those are returned; else, if an
    /// opponent-winning move looms, only moves near such a threat; else the
    /// whole list. Non-empty whenever the game is not over.
    pub fn generate_moves(&self) -> (r: Vec<Move>)
        requires
            self@.wf(),
        ensures
            r@ == self@.gen_moves(),
            forall|i: int| 0 <= i < r@.len() ==> self@.is_valid(#[trigger] r@[i]),
            !self@.game_over ==> r@.len() > 0,
    {
        let ghost v = self@;
        proof {
            reveal(GameView::gen_moves);
            lemma_gen_moves_valid(v);
            if !v.game_over {
                lemma_gen_moves_nonempty(v);
            }
        }
        let moves = self.raw_move_list();
        let (my_winning, opp_winning) = self.winning_split(&moves);
        if my_winning.len() > 0 {
            my_winning
        } else if opp_winning.len() > 0 {
            self.near_filter(&moves, &opp_winning)
        } else {
            moves
        }
    }

    #[verifier::rlimit(60)]
    #[verifier::spinoff_prover]
    pub fn winner(&self) -> (r: Option<u8>)
        requires
            self@.wf(),
        ensures
            r == self@.spec_winner(),
    {
        if !self.game_over {
            return None;
        }
        match self.last_move {
            Some(m) => {
                if m.symbol == Field::Joy {
                    let around = self.board.fields_around(&m.position);
                    let ghost s = around@;
                    let mut i: usize = 0;
                    while i < around.len()
                        invariant
                            i <= s.len(),
                            around@ == s,
                            forall|k: int| 0 <= k < i ==> s[k] != Field::Wealth,
                        decreases s.len() - i,
                    {
                        if around[i] == Field::Wealth {
                            proof {
                                assert(s.contains(Field::Wealth)) by {
                                    assert(s[i as int] == Field::Wealth);
                                }
                            }
                            return Some(0);
                        }
                        i = i + 1;
                    }
                    Some(1)
                } else {
                    None
                }
            },
            None => None,
        }
    }
}

} // verus!
