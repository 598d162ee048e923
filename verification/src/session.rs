//! A match between two players: the authoritative `Game` plus the two
//! `Player` capabilities, with the rule queries front ends need. The
//! driving loop itself lives with the front end; it hands each player a
//! cloned snapshot and applies the returned move here.

use vstd::prelude::*;

use crate::board::{Field, Position};
use crate::game::{Game, Move, Player};

verus! {

/// A running match: two players and the authoritative game state.
pub struct Session<P1: Player, P2: Player> {
    pub player1: P1,
    pub player2: P2,
    pub game: Game,
}

impl<P1: Player, P2: Player> Session<P1, P2> {
    /// Sets up a match: player 1 claims `Wealth`, player 2 `Knowledge`, and
    /// the board starts with a single `Birth` at the center.
    pub fn new(player1: P1, player2: P2, board_size: usize) -> (r: Self)
        requires
            2 <= board_size <= 46340,
        ensures
            r.player1.spec_symbol() == Field::Wealth,
            r.player2.spec_symbol() == Field::Knowledge,
            r.game@.wf(),
            r.game@.board.size == board_size,
            r.game@.game_over == false,
            r.game@.next_player == 0,
            r.game@.last_move is None,
            r.game@.board.at((board_size / 2) as int, (board_size / 2) as int) == Field::Birth,
            forall|i: int|
                0 <= i < r.game@.board.cells.len() && i != (board_size / 2) * board_size + (
                board_size / 2) ==> r.game@.board.cells[i] == Field::Empty,
    {
        let mut player1 = player1;
        let mut player2 = player2;
        player1.set_symbol(Field::Wealth);
        player2.set_symbol(Field::Knowledge);
        Session { player1, player2, game: Game::new(board_size) }
    }

    /// Applies one externally supplied move to the authoritative game, with
    /// the outcome of [`Game::apply_move`].
    pub fn apply_move(&mut self, move_to_apply: Move) -> (r: Result<(), String>)
        requires
            old(self).game@.wf(),
        ensures
            final(self).game@.wf(),
            old(self).game@.is_valid(move_to_apply) ==> final(self).game@ == old(
                self,
            ).game@.step(move_to_apply) && r is Ok,
            !old(self).game@.is_valid(move_to_apply) ==> final(self).game@ == old(self).game@,
            !old(self).game@.is_valid(move_to_apply) ==> (r matches Err(e) && e@
                == "Invalid move"@),
            final(self).player1 == old(self).player1,
            final(self).player2 == old(self).player2,
    {
        match self.game.apply_move(move_to_apply) {
            Ok(_) => Ok(()),
            Err(e) => Err(e),
        }
    }

    /// The legal symbols at `position` for whoever is about to move.
    pub fn valid_symbols_at(&self, position: &Position) -> (r: Vec<Field>)
        requires
            self.game@.wf(),
            self.game@.board.contains_pos(*position),
        ensures
            r@ == self.game@.valid_symbols(*position),
    {
        self.game.valid_symbols_at(position)
    }

    /// The maximum legal symbol at `position`, or `Empty`.
    pub fn best_symbol_at(&self, position: &Position) -> (r: Field)
        requires
            self.game@.wf(),
            self.game@.board.contains_pos(*position),
        ensures
            r == self.game@.best_symbol(*position),
    {
        self.game.best_symbol_at(position)
    }

    /// The claim symbol of the player about to move.
    pub fn next_player_symbol(&self) -> (r: Field)
        ensures
            r == self.game@.next_symbol(),
    {
        self.game.next_player_symbol()
    }

    /// Whether a move would be accepted by the rules engine.
    pub fn is_valid_move(&self, move_to_check: &Move) -> (r: bool)
        requires
            self.game@.wf(),
        ensures
            r == self.game@.is_valid(*move_to_check),
    {
        self.game.is_valid_move(move_to_check)
    }

    /// The name of the winning player, once the game is over and was won.
    pub fn winner(&self) -> (r: Option<String>)
        requires
            self.game@.wf(),
        ensures
            (r is Some) == (self.game@.spec_winner() is Some),
    {
        match self.game.winner() {
            Some(i) => {
                if i == 0 {
                    Some(self.player1.name())
                } else {
                    Some(self.player2.name())
                }
            },
            None => None,
        }
    }

    /// Clears the board for a rematch.
    pub fn reset(&mut self)
        requires
            old(self).game@.wf(),
        ensures
            final(self).game@.wf(),
            final(self).game@.game_over == false,
            final(self).game@.next_player == 0,
            final(self).game@.board.size == old(self).game@.board.size,
            forall|i: int|
                0 <= i < final(self).game@.board.cells.len() ==> final(self).game@.board.cells[i]
                    == Field::Empty,
            final(self).game@.last_move == old(self).game@.last_move,
            final(self).player1 == old(self).player1,
            final(self).player2 == old(self).player2,
    {
        self.game.reset();
    }
}

} // verus!
