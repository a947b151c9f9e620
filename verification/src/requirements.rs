//! The conditions an operation must meet before it changes anything, each
//! with the failure it answers with.
use vstd::prelude::*;
use crate::board::{promoted, Color};
use crate::check::{checked, in_check};
use crate::moves::{move_verdict, validate_move, IllegalMove};
use crate::storage::{
    ChessContract, ContractView, GameId, GameState, GameView, OnChainChessScStorage,
};

verus! {

/// Why an operation is refused. A refused operation changes nothing.
#[derive(Clone, Copy, PartialEq, Eq, Debug, Structural)]
pub enum ChessError {
    /// The contract is paused.
    NotActive,
    /// No match has the given number.
    MatchNotFound,
    /// The match has ended.
    MatchNotOngoing,
    /// The operation belongs to the other player at this point: a move or
    /// a claim of an illegal move by anyone but the player to move, a claim
    /// of inactivity by the player to move.
    NotYourTurn,
    /// The caller is neither of the two players of the match, and asks for
    /// a draw, makes a claim or resigns.
    NotAParticipant,
    /// The move comes more than one epoch after the last one.
    DeadlineExpired,
    /// Inactivity is claimed while the opponent may still move.
    DeadlineNotYetExpired,
    /// The validator refuses the move.
    IllegalMove(IllegalMove),
    /// The king of the player who moved last is not attacked.
    KingNotInCheck,
    /// The caller is already the one who waits for an opponent.
    SelfPairing,
    /// The payment is not the stake.
    WrongStake,
}

/// The answer to whether the match `game_id` exists.
pub open spec fn existence_verdict(c: ContractView, game_id: GameId) -> Result<(), ChessError> {
    if c.has_game(game_id) {
        Ok(())
    } else {
        Err(ChessError::MatchNotFound)
    }
}

/// The answer to whether the match `game_id` is still played.
pub open spec fn ongoing_verdict(c: ContractView, game_id: GameId) -> Result<(), ChessError> {
    if !c.has_game(game_id) {
        Err(ChessError::MatchNotFound)
    } else if c.game(game_id).state != GameState::Ongoing {
        Err(ChessError::MatchNotOngoing)
    } else {
        Ok(())
    }
}

/// The validator's answer for a move in the match `game_id`.
pub open spec fn valid_move_verdict(
    c: ContractView,
    game_id: GameId,
    color: Color,
    from: u8,
    to: u8,
) -> Result<(), ChessError> {
    if !c.has_game(game_id) {
        Err(ChessError::MatchNotFound)
    } else {
        match move_verdict(c.game(game_id).board, color, from as int, to as int) {
            Ok(()) => Ok(()),
            Err(reason) => Err(ChessError::IllegalMove(reason)),
        }
    }
}

/// The match with the source cell of a promoting pawn overwritten.
pub open spec fn with_promotion(g: GameView, color: Color, from: u8, to: u8) -> GameView {
    GameView { board: promoted(g.board, color, from as int, to as int), ..g }
}

/// The answer to the claim that `player`'s king is attacked in the match
/// `game_id`.
pub open spec fn check_verdict(c: ContractView, player: Color, game_id: GameId) -> Result<
    (),
    ChessError,
> {
    if !c.has_game(game_id) {
        Err(ChessError::MatchNotFound)
    } else if !checked(c.game(game_id).board, player) {
        Err(ChessError::KingNotInCheck)
    } else {
        Ok(())
    }
}

pub trait OnChainChessScRequirements: OnChainChessScStorage {
    /// Refuses while the contract is paused.
    fn require_is_active(&self) -> (verdict: Result<(), ChessError>)
        ensures
            verdict == (if self@.paused {
                Err::<(), ChessError>(ChessError::NotActive)
            } else {
                Ok(())
            }),
    ;

    /// Refuses a number that no match has.
    fn require_game_exists(&self, game_id: GameId) -> (verdict: Result<(), ChessError>)
        ensures
            verdict == existence_verdict(self@, game_id),
    ;

    /// Refuses a match that has ended.
    fn require_game_is_ongoing(&self, game_id: GameId) -> (verdict: Result<(), ChessError>)
        ensures
            verdict == ongoing_verdict(self@, game_id),
    ;

    /// Validates the move `from -> to` of `color_to_move` on the board of
    /// the match. Where the move is valid and takes a pawn to its last
    /// rank, the source cell is overwritten with the queen code; nothing
    /// else changes.
    fn require_is_valid_move(
        &mut self,
        game_id: GameId,
        color_to_move: Color,
        from: u8,
        to: u8,
    ) -> (verdict: Result<(), ChessError>)
        ensures
            verdict == valid_move_verdict(old(self)@, game_id, color_to_move, from, to),
            verdict is Ok ==> final(self)@ == old(self)@.with_game(
                game_id,
                with_promotion(old(self)@.game(game_id), color_to_move, from, to),
            ),
            verdict is Err ==> final(self)@ == old(self)@,
    ;

    /// Refuses unless the king of `player_that_moved` is attacked on the
    /// board of the match. A side without a king is not attacked.
    fn require_king_in_check(&self, player_that_moved: Color, game_id: GameId) -> (verdict: Result<
        (),
        ChessError,
    >)
        ensures
            verdict == check_verdict(self@, player_that_moved, game_id),
    ;
}

impl OnChainChessScRequirements for ChessContract {
    fn require_is_active(&self) -> (verdict: Result<(), ChessError>) {
        if self.is_paused() {
            Err(ChessError::NotActive)
        } else {
            Ok(())
        }
    }

    fn require_game_exists(&self, game_id: GameId) -> (verdict: Result<(), ChessError>) {
        if game_id >= 1 && game_id <= self.games().len() {
            Ok(())
        } else {
            Err(ChessError::MatchNotFound)
        }
    }

    fn require_game_is_ongoing(&self, game_id: GameId) -> (verdict: Result<(), ChessError>) {
        match self.game(game_id) {
            None => Err(ChessError::MatchNotFound),
            Some(game) => {
                if game.state == GameState::Ongoing {
                    Ok(())
                } else {
                    Err(ChessError::MatchNotOngoing)
                }
            },
        }
    }

    fn require_is_valid_move(
        &mut self,
        game_id: GameId,
        color_to_move: Color,
        from: u8,
        to: u8,
    ) -> (verdict: Result<(), ChessError>) {
        match self.game(game_id) {
            None => Err(ChessError::MatchNotFound),
            Some(game) => {
                match validate_move(&game.board, color_to_move, from, to) {
                    Err(reason) => Err(ChessError::IllegalMove(reason)),
                    Ok(()) => {
                        let mut game = game;
                        game.board.promote(color_to_move, from, to);
                        self.replace_game(game_id, game);
                        Ok(())
                    },
                }
            },
        }
    }

    fn require_king_in_check(&self, player_that_moved: Color, game_id: GameId) -> (verdict: Result<
        (),
        ChessError,
    >) {
        match self.board(game_id) {
            None => Err(ChessError::MatchNotFound),
            Some(board) => {
                if in_check(&board, player_that_moved) {
                    Ok(())
                } else {
                    Err(ChessError::KingNotInCheck)
                }
            },
        }
    }
}

} // verus!
