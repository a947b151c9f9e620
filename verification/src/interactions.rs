//! The operations of the players: pairing, moving, offering and accepting a
//! draw, the two claims, and resignation.
//!
//! Each operation is a step from the state of the contract and its
//! arguments to the next state and the rewards that are due. The step that
//! each one takes is written down as a function on the views; the
//! operation either takes that step or, where the function answers with an
//! error, returns the error and leaves the state as it was.
use vstd::prelude::*;
use crate::board::{moved, Color};
use crate::check::checked;
use crate::moves::move_verdict;
use crate::requirements::{ChessError, OnChainChessScRequirements};
use crate::storage::{
    Address, ChessContract, ContractView, Game, GameId, GameState, GameView,
    OnChainChessScStorage,
};

verus! {

/// What a player is owed when a match ends: so many times the stake, and so
/// many points on the player's score.
#[derive(Clone, Copy, PartialEq, Eq, Debug, Structural)]
pub struct Reward {
    pub player: Address,
    pub stakes: u8,
    pub score: u64,
}

/// The winner takes both stakes and two points.
pub open spec fn win_reward(player: Address) -> Reward {
    Reward { player, stakes: 2, score: 2 }
}

/// In a draw each player takes the own stake back and one point.
pub open spec fn draw_reward(player: Address) -> Reward {
    Reward { player, stakes: 1, score: 1 }
}

/// More than one epoch has passed since the last move.
pub open spec fn deadline_passed(g: GameView, now: u64) -> bool {
    now - g.last_move_epoch > 1
}

/// The match after the side to move has made the move `from -> to` at
/// `now`: the piece promoted and relocated, the turn passed on, the epoch
/// taken. A pending draw offer stays.
pub open spec fn after_move(g: GameView, from: u8, to: u8, now: u64) -> GameView {
    GameView {
        board: moved(g.board, g.player_turn, from as int, to as int),
        player_turn: g.player_turn.spec_opposite(),
        last_move_epoch: now,
        ..g
    }
}

/// What a move request of `caller` leads to. Only the player to move can
/// move: everybody else, the opponent or a stranger, is out of turn.
pub open spec fn move_outcome(g: GameView, caller: Address, from: u8, to: u8, now: u64) -> Result<
    GameView,
    ChessError,
> {
    if g.state != GameState::Ongoing {
        Err(ChessError::MatchNotOngoing)
    } else if caller != g.player_to_move() {
        Err(ChessError::NotYourTurn)
    } else if deadline_passed(g, now) {
        Err(ChessError::DeadlineExpired)
    } else {
        match move_verdict(g.board, g.player_turn, from as int, to as int) {
            Err(reason) => Err(ChessError::IllegalMove(reason)),
            Ok(()) => Ok(after_move(g, from, to, now)),
        }
    }
}

/// What a draw request of `caller` leads to: the first request records the
/// offer, a request of the other player accepts it, and a repeated request
/// of the one who offered changes nothing.
pub open spec fn draw_outcome(g: GameView, caller: Address) -> Result<
    (GameView, Seq<Reward>),
    ChessError,
> {
    if g.state != GameState::Ongoing {
        Err(ChessError::MatchNotOngoing)
    } else if !g.is_participant(caller) {
        Err(ChessError::NotAParticipant)
    } else {
        match g.draw_offer {
            None => Ok((GameView { draw_offer: Some(caller), ..g }, Seq::empty())),
            Some(offerer) => if offerer != caller {
                Ok(
                    (
                        GameView { draw_offer: None, state: GameState::Draw, ..g },
                        seq![draw_reward(g.white_player), draw_reward(g.black_player)],
                    ),
                )
            } else {
                Ok((g, Seq::empty()))
            },
        }
    }
}

/// What the claim of `caller` that the opponent has just moved and left
/// the own king attacked leads to.
pub open spec fn illegal_move_outcome(g: GameView, caller: Address) -> Result<
    (GameView, Seq<Reward>),
    ChessError,
> {
    if g.state != GameState::Ongoing {
        Err(ChessError::MatchNotOngoing)
    } else if !g.is_participant(caller) {
        Err(ChessError::NotAParticipant)
    } else if caller != g.player_to_move() {
        Err(ChessError::NotYourTurn)
    } else if !checked(g.board, g.player_turn.spec_opposite()) {
        Err(ChessError::KingNotInCheck)
    } else {
        Ok((GameView { state: GameState::won_by(g.player_turn), ..g }, seq![win_reward(caller)]))
    }
}

/// What the claim of `caller` that the opponent has let the deadline pass
/// leads to.
pub open spec fn inactivity_outcome(g: GameView, caller: Address, now: u64) -> Result<
    (GameView, Seq<Reward>),
    ChessError,
> {
    if g.state != GameState::Ongoing {
        Err(ChessError::MatchNotOngoing)
    } else if !g.is_participant(caller) {
        Err(ChessError::NotAParticipant)
    } else if caller == g.player_to_move() {
        Err(ChessError::NotYourTurn)
    } else if !deadline_passed(g, now) {
        Err(ChessError::DeadlineNotYetExpired)
    } else {
        Ok(
            (
                GameView { state: GameState::won_by(g.player_turn.spec_opposite()), ..g },
                seq![win_reward(caller)],
            ),
        )
    }
}

/// What the resignation of `caller` leads to: the other player wins.
pub open spec fn resign_outcome(g: GameView, caller: Address) -> Result<
    (GameView, Seq<Reward>),
    ChessError,
> {
    if g.state != GameState::Ongoing {
        Err(ChessError::MatchNotOngoing)
    } else if !g.is_participant(caller) {
        Err(ChessError::NotAParticipant)
    } else if caller == g.white_player {
        Ok((GameView { state: GameState::BlackWon, ..g }, seq![win_reward(g.black_player)]))
    } else {
        Ok((GameView { state: GameState::WhiteWon, ..g }, seq![win_reward(g.white_player)]))
    }
}

/// The match an operation is about, unless the contract is paused or has
/// no such match.
pub open spec fn access(c: ContractView, game_id: GameId) -> Result<GameView, ChessError> {
    if c.paused {
        Err(ChessError::NotActive)
    } else if !c.has_game(game_id) {
        Err(ChessError::MatchNotFound)
    } else {
        Ok(c.game(game_id))
    }
}

/// The step of `make_move`.
pub open spec fn make_move_step(
    c: ContractView,
    caller: Address,
    game_id: GameId,
    from: u8,
    to: u8,
    now: u64,
) -> Result<ContractView, ChessError> {
    match access(c, game_id) {
        Err(e) => Err(e),
        Ok(g) => match move_outcome(g, caller, from, to, now) {
            Err(e) => Err(e),
            Ok(next) => Ok(c.with_game(game_id, next)),
        },
    }
}

/// Puts the outcome of an operation on one match into the contract.
pub open spec fn settled(
    c: ContractView,
    game_id: GameId,
    outcome: Result<(GameView, Seq<Reward>), ChessError>,
) -> Result<(ContractView, Seq<Reward>), ChessError> {
    match outcome {
        Err(e) => Err(e),
        Ok((next, rewards)) => Ok((c.with_game(game_id, next), rewards)),
    }
}

/// The step of `draw`.
pub open spec fn draw_step(c: ContractView, caller: Address, game_id: GameId) -> Result<
    (ContractView, Seq<Reward>),
    ChessError,
> {
    match access(c, game_id) {
        Err(e) => Err(e),
        Ok(g) => settled(c, game_id, draw_outcome(g, caller)),
    }
}

/// The step of `call_illegal_move`.
pub open spec fn call_illegal_move_step(c: ContractView, caller: Address, game_id: GameId) -> Result<
    (ContractView, Seq<Reward>),
    ChessError,
> {
    match access(c, game_id) {
        Err(e) => Err(e),
        Ok(g) => settled(c, game_id, illegal_move_outcome(g, caller)),
    }
}

/// The step of `signal_inactivity`.
pub open spec fn signal_inactivity_step(
    c: ContractView,
    caller: Address,
    game_id: GameId,
    now: u64,
) -> Result<(ContractView, Seq<Reward>), ChessError> {
    match access(c, game_id) {
        Err(e) => Err(e),
        Ok(g) => settled(c, game_id, inactivity_outcome(g, caller, now)),
    }
}

/// The step of `resign`.
pub open spec fn resign_step(c: ContractView, caller: Address, game_id: GameId) -> Result<
    (ContractView, Seq<Reward>),
    ChessError,
> {
    match access(c, game_id) {
        Err(e) => Err(e),
        Ok(g) => settled(c, game_id, resign_outcome(g, caller)),
    }
}

/// The step of `join_game`: the first to come waits, the second is paired
/// with the one who waits, as Black against White, in a new match.
pub open spec fn join_game_step(
    c: ContractView,
    caller: Address,
    payment_token: Seq<u8>,
    payment_amount: Seq<u8>,
    now: u64,
) -> Result<ContractView, ChessError> {
    if c.paused {
        Err(ChessError::NotActive)
    } else if payment_amount != c.wager_amount || payment_token != c.wager_token_id {
        Err(ChessError::WrongStake)
    } else {
        match c.waiting {
            None => Ok(ContractView { waiting: Some(caller), ..c }),
            Some(player) => if player == caller {
                Err(ChessError::SelfPairing)
            } else {
                Ok(
                    ContractView {
                        waiting: None,
                        games: c.games.push(
                            GameView::fresh(c.games.len() + 1, player, caller, now),
                        ),
                        ..c
                    },
                )
            },
        }
    }
}

/// An operation that returns no rewards took the step `step`, or refused
/// and changed nothing.
pub open spec fn took_step(
    before: ContractView,
    after: ContractView,
    result: Result<(), ChessError>,
    step: Result<ContractView, ChessError>,
) -> bool {
    match step {
        Ok(next) => result is Ok && after == next,
        Err(e) => result == Err::<(), ChessError>(e) && after == before,
    }
}

/// An operation that returns rewards took the step `step`, or refused and
/// changed nothing.
pub open spec fn took_rewarded_step(
    before: ContractView,
    after: ContractView,
    result: Result<Vec<Reward>, ChessError>,
    step: Result<(ContractView, Seq<Reward>), ChessError>,
) -> bool {
    match step {
        Ok((next, rewards)) => result is Ok && result.unwrap()@ == rewards && after == next,
        Err(e) => result == Err::<Vec<Reward>, ChessError>(e) && after == before,
    }
}

/// Whether two byte strings are equal.
fn same_bytes(a: &Vec<u8>, b: &Vec<u8>) -> (same: bool)
    ensures
        same == (a@ == b@),
{
    if a.len() != b.len() {
        return false;
    }
    let mut i: usize = 0;
    while i < a.len()
        invariant
            i <= a.len(),
            a.len() == b.len(),
            forall|j: int| 0 <= j < i ==> a@[j] == b@[j],
        decreases a.len() - i,
    {
        if a[i] != b[i] {
            return false;
        }
        i += 1;
    }
    assert(a@ =~= b@);
    true
}

fn is_participant(game: &Game, who: Address) -> (found: bool)
    ensures
        found == game@.is_participant(who),
{
    who == game.white_player || who == game.black_player
}

fn player_to_move(game: &Game) -> (player: Address)
    ensures
        player == game@.player_to_move(),
{
    match game.player_turn {
        Color::White => game.white_player,
        Color::Black => game.black_player,
    }
}

fn past_deadline(game: &Game, now: u64) -> (passed: bool)
    ensures
        passed == deadline_passed(game@, now),
{
    now > game.last_move_epoch && now - game.last_move_epoch > 1
}

pub trait OnChainChessScInteractions: OnChainChessScRequirements {
    /// `caller`, who has paid `payment_amount` of the token `payment_token`,
    /// asks for an opponent at the epoch `now`.
    fn join_game(
        &mut self,
        caller: Address,
        payment_token: &Vec<u8>,
        payment_amount: &Vec<u8>,
        now: u64,
    ) -> (result: Result<(), ChessError>)
        ensures
            took_step(
                old(self)@,
                final(self)@,
                result,
                join_game_step(old(self)@, caller, payment_token@, payment_amount@, now),
            ),
    ;

    /// `caller` moves the piece on `from` to `to` in the match `game_id`
    /// at the epoch `now`.
    fn make_move(&mut self, caller: Address, game_id: GameId, from: u8, to: u8, now: u64) -> (result:
        Result<(), ChessError>)
        ensures
            took_step(
                old(self)@,
                final(self)@,
                result,
                make_move_step(old(self)@, caller, game_id, from, to, now),
            ),
    ;

    /// `caller` offers a draw in the match `game_id`, or accepts the one
    /// the opponent has offered.
    fn draw(&mut self, caller: Address, game_id: GameId) -> (result: Result<Vec<Reward>, ChessError>)
        ensures
            took_rewarded_step(
                old(self)@,
                final(self)@,
                result,
                draw_step(old(self)@, caller, game_id),
            ),
    ;

    /// `caller` claims that the opponent's last move in the match
    /// `game_id` has left the opponent's own king attacked.
    fn call_illegal_move(&mut self, caller: Address, game_id: GameId) -> (result: Result<
        Vec<Reward>,
        ChessError,
    >)
        ensures
            took_rewarded_step(
                old(self)@,
                final(self)@,
                result,
                call_illegal_move_step(old(self)@, caller, game_id),
            ),
    ;

    /// `caller` claims at the epoch `now` that the opponent has not moved
    /// in time in the match `game_id`.
    fn signal_inactivity(&mut self, caller: Address, game_id: GameId, now: u64) -> (result: Result<
        Vec<Reward>,
        ChessError,
    >)
        ensures
            took_rewarded_step(
                old(self)@,
                final(self)@,
                result,
                signal_inactivity_step(old(self)@, caller, game_id, now),
            ),
    ;

    /// `caller` gives up the match `game_id`.
    fn resign(&mut self, caller: Address, game_id: GameId) -> (result: Result<
        Vec<Reward>,
        ChessError,
    >)
        ensures
            took_rewarded_step(
                old(self)@,
                final(self)@,
                result,
                resign_step(old(self)@, caller, game_id),
            ),
    ;
}

impl ChessContract {
    /// The match an operation is about, once the conditions that all
    /// operations on a match share are met.
    fn ongoing_game(&self, game_id: GameId) -> (found: Result<Game, ChessError>)
        ensures
            match access(self@, game_id) {
                Err(e) => found == Err::<Game, ChessError>(e),
                Ok(g) => if g.state != GameState::Ongoing {
                    found == Err::<Game, ChessError>(ChessError::MatchNotOngoing)
                } else {
                    found is Ok && found.unwrap()@ == g
                },
            },
    {
        if let Err(e) = self.require_is_active() {
            return Err(e);
        }
        if let Err(e) = self.require_game_exists(game_id) {
            return Err(e);
        }
        if let Err(e) = self.require_game_is_ongoing(game_id) {
            return Err(e);
        }
        Ok(self.existing_game(game_id))
    }
}

impl OnChainChessScInteractions for ChessContract {
    fn join_game(
        &mut self,
        caller: Address,
        payment_token: &Vec<u8>,
        payment_amount: &Vec<u8>,
        now: u64,
    ) -> (result: Result<(), ChessError>) {
        if let Err(e) = self.require_is_active() {
            return Err(e);
        }
        if !same_bytes(payment_amount, self.wager_amount()) {
            return Err(ChessError::WrongStake);
        }
        if !same_bytes(payment_token, self.wager_token_id()) {
            return Err(ChessError::WrongStake);
        }
        match self.is_player_waiting_opt() {
            Some(player) => {
                if player == caller {
                    return Err(ChessError::SelfPairing);
                }
                self.add_game(player, caller, now);
                self.waiting = None;
            },
            None => {
                self.waiting = Some(caller);
                assert(self@.games =~= old(self)@.games);
            },
        }
        Ok(())
    }

    fn make_move(&mut self, caller: Address, game_id: GameId, from: u8, to: u8, now: u64) -> (result:
        Result<(), ChessError>) {
        let game = match self.ongoing_game(game_id) {
            Ok(game) => game,
            Err(e) => {
                return Err(e);
            },
        };
        let color_to_move = game.player_turn;
        if player_to_move(&game) != caller {
            return Err(ChessError::NotYourTurn);
        }
        if past_deadline(&game, now) {
            return Err(ChessError::DeadlineExpired);
        }
        if let Err(e) = self.require_is_valid_move(game_id, color_to_move, from, to) {
            return Err(e);
        }
        let mut game = self.existing_game(game_id);
        game.board.apply(from, to);
        game.last_move_epoch = now;
        game.player_turn = color_to_move.opposite();
        self.replace_game(game_id, game);
        assert(self@.games =~= old(self)@.games.update(
            game_id - 1,
            after_move(old(self)@.game(game_id), from, to, now),
        ));
        Ok(())
    }

    fn draw(&mut self, caller: Address, game_id: GameId) -> (result: Result<Vec<Reward>, ChessError>) {
        let mut game = match self.ongoing_game(game_id) {
            Ok(game) => game,
            Err(e) => {
                return Err(e);
            },
        };
        if !is_participant(&game, caller) {
            return Err(ChessError::NotAParticipant);
        }
        let mut rewards: Vec<Reward> = Vec::new();
        match game.draw_offer {
            None => {
                game.draw_offer = Some(caller);
            },
            Some(offerer) => {
                if offerer != caller {
                    game.draw_offer = None;
                    game.state = GameState::Draw;
                    rewards.push(Reward { player: game.white_player, stakes: 1, score: 1 });
                    rewards.push(Reward { player: game.black_player, stakes: 1, score: 1 });
                }
            },
        }
        self.replace_game(game_id, game);
        proof {
            let before = old(self)@.game(game_id);
            assert(draw_outcome(before, caller) is Ok);
            assert(game@ == draw_outcome(before, caller).unwrap().0);
            assert(rewards@ =~= draw_outcome(before, caller).unwrap().1);
        }
        Ok(rewards)
    }

    fn call_illegal_move(&mut self, caller: Address, game_id: GameId) -> (result: Result<
        Vec<Reward>,
        ChessError,
    >) {
        let mut game = match self.ongoing_game(game_id) {
            Ok(game) => game,
            Err(e) => {
                return Err(e);
            },
        };
        if !is_participant(&game, caller) {
            return Err(ChessError::NotAParticipant);
        }
        if player_to_move(&game) != caller {
            return Err(ChessError::NotYourTurn);
        }
        if let Err(e) = self.require_king_in_check(game.player_turn.opposite(), game_id) {
            return Err(e);
        }
        game.state = match game.player_turn {
            Color::White => GameState::WhiteWon,
            Color::Black => GameState::BlackWon,
        };
        self.replace_game(game_id, game);
        let mut rewards: Vec<Reward> = Vec::new();
        rewards.push(Reward { player: caller, stakes: 2, score: 2 });
        proof {
            let before = old(self)@.game(game_id);
            assert(game@ == illegal_move_outcome(before, caller).unwrap().0);
            assert(rewards@ =~= illegal_move_outcome(before, caller).unwrap().1);
        }
        Ok(rewards)
    }

    fn signal_inactivity(&mut self, caller: Address, game_id: GameId, now: u64) -> (result: Result<
        Vec<Reward>,
        ChessError,
    >) {
        let mut game = match self.ongoing_game(game_id) {
            Ok(game) => game,
            Err(e) => {
                return Err(e);
            },
        };
        if !is_participant(&game, caller) {
            return Err(ChessError::NotAParticipant);
        }
        if player_to_move(&game) == caller {
            return Err(ChessError::NotYourTurn);
        }
        if !past_deadline(&game, now) {
            return Err(ChessError::DeadlineNotYetExpired);
        }
        game.state = match game.player_turn {
            Color::White => GameState::BlackWon,
            Color::Black => GameState::WhiteWon,
        };
        self.replace_game(game_id, game);
        let mut rewards: Vec<Reward> = Vec::new();
        rewards.push(Reward { player: caller, stakes: 2, score: 2 });
        proof {
            let before = old(self)@.game(game_id);
            assert(game@ == inactivity_outcome(before, caller, now).unwrap().0);
            assert(rewards@ =~= inactivity_outcome(before, caller, now).unwrap().1);
        }
        Ok(rewards)
    }

    fn resign(&mut self, caller: Address, game_id: GameId) -> (result: Result<
        Vec<Reward>,
        ChessError,
    >) {
        let mut game = match self.ongoing_game(game_id) {
            Ok(game) => game,
            Err(e) => {
                return Err(e);
            },
        };
        if !is_participant(&game, caller) {
            return Err(ChessError::NotAParticipant);
        }
        let mut rewards: Vec<Reward> = Vec::new();
        if caller == game.white_player {
            game.state = GameState::BlackWon;
            rewards.push(Reward { player: game.black_player, stakes: 2, score: 2 });
        } else {
            game.state = GameState::WhiteWon;
            rewards.push(Reward { player: game.white_player, stakes: 2, score: 2 });
        }
        self.replace_game(game_id, game);
        proof {
            let before = old(self)@.game(game_id);
            assert(game@ == resign_outcome(before, caller).unwrap().0);
            assert(rewards@ =~= resign_outcome(before, caller).unwrap().1);
        }
        Ok(rewards)
    }
}

} // verus!
