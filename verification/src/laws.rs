//! What holds of every match, whatever the players do. Each statement is
//! about the steps that the operations take, as `interactions` writes them
//! down, and so about the operations themselves.
use vstd::prelude::*;
use crate::board::{
    lemma_moved_count, piece_count, standard_cells, valid_cells, Color, EMPTY,
};
use crate::check::checked;
use crate::interactions::{
    access, after_move, call_illegal_move_step, deadline_passed, draw_outcome, draw_step,
    illegal_move_outcome, inactivity_outcome, join_game_step, make_move_step, move_outcome,
    resign_outcome, resign_step, signal_inactivity_step, Reward,
};
use crate::moves::legal;
use crate::requirements::ChessError;
use crate::storage::{Address, ContractView, GameId, GameState, GameView};

verus! {

/// A move is accepted exactly when the match is ongoing, the caller is the
/// player to move, the deadline has not passed, and the validator accepts
/// the move on the board as it stands.
pub proof fn law_acceptance(g: GameView, caller: Address, from: u8, to: u8, now: u64)
    ensures
        move_outcome(g, caller, from, to, now) is Ok <==> {
            &&& g.state == GameState::Ongoing
            &&& caller == g.player_to_move()
            &&& !deadline_passed(g, now)
            &&& legal(g.board, g.player_turn, from as int, to as int)
        },
        move_outcome(g, caller, from, to, now) is Ok ==> move_outcome(g, caller, from, to, now)
            == Ok::<GameView, ChessError>(after_move(g, from, to, now)),
{
}

/// An accepted move passes the turn to the other side and touches neither
/// the players, the state nor a pending draw offer.
pub proof fn law_turn_passes(g: GameView, caller: Address, from: u8, to: u8, now: u64)
    requires
        move_outcome(g, caller, from, to, now) is Ok,
    ensures
        ({
            let next = move_outcome(g, caller, from, to, now).unwrap();
            &&& next.player_turn == g.player_turn.spec_opposite()
            &&& next.player_turn != g.player_turn
            &&& next.state == GameState::Ongoing
            &&& next.white_player == g.white_player
            &&& next.black_player == g.black_player
            &&& next.draw_offer == g.draw_offer
            &&& next.game_id == g.game_id
        }),
{
}

/// Of two accepted moves that follow one another, the second is made by
/// the other player, and after it the turn is back where it was.
pub proof fn law_moves_alternate(
    g: GameView,
    first: Address,
    from1: u8,
    to1: u8,
    now1: u64,
    second: Address,
    from2: u8,
    to2: u8,
    now2: u64,
)
    requires
        g.wf(),
        move_outcome(g, first, from1, to1, now1) is Ok,
        move_outcome(move_outcome(g, first, from1, to1, now1).unwrap(), second, from2, to2, now2)
            is Ok,
    ensures
        first != second,
        move_outcome(
            move_outcome(g, first, from1, to1, now1).unwrap(),
            second,
            from2,
            to2,
            now2,
        ).unwrap().player_turn == g.player_turn,
{
}

/// An accepted move that is made at an epoch not before the last one takes
/// that epoch: the epoch of the last move never goes back.
pub proof fn law_epoch_never_goes_back(g: GameView, caller: Address, from: u8, to: u8, now: u64)
    requires
        now >= g.last_move_epoch,
        move_outcome(g, caller, from, to, now) is Ok,
    ensures
        move_outcome(g, caller, from, to, now).unwrap().last_move_epoch == now,
        move_outcome(g, caller, from, to, now).unwrap().last_move_epoch >= g.last_move_epoch,
{
}

/// An accepted move leaves a board of sixty-four codes, and one piece less
/// on it exactly when the destination held a piece.
pub proof fn law_move_keeps_board(g: GameView, caller: Address, from: u8, to: u8, now: u64)
    requires
        valid_cells(g.board),
        move_outcome(g, caller, from, to, now) is Ok,
    ensures
        ({
            let next = move_outcome(g, caller, from, to, now).unwrap();
            &&& valid_cells(next.board)
            &&& g.board[to as int] == EMPTY ==> piece_count(next.board) == piece_count(g.board)
            &&& g.board[to as int] != EMPTY ==> piece_count(next.board) + 1 == piece_count(
                g.board,
            )
        }),
{
    lemma_moved_count(g.board, g.player_turn, from as int, to as int);
}

/// After an accepted move the opponent's claim succeeds exactly when the
/// king of the player who moved is attacked on the board that the move
/// has left, and the mover has no claim.
pub proof fn law_claim_judges_last_move(
    g: GameView,
    mover: Address,
    from: u8,
    to: u8,
    now: u64,
    claimant: Address,
)
    requires
        g.wf(),
        move_outcome(g, mover, from, to, now) is Ok,
        g.is_participant(claimant),
        claimant != mover,
    ensures
        ({
            let next = move_outcome(g, mover, from, to, now).unwrap();
            &&& illegal_move_outcome(next, claimant) is Ok <==> checked(next.board, g.player_turn)
            &&& illegal_move_outcome(next, claimant) is Err ==> illegal_move_outcome(
                next,
                claimant,
            ) == Err::<(GameView, Seq<Reward>), ChessError>(
                ChessError::KingNotInCheck,
            )
            &&& illegal_move_outcome(next, mover) == Err::<
                (GameView, Seq<Reward>),
                ChessError,
            >(ChessError::NotYourTurn)
        }),
{
}

/// A player who answers a move with a move has no claim left: the claim
/// is refused once the claimant's own next move has been accepted.
pub proof fn law_claim_lapses(
    g: GameView,
    mover: Address,
    from1: u8,
    to1: u8,
    now1: u64,
    claimant: Address,
    from2: u8,
    to2: u8,
    now2: u64,
)
    requires
        g.wf(),
        move_outcome(g, mover, from1, to1, now1) is Ok,
        move_outcome(move_outcome(g, mover, from1, to1, now1).unwrap(), claimant, from2, to2, now2)
            is Ok,
    ensures
        illegal_move_outcome(
            move_outcome(
                move_outcome(g, mover, from1, to1, now1).unwrap(),
                claimant,
                from2,
                to2,
                now2,
            ).unwrap(),
            claimant,
        ) == Err::<(GameView, Seq<Reward>), ChessError>(
            ChessError::NotYourTurn,
        ),
{
}

/// A draw request ends the match exactly when the other player's offer is
/// pending: it takes the requests of two distinct players.
pub proof fn law_draw_takes_two(g: GameView, caller: Address)
    requires
        g.wf(),
    ensures
        (draw_outcome(g, caller) is Ok && draw_outcome(g, caller).unwrap().0.state
            == GameState::Draw) <==> {
            &&& g.state == GameState::Ongoing
            &&& g.is_participant(caller)
            &&& g.draw_offer is Some
            &&& g.draw_offer.unwrap() != caller
            &&& g.is_participant(g.draw_offer.unwrap())
        },
        draw_outcome(g, caller) is Ok ==> {
            let next = draw_outcome(g, caller).unwrap().0;
            next.draw_offer is Some ==> next.draw_offer == Some(caller) || next.draw_offer
                == g.draw_offer
        },
{
}

/// The match after `caller` has asked `n` times for a draw, with nothing
/// else happening in between.
pub open spec fn after_draw_requests(g: GameView, caller: Address, n: nat) -> GameView
    decreases n,
{
    if n == 0 {
        g
    } else {
        let before = after_draw_requests(g, caller, (n - 1) as nat);
        match draw_outcome(before, caller) {
            Ok((next, _)) => next,
            Err(_) => before,
        }
    }
}

/// However often one player asks for a draw, the match goes on while the
/// other player has not asked.
pub proof fn law_one_player_cannot_draw(g: GameView, caller: Address, n: nat)
    requires
        g.state == GameState::Ongoing,
        g.draw_offer is None || g.draw_offer == Some(caller),
    ensures
        after_draw_requests(g, caller, n).state == GameState::Ongoing,
        after_draw_requests(g, caller, n).draw_offer is None || after_draw_requests(
            g,
            caller,
            n,
        ).draw_offer == Some(caller),
    decreases n,
{
    if n > 0 {
        law_one_player_cannot_draw(g, caller, (n - 1) as nat);
    }
}

/// A resignation, an accepted draw and a successful claim end the match.
pub proof fn law_endings_end(g: GameView, caller: Address, now: u64)
    ensures
        resign_outcome(g, caller) is Ok ==> resign_outcome(g, caller).unwrap().0.state
            != GameState::Ongoing,
        illegal_move_outcome(g, caller) is Ok ==> illegal_move_outcome(g, caller).unwrap().0.state
            != GameState::Ongoing,
        inactivity_outcome(g, caller, now) is Ok ==> inactivity_outcome(
            g,
            caller,
            now,
        ).unwrap().0.state != GameState::Ongoing,
        draw_outcome(g, caller) is Ok && draw_outcome(g, caller).unwrap().1.len() > 0
            ==> draw_outcome(g, caller).unwrap().0.state == GameState::Draw,
{
}

/// The stakes that a sequence of rewards pays out in all.
pub open spec fn stakes_paid(rewards: Seq<Reward>) -> nat
    decreases rewards.len(),
{
    if rewards.len() == 0 {
        0
    } else {
        stakes_paid(rewards.drop_last()) + rewards.last().stakes as nat
    }
}

/// The two stakes of a match are paid out when it ends, all of them and
/// no more, and nothing is paid while it goes on.
pub proof fn law_stakes_are_paid_at_the_end(g: GameView, caller: Address, now: u64)
    ensures
        draw_outcome(g, caller) is Ok ==> stakes_paid(draw_outcome(g, caller).unwrap().1) == (if
            draw_outcome(g, caller).unwrap().0.state == GameState::Ongoing {
            0nat
        } else {
            2nat
        }),
        illegal_move_outcome(g, caller) is Ok ==> stakes_paid(
            illegal_move_outcome(g, caller).unwrap().1,
        ) == 2,
        inactivity_outcome(g, caller, now) is Ok ==> stakes_paid(
            inactivity_outcome(g, caller, now).unwrap().1,
        ) == 2,
        resign_outcome(g, caller) is Ok ==> stakes_paid(resign_outcome(g, caller).unwrap().1) == 2,
{
    reveal_with_fuel(stakes_paid, 3);
}

/// A match that has ended refuses every operation, with the same answer.
pub proof fn law_ended_match_refuses(g: GameView, caller: Address, from: u8, to: u8, now: u64)
    requires
        g.state != GameState::Ongoing,
    ensures
        move_outcome(g, caller, from, to, now) == Err::<GameView, ChessError>(
            ChessError::MatchNotOngoing,
        ),
        draw_outcome(g, caller) == Err::<(GameView, Seq<Reward>), ChessError>(
            ChessError::MatchNotOngoing,
        ),
        illegal_move_outcome(g, caller) == Err::<
            (GameView, Seq<Reward>),
            ChessError,
        >(ChessError::MatchNotOngoing),
        inactivity_outcome(g, caller, now) == Err::<
            (GameView, Seq<Reward>),
            ChessError,
        >(ChessError::MatchNotOngoing),
        resign_outcome(g, caller) == Err::<
            (GameView, Seq<Reward>),
            ChessError,
        >(ChessError::MatchNotOngoing),
{
}

/// In a contract that is not paused, every operation on a match that has
/// ended is refused as not ongoing.
pub proof fn law_contract_refuses_ended_match(
    c: ContractView,
    caller: Address,
    game_id: GameId,
    from: u8,
    to: u8,
    now: u64,
)
    requires
        !c.paused,
        c.has_game(game_id),
        c.game(game_id).state != GameState::Ongoing,
    ensures
        make_move_step(c, caller, game_id, from, to, now) == Err::<ContractView, ChessError>(
            ChessError::MatchNotOngoing,
        ),
        draw_step(c, caller, game_id) is Err && draw_step(c, caller, game_id)->Err_0
            == ChessError::MatchNotOngoing,
        call_illegal_move_step(c, caller, game_id) is Err && call_illegal_move_step(
            c,
            caller,
            game_id,
        )->Err_0 == ChessError::MatchNotOngoing,
        signal_inactivity_step(c, caller, game_id, now) is Err && signal_inactivity_step(
            c,
            caller,
            game_id,
            now,
        )->Err_0 == ChessError::MatchNotOngoing,
        resign_step(c, caller, game_id) is Err && resign_step(c, caller, game_id)->Err_0
            == ChessError::MatchNotOngoing,
{
    law_ended_match_refuses(c.game(game_id), caller, from, to, now);
}

/// Inactivity can be claimed by the player who waits, and only once more
/// than one epoch has passed since the last move; until then the player to
/// move can still move.
pub proof fn law_deadline(g: GameView, caller: Address, from: u8, to: u8, now: u64)
    requires
        g.wf(),
        g.state == GameState::Ongoing,
        g.is_participant(caller),
    ensures
        inactivity_outcome(g, caller, now) is Ok <==> caller != g.player_to_move()
            && deadline_passed(g, now),
        inactivity_outcome(g, caller, now) is Ok ==> move_outcome(
            g,
            g.player_to_move(),
            from,
            to,
            now,
        ) == Err::<GameView, ChessError>(ChessError::DeadlineExpired),
{
}

/// Every operation on a match keeps it well formed: two distinct players,
/// sixty-four codes on the board, and a draw offer only from a player.
pub proof fn law_match_stays_well_formed(g: GameView, caller: Address, from: u8, to: u8, now: u64)
    requires
        g.wf(),
    ensures
        move_outcome(g, caller, from, to, now) is Ok ==> move_outcome(
            g,
            caller,
            from,
            to,
            now,
        ).unwrap().wf(),
        draw_outcome(g, caller) is Ok ==> draw_outcome(g, caller).unwrap().0.wf(),
        illegal_move_outcome(g, caller) is Ok ==> illegal_move_outcome(g, caller).unwrap().0.wf(),
        inactivity_outcome(g, caller, now) is Ok ==> inactivity_outcome(
            g,
            caller,
            now,
        ).unwrap().0.wf(),
        resign_outcome(g, caller) is Ok ==> resign_outcome(g, caller).unwrap().0.wf(),
{
    if move_outcome(g, caller, from, to, now) is Ok {
        lemma_moved_count(g.board, g.player_turn, from as int, to as int);
    }
}

/// In a contract that is not paused, the first to come with the stake
/// waits: the slot holds the caller, and no match is made or touched.
pub proof fn law_first_join_waits(
    c: ContractView,
    caller: Address,
    payment_token: Seq<u8>,
    payment_amount: Seq<u8>,
    now: u64,
)
    requires
        !c.paused,
        c.waiting is None,
        payment_token == c.wager_token_id,
        payment_amount == c.wager_amount,
    ensures
        join_game_step(c, caller, payment_token, payment_amount, now) == Ok::<
            ContractView,
            ChessError,
        >(ContractView { waiting: Some(caller), ..c }),
{
}

/// In a contract that is not paused, the second to come with the stake is
/// paired with the one who waits. The slot is cleared and one match is
/// added behind the others, which stay as they are: it carries the next
/// number, the one who waited has White and the caller Black, White is to
/// move from the standard position, the epoch is that of the pairing, and
/// no draw is offered.
pub proof fn law_second_join_pairs(
    c: ContractView,
    waiting: Address,
    caller: Address,
    payment_token: Seq<u8>,
    payment_amount: Seq<u8>,
    now: u64,
)
    requires
        !c.paused,
        c.waiting == Some(waiting),
        caller != waiting,
        payment_token == c.wager_token_id,
        payment_amount == c.wager_amount,
    ensures
        join_game_step(c, caller, payment_token, payment_amount, now) is Ok,
        ({
            let next = join_game_step(c, caller, payment_token, payment_amount, now).unwrap();
            let n = c.games.len();
            &&& next.waiting is None
            &&& next.paused == c.paused
            &&& next.wager_token_id == c.wager_token_id
            &&& next.wager_amount == c.wager_amount
            &&& next.games.len() == n + 1
            &&& forall|i: int| 0 <= i < n ==> next.games[i] == c.games[i]
            &&& next.games[n as int] == (GameView {
                game_id: n + 1,
                white_player: waiting,
                black_player: caller,
                player_turn: Color::White,
                last_move_epoch: now,
                state: GameState::Ongoing,
                draw_offer: None,
                board: standard_cells(),
            })
            &&& next.games[n as int].wf()
        }),
{
}

/// A contract whose matches are numbered in order and well formed stays so
/// when someone joins.
pub proof fn law_joining_keeps_well_formed(
    c: ContractView,
    caller: Address,
    payment_token: Seq<u8>,
    payment_amount: Seq<u8>,
    now: u64,
)
    requires
        c.wf(),
        join_game_step(c, caller, payment_token, payment_amount, now) is Ok,
    ensures
        join_game_step(c, caller, payment_token, payment_amount, now).unwrap().wf(),
{
    let next = join_game_step(c, caller, payment_token, payment_amount, now).unwrap();
    if c.waiting is Some {
        assert forall|i: int| 0 <= i < next.games.len() implies (#[trigger] next.games[i]).game_id
            == i + 1 && next.games[i].wf() by {
            if i < c.games.len() {
                assert(next.games[i] == c.games[i]);
            }
        }
    }
}

/// A contract whose matches are numbered in order and well formed stays so
/// under every operation on a match.
pub proof fn law_contract_stays_well_formed(
    c: ContractView,
    caller: Address,
    game_id: GameId,
    from: u8,
    to: u8,
    now: u64,
)
    requires
        c.wf(),
    ensures
        make_move_step(c, caller, game_id, from, to, now) is Ok ==> make_move_step(
            c,
            caller,
            game_id,
            from,
            to,
            now,
        ).unwrap().wf(),
        draw_step(c, caller, game_id) is Ok ==> draw_step(c, caller, game_id).unwrap().0.wf(),
        call_illegal_move_step(c, caller, game_id) is Ok ==> call_illegal_move_step(
            c,
            caller,
            game_id,
        ).unwrap().0.wf(),
        signal_inactivity_step(c, caller, game_id, now) is Ok ==> signal_inactivity_step(
            c,
            caller,
            game_id,
            now,
        ).unwrap().0.wf(),
        resign_step(c, caller, game_id) is Ok ==> resign_step(c, caller, game_id).unwrap().0.wf(),
{
    if access(c, game_id) is Ok {
        let g = c.game(game_id);
        assert(c.games[game_id - 1].wf());
        law_match_stays_well_formed(g, caller, from, to, now);
    }
}

} // verus!
