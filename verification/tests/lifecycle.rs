use on_chain_chess::board::{Board, Color, EMPTY};
use on_chain_chess::interactions::{OnChainChessScInteractions, Reward};
use on_chain_chess::moves::IllegalMove;
use on_chain_chess::owner_interactions::OnChainChessScAdminInteractions;
use on_chain_chess::requirements::{ChessError, OnChainChessScRequirements};
use on_chain_chess::storage::{Address, ChessContract, Game, GameState, OnChainChessScStorage};
use on_chain_chess::OnChainChessSc;

const ALICE: Address = Address(0, 0, 0, 1);
const BOB: Address = Address(0, 0, 0, 2);
const CAROL: Address = Address(7, 0, 0, 1);

fn token() -> Vec<u8> {
    b"CHESS-123456".to_vec()
}

fn stake() -> Vec<u8> {
    vec![0x0d, 0xe0, 0xb6, 0xb3, 0xa7, 0x64, 0x00, 0x00]
}

fn deployed() -> ChessContract {
    let mut contract = ChessContract::new();
    contract.init();
    contract.set_wager(token(), stake());
    contract.unpause();
    contract
}

/// A contract with one match, Alice as White against Bob, paired at epoch 10.
fn with_match() -> ChessContract {
    let mut contract = deployed();
    assert_eq!(contract.join_game(ALICE, &token(), &stake(), 10), Ok(()));
    assert_eq!(contract.join_game(BOB, &token(), &stake(), 10), Ok(()));
    contract
}

fn arrange(contract: &mut ChessContract, turn: Color, pieces: &[(u8, u8)]) {
    let mut codes = [EMPTY; 64];
    for (square, code) in pieces {
        codes[*square as usize] = *code;
    }
    contract.games[0].board = Board::from_codes(codes).unwrap();
    contract.games[0].player_turn = turn;
}

fn pieces_on(game: &Game) -> usize {
    game.board.codes().iter().filter(|code| **code != EMPTY).count()
}

fn snapshot(contract: &ChessContract) -> (bool, Vec<u8>, Vec<u8>, Option<Address>, Vec<String>) {
    (
        contract.paused,
        contract.wager_token_id.clone(),
        contract.wager_amount.clone(),
        contract.waiting,
        contract.games.iter().map(|game| format!("{:?}", game)).collect(),
    )
}

#[test]
fn a_new_contract_holds_nothing() {
    let contract = ChessContract::new();
    assert!(!contract.is_paused());
    assert!(contract.wager_token_id().is_empty());
    assert!(contract.wager_amount().is_empty());
    assert_eq!(contract.is_player_waiting_opt(), None);
    assert!(contract.games().is_empty());
}

#[test]
fn deployment_pauses_the_contract() {
    let mut contract = ChessContract::new();
    contract.init();
    assert!(contract.is_paused());
    assert_eq!(contract.require_is_active(), Err(ChessError::NotActive));
    assert_eq!(
        contract.join_game(ALICE, &Vec::new(), &Vec::new(), 1),
        Err(ChessError::NotActive)
    );
    contract.unpause();
    assert!(!contract.is_paused());
    assert_eq!(contract.require_is_active(), Ok(()));
    contract.pause();
    assert!(contract.is_paused());
}

#[test]
fn upgrade_keeps_the_state() {
    let mut contract = with_match();
    let before = snapshot(&contract);
    contract.upgrade();
    assert_eq!(snapshot(&contract), before);
}

#[test]
fn the_stake_is_set_once() {
    let mut contract = ChessContract::new();
    contract.set_wager(token(), stake());
    assert_eq!(contract.wager_token_id(), &token());
    assert_eq!(contract.wager_amount(), &stake());
    contract.set_wager(b"OTHER-abcdef".to_vec(), vec![1]);
    assert_eq!(contract.wager_token_id(), &token());
    assert_eq!(contract.wager_amount(), &stake());
}

#[test]
fn each_stake_term_is_taken_while_it_is_empty() {
    let mut contract = ChessContract::new();
    contract.set_wager(token(), Vec::new());
    assert_eq!(contract.wager_token_id(), &token());
    assert!(contract.wager_amount().is_empty());
    contract.set_wager(b"OTHER-abcdef".to_vec(), stake());
    assert_eq!(contract.wager_token_id(), &token());
    assert_eq!(contract.wager_amount(), &stake());
}

#[test]
fn two_players_are_paired() {
    let mut contract = deployed();
    assert_eq!(contract.join_game(ALICE, &token(), &stake(), 10), Ok(()));
    assert_eq!(contract.is_player_waiting_opt(), Some(ALICE));
    assert!(contract.games().is_empty());
    assert_eq!(contract.join_game(BOB, &token(), &stake(), 11), Ok(()));
    assert_eq!(contract.is_player_waiting_opt(), None);
    assert_eq!(contract.games().len(), 1);
    let game = contract.game(1).unwrap();
    assert_eq!(game.game_id, 1);
    assert_eq!(game.white_player, ALICE);
    assert_eq!(game.black_player, BOB);
    assert_eq!(game.player_turn, Color::White);
    assert_eq!(game.state, GameState::Ongoing);
    assert_eq!(game.last_move_epoch, 11);
    assert_eq!(game.draw_offer, None);
    assert_eq!(game.board.codes(), Board::standard().codes());
    assert_eq!(contract.board(1).unwrap().codes(), Board::standard().codes());
    assert_eq!(contract.draw_offer(1), None);
}

#[test]
fn matches_are_numbered_from_one() {
    let mut contract = with_match();
    assert_eq!(contract.join_game(CAROL, &token(), &stake(), 20), Ok(()));
    assert_eq!(contract.join_game(ALICE, &token(), &stake(), 21), Ok(()));
    assert_eq!(contract.games().len(), 2);
    let second = contract.game(2).unwrap();
    assert_eq!(second.game_id, 2);
    assert_eq!(second.white_player, CAROL);
    assert_eq!(second.black_player, ALICE);
    assert_eq!(second.last_move_epoch, 21);
    assert!(contract.game(0).is_none());
    assert!(contract.game(3).is_none());
    assert!(contract.board(3).is_none());
}

#[test]
fn game_new_starts_from_the_standard_position() {
    let game = Game::new(5, ALICE, BOB, 42);
    assert_eq!(game.game_id, 5);
    assert_eq!(game.white_player, ALICE);
    assert_eq!(game.black_player, BOB);
    assert_eq!(game.player_turn, Color::White);
    assert_eq!(game.last_move_epoch, 42);
    assert_eq!(game.state, GameState::Ongoing);
    assert_eq!(game.draw_offer, None);
    assert_eq!(game.board.codes(), Board::standard().codes());
}

#[test]
fn game_state_index_round_trip() {
    assert_eq!(GameState::Ongoing.index(), 0);
    assert_eq!(GameState::WhiteWon.index(), 1);
    assert_eq!(GameState::BlackWon.index(), 2);
    assert_eq!(GameState::Draw.index(), 3);
    assert_eq!(GameState::from_index(0), Some(GameState::Ongoing));
    assert_eq!(GameState::from_index(1), Some(GameState::WhiteWon));
    assert_eq!(GameState::from_index(2), Some(GameState::BlackWon));
    assert_eq!(GameState::from_index(3), Some(GameState::Draw));
    assert_eq!(GameState::from_index(4), None);
}

#[test]
fn nobody_is_paired_with_themselves() {
    let mut contract = deployed();
    assert_eq!(contract.join_game(ALICE, &token(), &stake(), 10), Ok(()));
    let before = snapshot(&contract);
    assert_eq!(contract.join_game(ALICE, &token(), &stake(), 11), Err(ChessError::SelfPairing));
    assert_eq!(snapshot(&contract), before);
    assert_eq!(contract.is_player_waiting_opt(), Some(ALICE));
}

#[test]
fn a_wrong_payment_is_refused() {
    let mut contract = deployed();
    let before = snapshot(&contract);
    assert_eq!(contract.join_game(ALICE, &token(), &vec![1], 10), Err(ChessError::WrongStake));
    assert_eq!(
        contract.join_game(ALICE, &b"OTHER-abcdef".to_vec(), &stake(), 10),
        Err(ChessError::WrongStake)
    );
    assert_eq!(
        contract.join_game(ALICE, &token(), &Vec::new(), 10),
        Err(ChessError::WrongStake)
    );
    let mut longer = stake();
    longer.push(0);
    assert_eq!(contract.join_game(ALICE, &token(), &longer, 10), Err(ChessError::WrongStake));
    assert_eq!(snapshot(&contract), before);
    assert_eq!(contract.is_player_waiting_opt(), None);
}

#[test]
fn a_paused_contract_refuses_the_players() {
    let mut contract = with_match();
    contract.pause();
    let before = snapshot(&contract);
    assert_eq!(contract.join_game(CAROL, &token(), &stake(), 10), Err(ChessError::NotActive));
    assert_eq!(contract.make_move(ALICE, 1, 52, 36, 10), Err(ChessError::NotActive));
    assert_eq!(contract.draw(ALICE, 1), Err(ChessError::NotActive));
    assert_eq!(contract.call_illegal_move(ALICE, 1), Err(ChessError::NotActive));
    assert_eq!(contract.signal_inactivity(BOB, 1, 20), Err(ChessError::NotActive));
    assert_eq!(contract.resign(ALICE, 1), Err(ChessError::NotActive));
    // pause comes before everything else
    assert_eq!(contract.make_move(ALICE, 9, 52, 36, 10), Err(ChessError::NotActive));
    assert_eq!(snapshot(&contract), before);
}

#[test]
fn an_unknown_match_is_not_found() {
    let mut contract = with_match();
    let before = snapshot(&contract);
    for game_id in [0usize, 2, 100, usize::MAX] {
        assert_eq!(contract.require_game_exists(game_id), Err(ChessError::MatchNotFound));
        assert_eq!(contract.require_game_is_ongoing(game_id), Err(ChessError::MatchNotFound));
        assert_eq!(
            contract.require_king_in_check(Color::White, game_id),
            Err(ChessError::MatchNotFound)
        );
        assert_eq!(
            contract.require_is_valid_move(game_id, Color::White, 52, 36),
            Err(ChessError::MatchNotFound)
        );
        assert_eq!(contract.make_move(ALICE, game_id, 52, 36, 10), Err(ChessError::MatchNotFound));
        assert_eq!(contract.draw(ALICE, game_id), Err(ChessError::MatchNotFound));
        assert_eq!(contract.call_illegal_move(ALICE, game_id), Err(ChessError::MatchNotFound));
        assert_eq!(contract.signal_inactivity(BOB, game_id, 20), Err(ChessError::MatchNotFound));
        assert_eq!(contract.resign(ALICE, game_id), Err(ChessError::MatchNotFound));
    }
    assert_eq!(contract.require_game_exists(1), Ok(()));
    assert_eq!(contract.require_game_is_ongoing(1), Ok(()));
    assert_eq!(snapshot(&contract), before);
}

#[test]
fn pawn_moves_two_squares_and_the_turn_passes() {
    let mut contract = with_match();
    assert_eq!(contract.make_move(ALICE, 1, 52, 36, 10), Ok(()));
    let game = contract.game(1).unwrap();
    assert_eq!(game.player_turn, Color::Black);
    assert_eq!(game.state, GameState::Ongoing);
    let mut expected = Board::standard().codes();
    expected[52] = EMPTY;
    expected[36] = 5;
    assert_eq!(game.board.codes(), expected);
}

#[test]
fn moves_alternate_and_the_epoch_follows() {
    let mut contract = with_match();
    assert_eq!(contract.game(1).unwrap().last_move_epoch, 10);
    assert_eq!(contract.make_move(ALICE, 1, 52, 36, 10), Ok(()));
    assert_eq!(contract.game(1).unwrap().player_turn, Color::Black);
    assert_eq!(contract.game(1).unwrap().last_move_epoch, 10);
    assert_eq!(contract.make_move(ALICE, 1, 51, 35, 10), Err(ChessError::NotYourTurn));
    assert_eq!(contract.make_move(BOB, 1, 12, 28, 11), Ok(()));
    assert_eq!(contract.game(1).unwrap().player_turn, Color::White);
    assert_eq!(contract.game(1).unwrap().last_move_epoch, 11);
    assert_eq!(contract.make_move(BOB, 1, 11, 27, 11), Err(ChessError::NotYourTurn));
    assert_eq!(contract.make_move(ALICE, 1, 57, 42, 12), Ok(()));
    assert_eq!(contract.game(1).unwrap().player_turn, Color::Black);
    assert_eq!(contract.game(1).unwrap().last_move_epoch, 12);
    assert_eq!(contract.make_move(BOB, 1, 1, 18, 12), Ok(()));
    assert_eq!(contract.game(1).unwrap().player_turn, Color::White);
    assert_eq!(contract.game(1).unwrap().last_move_epoch, 12);
}

#[test]
fn a_move_removes_at_most_the_piece_it_captures() {
    let mut contract = with_match();
    assert_eq!(pieces_on(&contract.game(1).unwrap()), 32);
    assert_eq!(contract.make_move(ALICE, 1, 52, 36, 10), Ok(()));
    assert_eq!(pieces_on(&contract.game(1).unwrap()), 32);
    assert_eq!(contract.make_move(BOB, 1, 11, 27, 10), Ok(()));
    assert_eq!(pieces_on(&contract.game(1).unwrap()), 32);
    // the white pawn takes the black pawn
    assert_eq!(contract.make_move(ALICE, 1, 36, 27, 10), Ok(()));
    let game = contract.game(1).unwrap();
    assert_eq!(pieces_on(&game), 31);
    assert_eq!(game.board.get(27), 5);
    assert_eq!(game.board.get(36), EMPTY);
    assert_eq!(game.board.codes().len(), 64);
    // the black queen takes back
    assert_eq!(contract.make_move(BOB, 1, 3, 27, 10), Ok(()));
    let game = contract.game(1).unwrap();
    assert_eq!(pieces_on(&game), 30);
    assert_eq!(game.board.get(27), 8);
}

#[test]
fn a_refused_move_changes_nothing() {
    let mut contract = with_match();
    let before = snapshot(&contract);
    assert_eq!(
        contract.make_move(ALICE, 1, 52, 28, 10),
        Err(ChessError::IllegalMove(IllegalMove::Geometry))
    );
    assert_eq!(
        contract.make_move(ALICE, 1, 52, 64, 10),
        Err(ChessError::IllegalMove(IllegalMove::OutOfRange))
    );
    assert_eq!(
        contract.make_move(ALICE, 1, 64, 52, 10),
        Err(ChessError::IllegalMove(IllegalMove::OutOfRange))
    );
    assert_eq!(
        contract.make_move(ALICE, 1, 12, 20, 10),
        Err(ChessError::IllegalMove(IllegalMove::NotYourPiece))
    );
    assert_eq!(
        contract.make_move(ALICE, 1, 56, 57, 10),
        Err(ChessError::IllegalMove(IllegalMove::Capture))
    );
    assert_eq!(
        contract.make_move(ALICE, 1, 56, 40, 10),
        Err(ChessError::IllegalMove(IllegalMove::Path))
    );
    assert_eq!(contract.make_move(BOB, 1, 12, 20, 10), Err(ChessError::NotYourTurn));
    assert_eq!(contract.make_move(CAROL, 1, 52, 36, 10), Err(ChessError::NotYourTurn));
    assert_eq!(contract.make_move(ALICE, 1, 52, 36, 12), Err(ChessError::DeadlineExpired));
    assert_eq!(snapshot(&contract), before);
}

#[test]
fn a_move_is_in_time_up_to_one_epoch_after_the_last() {
    let mut contract = with_match();
    assert_eq!(contract.make_move(ALICE, 1, 52, 36, 12), Err(ChessError::DeadlineExpired));
    assert_eq!(contract.make_move(ALICE, 1, 52, 36, u64::MAX), Err(ChessError::DeadlineExpired));
    assert_eq!(contract.make_move(ALICE, 1, 52, 36, 11), Ok(()));
    assert_eq!(contract.make_move(BOB, 1, 12, 28, 13), Err(ChessError::DeadlineExpired));
    assert_eq!(contract.make_move(BOB, 1, 12, 28, 12), Ok(()));
    assert_eq!(contract.game(1).unwrap().last_move_epoch, 12);
}

#[test]
fn the_deadline_check_does_not_overflow() {
    let mut contract = deployed();
    assert_eq!(contract.join_game(ALICE, &token(), &stake(), u64::MAX), Ok(()));
    assert_eq!(contract.join_game(BOB, &token(), &stake(), u64::MAX), Ok(()));
    assert_eq!(
        contract.signal_inactivity(BOB, 1, u64::MAX),
        Err(ChessError::DeadlineNotYetExpired)
    );
    assert_eq!(contract.make_move(ALICE, 1, 52, 36, u64::MAX), Ok(()));
}

#[test]
fn a_king_in_check_still_cannot_move_two_squares() {
    let mut contract = with_match();
    // the white king on 60 stands on the open file of the black rook on 4
    arrange(&mut contract, Color::White, &[(60, 0), (4, 9), (0, 7)]);
    assert_eq!(contract.require_king_in_check(Color::White, 1), Ok(()));
    let before = snapshot(&contract);
    assert_eq!(
        contract.make_move(ALICE, 1, 60, 62, 10),
        Err(ChessError::IllegalMove(IllegalMove::Geometry))
    );
    assert_eq!(
        contract.make_move(ALICE, 1, 60, 58, 10),
        Err(ChessError::IllegalMove(IllegalMove::Geometry))
    );
    assert_eq!(snapshot(&contract), before);
}

#[test]
fn check_is_not_looked_at_when_a_move_is_made() {
    let mut contract = with_match();
    arrange(&mut contract, Color::White, &[(60, 0), (4, 9), (0, 7)]);
    // the king stays on the rook's file: accepted all the same
    assert_eq!(contract.make_move(ALICE, 1, 60, 52, 10), Ok(()));
    assert_eq!(contract.game(1).unwrap().state, GameState::Ongoing);
    assert_eq!(contract.require_king_in_check(Color::White, 1), Ok(()));
}

#[test]
fn a_move_that_leaves_the_own_king_in_check_loses_to_the_claim() {
    let mut contract = with_match();
    // black king on 4, shielded by the knight on 12 from the white rook on 36
    arrange(&mut contract, Color::Black, &[(4, 7), (12, 11), (36, 2), (63, 0)]);
    assert_eq!(contract.require_king_in_check(Color::Black, 1), Err(ChessError::KingNotInCheck));
    assert_eq!(contract.make_move(BOB, 1, 12, 27, 10), Ok(()));
    assert_eq!(contract.require_king_in_check(Color::Black, 1), Ok(()));
    assert_eq!(
        contract.call_illegal_move(ALICE, 1),
        Ok(vec![Reward { player: ALICE, stakes: 2, score: 2 }])
    );
    let game = contract.game(1).unwrap();
    assert_eq!(game.state, GameState::WhiteWon);
    assert_eq!(game.player_turn, Color::White);
}

#[test]
fn black_wins_the_claim_against_white() {
    let mut contract = with_match();
    arrange(&mut contract, Color::White, &[(60, 0), (52, 4), (28, 9), (0, 7)]);
    assert_eq!(contract.make_move(ALICE, 1, 52, 35, 10), Ok(()));
    assert_eq!(
        contract.call_illegal_move(BOB, 1),
        Ok(vec![Reward { player: BOB, stakes: 2, score: 2 }])
    );
    assert_eq!(contract.game(1).unwrap().state, GameState::BlackWon);
}

#[test]
fn a_claim_needs_the_movers_king_in_check() {
    let mut contract = with_match();
    assert_eq!(contract.make_move(ALICE, 1, 52, 36, 10), Ok(()));
    let before = snapshot(&contract);
    assert_eq!(contract.call_illegal_move(BOB, 1), Err(ChessError::KingNotInCheck));
    assert_eq!(contract.call_illegal_move(ALICE, 1), Err(ChessError::NotYourTurn));
    assert_eq!(contract.call_illegal_move(CAROL, 1), Err(ChessError::NotAParticipant));
    assert_eq!(snapshot(&contract), before);
}

#[test]
fn a_claim_against_a_side_without_a_king_fails() {
    let mut contract = with_match();
    arrange(&mut contract, Color::White, &[(60, 0), (4, 9)]);
    assert_eq!(contract.require_king_in_check(Color::Black, 1), Err(ChessError::KingNotInCheck));
    assert_eq!(contract.call_illegal_move(ALICE, 1), Err(ChessError::KingNotInCheck));
    assert_eq!(contract.game(1).unwrap().state, GameState::Ongoing);
}

#[test]
fn the_claim_is_about_the_position_as_it_stands() {
    let mut contract = with_match();
    arrange(&mut contract, Color::Black, &[(4, 7), (12, 11), (36, 2), (63, 0), (55, 5)]);
    // Black uncovers the own king
    assert_eq!(contract.make_move(BOB, 1, 12, 27, 10), Ok(()));
    // White moves instead of claiming, and takes the rook off the file
    assert_eq!(contract.make_move(ALICE, 1, 36, 37, 10), Ok(()));
    // White has moved and has no claim
    assert_eq!(contract.call_illegal_move(ALICE, 1), Err(ChessError::NotYourTurn));
    // Black's claim is judged on the new position, where White's king is safe
    assert_eq!(contract.call_illegal_move(BOB, 1), Err(ChessError::KingNotInCheck));
    // Black moves on; White's claim is judged on the position now
    assert_eq!(contract.make_move(BOB, 1, 27, 17, 10), Ok(()));
    assert_eq!(contract.call_illegal_move(ALICE, 1), Err(ChessError::KingNotInCheck));
    assert_eq!(contract.game(1).unwrap().state, GameState::Ongoing);
}

#[test]
fn the_waiting_player_wins_by_inactivity() {
    let mut contract = with_match();
    let before = snapshot(&contract);
    // the player to move has no such claim
    assert_eq!(contract.signal_inactivity(ALICE, 1, 12), Err(ChessError::NotYourTurn));
    assert_eq!(contract.signal_inactivity(CAROL, 1, 12), Err(ChessError::NotAParticipant));
    // not before more than one epoch has passed
    assert_eq!(contract.signal_inactivity(BOB, 1, 10), Err(ChessError::DeadlineNotYetExpired));
    assert_eq!(contract.signal_inactivity(BOB, 1, 11), Err(ChessError::DeadlineNotYetExpired));
    assert_eq!(contract.signal_inactivity(BOB, 1, 9), Err(ChessError::DeadlineNotYetExpired));
    assert_eq!(snapshot(&contract), before);
    assert_eq!(
        contract.signal_inactivity(BOB, 1, 12),
        Ok(vec![Reward { player: BOB, stakes: 2, score: 2 }])
    );
    assert_eq!(contract.game(1).unwrap().state, GameState::BlackWon);
}

#[test]
fn white_wins_by_inactivity_when_black_is_to_move() {
    let mut contract = with_match();
    assert_eq!(contract.make_move(ALICE, 1, 52, 36, 11), Ok(()));
    assert_eq!(contract.signal_inactivity(ALICE, 1, 12), Err(ChessError::DeadlineNotYetExpired));
    assert_eq!(contract.signal_inactivity(BOB, 1, 13), Err(ChessError::NotYourTurn));
    assert_eq!(
        contract.signal_inactivity(ALICE, 1, 13),
        Ok(vec![Reward { player: ALICE, stakes: 2, score: 2 }])
    );
    assert_eq!(contract.game(1).unwrap().state, GameState::WhiteWon);
}

#[test]
fn resignation_makes_the_other_player_win() {
    let mut contract = with_match();
    assert_eq!(contract.resign(CAROL, 1), Err(ChessError::NotAParticipant));
    assert_eq!(contract.resign(ALICE, 1), Ok(vec![Reward { player: BOB, stakes: 2, score: 2 }]));
    assert_eq!(contract.game(1).unwrap().state, GameState::BlackWon);

    let mut contract = with_match();
    // resigning does not wait for the turn
    assert_eq!(contract.resign(BOB, 1), Ok(vec![Reward { player: ALICE, stakes: 2, score: 2 }]));
    assert_eq!(contract.game(1).unwrap().state, GameState::WhiteWon);
}

#[test]
fn a_draw_takes_both_players() {
    let mut contract = with_match();
    assert_eq!(contract.draw(CAROL, 1), Err(ChessError::NotAParticipant));
    assert_eq!(contract.draw(BOB, 1), Ok(vec![]));
    assert_eq!(contract.draw_offer(1), Some(BOB));
    assert_eq!(contract.game(1).unwrap().state, GameState::Ongoing);
    assert_eq!(
        contract.draw(ALICE, 1),
        Ok(vec![
            Reward { player: ALICE, stakes: 1, score: 1 },
            Reward { player: BOB, stakes: 1, score: 1 },
        ])
    );
    assert_eq!(contract.draw_offer(1), None);
    assert_eq!(contract.game(1).unwrap().state, GameState::Draw);
}

#[test]
fn one_player_alone_never_draws() {
    let mut contract = with_match();
    for _ in 0..5 {
        assert_eq!(contract.draw(ALICE, 1), Ok(vec![]));
        assert_eq!(contract.draw_offer(1), Some(ALICE));
        assert_eq!(contract.game(1).unwrap().state, GameState::Ongoing);
    }
    let before = snapshot(&contract);
    assert_eq!(contract.draw(ALICE, 1), Ok(vec![]));
    assert_eq!(snapshot(&contract), before);
}

#[test]
fn a_draw_offer_stays_pending_across_moves() {
    let mut contract = with_match();
    assert_eq!(contract.draw(ALICE, 1), Ok(vec![]));
    assert_eq!(contract.make_move(ALICE, 1, 52, 36, 10), Ok(()));
    assert_eq!(contract.draw_offer(1), Some(ALICE));
    assert_eq!(contract.make_move(BOB, 1, 12, 28, 10), Ok(()));
    assert_eq!(contract.draw_offer(1), Some(ALICE));
    assert_eq!(contract.make_move(ALICE, 1, 57, 42, 10), Ok(()));
    assert_eq!(
        contract.draw(BOB, 1),
        Ok(vec![
            Reward { player: ALICE, stakes: 1, score: 1 },
            Reward { player: BOB, stakes: 1, score: 1 },
        ])
    );
    assert_eq!(contract.game(1).unwrap().state, GameState::Draw);
}

fn assert_ended(contract: &mut ChessContract) {
    let before = snapshot(contract);
    assert_eq!(contract.require_game_is_ongoing(1), Err(ChessError::MatchNotOngoing));
    for caller in [ALICE, BOB, CAROL] {
        assert_eq!(contract.make_move(caller, 1, 52, 36, 10), Err(ChessError::MatchNotOngoing));
        assert_eq!(contract.make_move(caller, 1, 12, 28, 10), Err(ChessError::MatchNotOngoing));
        assert_eq!(contract.draw(caller, 1), Err(ChessError::MatchNotOngoing));
        assert_eq!(contract.call_illegal_move(caller, 1), Err(ChessError::MatchNotOngoing));
        assert_eq!(contract.signal_inactivity(caller, 1, 100), Err(ChessError::MatchNotOngoing));
        assert_eq!(contract.resign(caller, 1), Err(ChessError::MatchNotOngoing));
    }
    assert_eq!(snapshot(contract), before);
}

#[test]
fn nothing_happens_after_a_resignation() {
    let mut contract = with_match();
    assert!(contract.resign(ALICE, 1).is_ok());
    assert_ended(&mut contract);
}

#[test]
fn nothing_happens_after_a_draw() {
    let mut contract = with_match();
    assert!(contract.draw(ALICE, 1).is_ok());
    assert!(contract.draw(BOB, 1).is_ok());
    assert_ended(&mut contract);
}

#[test]
fn nothing_happens_after_a_claim_of_an_illegal_move() {
    let mut contract = with_match();
    arrange(&mut contract, Color::Black, &[(4, 7), (12, 11), (36, 2), (63, 0)]);
    assert!(contract.make_move(BOB, 1, 12, 27, 10).is_ok());
    assert!(contract.call_illegal_move(ALICE, 1).is_ok());
    assert_ended(&mut contract);
}

#[test]
fn nothing_happens_after_a_claim_of_inactivity() {
    let mut contract = with_match();
    assert!(contract.signal_inactivity(BOB, 1, 12).is_ok());
    assert_ended(&mut contract);
}

#[test]
fn an_ended_match_does_not_stop_the_others() {
    let mut contract = with_match();
    assert_eq!(contract.join_game(CAROL, &token(), &stake(), 10), Ok(()));
    assert_eq!(contract.join_game(ALICE, &token(), &stake(), 10), Ok(()));
    assert!(contract.resign(ALICE, 1).is_ok());
    assert_eq!(contract.make_move(CAROL, 2, 52, 36, 10), Ok(()));
    assert_eq!(contract.game(1).unwrap().state, GameState::BlackWon);
    assert_eq!(contract.game(2).unwrap().state, GameState::Ongoing);
    assert_eq!(contract.game(1).unwrap().board.codes(), Board::standard().codes());
}

#[test]
fn a_white_pawn_promotes_to_the_white_queen() {
    let mut contract = with_match();
    arrange(&mut contract, Color::White, &[(9, 5), (60, 0), (7, 7)]);
    assert_eq!(contract.make_move(ALICE, 1, 9, 1, 10), Ok(()));
    let game = contract.game(1).unwrap();
    assert_eq!(game.board.get(1), 1);
    assert_eq!(game.board.get(9), EMPTY);
    assert_eq!(pieces_on(&game), 3);
}

// The promoted piece of Black carries code 1 as well, the queen of White:
// it changes sides, and Black cannot move it afterwards.
#[test]
fn a_black_pawn_promotes_to_the_white_queen() {
    let mut contract = with_match();
    arrange(&mut contract, Color::Black, &[(50, 12), (60, 0), (7, 7)]);
    assert_eq!(contract.make_move(BOB, 1, 50, 58, 10), Ok(()));
    let game = contract.game(1).unwrap();
    assert_eq!(game.board.get(58), 1);
    assert_eq!(game.board.get(50), EMPTY);
    assert_eq!(contract.make_move(ALICE, 1, 58, 57, 10), Ok(()));
    assert_eq!(
        contract.make_move(BOB, 1, 57, 56, 10),
        Err(ChessError::IllegalMove(IllegalMove::NotYourPiece))
    );
}

#[test]
fn a_pawn_promotes_when_it_captures_onto_the_last_rank() {
    let mut contract = with_match();
    arrange(&mut contract, Color::White, &[(9, 5), (0, 9), (60, 0), (7, 7)]);
    assert_eq!(contract.make_move(ALICE, 1, 9, 0, 10), Ok(()));
    let game = contract.game(1).unwrap();
    assert_eq!(game.board.get(0), 1);
    assert_eq!(pieces_on(&game), 3);
}

#[test]
fn validation_of_a_promoting_move_rewrites_the_source() {
    let mut contract = with_match();
    arrange(&mut contract, Color::White, &[(9, 5), (60, 0), (7, 7)]);
    assert_eq!(contract.require_is_valid_move(1, Color::White, 9, 1), Ok(()));
    assert_eq!(contract.board(1).unwrap().get(9), 1);
    assert_eq!(contract.board(1).unwrap().get(1), EMPTY);
    assert_eq!(contract.game(1).unwrap().player_turn, Color::White);
}

#[test]
fn validation_of_any_other_move_changes_nothing() {
    let mut contract = with_match();
    let before = snapshot(&contract);
    assert_eq!(contract.require_is_valid_move(1, Color::White, 52, 36), Ok(()));
    assert_eq!(contract.require_is_valid_move(1, Color::Black, 12, 28), Ok(()));
    assert_eq!(
        contract.require_is_valid_move(1, Color::White, 52, 28),
        Err(ChessError::IllegalMove(IllegalMove::Geometry))
    );
    assert_eq!(
        contract.require_is_valid_move(1, Color::Black, 52, 36),
        Err(ChessError::IllegalMove(IllegalMove::NotYourPiece))
    );
    assert_eq!(snapshot(&contract), before);
}

// The contract does not compare the epoch of a move with the last one
// beyond the deadline: a move that comes with an earlier epoch is in time,
// and the match takes that epoch.
#[test]
fn the_epoch_of_a_move_is_taken_as_it_comes() {
    let mut contract = with_match();
    assert_eq!(contract.make_move(ALICE, 1, 52, 36, 9), Ok(()));
    assert_eq!(contract.game(1).unwrap().last_move_epoch, 9);
    assert_eq!(contract.make_move(BOB, 1, 12, 28, 0), Ok(()));
    assert_eq!(contract.game(1).unwrap().last_move_epoch, 0);
    assert_eq!(contract.make_move(ALICE, 1, 57, 42, 2), Err(ChessError::DeadlineExpired));
    assert_eq!(contract.make_move(ALICE, 1, 57, 42, 1), Ok(()));
}

#[test]
fn only_the_player_to_move_can_move() {
    let mut contract = with_match();
    let before = snapshot(&contract);
    // White is to move: the opponent and a stranger are out of turn alike,
    // whatever the move and whenever it comes
    assert_eq!(contract.make_move(BOB, 1, 12, 28, 10), Err(ChessError::NotYourTurn));
    assert_eq!(contract.make_move(CAROL, 1, 52, 36, 10), Err(ChessError::NotYourTurn));
    assert_eq!(contract.make_move(CAROL, 1, 12, 28, 10), Err(ChessError::NotYourTurn));
    assert_eq!(contract.make_move(CAROL, 1, 52, 64, 10), Err(ChessError::NotYourTurn));
    assert_eq!(contract.make_move(CAROL, 1, 52, 36, 99), Err(ChessError::NotYourTurn));
    assert_eq!(snapshot(&contract), before);
    assert_eq!(contract.make_move(ALICE, 1, 52, 36, 10), Ok(()));
    let before = snapshot(&contract);
    // Black is to move
    assert_eq!(contract.make_move(ALICE, 1, 51, 35, 10), Err(ChessError::NotYourTurn));
    assert_eq!(contract.make_move(CAROL, 1, 12, 28, 10), Err(ChessError::NotYourTurn));
    assert_eq!(snapshot(&contract), before);
    assert_eq!(contract.make_move(BOB, 1, 12, 28, 10), Ok(()));
}

#[test]
fn matches_and_boards_compare_by_what_they_hold() {
    let contract = with_match();
    assert_eq!(contract.game(1).unwrap(), Game::new(1, ALICE, BOB, 10));
    assert_ne!(contract.game(1).unwrap(), Game::new(2, ALICE, BOB, 10));
    assert_ne!(contract.game(1).unwrap(), Game::new(1, BOB, ALICE, 10));
    assert_ne!(contract.game(1).unwrap(), Game::new(1, ALICE, BOB, 11));
    assert_eq!(contract.board(1).unwrap(), Board::standard());
    let mut moved = Board::standard();
    moved.apply(52, 36);
    assert_ne!(moved, Board::standard());
    let mut contract = contract;
    assert_eq!(contract.make_move(ALICE, 1, 52, 36, 10), Ok(()));
    assert_eq!(contract.board(1).unwrap(), moved);
    let mut expected = Game::new(1, ALICE, BOB, 10);
    expected.board = moved;
    expected.player_turn = Color::Black;
    assert_eq!(contract.game(1).unwrap(), expected);
}

#[test]
fn the_number_of_a_match_is_its_place() {
    let mut contract = deployed();
    let players = [ALICE, BOB, CAROL];
    for round in 0..6usize {
        let first = players[round % 3];
        let second = players[(round + 1) % 3];
        assert_eq!(contract.join_game(first, &token(), &stake(), round as u64), Ok(()));
        assert_eq!(contract.games().len(), round);
        assert_eq!(contract.join_game(second, &token(), &stake(), round as u64), Ok(()));
        assert_eq!(contract.games().len(), round + 1);
        assert_eq!(
            contract.game(round + 1).unwrap(),
            Game::new(round + 1, first, second, round as u64)
        );
    }
    for number in 1..=6usize {
        assert_eq!(contract.game(number).unwrap().game_id, number);
    }
}
