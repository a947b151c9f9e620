use on_chain_chess::board::{
    color_of, encode, kind_of, Board, Color, PieceKind, BLACK_OFFSET, CELLS, EMPTY, MAX_CODE,
    SIDE, WHITE_QUEEN,
};

fn board_of(pieces: &[(u8, u8)]) -> Board {
    let mut codes = [EMPTY; 64];
    for (square, code) in pieces {
        codes[*square as usize] = *code;
    }
    Board::from_codes(codes).unwrap()
}

#[test]
fn constants_have_their_values() {
    assert_eq!(CELLS, 64);
    assert_eq!(SIDE, 8);
    assert_eq!(EMPTY, 6);
    assert_eq!(MAX_CODE, 12);
    assert_eq!(WHITE_QUEEN, 1);
    assert_eq!(BLACK_OFFSET, 7);
}

#[test]
fn standard_position_cell_by_cell() {
    let expected: [u8; 64] = [
        9, 11, 10, 8, 7, 10, 11, 9, 12, 12, 12, 12, 12, 12, 12, 12, 6, 6, 6, 6, 6, 6, 6, 6, 6, 6,
        6, 6, 6, 6, 6, 6, 6, 6, 6, 6, 6, 6, 6, 6, 6, 6, 6, 6, 6, 6, 6, 6, 5, 5, 5, 5, 5, 5, 5, 5,
        2, 4, 3, 1, 0, 3, 4, 2,
    ];
    let board = Board::standard();
    assert_eq!(board.codes(), expected);
    for square in 0..64u8 {
        assert_eq!(board.get(square), expected[square as usize]);
        assert_eq!(board.at(square % 8, square / 8), expected[square as usize]);
    }
}

#[test]
fn encode_follows_the_code_table() {
    let kinds = [
        PieceKind::King,
        PieceKind::Queen,
        PieceKind::Rook,
        PieceKind::Bishop,
        PieceKind::Knight,
        PieceKind::Pawn,
    ];
    for (i, kind) in kinds.iter().enumerate() {
        assert_eq!(encode(Color::White, *kind), i as u8);
        assert_eq!(encode(Color::Black, *kind), i as u8 + 7);
        assert_eq!(kind.index(), i as u8);
    }
}

#[test]
fn kind_is_the_code_modulo_seven() {
    assert_eq!(kind_of(0), Some(PieceKind::King));
    assert_eq!(kind_of(7), Some(PieceKind::King));
    assert_eq!(kind_of(1), Some(PieceKind::Queen));
    assert_eq!(kind_of(8), Some(PieceKind::Queen));
    assert_eq!(kind_of(2), Some(PieceKind::Rook));
    assert_eq!(kind_of(9), Some(PieceKind::Rook));
    assert_eq!(kind_of(3), Some(PieceKind::Bishop));
    assert_eq!(kind_of(10), Some(PieceKind::Bishop));
    assert_eq!(kind_of(4), Some(PieceKind::Knight));
    assert_eq!(kind_of(11), Some(PieceKind::Knight));
    assert_eq!(kind_of(5), Some(PieceKind::Pawn));
    assert_eq!(kind_of(12), Some(PieceKind::Pawn));
    assert_eq!(kind_of(EMPTY), None);
    assert_eq!(kind_of(13), None);
    assert_eq!(kind_of(14), None);
    assert_eq!(kind_of(255), None);
}

#[test]
fn color_is_the_half_the_code_lies_in() {
    for code in 0..6u8 {
        assert_eq!(color_of(code), Some(Color::White));
    }
    assert_eq!(color_of(EMPTY), None);
    for code in 7..=12u8 {
        assert_eq!(color_of(code), Some(Color::Black));
    }
    assert_eq!(color_of(13), None);
    assert_eq!(color_of(200), None);
}

#[test]
fn color_index_round_trip() {
    assert_eq!(Color::White.index(), 0);
    assert_eq!(Color::Black.index(), 1);
    assert_eq!(Color::from_index(0), Some(Color::White));
    assert_eq!(Color::from_index(1), Some(Color::Black));
    assert_eq!(Color::from_index(2), None);
    assert_eq!(Color::White.opposite(), Color::Black);
    assert_eq!(Color::Black.opposite(), Color::White);
}

#[test]
fn from_codes_accepts_codes_only() {
    let mut codes = [EMPTY; 64];
    codes[10] = 12;
    codes[63] = 0;
    let board = Board::from_codes(codes).unwrap();
    assert_eq!(board.codes(), codes);
    codes[20] = 13;
    assert!(Board::from_codes(codes).is_none());
    codes[20] = 255;
    assert!(Board::from_codes(codes).is_none());
    codes[20] = 12;
    assert!(Board::from_codes(codes).is_some());
}

#[test]
fn apply_relocates_and_empties_the_source() {
    let mut board = Board::standard();
    board.apply(52, 36);
    assert_eq!(board.get(52), EMPTY);
    assert_eq!(board.get(36), 5);
    let mut expected = Board::standard().codes();
    expected[52] = EMPTY;
    expected[36] = 5;
    assert_eq!(board.codes(), expected);
}

#[test]
fn apply_overwrites_whatever_stands_on_the_destination() {
    let mut board = Board::standard();
    board.apply(59, 3);
    assert_eq!(board.get(3), 1);
    assert_eq!(board.get(59), EMPTY);
}

#[test]
fn apply_of_an_empty_source_empties_the_destination() {
    let mut board = Board::standard();
    board.apply(30, 12);
    assert_eq!(board.get(12), EMPTY);
    assert_eq!(board.get(30), EMPTY);
}

#[test]
fn apply_onto_the_source_leaves_it_empty() {
    let mut board = Board::standard();
    board.apply(60, 60);
    assert_eq!(board.get(60), EMPTY);
}

#[test]
fn white_pawn_on_its_last_rank_becomes_the_white_queen() {
    let mut board = board_of(&[(9, 5)]);
    board.promote(Color::White, 9, 1);
    assert_eq!(board.get(9), WHITE_QUEEN);
    board.apply(9, 1);
    assert_eq!(board.get(1), WHITE_QUEEN);
    assert_eq!(board.get(9), EMPTY);
}

// A black pawn that promotes turns into code 1, which is the queen of
// White: the promoted piece changes sides.
#[test]
fn black_pawn_on_its_last_rank_becomes_the_white_queen_too() {
    let mut board = board_of(&[(50, 12)]);
    board.promote(Color::Black, 50, 58);
    assert_eq!(board.get(50), 1);
    assert_eq!(color_of(board.get(50)), Some(Color::White));
    board.apply(50, 58);
    assert_eq!(board.get(58), 1);
    assert_eq!(board.get(50), EMPTY);
}

#[test]
fn promote_leaves_other_moves_alone() {
    // a pawn that does not reach the last rank
    let mut board = board_of(&[(17, 5)]);
    board.promote(Color::White, 17, 9);
    assert_eq!(board.get(17), 5);
    // a rook on its way to the last rank
    let mut board = board_of(&[(9, 2)]);
    board.promote(Color::White, 9, 1);
    assert_eq!(board.get(9), 2);
    // a pawn of the other side
    let mut board = board_of(&[(9, 12)]);
    board.promote(Color::White, 9, 1);
    assert_eq!(board.get(9), 12);
    // the last rank of the other side
    let mut board = board_of(&[(49, 5)]);
    board.promote(Color::White, 49, 57);
    assert_eq!(board.get(49), 5);
}
