//! Legality of a single move: the rule of each kind of piece, and the
//! validator that dispatches on the piece that stands on the source square.
//!
//! Nothing here looks at check. A move that leaves the mover's own king
//! attacked is valid; the opponent may challenge it afterwards.
use vstd::prelude::*;
use crate::board::{
    belongs_to, code_kind, color_of, kind_of, on_board, square_at, Board, Color, PieceKind, CELLS,
    EMPTY, SIDE,
};

verus! {

/// Why a move is refused.
#[derive(Clone, Copy, PartialEq, Eq, Debug, Structural)]
pub enum IllegalMove {
    /// A square or a coordinate does not lie on the board.
    OutOfRange,
    /// The source square does not hold a piece of the side that moves.
    NotYourPiece,
    /// Source and destination coincide, or the displacement is none the
    /// piece can make.
    Geometry,
    /// A square between source and destination is occupied.
    Path,
    /// What stands on the destination does not allow the move: a piece of
    /// the mover's side, a piece in front of a pawn, or nothing for a pawn
    /// to capture.
    Capture,
}

pub open spec fn file_of(sq: int) -> int {
    sq % 8
}

pub open spec fn rank_of(sq: int) -> int {
    sq / 8
}

pub open spec fn abs_diff(a: int, b: int) -> int {
    if a >= b {
        a - b
    } else {
        b - a
    }
}

/// Source and destination both lie on the board.
pub open spec fn both_on_board(fx: int, fy: int, tx: int, ty: int) -> bool {
    on_board(fx, fy) && on_board(tx, ty)
}

/// At most one file and at most one rank apart.
pub open spec fn king_reach(fx: int, fy: int, tx: int, ty: int) -> bool {
    abs_diff(fx, tx) <= 1 && abs_diff(fy, ty) <= 1
}

/// Three squares apart in all, with neither file nor rank kept.
pub open spec fn knight_reach(fx: int, fy: int, tx: int, ty: int) -> bool {
    abs_diff(fx, tx) + abs_diff(fy, ty) == 3 && fx != tx && fy != ty
}

/// On one file or on one rank.
pub open spec fn straight(fx: int, fy: int, tx: int, ty: int) -> bool {
    fx == tx || fy == ty
}

/// As many files apart as ranks.
pub open spec fn diagonal(fx: int, fy: int, tx: int, ty: int) -> bool {
    abs_diff(fx, tx) == abs_diff(fy, ty)
}

/// `j` steps in the direction of `d`: `j`, `-j` or none.
pub open spec fn toward(d: int, j: int) -> int {
    if d > 0 {
        j
    } else if d < 0 {
        -j
    } else {
        0
    }
}

/// Number of steps from source to destination along a straight or diagonal
/// line.
pub open spec fn line_len(fx: int, fy: int, tx: int, ty: int) -> int {
    if abs_diff(fx, tx) >= abs_diff(fy, ty) {
        abs_diff(fx, tx)
    } else {
        abs_diff(fy, ty)
    }
}

/// The square `j` steps from the source toward the destination.
pub open spec fn line_square(fx: int, fy: int, tx: int, ty: int, j: int) -> int {
    square_at(fx + toward(tx - fx, j), fy + toward(ty - fy, j))
}

/// Every square strictly between source and destination is empty.
pub open spec fn path_clear(cells: Seq<u8>, fx: int, fy: int, tx: int, ty: int) -> bool {
    forall|j: int|
        0 < j < line_len(fx, fy, tx, ty) ==> cells[#[trigger] line_square(fx, fy, tx, ty, j)]
            == EMPTY
}

pub open spec fn king_verdict(fx: int, fy: int, tx: int, ty: int) -> Result<(), IllegalMove> {
    if !both_on_board(fx, fy, tx, ty) {
        Err(IllegalMove::OutOfRange)
    } else if !king_reach(fx, fy, tx, ty) {
        Err(IllegalMove::Geometry)
    } else {
        Ok(())
    }
}

pub open spec fn knight_verdict(fx: int, fy: int, tx: int, ty: int) -> Result<(), IllegalMove> {
    if !both_on_board(fx, fy, tx, ty) {
        Err(IllegalMove::OutOfRange)
    } else if !knight_reach(fx, fy, tx, ty) {
        Err(IllegalMove::Geometry)
    } else {
        Ok(())
    }
}

pub open spec fn rook_verdict(cells: Seq<u8>, fx: int, fy: int, tx: int, ty: int) -> Result<
    (),
    IllegalMove,
> {
    if !both_on_board(fx, fy, tx, ty) {
        Err(IllegalMove::OutOfRange)
    } else if !straight(fx, fy, tx, ty) {
        Err(IllegalMove::Geometry)
    } else if !path_clear(cells, fx, fy, tx, ty) {
        Err(IllegalMove::Path)
    } else {
        Ok(())
    }
}

pub open spec fn bishop_verdict(cells: Seq<u8>, fx: int, fy: int, tx: int, ty: int) -> Result<
    (),
    IllegalMove,
> {
    if !both_on_board(fx, fy, tx, ty) {
        Err(IllegalMove::OutOfRange)
    } else if !diagonal(fx, fy, tx, ty) {
        Err(IllegalMove::Geometry)
    } else if !path_clear(cells, fx, fy, tx, ty) {
        Err(IllegalMove::Path)
    } else {
        Ok(())
    }
}

/// The queen moves as a rook along a file or rank, as a bishop along a
/// diagonal, and not otherwise.
pub open spec fn queen_verdict(cells: Seq<u8>, fx: int, fy: int, tx: int, ty: int) -> Result<
    (),
    IllegalMove,
> {
    if !both_on_board(fx, fy, tx, ty) {
        Err(IllegalMove::OutOfRange)
    } else if straight(fx, fy, tx, ty) {
        rook_verdict(cells, fx, fy, tx, ty)
    } else if diagonal(fx, fy, tx, ty) {
        bishop_verdict(cells, fx, fy, tx, ty)
    } else {
        Err(IllegalMove::Geometry)
    }
}

/// Change of rank index of one forward step: White advances toward rank 0.
pub open spec fn forward(color: Color) -> int {
    match color {
        Color::White => -1,
        Color::Black => 1,
    }
}

/// The rank a side's pawns start on.
pub open spec fn home_rank(color: Color) -> int {
    match color {
        Color::White => 6,
        Color::Black => 1,
    }
}

/// A pawn moves one step forward onto an empty square, one step diagonally
/// forward onto an opposing piece, or two steps forward from its home rank
/// over an empty square onto an empty square.
pub open spec fn pawn_verdict(
    cells: Seq<u8>,
    color: Color,
    fx: int,
    fy: int,
    tx: int,
    ty: int,
) -> Result<(), IllegalMove> {
    let target = cells[square_at(tx, ty)];
    if !both_on_board(fx, fy, tx, ty) {
        Err(IllegalMove::OutOfRange)
    } else if ty == fy + forward(color) && tx == fx {
        if target == EMPTY {
            Ok(())
        } else {
            Err(IllegalMove::Capture)
        }
    } else if ty == fy + forward(color) && abs_diff(fx, tx) == 1 {
        if belongs_to(target, color.spec_opposite()) {
            Ok(())
        } else {
            Err(IllegalMove::Capture)
        }
    } else if fy == home_rank(color) && ty == fy + 2 * forward(color) && tx == fx {
        if cells[square_at(fx, fy + forward(color))] != EMPTY {
            Err(IllegalMove::Path)
        } else if target != EMPTY {
            Err(IllegalMove::Capture)
        } else {
            Ok(())
        }
    } else {
        Err(IllegalMove::Geometry)
    }
}

/// The rule of the piece of the given kind, applied to a move of `color`.
pub open spec fn piece_verdict(
    cells: Seq<u8>,
    color: Color,
    kind: PieceKind,
    fx: int,
    fy: int,
    tx: int,
    ty: int,
) -> Result<(), IllegalMove> {
    match kind {
        PieceKind::King => king_verdict(fx, fy, tx, ty),
        PieceKind::Queen => queen_verdict(cells, fx, fy, tx, ty),
        PieceKind::Rook => rook_verdict(cells, fx, fy, tx, ty),
        PieceKind::Bishop => bishop_verdict(cells, fx, fy, tx, ty),
        PieceKind::Knight => knight_verdict(fx, fy, tx, ty),
        PieceKind::Pawn => pawn_verdict(cells, color, fx, fy, tx, ty),
    }
}

/// What the validator answers for the move `from -> to` of `color` on the
/// given position.
pub open spec fn move_verdict(cells: Seq<u8>, color: Color, from: int, to: int) -> Result<
    (),
    IllegalMove,
> {
    if !(0 <= from < 64 && 0 <= to < 64) {
        Err(IllegalMove::OutOfRange)
    } else if from == to {
        Err(IllegalMove::Geometry)
    } else if !belongs_to(cells[from], color) {
        Err(IllegalMove::NotYourPiece)
    } else if belongs_to(cells[to], color) {
        Err(IllegalMove::Capture)
    } else {
        piece_verdict(
            cells,
            color,
            code_kind(cells[from]).unwrap(),
            file_of(from),
            rank_of(from),
            file_of(to),
            rank_of(to),
        )
    }
}

/// Whether the validator accepts the move.
pub open spec fn legal(cells: Seq<u8>, color: Color, from: int, to: int) -> bool {
    move_verdict(cells, color, from, to) is Ok
}

fn distance(a: u8, b: u8) -> (d: u8)
    ensures
        d == abs_diff(a as int, b as int),
{
    if a >= b {
        a - b
    } else {
        b - a
    }
}

fn coordinates_on_board(from_x: u8, from_y: u8, to_x: u8, to_y: u8) -> (inside: bool)
    ensures
        inside == both_on_board(from_x as int, from_y as int, to_x as int, to_y as int),
{
    from_x < SIDE && from_y < SIDE && to_x < SIDE && to_y < SIDE
}

/// Walks the squares strictly between source and destination of a straight
/// or diagonal line and tells whether all of them are empty.
fn path_is_clear(board: &Board, from_x: u8, from_y: u8, to_x: u8, to_y: u8) -> (clear: bool)
    requires
        both_on_board(from_x as int, from_y as int, to_x as int, to_y as int),
        straight(from_x as int, from_y as int, to_x as int, to_y as int) || diagonal(
            from_x as int,
            from_y as int,
            to_x as int,
            to_y as int,
        ),
    ensures
        clear == path_clear(board@, from_x as int, from_y as int, to_x as int, to_y as int),
{
    let dx: u8 = distance(from_x, to_x);
    let dy: u8 = distance(from_y, to_y);
    let len: u8 = if dx >= dy {
        dx
    } else {
        dy
    };
    let mut j: u8 = 1;
    while j < len
        invariant
            1 <= j,
            len == line_len(from_x as int, from_y as int, to_x as int, to_y as int),
            both_on_board(from_x as int, from_y as int, to_x as int, to_y as int),
            straight(from_x as int, from_y as int, to_x as int, to_y as int) || diagonal(
                from_x as int,
                from_y as int,
                to_x as int,
                to_y as int,
            ),
            forall|i: int|
                0 < i < j ==> board@[#[trigger] line_square(
                    from_x as int,
                    from_y as int,
                    to_x as int,
                    to_y as int,
                    i,
                )] == EMPTY,
        decreases len - j,
    {
        let x: u8 = if to_x > from_x {
            from_x + j
        } else if to_x < from_x {
            from_x - j
        } else {
            from_x
        };
        let y: u8 = if to_y > from_y {
            from_y + j
        } else if to_y < from_y {
            from_y - j
        } else {
            from_y
        };
        assert(square_at(x as int, y as int) == line_square(
            from_x as int,
            from_y as int,
            to_x as int,
            to_y as int,
            j as int,
        ));
        if board.at(x, y) != EMPTY {
            return false;
        }
        j += 1;
    }
    true
}

/// The king's rule: at most one file and one rank away.
pub fn require_valid_king_move(from_x: u8, from_y: u8, to_x: u8, to_y: u8) -> (verdict: Result<
    (),
    IllegalMove,
>)
    ensures
        verdict == king_verdict(from_x as int, from_y as int, to_x as int, to_y as int),
{
    if !coordinates_on_board(from_x, from_y, to_x, to_y) {
        return Err(IllegalMove::OutOfRange);
    }
    if distance(from_x, to_x) <= 1 && distance(from_y, to_y) <= 1 {
        Ok(())
    } else {
        Err(IllegalMove::Geometry)
    }
}

/// The knight's rule: two squares one way and one the other.
pub fn require_valid_knight_move(from_x: u8, from_y: u8, to_x: u8, to_y: u8) -> (verdict: Result<
    (),
    IllegalMove,
>)
    ensures
        verdict == knight_verdict(from_x as int, from_y as int, to_x as int, to_y as int),
{
    if !coordinates_on_board(from_x, from_y, to_x, to_y) {
        return Err(IllegalMove::OutOfRange);
    }
    if distance(from_x, to_x) + distance(from_y, to_y) == 3 && from_y != to_y && from_x != to_x {
        Ok(())
    } else {
        Err(IllegalMove::Geometry)
    }
}

/// The rook's rule: along a file or a rank, over empty squares only.
pub fn require_valid_rook_move(board: &Board, from_x: u8, from_y: u8, to_x: u8, to_y: u8) -> (verdict:
    Result<(), IllegalMove>)
    ensures
        verdict == rook_verdict(board@, from_x as int, from_y as int, to_x as int, to_y as int),
{
    if !coordinates_on_board(from_x, from_y, to_x, to_y) {
        return Err(IllegalMove::OutOfRange);
    }
    if !(from_x == to_x || from_y == to_y) {
        return Err(IllegalMove::Geometry);
    }
    if path_is_clear(board, from_x, from_y, to_x, to_y) {
        Ok(())
    } else {
        Err(IllegalMove::Path)
    }
}

/// The bishop's rule: along a diagonal, over empty squares only.
pub fn require_valid_bishop_move(
    board: &Board,
    from_x: u8,
    from_y: u8,
    to_x: u8,
    to_y: u8,
) -> (verdict: Result<(), IllegalMove>)
    ensures
        verdict == bishop_verdict(board@, from_x as int, from_y as int, to_x as int, to_y as int),
{
    if !coordinates_on_board(from_x, from_y, to_x, to_y) {
        return Err(IllegalMove::OutOfRange);
    }
    if distance(from_x, to_x) != distance(from_y, to_y) {
        return Err(IllegalMove::Geometry);
    }
    if path_is_clear(board, from_x, from_y, to_x, to_y) {
        Ok(())
    } else {
        Err(IllegalMove::Path)
    }
}

/// The queen's rule: the rook's along a file or rank, the bishop's along a
/// diagonal, and no other displacement.
pub fn require_valid_queen_move(
    board: &Board,
    from_x: u8,
    from_y: u8,
    to_x: u8,
    to_y: u8,
) -> (verdict: Result<(), IllegalMove>)
    ensures
        verdict == queen_verdict(board@, from_x as int, from_y as int, to_x as int, to_y as int),
{
    if !coordinates_on_board(from_x, from_y, to_x, to_y) {
        return Err(IllegalMove::OutOfRange);
    }
    if from_x == to_x || from_y == to_y {
        require_valid_rook_move(board, from_x, from_y, to_x, to_y)
    } else if distance(from_x, to_x) == distance(from_y, to_y) {
        require_valid_bishop_move(board, from_x, from_y, to_x, to_y)
    } else {
        Err(IllegalMove::Geometry)
    }
}

/// The pawn's rule for a pawn of `color_to_move`.
pub fn require_valid_pawn_move(
    board: &Board,
    color_to_move: Color,
    from_x: u8,
    from_y: u8,
    to_x: u8,
    to_y: u8,
) -> (verdict: Result<(), IllegalMove>)
    ensures
        verdict == pawn_verdict(
            board@,
            color_to_move,
            from_x as int,
            from_y as int,
            to_x as int,
            to_y as int,
        ),
{
    if !coordinates_on_board(from_x, from_y, to_x, to_y) {
        return Err(IllegalMove::OutOfRange);
    }
    let target: u8 = board.at(to_x, to_y);
    let one_forward: bool = match color_to_move {
        Color::White => from_y == to_y + 1,
        Color::Black => from_y + 1 == to_y,
    };
    let two_forward_from_home: bool = match color_to_move {
        Color::White => from_y == 6 && to_y == 4,
        Color::Black => from_y == 1 && to_y == 3,
    };
    if one_forward && from_x == to_x {
        if target == EMPTY {
            Ok(())
        } else {
            Err(IllegalMove::Capture)
        }
    } else if one_forward && distance(from_x, to_x) == 1 {
        if color_of(target) == Some(color_to_move.opposite()) {
            Ok(())
        } else {
            Err(IllegalMove::Capture)
        }
    } else if two_forward_from_home && from_x == to_x {
        let middle_rank: u8 = match color_to_move {
            Color::White => 5,
            Color::Black => 2,
        };
        if board.at(from_x, middle_rank) != EMPTY {
            Err(IllegalMove::Path)
        } else if target != EMPTY {
            Err(IllegalMove::Capture)
        } else {
            Ok(())
        }
    } else {
        Err(IllegalMove::Geometry)
    }
}

/// Validates the move `from -> to` of `color_to_move`: both squares on the
/// board and distinct, a piece of the mover on the source, none of the
/// mover's on the destination, and the rule of the piece obeyed.
pub fn validate_move(board: &Board, color_to_move: Color, from: u8, to: u8) -> (verdict: Result<
    (),
    IllegalMove,
>)
    ensures
        verdict == move_verdict(board@, color_to_move, from as int, to as int),
{
    if to >= CELLS || from >= CELLS {
        return Err(IllegalMove::OutOfRange);
    }
    if to == from {
        return Err(IllegalMove::Geometry);
    }
    let piece: u8 = board.get(from);
    if color_of(piece) != Some(color_to_move) {
        return Err(IllegalMove::NotYourPiece);
    }
    if color_of(board.get(to)) == Some(color_to_move) {
        return Err(IllegalMove::Capture);
    }
    let from_x: u8 = from % 8;
    let from_y: u8 = from / 8;
    let to_x: u8 = to % 8;
    let to_y: u8 = to / 8;
    match kind_of(piece) {
        Some(PieceKind::King) => require_valid_king_move(from_x, from_y, to_x, to_y),
        Some(PieceKind::Queen) => require_valid_queen_move(board, from_x, from_y, to_x, to_y),
        Some(PieceKind::Rook) => require_valid_rook_move(board, from_x, from_y, to_x, to_y),
        Some(PieceKind::Bishop) => require_valid_bishop_move(board, from_x, from_y, to_x, to_y),
        Some(PieceKind::Knight) => require_valid_knight_move(from_x, from_y, to_x, to_y),
        Some(PieceKind::Pawn) => require_valid_pawn_move(
            board,
            color_to_move,
            from_x,
            from_y,
            to_x,
            to_y,
        ),
        // every code of a side stands for a kind
        None => Err(IllegalMove::NotYourPiece),
    }
}

} // verus!
