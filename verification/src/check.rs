//! Detection of check: whether the king of one side stands on a square that
//! a piece of the other side could move onto.
//!
//! The detector scans outward from the king: along the eight rays up to the
//! first piece, and over the squares a knight, a pawn or a king would attack
//! from. A side without a king is never in check.
use vstd::prelude::*;
use crate::board::{
    belongs_to, code_kind, encode, on_board, piece_code, square_at, valid_cells, Board, Color,
    PieceKind, CELLS, EMPTY, SIDE,
};
use crate::moves::{
    diagonal, file_of, forward, king_reach, knight_reach, legal, line_len, line_square,
    path_clear, piece_verdict, rank_of, straight, toward,
};

verus! {

/// `k` is the square of `color`'s king: the first one, in index order, that
/// holds it.
pub open spec fn is_king_square(cells: Seq<u8>, color: Color, k: int) -> bool {
    &&& 0 <= k < 64
    &&& cells[k] == piece_code(color, PieceKind::King)
    &&& forall|j: int| 0 <= j < k ==> cells[j] != piece_code(color, PieceKind::King)
}

/// Some piece of `by` has a valid move onto `target`.
pub open spec fn attacked(cells: Seq<u8>, by: Color, target: int) -> bool {
    exists|s: int| 0 <= s < 64 && #[trigger] legal(cells, by, s, target)
}

/// `color` has a king on the board, and the other side has a valid move
/// onto its square.
pub open spec fn checked(cells: Seq<u8>, color: Color) -> bool {
    exists|k: int|
        #[trigger] is_king_square(cells, color, k) && attacked(cells, color.spec_opposite(), k)
}

/// The square `j` steps from (`file`, `rank`) in direction (`df`, `dr`).
pub open spec fn ray_square(file: int, rank: int, df: int, dr: int, j: int) -> int {
    square_at(file + toward(df, j), rank + toward(dr, j))
}

/// The `j`-th square of the ray lies on the board.
pub open spec fn ray_on_board(file: int, rank: int, df: int, dr: int, j: int) -> bool {
    on_board(file + toward(df, j), rank + toward(dr, j))
}

/// The squares of the ray before the `n`-th are empty.
pub open spec fn ray_empty_before(
    cells: Seq<u8>,
    file: int,
    rank: int,
    df: int,
    dr: int,
    n: int,
) -> bool {
    forall|i: int| 1 <= i < n ==> cells[#[trigger] ray_square(file, rank, df, dr, i)] == EMPTY
}

/// `code` is a piece of `by` that moves along the direction (`df`, `dr`):
/// the queen along all, the rook along files and ranks, the bishop along
/// diagonals.
pub open spec fn slides_along(code: u8, by: Color, df: int, dr: int) -> bool {
    ||| code == piece_code(by, PieceKind::Queen)
    ||| (df == 0 || dr == 0) && code == piece_code(by, PieceKind::Rook)
    ||| df != 0 && dr != 0 && code == piece_code(by, PieceKind::Bishop)
}

/// The first piece on the ray from (`file`, `rank`) in direction
/// (`df`, `dr`) is one of `by` that moves along it.
pub open spec fn slider_on_ray(
    cells: Seq<u8>,
    by: Color,
    file: int,
    rank: int,
    df: int,
    dr: int,
) -> bool {
    exists|n: int|
        n >= 1 && ray_on_board(file, rank, df, dr, n) && #[trigger] ray_empty_before(
            cells,
            file,
            rank,
            df,
            dr,
            n,
        ) && slides_along(cells[ray_square(file, rank, df, dr, n)], by, df, dr)
}

/// The square (`file`, `rank`) lies on the board and holds `code`.
pub open spec fn stands_at(cells: Seq<u8>, file: int, rank: int, code: u8) -> bool {
    on_board(file, rank) && cells[square_at(file, rank)] == code
}

/// A slider of `by` is the first piece on one of the eight rays.
pub open spec fn ray_scan(cells: Seq<u8>, by: Color, x: int, y: int) -> bool {
    ||| slider_on_ray(cells, by, x, y, 1, 0)
    ||| slider_on_ray(cells, by, x, y, -1, 0)
    ||| slider_on_ray(cells, by, x, y, 0, 1)
    ||| slider_on_ray(cells, by, x, y, 0, -1)
    ||| slider_on_ray(cells, by, x, y, 1, 1)
    ||| slider_on_ray(cells, by, x, y, -1, -1)
    ||| slider_on_ray(cells, by, x, y, 1, -1)
    ||| slider_on_ray(cells, by, x, y, -1, 1)
}

/// A knight of `by` stands a knight's jump away.
pub open spec fn knight_scan(cells: Seq<u8>, by: Color, x: int, y: int) -> bool {
    let knight = piece_code(by, PieceKind::Knight);
    ||| stands_at(cells, x + 1, y + 2, knight)
    ||| stands_at(cells, x + 2, y + 1, knight)
    ||| stands_at(cells, x + 2, y - 1, knight)
    ||| stands_at(cells, x + 1, y - 2, knight)
    ||| stands_at(cells, x - 1, y - 2, knight)
    ||| stands_at(cells, x - 2, y - 1, knight)
    ||| stands_at(cells, x - 2, y + 1, knight)
    ||| stands_at(cells, x - 1, y + 2, knight)
}

/// A pawn of `by` stands on one of the two squares from which it captures
/// onto (`x`, `y`).
pub open spec fn pawn_scan(cells: Seq<u8>, by: Color, x: int, y: int) -> bool {
    let pawn = piece_code(by, PieceKind::Pawn);
    ||| stands_at(cells, x - 1, y - forward(by), pawn)
    ||| stands_at(cells, x + 1, y - forward(by), pawn)
}

/// The king of `by` stands on an adjacent square.
pub open spec fn king_scan(cells: Seq<u8>, by: Color, x: int, y: int) -> bool {
    let king = piece_code(by, PieceKind::King);
    ||| stands_at(cells, x - 1, y - 1, king)
    ||| stands_at(cells, x, y - 1, king)
    ||| stands_at(cells, x + 1, y - 1, king)
    ||| stands_at(cells, x - 1, y, king)
    ||| stands_at(cells, x + 1, y, king)
    ||| stands_at(cells, x - 1, y + 1, king)
    ||| stands_at(cells, x, y + 1, king)
    ||| stands_at(cells, x + 1, y + 1, king)
}

/// What the detector looks at from the square (`x`, `y`).
pub open spec fn scan(cells: Seq<u8>, by: Color, x: int, y: int) -> bool {
    ||| ray_scan(cells, by, x, y)
    ||| knight_scan(cells, by, x, y)
    ||| pawn_scan(cells, by, x, y)
    ||| king_scan(cells, by, x, y)
}

/// The sign of `d`.
pub open spec fn signum(d: int) -> int {
    if d > 0 {
        1
    } else if d < 0 {
        -1
    } else {
        0
    }
}

/// A ray that reaches its `n`-th square over empty squares is a clear path
/// from that square back to the origin.
pub proof fn lemma_path_from_ray(cells: Seq<u8>, x: int, y: int, df: int, dr: int, n: int)
    requires
        on_board(x, y),
        -1 <= df <= 1,
        -1 <= dr <= 1,
        df != 0 || dr != 0,
        n >= 1,
        ray_on_board(x, y, df, dr, n),
        ray_empty_before(cells, x, y, df, dr, n),
    ensures
        path_clear(cells, x + toward(df, n), y + toward(dr, n), x, y),
        line_len(x + toward(df, n), y + toward(dr, n), x, y) == n,
        df == 0 || dr == 0 ==> straight(x + toward(df, n), y + toward(dr, n), x, y),
        df != 0 && dr != 0 ==> diagonal(x + toward(df, n), y + toward(dr, n), x, y),
{
    let sx = x + toward(df, n);
    let sy = y + toward(dr, n);
    assert forall|j: int| 0 < j < line_len(sx, sy, x, y) implies cells[#[trigger] line_square(
        sx,
        sy,
        x,
        y,
        j,
    )] == EMPTY by {
        assert(line_square(sx, sy, x, y, j) == ray_square(x, y, df, dr, n - j));
    }
}

/// A clear straight or diagonal path into a square is a ray from that
/// square that reaches the start of the path over empty squares.
pub proof fn lemma_ray_from_path(cells: Seq<u8>, sx: int, sy: int, x: int, y: int)
    requires
        on_board(x, y),
        on_board(sx, sy),
        sx != x || sy != y,
        straight(sx, sy, x, y) || diagonal(sx, sy, x, y),
        path_clear(cells, sx, sy, x, y),
    ensures
        ({
            let df = signum(sx - x);
            let dr = signum(sy - y);
            let n = line_len(sx, sy, x, y);
            &&& n >= 1
            &&& ray_on_board(x, y, df, dr, n)
            &&& ray_square(x, y, df, dr, n) == square_at(sx, sy)
            &&& ray_empty_before(cells, x, y, df, dr, n)
        }),
{
    let df = signum(sx - x);
    let dr = signum(sy - y);
    let n = line_len(sx, sy, x, y);
    assert forall|i: int| 1 <= i < n implies cells[#[trigger] ray_square(x, y, df, dr, i)]
        == EMPTY by {
        assert(ray_square(x, y, df, dr, i) == line_square(sx, sy, x, y, n - i));
    }
}

/// The square of `color`'s king, if it has one.
pub fn find_king(board: &Board, color: Color) -> (found: Option<u8>)
    ensures
        match found {
            Some(k) => is_king_square(board@, color, k as int),
            None => forall|j: int|
                0 <= j < 64 ==> board@[j] != piece_code(color, PieceKind::King),
        },
{
    let king: u8 = encode(color, PieceKind::King);
    let mut i: u8 = 0;
    while i < CELLS
        invariant
            i <= CELLS,
            king == piece_code(color, PieceKind::King),
            forall|j: int| 0 <= j < i ==> board@[j] != king,
        decreases CELLS - i,
    {
        if board.get(i) == king {
            return Some(i);
        }
        i += 1;
    }
    None
}

/// The coordinate `delta` away from `coordinate`, if it lies on the board.
fn shifted(coordinate: u8, delta: i8) -> (moved: Option<u8>)
    requires
        coordinate < SIDE,
        -8 <= delta <= 8,
    ensures
        moved is Some <==> 0 <= coordinate + delta < 8,
        moved matches Some(c) ==> c == coordinate + delta,
{
    let sum: i8 = coordinate as i8 + delta;
    if 0 <= sum && sum < 8 {
        Some(sum as u8)
    } else {
        None
    }
}

/// `steps` taken in the direction `d`.
fn stride(d: i8, steps: u8) -> (delta: i8)
    requires
        steps <= 8,
    ensures
        delta == toward(d as int, steps as int),
{
    if d > 0 {
        steps as i8
    } else if d < 0 {
        -(steps as i8)
    } else {
        0
    }
}

/// Whether the square (`file + dx`, `rank + dy`) lies on the board and
/// holds `code`.
fn holds(board: &Board, file: u8, rank: u8, dx: i8, dy: i8, code: u8) -> (found: bool)
    requires
        file < SIDE,
        rank < SIDE,
        -8 <= dx <= 8,
        -8 <= dy <= 8,
    ensures
        found == stands_at(board@, file + dx, rank + dy, code),
{
    match (shifted(file, dx), shifted(rank, dy)) {
        (Some(x), Some(y)) => board.at(x, y) == code,
        _ => false,
    }
}

/// Where the first piece of a ray stands on its `n`-th square, the ray
/// shows a slider exactly when that piece is one.
proof fn lemma_first_piece_decides(
    cells: Seq<u8>,
    by: Color,
    x: int,
    y: int,
    df: int,
    dr: int,
    n: int,
)
    requires
        n >= 1,
        ray_on_board(x, y, df, dr, n),
        ray_empty_before(cells, x, y, df, dr, n),
        cells[ray_square(x, y, df, dr, n)] != EMPTY,
    ensures
        slider_on_ray(cells, by, x, y, df, dr) == slides_along(
            cells[ray_square(x, y, df, dr, n)],
            by,
            df,
            dr,
        ),
{
    assert forall|m: int|
        m >= 1 && ray_on_board(x, y, df, dr, m) && #[trigger] ray_empty_before(
            cells,
            x,
            y,
            df,
            dr,
            m,
        ) && m != n implies !slides_along(cells[ray_square(x, y, df, dr, m)], by, df, dr) by {
        if m < n {
            assert(cells[ray_square(x, y, df, dr, m)] == EMPTY);
        } else {
            assert(cells[ray_square(x, y, df, dr, n)] == EMPTY);
        }
    }
}

/// A ray that leaves the board at its `n`-th square, over empty squares
/// only, shows no slider.
proof fn lemma_empty_ray(cells: Seq<u8>, by: Color, x: int, y: int, df: int, dr: int, n: int)
    requires
        on_board(x, y),
        -1 <= df <= 1,
        -1 <= dr <= 1,
        n >= 1,
        !ray_on_board(x, y, df, dr, n),
        ray_empty_before(cells, x, y, df, dr, n),
    ensures
        !slider_on_ray(cells, by, x, y, df, dr),
{
    assert forall|m: int|
        m >= 1 && ray_on_board(x, y, df, dr, m) && #[trigger] ray_empty_before(
            cells,
            x,
            y,
            df,
            dr,
            m,
        ) implies !slides_along(cells[ray_square(x, y, df, dr, m)], by, df, dr) by {
        assert(m < n);
        assert(cells[ray_square(x, y, df, dr, m)] == EMPTY);
    }
}

/// Walks the ray from (`file`, `rank`) in direction (`df`, `dr`) up to the
/// first piece or the edge of the board, and tells whether that piece is a
/// slider of `by` for this direction.
fn ray_hits_slider(board: &Board, by: Color, file: u8, rank: u8, df: i8, dr: i8) -> (hit: bool)
    requires
        file < SIDE,
        rank < SIDE,
        -1 <= df <= 1,
        -1 <= dr <= 1,
        df != 0 || dr != 0,
    ensures
        hit == slider_on_ray(board@, by, file as int, rank as int, df as int, dr as int),
{
    let queen: u8 = encode(by, PieceKind::Queen);
    let other: u8 = if df == 0 || dr == 0 {
        encode(by, PieceKind::Rook)
    } else {
        encode(by, PieceKind::Bishop)
    };
    let mut n: u8 = 1;
    while n < 8
        invariant
            1 <= n <= 8,
            file < SIDE,
            rank < SIDE,
            -1 <= df <= 1,
            -1 <= dr <= 1,
            df != 0 || dr != 0,
            queen == piece_code(by, PieceKind::Queen),
            other == (if df == 0 || dr == 0 {
                piece_code(by, PieceKind::Rook)
            } else {
                piece_code(by, PieceKind::Bishop)
            }),
            ray_empty_before(board@, file as int, rank as int, df as int, dr as int, n as int),
        decreases 8 - n,
    {
        match (shifted(file, stride(df, n)), shifted(rank, stride(dr, n))) {
            (Some(f), Some(r)) => {
                let code: u8 = board.at(f, r);
                assert(square_at(f as int, r as int) == ray_square(
                    file as int,
                    rank as int,
                    df as int,
                    dr as int,
                    n as int,
                ));
                if code != EMPTY {
                    proof {
                        lemma_first_piece_decides(
                            board@,
                            by,
                            file as int,
                            rank as int,
                            df as int,
                            dr as int,
                            n as int,
                        );
                    }
                    return code == queen || code == other;
                }
            },
            _ => {
                proof {
                    lemma_empty_ray(
                        board@,
                        by,
                        file as int,
                        rank as int,
                        df as int,
                        dr as int,
                        n as int,
                    );
                }
                return false;
            },
        }
        n += 1;
    }
    proof {
        lemma_empty_ray(board@, by, file as int, rank as int, df as int, dr as int, 8);
    }
    false
}

/// A piece of `by` of the given kind that stands on (`sx`, `sy`) and whose
/// rule allows the step onto `target` has a valid move there.
proof fn lemma_piece_attacks(
    cells: Seq<u8>,
    by: Color,
    kind: PieceKind,
    sx: int,
    sy: int,
    target: int,
)
    requires
        valid_cells(cells),
        0 <= target < 64,
        !belongs_to(cells[target], by),
        stands_at(cells, sx, sy, piece_code(by, kind)),
        sx != file_of(target) || sy != rank_of(target),
        piece_verdict(cells, by, kind, sx, sy, file_of(target), rank_of(target)) is Ok,
    ensures
        attacked(cells, by, target),
{
    let s = square_at(sx, sy);
    assert(file_of(s) == sx && rank_of(s) == sy);
    assert(legal(cells, by, s, target));
}

/// A slider found by the scan of one ray has a valid move onto the origin
/// of the ray.
proof fn lemma_slider_attacks(cells: Seq<u8>, by: Color, target: int, df: int, dr: int)
    requires
        valid_cells(cells),
        0 <= target < 64,
        !belongs_to(cells[target], by),
        -1 <= df <= 1,
        -1 <= dr <= 1,
        df != 0 || dr != 0,
        slider_on_ray(cells, by, file_of(target), rank_of(target), df, dr),
    ensures
        attacked(cells, by, target),
{
    let x = file_of(target);
    let y = rank_of(target);
    let n = choose|n: int|
        n >= 1 && ray_on_board(x, y, df, dr, n) && #[trigger] ray_empty_before(
            cells,
            x,
            y,
            df,
            dr,
            n,
        ) && slides_along(cells[ray_square(x, y, df, dr, n)], by, df, dr);
    let sx = x + toward(df, n);
    let sy = y + toward(dr, n);
    lemma_path_from_ray(cells, x, y, df, dr, n);
    let code = cells[square_at(sx, sy)];
    if code == piece_code(by, PieceKind::Queen) {
        lemma_piece_attacks(cells, by, PieceKind::Queen, sx, sy, target);
    } else if df == 0 || dr == 0 {
        lemma_piece_attacks(cells, by, PieceKind::Rook, sx, sy, target);
    } else {
        lemma_piece_attacks(cells, by, PieceKind::Bishop, sx, sy, target);
    }
}

/// Whatever the scan finds is a piece with a valid move onto the square.
proof fn lemma_scan_sound(cells: Seq<u8>, by: Color, target: int)
    requires
        valid_cells(cells),
        0 <= target < 64,
        belongs_to(cells[target], by.spec_opposite()),
        scan(cells, by, file_of(target), rank_of(target)),
    ensures
        attacked(cells, by, target),
{
    let x = file_of(target);
    let y = rank_of(target);
    if slider_on_ray(cells, by, x, y, 1, 0) {
        lemma_slider_attacks(cells, by, target, 1, 0);
    } else if slider_on_ray(cells, by, x, y, -1, 0) {
        lemma_slider_attacks(cells, by, target, -1, 0);
    } else if slider_on_ray(cells, by, x, y, 0, 1) {
        lemma_slider_attacks(cells, by, target, 0, 1);
    } else if slider_on_ray(cells, by, x, y, 0, -1) {
        lemma_slider_attacks(cells, by, target, 0, -1);
    } else if slider_on_ray(cells, by, x, y, 1, 1) {
        lemma_slider_attacks(cells, by, target, 1, 1);
    } else if slider_on_ray(cells, by, x, y, -1, -1) {
        lemma_slider_attacks(cells, by, target, -1, -1);
    } else if slider_on_ray(cells, by, x, y, 1, -1) {
        lemma_slider_attacks(cells, by, target, 1, -1);
    } else if slider_on_ray(cells, by, x, y, -1, 1) {
        lemma_slider_attacks(cells, by, target, -1, 1);
    } else if knight_scan(cells, by, x, y) {
        let knight = piece_code(by, PieceKind::Knight);
        let (dx, dy): (int, int) = if stands_at(cells, x + 1, y + 2, knight) {
            (1, 2)
        } else if stands_at(cells, x + 2, y + 1, knight) {
            (2, 1)
        } else if stands_at(cells, x + 2, y - 1, knight) {
            (2, -1)
        } else if stands_at(cells, x + 1, y - 2, knight) {
            (1, -2)
        } else if stands_at(cells, x - 1, y - 2, knight) {
            (-1, -2)
        } else if stands_at(cells, x - 2, y - 1, knight) {
            (-2, -1)
        } else if stands_at(cells, x - 2, y + 1, knight) {
            (-2, 1)
        } else {
            (-1, 2)
        };
        lemma_piece_attacks(cells, by, PieceKind::Knight, x + dx, y + dy, target);
    } else if pawn_scan(cells, by, x, y) {
        let pawn = piece_code(by, PieceKind::Pawn);
        let dx: int = if stands_at(cells, x - 1, y - forward(by), pawn) {
            -1
        } else {
            1
        };
        lemma_piece_attacks(cells, by, PieceKind::Pawn, x + dx, y - forward(by), target);
    } else {
        let king = piece_code(by, PieceKind::King);
        let (dx, dy): (int, int) = if stands_at(cells, x - 1, y - 1, king) {
            (-1, -1)
        } else if stands_at(cells, x, y - 1, king) {
            (0, -1)
        } else if stands_at(cells, x + 1, y - 1, king) {
            (1, -1)
        } else if stands_at(cells, x - 1, y, king) {
            (-1, 0)
        } else if stands_at(cells, x + 1, y, king) {
            (1, 0)
        } else if stands_at(cells, x - 1, y + 1, king) {
            (-1, 1)
        } else if stands_at(cells, x, y + 1, king) {
            (0, 1)
        } else {
            (1, 1)
        };
        lemma_piece_attacks(cells, by, PieceKind::King, x + dx, y + dy, target);
    }
}

/// A slider with a valid move onto the square is the first piece on the
/// ray that leads to it.
proof fn lemma_slider_found(cells: Seq<u8>, by: Color, s: int, target: int)
    requires
        valid_cells(cells),
        0 <= target < 64,
        0 <= s < 64,
        s != target,
        straight(file_of(s), rank_of(s), file_of(target), rank_of(target)) || diagonal(
            file_of(s),
            rank_of(s),
            file_of(target),
            rank_of(target),
        ),
        path_clear(cells, file_of(s), rank_of(s), file_of(target), rank_of(target)),
        slides_along(
            cells[s],
            by,
            signum(file_of(s) - file_of(target)),
            signum(rank_of(s) - rank_of(target)),
        ),
    ensures
        ray_scan(cells, by, file_of(target), rank_of(target)),
{
    let x = file_of(target);
    let y = rank_of(target);
    let sx = file_of(s);
    let sy = rank_of(s);
    let df = signum(sx - x);
    let dr = signum(sy - y);
    lemma_ray_from_path(cells, sx, sy, x, y);
    let n = line_len(sx, sy, x, y);
    assert(ray_square(x, y, df, dr, n) == s);
}

/// Every piece with a valid move onto the square is found by the scan.
proof fn lemma_scan_complete(cells: Seq<u8>, by: Color, s: int, target: int)
    requires
        valid_cells(cells),
        0 <= target < 64,
        0 <= s < 64,
        belongs_to(cells[target], by.spec_opposite()),
        legal(cells, by, s, target),
    ensures
        scan(cells, by, file_of(target), rank_of(target)),
{
    let x = file_of(target);
    let y = rank_of(target);
    let sx = file_of(s);
    let sy = rank_of(s);
    let code = cells[s];
    assert(s == square_at(sx, sy));
    assert(target == square_at(x, y));
    match code_kind(code).unwrap() {
        PieceKind::King => {
            assert(stands_at(cells, sx, sy, code));
        },
        PieceKind::Queen => {
            lemma_slider_found(cells, by, s, target);
        },
        PieceKind::Rook => {
            lemma_slider_found(cells, by, s, target);
        },
        PieceKind::Bishop => {
            lemma_slider_found(cells, by, s, target);
        },
        PieceKind::Knight => {
            assert(stands_at(cells, sx, sy, code));
        },
        PieceKind::Pawn => {
            assert(stands_at(cells, sx, sy, code));
        },
    }
}

/// The scan from a square held by the other side finds a piece exactly
/// when some piece of `by` has a valid move onto the square.
pub proof fn lemma_scan_is_attack(cells: Seq<u8>, by: Color, target: int)
    requires
        valid_cells(cells),
        0 <= target < 64,
        belongs_to(cells[target], by.spec_opposite()),
    ensures
        scan(cells, by, file_of(target), rank_of(target)) == attacked(cells, by, target),
{
    if scan(cells, by, file_of(target), rank_of(target)) {
        lemma_scan_sound(cells, by, target);
    }
    if attacked(cells, by, target) {
        let s = choose|s: int| 0 <= s < 64 && #[trigger] legal(cells, by, s, target);
        lemma_scan_complete(cells, by, s, target);
    }
}

/// Whether a slider of `by` is the first piece on one of the eight rays
/// from (`x`, `y`).
fn slider_in_sight(board: &Board, by: Color, x: u8, y: u8) -> (found: bool)
    requires
        x < SIDE,
        y < SIDE,
    ensures
        found == ray_scan(board@, by, x as int, y as int),
{
    ray_hits_slider(board, by, x, y, 1, 0)
        || ray_hits_slider(board, by, x, y, -1, 0)
        || ray_hits_slider(board, by, x, y, 0, 1)
        || ray_hits_slider(board, by, x, y, 0, -1)
        || ray_hits_slider(board, by, x, y, 1, 1)
        || ray_hits_slider(board, by, x, y, -1, -1)
        || ray_hits_slider(board, by, x, y, 1, -1)
        || ray_hits_slider(board, by, x, y, -1, 1)
}

/// Whether a knight of `by` stands a knight's jump from (`x`, `y`).
fn knight_in_reach(board: &Board, by: Color, x: u8, y: u8) -> (found: bool)
    requires
        x < SIDE,
        y < SIDE,
    ensures
        found == knight_scan(board@, by, x as int, y as int),
{
    let knight: u8 = encode(by, PieceKind::Knight);
    holds(board, x, y, 1, 2, knight)
        || holds(board, x, y, 2, 1, knight)
        || holds(board, x, y, 2, -1, knight)
        || holds(board, x, y, 1, -2, knight)
        || holds(board, x, y, -1, -2, knight)
        || holds(board, x, y, -2, -1, knight)
        || holds(board, x, y, -2, 1, knight)
        || holds(board, x, y, -1, 2, knight)
}

/// Whether a pawn of `by` stands where it captures onto (`x`, `y`): one
/// file to either side, on the rank it comes from.
fn pawn_in_reach(board: &Board, by: Color, x: u8, y: u8) -> (found: bool)
    requires
        x < SIDE,
        y < SIDE,
    ensures
        found == pawn_scan(board@, by, x as int, y as int),
{
    let pawn: u8 = encode(by, PieceKind::Pawn);
    let behind: i8 = match by {
        Color::White => 1,
        Color::Black => -1,
    };
    holds(board, x, y, -1, behind, pawn) || holds(board, x, y, 1, behind, pawn)
}

/// Whether the king of `by` stands next to (`x`, `y`).
fn king_in_reach(board: &Board, by: Color, x: u8, y: u8) -> (found: bool)
    requires
        x < SIDE,
        y < SIDE,
    ensures
        found == king_scan(board@, by, x as int, y as int),
{
    let king: u8 = encode(by, PieceKind::King);
    holds(board, x, y, -1, -1, king)
        || holds(board, x, y, 0, -1, king)
        || holds(board, x, y, 1, -1, king)
        || holds(board, x, y, -1, 0, king)
        || holds(board, x, y, 1, 0, king)
        || holds(board, x, y, -1, 1, king)
        || holds(board, x, y, 0, 1, king)
        || holds(board, x, y, 1, 1, king)
}

/// Whether a piece of `by` has a valid move onto `target`, a square that
/// holds a piece of the other side.
fn attacked_by(board: &Board, by: Color, target: u8) -> (found: bool)
    requires
        target < CELLS,
        belongs_to(board@[target as int], by.spec_opposite()),
    ensures
        found == attacked(board@, by, target as int),
{
    let x: u8 = target % 8;
    let y: u8 = target / 8;
    proof {
        use_type_invariant(board);
        board.lemma_valid();
        lemma_scan_is_attack(board@, by, target as int);
    }
    slider_in_sight(board, by, x, y)
        || knight_in_reach(board, by, x, y)
        || pawn_in_reach(board, by, x, y)
        || king_in_reach(board, by, x, y)
}

/// Whether `color` is in check: its king, the first in index order if the
/// board holds several, stands where a piece of the other side has a valid
/// move to. A side with no king on the board is not in check.
pub fn in_check(board: &Board, color: Color) -> (check: bool)
    ensures
        check == checked(board@, color),
{
    match find_king(board, color) {
        Some(k) => {
            let found: bool = attacked_by(board, color.opposite(), k);
            proof {
                assert forall|j: int| #[trigger]
                    is_king_square(board@, color, j) implies j == k as int by {}
                assert(is_king_square(board@, color, k as int));
            }
            found
        },
        None => false,
    }
}

} // verus!
