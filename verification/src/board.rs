//! The chess position: sixty-four cells of piece codes, the primitives that
//! encode and decode a cell, and the two mutations a move is made of.
//!
//! A square is a flat index `0..64`. Its file is `index % 8`, its rank is
//! `index / 8`. Rank 0 is Black's home side and rank 7 is White's, so White
//! advances toward smaller rank indices.
use vstd::prelude::*;

verus! {

/// Number of cells on the board.
pub const CELLS: u8 = 64;

/// Number of files, and of ranks.
pub const SIDE: u8 = 8;

/// Code of a cell that holds no piece.
pub const EMPTY: u8 = 6;

/// Largest code a cell can hold (the black pawn).
pub const MAX_CODE: u8 = 12;

/// Code of the white queen, which every promoted pawn turns into.
pub const WHITE_QUEEN: u8 = 1;

/// Distance between the code of a white piece and the black piece of the
/// same kind.
pub const BLACK_OFFSET: u8 = 7;

#[derive(Clone, Copy, PartialEq, Eq, Debug, Structural)]
pub enum Color {
    White,
    Black,
}

#[derive(Clone, Copy, PartialEq, Eq, Debug, Structural)]
pub enum PieceKind {
    King,
    Queen,
    Rook,
    Bishop,
    Knight,
    Pawn,
}

impl Color {
    pub open spec fn spec_opposite(self) -> Color {
        match self {
            Color::White => Color::Black,
            Color::Black => Color::White,
        }
    }

    /// The other side.
    #[verifier::when_used_as_spec(spec_opposite)]
    pub fn opposite(self) -> (other: Color)
        ensures
            other == self.spec_opposite(),
    {
        match self {
            Color::White => Color::Black,
            Color::Black => Color::White,
        }
    }

    pub open spec fn spec_index(self) -> u8 {
        match self {
            Color::White => 0,
            Color::Black => 1,
        }
    }

    /// 0 for White, 1 for Black: the number a stored match keeps for the
    /// side to move.
    #[verifier::when_used_as_spec(spec_index)]
    pub fn index(self) -> (i: u8)
        ensures
            i == self.spec_index(),
    {
        match self {
            Color::White => 0,
            Color::Black => 1,
        }
    }

    /// Inverse of [`Color::index`]; `None` for a number that names no side.
    pub fn from_index(i: u8) -> (color: Option<Color>)
        ensures
            color == (if i == 0 {
                Some(Color::White)
            } else if i == 1 {
                Some(Color::Black)
            } else {
                None
            }),
    {
        if i == 0 {
            Some(Color::White)
        } else if i == 1 {
            Some(Color::Black)
        } else {
            None
        }
    }
}

impl PieceKind {
    pub open spec fn spec_index(self) -> u8 {
        match self {
            PieceKind::King => 0,
            PieceKind::Queen => 1,
            PieceKind::Rook => 2,
            PieceKind::Bishop => 3,
            PieceKind::Knight => 4,
            PieceKind::Pawn => 5,
        }
    }

    /// Position of the kind in the order king, queen, rook, bishop, knight,
    /// pawn; it is the code of the white piece of that kind.
    #[verifier::when_used_as_spec(spec_index)]
    pub fn index(self) -> (i: u8)
        ensures
            i == self.spec_index(),
    {
        match self {
            PieceKind::King => 0,
            PieceKind::Queen => 1,
            PieceKind::Rook => 2,
            PieceKind::Bishop => 3,
            PieceKind::Knight => 4,
            PieceKind::Pawn => 5,
        }
    }
}

/// The code of the piece of the given side and kind.
pub open spec fn piece_code(color: Color, kind: PieceKind) -> u8 {
    match color {
        Color::White => kind.spec_index(),
        Color::Black => (kind.spec_index() + BLACK_OFFSET) as u8,
    }
}

/// The side a code belongs to: the codes below `EMPTY` are White's, those
/// above it and up to `MAX_CODE` are Black's.
pub open spec fn code_color(code: u8) -> Option<Color> {
    if code < EMPTY {
        Some(Color::White)
    } else if EMPTY < code <= MAX_CODE {
        Some(Color::Black)
    } else {
        None
    }
}

/// The kind of piece a code stands for, which is the code modulo 7.
pub open spec fn code_kind(code: u8) -> Option<PieceKind> {
    if code > MAX_CODE {
        None
    } else if code % 7 == 0 {
        Some(PieceKind::King)
    } else if code % 7 == 1 {
        Some(PieceKind::Queen)
    } else if code % 7 == 2 {
        Some(PieceKind::Rook)
    } else if code % 7 == 3 {
        Some(PieceKind::Bishop)
    } else if code % 7 == 4 {
        Some(PieceKind::Knight)
    } else if code % 7 == 5 {
        Some(PieceKind::Pawn)
    } else {
        None
    }
}

/// Whether `code` is a piece of `color`.
pub open spec fn belongs_to(code: u8, color: Color) -> bool {
    code_color(code) == Some(color)
}

/// Encodes a piece.
pub fn encode(color: Color, kind: PieceKind) -> (code: u8)
    ensures
        code == piece_code(color, kind),
        code <= MAX_CODE,
        code != EMPTY,
        code_color(code) == Some(color),
        code_kind(code) == Some(kind),
{
    match color {
        Color::White => kind.index(),
        Color::Black => kind.index() + BLACK_OFFSET,
    }
}

/// The side of the piece that `code` stands for; `None` for the empty cell
/// and for a number that is no code.
pub fn color_of(code: u8) -> (color: Option<Color>)
    ensures
        color == code_color(code),
{
    if code < EMPTY {
        Some(Color::White)
    } else if code > EMPTY && code <= MAX_CODE {
        Some(Color::Black)
    } else {
        None
    }
}

/// The kind of the piece that `code` stands for; `None` for the empty cell
/// and for a number that is no code.
pub fn kind_of(code: u8) -> (kind: Option<PieceKind>)
    ensures
        kind == code_kind(code),
        code <= MAX_CODE && code != EMPTY ==> kind is Some && code == piece_code(
            code_color(code).unwrap(),
            kind.unwrap(),
        ),
{
    if code > MAX_CODE {
        return None;
    }
    let residue: u8 = code % 7;
    if residue == 0 {
        Some(PieceKind::King)
    } else if residue == 1 {
        Some(PieceKind::Queen)
    } else if residue == 2 {
        Some(PieceKind::Rook)
    } else if residue == 3 {
        Some(PieceKind::Bishop)
    } else if residue == 4 {
        Some(PieceKind::Knight)
    } else if residue == 5 {
        Some(PieceKind::Pawn)
    } else {
        None
    }
}

/// Flat index of the square on the given file and rank.
pub open spec fn square_at(file: int, rank: int) -> int {
    file + rank * 8
}

/// Whether file and rank both lie on the board.
pub open spec fn on_board(file: int, rank: int) -> bool {
    0 <= file < 8 && 0 <= rank < 8
}

/// Well-formed cells: sixty-four of them, each a code.
pub open spec fn valid_cells(cells: Seq<u8>) -> bool {
    &&& cells.len() == 64
    &&& forall|i: int| 0 <= i < 64 ==> #[trigger] cells[i] <= MAX_CODE
}

/// The position every match starts from.
pub open spec fn standard_cells() -> Seq<u8> {
    seq![
        9, 11, 10, 8, 7, 10, 11, 9,
        12, 12, 12, 12, 12, 12, 12, 12,
        6, 6, 6, 6, 6, 6, 6, 6,
        6, 6, 6, 6, 6, 6, 6, 6,
        6, 6, 6, 6, 6, 6, 6, 6,
        6, 6, 6, 6, 6, 6, 6, 6,
        5, 5, 5, 5, 5, 5, 5, 5,
        2, 4, 3, 1, 0, 3, 4, 2,
    ]
}

/// The last rank for a side: the rank on which its pawns promote.
pub open spec fn last_rank(color: Color) -> int {
    match color {
        Color::White => 0,
        Color::Black => 7,
    }
}

/// Whether the move `from -> to` by `color` is a pawn reaching its last rank.
pub open spec fn promotes(cells: Seq<u8>, color: Color, from: int, to: int) -> bool {
    &&& cells[from] == piece_code(color, PieceKind::Pawn)
    &&& to / 8 == last_rank(color)
}

/// First phase of a move: the source cell of a promoting pawn is overwritten
/// with the queen code. The code written is the white queen's whichever side
/// promotes.
pub open spec fn promoted(cells: Seq<u8>, color: Color, from: int, to: int) -> Seq<u8> {
    if promotes(cells, color, from, to) {
        cells.update(from, WHITE_QUEEN)
    } else {
        cells
    }
}

/// Second phase of a move: whatever stands on `from` is copied to `to`, and
/// `from` is emptied.
pub open spec fn relocated(cells: Seq<u8>, from: int, to: int) -> Seq<u8> {
    cells.update(to, cells[from]).update(from, EMPTY)
}

/// The position after `color` has moved `from -> to`: promotion of the
/// source, then relocation.
pub open spec fn moved(cells: Seq<u8>, color: Color, from: int, to: int) -> Seq<u8> {
    relocated(promoted(cells, color, from, to), from, to)
}

/// Number of cells that hold a piece.
pub open spec fn piece_count(cells: Seq<u8>) -> nat
    decreases cells.len(),
{
    if cells.len() == 0 {
        0
    } else {
        piece_count(cells.drop_last()) + if cells.last() == EMPTY {
            0nat
        } else {
            1nat
        }
    }
}

/// A chess position. Every cell holds a code in `0..=MAX_CODE`.
#[derive(Clone, Copy, PartialEq, Debug)]
pub struct Board {
    cells: [u8; 64],
}

impl View for Board {
    type V = Seq<u8>;

    closed spec fn view(&self) -> Seq<u8> {
        self.cells@
    }
}

impl Board {
    /// The invariant of the type: the cells are sixty-four codes.
    #[verifier::type_invariant]
    pub closed spec fn well_formed(self) -> bool {
        valid_cells(self.cells@)
    }

    /// States the invariant of the type over the view.
    pub proof fn lemma_valid(self)
        requires
            self.well_formed(),
        ensures
            valid_cells(self@),
    {
    }

    /// The standard starting position.
    pub fn standard() -> (board: Board)
        ensures
            board@ == standard_cells(),
    {
        let cells: [u8; 64] = [
            9, 11, 10, 8, 7, 10, 11, 9,
            12, 12, 12, 12, 12, 12, 12, 12,
            6, 6, 6, 6, 6, 6, 6, 6,
            6, 6, 6, 6, 6, 6, 6, 6,
            6, 6, 6, 6, 6, 6, 6, 6,
            6, 6, 6, 6, 6, 6, 6, 6,
            5, 5, 5, 5, 5, 5, 5, 5,
            2, 4, 3, 1, 0, 3, 4, 2,
        ];
        assert(cells@ =~= standard_cells());
        Board { cells }
    }

    /// A board with the given cells, if each of them is a code.
    pub fn from_codes(codes: [u8; 64]) -> (board: Option<Board>)
        ensures
            board is Some <==> valid_cells(codes@),
            board matches Some(b) ==> b@ == codes@,
    {
        let mut i: usize = 0;
        while i < 64
            invariant
                i <= 64,
                forall|j: int| 0 <= j < i ==> #[trigger] codes@[j] <= MAX_CODE,
            decreases 64 - i,
        {
            if codes[i] > MAX_CODE {
                return None;
            }
            i += 1;
        }
        Some(Board { cells: codes })
    }

    /// The sixty-four codes, rank by rank.
    pub fn codes(&self) -> (codes: [u8; 64])
        ensures
            codes@ == self@,
            valid_cells(codes@),
    {
        proof {
            use_type_invariant(self);
        }
        self.cells
    }

    /// The code on square `sq`.
    pub fn get(&self, sq: u8) -> (code: u8)
        requires
            sq < CELLS,
        ensures
            code == self@[sq as int],
            code <= MAX_CODE,
    {
        proof {
            use_type_invariant(self);
        }
        self.cells[sq as usize]
    }

    /// The code on the square of the given file and rank.
    pub fn at(&self, file: u8, rank: u8) -> (code: u8)
        requires
            file < SIDE,
            rank < SIDE,
        ensures
            code == self@[square_at(file as int, rank as int)],
            code <= MAX_CODE,
    {
        self.get(rank * 8 + file)
    }

    /// First phase of a move by `color` from `from` to `to`: if the piece on
    /// `from` is a pawn of `color` and `to` lies on its last rank, `from`
    /// is overwritten with the queen code.
    pub fn promote(&mut self, color: Color, from: u8, to: u8)
        requires
            from < CELLS,
            to < CELLS,
        ensures
            final(self)@ == promoted(old(self)@, color, from as int, to as int),
    {
        proof {
            use_type_invariant(&*self);
        }
        let rank: u8 = to / 8;
        let last: u8 = match color {
            Color::White => 0,
            Color::Black => 7,
        };
        if self.cells[from as usize] == encode(color, PieceKind::Pawn) && rank == last {
            self.cells[from as usize] = WHITE_QUEEN;
        }
    }

    /// Second phase of a move: copies the code on `from` to `to` and empties
    /// `from`, whatever the two cells hold.
    pub fn apply(&mut self, from: u8, to: u8)
        requires
            from < CELLS,
            to < CELLS,
        ensures
            final(self)@ == relocated(old(self)@, from as int, to as int),
    {
        proof {
            use_type_invariant(&*self);
        }
        let piece: u8 = self.cells[from as usize];
        self.cells[to as usize] = piece;
        self.cells[from as usize] = EMPTY;
    }
}

/// Overwriting one cell changes the piece count by what the cell gains or
/// loses.
pub proof fn lemma_count_update(cells: Seq<u8>, i: int, code: u8)
    requires
        0 <= i < cells.len(),
    ensures
        piece_count(cells.update(i, code)) + (if cells[i] == EMPTY {
            0nat
        } else {
            1nat
        }) == piece_count(cells) + (if code == EMPTY {
            0nat
        } else {
            1nat
        }),
    decreases cells.len(),
{
    let after = cells.update(i, code);
    if i == cells.len() - 1 {
        assert(after.drop_last() =~= cells.drop_last());
    } else {
        assert(after.drop_last() =~= cells.drop_last().update(i, code));
        lemma_count_update(cells.drop_last(), i, code);
    }
}

/// A move keeps sixty-four valid cells and removes at most one piece: the
/// one that stood on the destination.
pub proof fn lemma_moved_count(cells: Seq<u8>, color: Color, from: int, to: int)
    requires
        valid_cells(cells),
        0 <= from < 64,
        0 <= to < 64,
        from != to,
        cells[from] != EMPTY,
    ensures
        valid_cells(moved(cells, color, from, to)),
        piece_count(moved(cells, color, from, to)) + (if cells[to] == EMPTY {
            0nat
        } else {
            1nat
        }) == piece_count(cells),
{
    let first = promoted(cells, color, from, to);
    if promotes(cells, color, from, to) {
        lemma_count_update(cells, from, WHITE_QUEEN);
    }
    assert(piece_count(first) == piece_count(cells));
    assert(first[from] != EMPTY);
    assert(first[to] == cells[to]);
    let second = first.update(to, first[from]);
    lemma_count_update(first, to, first[from]);
    lemma_count_update(second, from, EMPTY);
    assert(second[from] == first[from]);
}

} // verus!
