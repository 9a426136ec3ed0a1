//! Pieces and the move-legality rules: one predicate per piece kind, a
//! path-clearness test for the sliding pieces, and the standard initial
//! layout of the 32 pieces.

use vstd::prelude::*;

verus! {

#[derive(Clone, Copy, PartialEq, Eq, Structural, Debug)]
pub enum PieceColor {
    Black,
    White,
}

#[derive(Clone, Copy, PartialEq, Eq, Structural, Debug)]
pub enum PieceType {
    Bishop,
    King,
    Knight,
    Pawn,
    Queen,
    Rook,
}

#[derive(Clone, Copy, PartialEq, Eq, Structural, Debug)]
pub struct Piece {
    pub color: PieceColor,
    pub piece_type: PieceType,
    pub x: u8,
    pub y: u8,
}

/// The color of the other side.
pub open spec fn opposite(c: PieceColor) -> PieceColor {
    match c {
        PieceColor::White => PieceColor::Black,
        PieceColor::Black => PieceColor::White,
    }
}

/// Some live piece stands on (x, y).
pub open spec fn occupied(pieces: Seq<Piece>, x: int, y: int) -> bool {
    exists|i: int|
        0 <= i < pieces.len() && (#[trigger] pieces[i]).x == x && pieces[i].y == y
}

/// Some live piece of color `c` stands on (x, y).
pub open spec fn occupied_by(pieces: Seq<Piece>, c: PieceColor, x: int, y: int) -> bool {
    exists|i: int|
        0 <= i < pieces.len() && (#[trigger] pieces[i]).x == x && pieces[i].y == y
            && pieces[i].color == c
}

/// No two live pieces share a square.
pub open spec fn positions_distinct(pieces: Seq<Piece>) -> bool {
    forall|i: int, j: int|
        #![trigger pieces[i], pieces[j]]
        0 <= i < pieces.len() && 0 <= j < pieces.len() && i != j
            ==> !(pieces[i].x == pieces[j].x && pieces[i].y == pieces[j].y)
}

/// Every live piece stands on the 8x8 grid.
pub open spec fn pieces_on_board(pieces: Seq<Piece>) -> bool {
    forall|i: int|
        0 <= i < pieces.len() ==> (#[trigger] pieces[i]).x < 8 && pieces[i].y < 8
}

/// Distance between two coordinates.
pub open spec fn abs_diff(a: u8, b: u8) -> int {
    if a >= b { a - b } else { b - a }
}

/// `v` lies strictly between `a` and `b`, whichever of the two is smaller.
pub open spec fn strictly_between(a: u8, b: u8, v: u8) -> bool {
    (a < v && v < b) || (b < v && v < a)
}

/// x coordinate of the k-th square on the diagonal from (bx, _) toward (ex, _).
pub open spec fn diag_x(bx: u8, ex: u8, k: int) -> int {
    if bx < ex { bx + k } else { bx - k }
}

/// y coordinate of the k-th square on the diagonal from (_, by) toward (_, ey).
pub open spec fn diag_y(by: u8, ey: u8, k: int) -> int {
    if by < ey { by + k } else { by - k }
}

/// No piece stands strictly between (bx, by) and (ex, ey) on whichever
/// straight or diagonal line joins them. A pair joined by no such line has a
/// clear path vacuously; the move predicates rule those shapes out
/// themselves. The test never reads a piece's color: blocking is color-blind.
pub open spec fn path_clear(pieces: Seq<Piece>, bx: u8, by: u8, ex: u8, ey: u8) -> bool {
    &&& (bx == ex ==> forall|i: int|
        0 <= i < pieces.len()
            ==> !((#[trigger] pieces[i]).x == bx && strictly_between(by, ey, pieces[i].y)))
    &&& (by == ey ==> forall|i: int|
        0 <= i < pieces.len()
            ==> !((#[trigger] pieces[i]).y == by && strictly_between(bx, ex, pieces[i].x)))
    &&& (abs_diff(bx, ex) == abs_diff(by, ey) ==> forall|k: int|
        1 <= k < abs_diff(bx, ex)
            ==> !occupied(pieces, #[trigger] diag_x(bx, ex, k), diag_y(by, ey, k)))
}

fn is_between_range(start: u8, end: u8, value: u8) -> (r: bool)
    ensures
        r == strictly_between(start, end, value),
{
    (value > start && value < end) || (value > end && value < start)
}

/// Walk the straight or diagonal line from `begin` to `end` and report
/// whether every square strictly between the two is free.
#[verifier::loop_isolation(false)]
pub fn is_path_empty(begin: (u8, u8), end: (u8, u8), pieces: &Vec<Piece>) -> (r: bool)
    ensures
        r == path_clear(pieces@, begin.0, begin.1, end.0, end.1),
{
    let (bx, by) = begin;
    let (ex, ey) = end;

    // Same column
    if bx == ex {
        let mut i: usize = 0;
        while i < pieces.len()
            invariant
                i <= pieces@.len(),
                forall|j: int|
                    0 <= j < i ==> !((#[trigger] pieces@[j]).x == bx
                        && strictly_between(by, ey, pieces@[j].y)),
            decreases pieces@.len() - i,
        {
            if pieces[i].x == bx && is_between_range(by, ey, pieces[i].y) {
                proof {
                    assert(pieces@[i as int].x == bx
                        && strictly_between(by, ey, pieces@[i as int].y));
                }
                return false;
            }
            i += 1;
        }
    }

    // Same row
    if by == ey {
        let mut i: usize = 0;
        while i < pieces.len()
            invariant
                i <= pieces@.len(),
                forall|j: int|
                    0 <= j < i ==> !((#[trigger] pieces@[j]).y == by
                        && strictly_between(bx, ex, pieces@[j].x)),
            decreases pieces@.len() - i,
        {
            if pieces[i].y == by && is_between_range(bx, ex, pieces[i].x) {
                proof {
                    assert(pieces@[i as int].y == by
                        && strictly_between(bx, ex, pieces@[i as int].x));
                }
                return false;
            }
            i += 1;
        }
    }

    // Diagonals
    let x_diff: u8 = if bx >= ex { bx - ex } else { ex - bx };
    let y_diff: u8 = if by >= ey { by - ey } else { ey - by };
    if x_diff == y_diff {
        let mut k: u8 = 1;
        while k < x_diff
            invariant
                1 <= k,
                x_diff == abs_diff(bx, ex),
                x_diff == abs_diff(by, ey),
                forall|j: int|
                    1 <= j < k ==> !occupied(pieces@, #[trigger] diag_x(bx, ex, j),
                        diag_y(by, ey, j)),
            decreases x_diff - k,
        {
            let px: u8 = if bx < ex { bx + k } else { bx - k };
            let py: u8 = if by < ey { by + k } else { by - k };
            if occupied_at(pieces, px, py) {
                proof {
                    assert(occupied(pieces@, diag_x(bx, ex, k as int), diag_y(by, ey, k as int)));
                }
                return false;
            }
            k += 1;
        }
    }

    true
}

/// Is there a piece of color `c` on (x, y)?
pub fn occupied_by_at(pieces: &Vec<Piece>, c: PieceColor, x: u8, y: u8) -> (r: bool)
    ensures
        r == occupied_by(pieces@, c, x as int, y as int),
{
    let mut i: usize = 0;
    while i < pieces.len()
        invariant
            i <= pieces@.len(),
            forall|j: int|
                0 <= j < i ==> !((#[trigger] pieces@[j]).x == x && pieces@[j].y == y
                    && pieces@[j].color == c),
        decreases pieces@.len() - i,
    {
        if pieces[i].x == x && pieces[i].y == y && pieces[i].color == c {
            return true;
        }
        i += 1;
    }
    false
}

/// Is there a piece of either color on (x, y)?
pub fn occupied_at(pieces: &Vec<Piece>, x: u8, y: u8) -> (r: bool)
    ensures
        r == occupied(pieces@, x as int, y as int),
{
    let mut i: usize = 0;
    while i < pieces.len()
        invariant
            i <= pieces@.len(),
            forall|j: int|
                0 <= j < i ==> !((#[trigger] pieces@[j]).x == x && pieces@[j].y == y),
        decreases pieces@.len() - i,
    {
        if pieces[i].x == x && pieces[i].y == y {
            return true;
        }
        i += 1;
    }
    false
}

/// A king steps one square in any direction.
pub open spec fn king_move_ok(p: Piece, nx: u8, ny: u8) -> bool {
    abs_diff(p.x, nx) <= 1 && abs_diff(p.y, ny) <= 1
}

/// A queen slides any distance along a row, column or diagonal over a clear
/// path.
pub open spec fn queen_move_ok(p: Piece, nx: u8, ny: u8, pieces: Seq<Piece>) -> bool {
    path_clear(pieces, p.x, p.y, nx, ny)
        && (abs_diff(p.x, nx) == abs_diff(p.y, ny) || abs_diff(p.x, nx) == 0
            || abs_diff(p.y, ny) == 0)
}

/// A rook slides along a row or column over a clear path.
pub open spec fn rook_move_ok(p: Piece, nx: u8, ny: u8, pieces: Seq<Piece>) -> bool {
    (abs_diff(p.x, nx) == 0 || abs_diff(p.y, ny) == 0)
        && path_clear(pieces, p.x, p.y, nx, ny)
}

/// A bishop slides along a diagonal over a clear path.
pub open spec fn bishop_move_ok(p: Piece, nx: u8, ny: u8, pieces: Seq<Piece>) -> bool {
    abs_diff(p.x, nx) == abs_diff(p.y, ny) && path_clear(pieces, p.x, p.y, nx, ny)
}

/// A knight jumps to a (2, 1) offset; occupancy of the squares it passes
/// over is never consulted.
pub open spec fn knight_move_ok(p: Piece, nx: u8, ny: u8) -> bool {
    (abs_diff(p.x, nx) == 2 && abs_diff(p.y, ny) == 1)
        || (abs_diff(p.x, nx) == 1 && abs_diff(p.y, ny) == 2)
}

/// The x coordinate a color's pawns start on.
pub open spec fn pawn_home_x(c: PieceColor) -> int {
    match c {
        PieceColor::White => 1,
        PieceColor::Black => 6,
    }
}

/// How far a pawn move advances: positive in the pawn's forward direction
/// (toward larger x for white, smaller x for black), negative backward.
pub open spec fn pawn_forward(c: PieceColor, px: u8, nx: u8) -> int {
    match c {
        PieceColor::White => nx - px,
        PieceColor::Black => px - nx,
    }
}

/// A pawn advances one square straight onto an empty square, captures one
/// square diagonally forward onto an opposing piece, or advances two squares
/// straight from its home x over a clear path onto an empty square. It never
/// captures straight ahead.
pub open spec fn pawn_move_ok(p: Piece, nx: u8, ny: u8, pieces: Seq<Piece>) -> bool {
    ||| (pawn_forward(p.color, p.x, nx) == 1 && abs_diff(p.y, ny) == 0
        && !occupied(pieces, nx as int, ny as int))
    ||| (pawn_forward(p.color, p.x, nx) == 1 && abs_diff(p.y, ny) == 1
        && occupied_by(pieces, opposite(p.color), nx as int, ny as int))
    ||| (p.x == pawn_home_x(p.color) && abs_diff(p.y, ny) == 0 && abs_diff(p.x, nx) == 2
        && path_clear(pieces, p.x, p.y, nx, ny) && !occupied(pieces, nx as int, ny as int))
}

/// Whether moving `p` to (nx, ny) is legal on a board holding `pieces`.
/// A move onto a piece of the mover's own color is illegal, a move onto the
/// mover's own square is illegal, and otherwise legality is the piece kind's
/// own rule.
pub open spec fn move_valid(p: Piece, nx: u8, ny: u8, pieces: Seq<Piece>) -> bool {
    &&& !occupied_by(pieces, p.color, nx as int, ny as int)
    &&& !(p.x == nx && p.y == ny)
    &&& match p.piece_type {
        PieceType::King => king_move_ok(p, nx, ny),
        PieceType::Queen => queen_move_ok(p, nx, ny, pieces),
        PieceType::Rook => rook_move_ok(p, nx, ny, pieces),
        PieceType::Bishop => bishop_move_ok(p, nx, ny, pieces),
        PieceType::Knight => knight_move_ok(p, nx, ny),
        PieceType::Pawn => pawn_move_ok(p, nx, ny, pieces),
    }
}

impl Piece {
    /// Decide whether this piece may move to `new_position` on a board
    /// holding `pieces`. Purely a predicate: nothing is mutated.
    pub fn is_move_valid(&self, new_position: (u8, u8), pieces: &Vec<Piece>) -> (r: bool)
        ensures
            r == move_valid(*self, new_position.0, new_position.1, pieces@),
    {
        let (nx, ny) = new_position;

        // If there's a piece of the same color in the new position, we can't
        // move there.
        if occupied_by_at(pieces, self.color, nx, ny) {
            return false;
        }

        // We can't move to the same place we currently are.
        if self.x == nx && self.y == ny {
            return false;
        }

        let x_diff: u8 = if self.x >= nx { self.x - nx } else { nx - self.x };
        let y_diff: u8 = if self.y >= ny { self.y - ny } else { ny - self.y };

        match self.piece_type {
            PieceType::King => x_diff <= 1 && y_diff <= 1,
            PieceType::Queen => {
                is_path_empty((self.x, self.y), (nx, ny), pieces)
                    && (x_diff == y_diff || x_diff == 0 || y_diff == 0)
            },
            PieceType::Rook => {
                (x_diff == 0 || y_diff == 0) && is_path_empty((self.x, self.y), (nx, ny), pieces)
            },
            PieceType::Bishop => {
                x_diff == y_diff && is_path_empty((self.x, self.y), (nx, ny), pieces)
            },
            PieceType::Knight => (x_diff == 2 && y_diff == 1) || (x_diff == 1 && y_diff == 2),
            PieceType::Pawn => self.pawn_move_is_valid(nx, ny, pieces),
        }
    }

    /// The pawn arm of `is_move_valid`.
    fn pawn_move_is_valid(&self, nx: u8, ny: u8, pieces: &Vec<Piece>) -> (r: bool)
        requires
            self.piece_type == PieceType::Pawn,
        ensures
            r == pawn_move_ok(*self, nx, ny, pieces@),
    {
        let y_diff: u8 = if self.y >= ny { self.y - ny } else { ny - self.y };
        let x_diff: u8 = if self.x >= nx { self.x - nx } else { nx - self.x };
        let one_forward: bool = match self.color {
            PieceColor::White => nx >= 1 && nx - 1 == self.x,
            PieceColor::Black => self.x >= 1 && self.x - 1 == nx,
        };
        let opponent = match self.color {
            PieceColor::White => PieceColor::Black,
            PieceColor::Black => PieceColor::White,
        };
        let home_x: u8 = match self.color {
            PieceColor::White => 1,
            PieceColor::Black => 6,
        };

        // Normal move
        if one_forward && y_diff == 0 && !occupied_at(pieces, nx, ny) {
            return true;
        }

        // Taking a piece
        if one_forward && y_diff == 1 && occupied_by_at(pieces, opponent, nx, ny) {
            return true;
        }

        // Move two squares ahead
        if self.x == home_x && y_diff == 0 && x_diff == 2
            && is_path_empty((self.x, self.y), (nx, ny), pieces)
            && !occupied_at(pieces, nx, ny) {
            return true;
        }

        false
    }
}

/// Piece `b` stands strictly between (bx, by) and (ex, ey) on the straight
/// or diagonal line joining them. Nothing here reads `b`'s color.
pub open spec fn blocks_line(b: Piece, bx: u8, by: u8, ex: u8, ey: u8) -> bool {
    ||| (bx == ex && b.x == bx && strictly_between(by, ey, b.y))
    ||| (by == ey && b.y == by && strictly_between(bx, ex, b.x))
    ||| (abs_diff(bx, ex) == abs_diff(by, ey) && exists|k: int|
        1 <= k < abs_diff(bx, ex) && b.x == #[trigger] diag_x(bx, ex, k)
            && b.y == diag_y(by, ey, k))
}

/// Friendly fire is never legal: whenever a piece of the mover's own color
/// stands on the target square, the move is invalid.
pub proof fn lemma_same_color_target_invalid(p: Piece, nx: u8, ny: u8, pieces: Seq<Piece>)
    requires
        occupied_by(pieces, p.color, nx as int, ny as int),
    ensures
        !move_valid(p, nx, ny, pieces),
{
}

/// No null move: a piece may never move onto its own square.
pub proof fn lemma_null_move_invalid(p: Piece, pieces: Seq<Piece>)
    ensures
        !move_valid(p, p.x, p.y, pieces),
{
}

/// A rook, bishop or queen move is invalid whenever any live piece, of
/// either color, stands strictly between source and target on the move's
/// line: path blocking is color-blind.
pub proof fn lemma_blocked_path_invalid(p: Piece, nx: u8, ny: u8, pieces: Seq<Piece>, i: int)
    requires
        p.piece_type == PieceType::Rook || p.piece_type == PieceType::Bishop
            || p.piece_type == PieceType::Queen,
        0 <= i < pieces.len(),
        blocks_line(pieces[i], p.x, p.y, nx, ny),
    ensures
        !move_valid(p, nx, ny, pieces),
{
    assert(!path_clear(pieces, p.x, p.y, nx, ny)) by {
        let b = pieces[i];
        if p.x == nx && b.x == p.x && strictly_between(p.y, ny, b.y) {
        } else if p.y == ny && b.y == p.y && strictly_between(p.x, nx, b.x) {
        } else {
            let k = choose|k: int|
                1 <= k < abs_diff(p.x, nx) && b.x == #[trigger] diag_x(p.x, nx, k)
                    && b.y == diag_y(p.y, ny, k);
            assert(occupied(pieces, diag_x(p.x, nx, k), diag_y(p.y, ny, k)));
        }
    }
}

/// A knight's legality never depends on what stands between source and
/// target: any two boards that agree on whether the mover's own color holds
/// the target square agree on the verdict.
pub proof fn lemma_knight_ignores_occupancy(
    p: Piece,
    nx: u8,
    ny: u8,
    pieces1: Seq<Piece>,
    pieces2: Seq<Piece>,
)
    requires
        p.piece_type == PieceType::Knight,
        occupied_by(pieces1, p.color, nx as int, ny as int) == occupied_by(
            pieces2,
            p.color,
            nx as int,
            ny as int,
        ),
    ensures
        move_valid(p, nx, ny, pieces1) == move_valid(p, nx, ny, pieces2),
{
}

/// A pawn's one-step diagonal move is legal exactly when an opposing piece
/// stands on the target square (a capture), on any board where no two pieces
/// share a square.
pub proof fn lemma_pawn_diagonal_capture(p: Piece, nx: u8, ny: u8, pieces: Seq<Piece>)
    requires
        p.piece_type == PieceType::Pawn,
        positions_distinct(pieces),
        pawn_forward(p.color, p.x, nx) == 1,
        abs_diff(p.y, ny) == 1,
    ensures
        move_valid(p, nx, ny, pieces) == occupied_by(pieces, opposite(p.color), nx as int,
            ny as int),
{
    if occupied_by(pieces, opposite(p.color), nx as int, ny as int) {
        let i = choose|i: int|
            0 <= i < pieces.len() && (#[trigger] pieces[i]).x == nx && pieces[i].y == ny
                && pieces[i].color == opposite(p.color);
        assert(!occupied_by(pieces, p.color, nx as int, ny as int)) by {
            if occupied_by(pieces, p.color, nx as int, ny as int) {
                let j = choose|j: int|
                    0 <= j < pieces.len() && (#[trigger] pieces[j]).x == nx && pieces[j].y == ny
                        && pieces[j].color == p.color;
                assert(i != j);
            }
        }
    }
}

/// A pawn's one-step straight move is legal exactly when the target square
/// is empty: a pawn never captures straight ahead.
pub proof fn lemma_pawn_straight_advance(p: Piece, nx: u8, ny: u8, pieces: Seq<Piece>)
    requires
        p.piece_type == PieceType::Pawn,
        pawn_forward(p.color, p.x, nx) == 1,
        p.y == ny,
    ensures
        move_valid(p, nx, ny, pieces) == !occupied(pieces, nx as int, ny as int),
{
    if !occupied(pieces, nx as int, ny as int) {
        assert(!occupied_by(pieces, p.color, nx as int, ny as int));
    }
}

/// A pawn's two-square move is legal exactly when the pawn stands on its
/// home x and both the square it passes over and the target square are
/// empty.
pub proof fn lemma_pawn_two_step(p: Piece, nx: u8, ny: u8, pieces: Seq<Piece>)
    requires
        p.piece_type == PieceType::Pawn,
        abs_diff(p.x, nx) == 2,
        p.y == ny,
    ensures
        move_valid(p, nx, ny, pieces) == (p.x == pawn_home_x(p.color)
            && !occupied(pieces, (p.x + nx) / 2, ny as int)
            && !occupied(pieces, nx as int, ny as int)),
{
    let mid = (p.x + nx) / 2 as int;
    if p.x == pawn_home_x(p.color) {
        assert forall|v: u8| strictly_between(p.x, nx, v) <==> v == mid by {}
        if !occupied(pieces, mid, ny as int) && !occupied(pieces, nx as int, ny as int) {
            assert(!occupied_by(pieces, p.color, nx as int, ny as int));
            assert(path_clear(pieces, p.x, p.y, nx, ny)) by {
                assert(p.x != nx);
                assert(abs_diff(p.x, nx) != abs_diff(p.y, ny));
                assert forall|i: int|
                    0 <= i < pieces.len() implies !((#[trigger] pieces[i]).y == p.y
                    && strictly_between(p.x, nx, pieces[i].x)) by {
                    if pieces[i].y == p.y && strictly_between(p.x, nx, pieces[i].x) {
                        assert(occupied(pieces, mid, ny as int));
                    }
                }
            }
        }
        if move_valid(p, nx, ny, pieces) {
            assert(path_clear(pieces, p.x, p.y, nx, ny));
            assert(!occupied(pieces, mid, ny as int)) by {
                if occupied(pieces, mid, ny as int) {
                    let i = choose|i: int|
                        0 <= i < pieces.len() && (#[trigger] pieces[i]).x == mid
                            && pieces[i].y == ny;
                    assert(pieces[i].y == p.y && strictly_between(p.x, nx, pieces[i].x));
                }
            }
        }
    }
}

/// The first piece in `pieces` standing on (x, y), if any.
#[verifier::loop_isolation(false)]
pub fn get_piece_on_square(position: (u8, u8), pieces: &Vec<Piece>) -> (r: Option<Piece>)
    ensures
        match r {
            Some(p) => exists|i: int|
                0 <= i < pieces@.len() && #[trigger] pieces@[i] == p && p.x == position.0
                    && p.y == position.1 && (forall|j: int|
                    0 <= j < i ==> !((#[trigger] pieces@[j]).x == position.0
                        && pieces@[j].y == position.1)),
            None => !occupied(pieces@, position.0 as int, position.1 as int),
        },
        r is Some == occupied(pieces@, position.0 as int, position.1 as int),
{
    let (x, y) = position;
    let mut i: usize = 0;
    while i < pieces.len()
        invariant
            i <= pieces@.len(),
            forall|j: int| 0 <= j < i ==> !((#[trigger] pieces@[j]).x == x && pieces@[j].y == y),
        decreases pieces@.len() - i,
    {
        if pieces[i].x == x && pieces[i].y == y {
            return Some(pieces[i]);
        }
        i += 1;
    }
    None
}

/// The kind of piece that starts on back-rank square y.
pub open spec fn back_rank_type(y: int) -> PieceType {
    if y == 0 || y == 7 {
        PieceType::Rook
    } else if y == 1 || y == 6 {
        PieceType::Knight
    } else if y == 2 || y == 5 {
        PieceType::Bishop
    } else if y == 3 {
        PieceType::Queen
    } else {
        PieceType::King
    }
}

/// The i-th piece of the standard setup: white's back rank on x = 0, white's
/// pawns on x = 1, black's back rank on x = 7, black's pawns on x = 6.
pub open spec fn initial_piece(i: int) -> Piece {
    if 0 <= i < 8 {
        Piece { color: PieceColor::White, piece_type: back_rank_type(i), x: 0, y: i as u8 }
    } else if 8 <= i < 16 {
        Piece { color: PieceColor::White, piece_type: PieceType::Pawn, x: 1, y: (i - 8) as u8 }
    } else if 16 <= i < 24 {
        Piece {
            color: PieceColor::Black,
            piece_type: back_rank_type(i - 16),
            x: 7,
            y: (i - 16) as u8,
        }
    } else {
        Piece { color: PieceColor::Black, piece_type: PieceType::Pawn, x: 6, y: (i - 24) as u8 }
    }
}

/// The 32 pieces of the standard setup.
pub open spec fn initial_board() -> Seq<Piece> {
    Seq::new(32, |i: int| initial_piece(i))
}

/// In the standard setup every piece is on the board and no two pieces share
/// a square.
pub proof fn lemma_initial_board_wf()
    ensures
        initial_board().len() == 32,
        positions_distinct(initial_board()),
        pieces_on_board(initial_board()),
{
    assert forall|i: int, j: int|
        #![trigger initial_board()[i], initial_board()[j]]
        0 <= i < 32 && 0 <= j < 32 && i != j implies !(initial_board()[i].x
        == initial_board()[j].x && initial_board()[i].y == initial_board()[j].y) by {
        assert(initial_board()[i] == initial_piece(i));
        assert(initial_board()[j] == initial_piece(j));
    }
    assert forall|i: int| 0 <= i < 32 implies (#[trigger] initial_board()[i]).x < 8
        && initial_board()[i].y < 8 by {
        assert(initial_board()[i] == initial_piece(i));
    }
}

/// The kind of piece that starts on back-rank square y.
fn back_rank_piece(y: u8) -> (t: PieceType)
    requires
        y < 8,
    ensures
        t == back_rank_type(y as int),
{
    if y == 0 || y == 7 {
        PieceType::Rook
    } else if y == 1 || y == 6 {
        PieceType::Knight
    } else if y == 2 || y == 5 {
        PieceType::Bishop
    } else if y == 3 {
        PieceType::Queen
    } else {
        PieceType::King
    }
}

/// Build the 32 pieces of the standard setup, in the standard order.
pub fn create_pieces() -> (r: Vec<Piece>)
    ensures
        r@ == initial_board(),
{
    let mut r: Vec<Piece> = Vec::new();

    // White pieces
    let mut y: u8 = 0;
    while y < 8
        invariant
            y <= 8,
            r@.len() == y,
            forall|j: int| 0 <= j < y ==> r@[j] == initial_piece(j),
        decreases 8 - y,
    {
        r.push(Piece { color: PieceColor::White, piece_type: back_rank_piece(y), x: 0, y });
        y += 1;
    }
    let mut y: u8 = 0;
    while y < 8
        invariant
            y <= 8,
            r@.len() == 8 + y,
            forall|j: int| 0 <= j < 8 + y ==> r@[j] == initial_piece(j),
        decreases 8 - y,
    {
        r.push(Piece { color: PieceColor::White, piece_type: PieceType::Pawn, x: 1, y });
        y += 1;
    }

    // Black pieces
    let mut y: u8 = 0;
    while y < 8
        invariant
            y <= 8,
            r@.len() == 16 + y,
            forall|j: int| 0 <= j < 16 + y ==> r@[j] == initial_piece(j),
        decreases 8 - y,
    {
        r.push(Piece { color: PieceColor::Black, piece_type: back_rank_piece(y), x: 7, y });
        y += 1;
    }
    let mut y: u8 = 0;
    while y < 8
        invariant
            y <= 8,
            r@.len() == 24 + y,
            forall|j: int| 0 <= j < 24 + y ==> r@[j] == initial_piece(j),
        decreases 8 - y,
    {
        r.push(Piece { color: PieceColor::Black, piece_type: PieceType::Pawn, x: 6, y });
        y += 1;
    }

    proof {
        assert(r@ =~= initial_board());
    }
    r
}

} // verus!
