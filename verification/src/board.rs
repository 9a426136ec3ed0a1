//! The board-side state machine: square selection, the player turn, move
//! commitment with capture resolution, and the one-shot game-over outcome
//! when a king is taken.

use crate::pieces::{
    initial_board, lemma_initial_board_wf, move_valid, occupied_by, opposite, pieces_on_board,
    positions_distinct, create_pieces, Piece, PieceColor, PieceType,
};
use vstd::prelude::*;

verus! {

/// One cell of the 8x8 grid.
#[derive(Clone, Copy, PartialEq, Eq, Structural, Debug)]
pub struct Square {
    pub x: u8,
    pub y: u8,
}

impl Square {
    /// Both coordinates lie on the 8x8 grid.
    pub open spec fn on_board(self) -> bool {
        self.x < 8 && self.y < 8
    }

    /// Whether the square is drawn in the light color on a checkered board.
    pub fn is_white(&self) -> (r: bool)
        requires
            self.on_board(),
        ensures
            r == ((self.x + self.y + 1) % 2 == 0),
    {
        (self.x + self.y + 1) % 2 == 0
    }
}

/// Whose move it is.
#[derive(Clone, Copy, PartialEq, Eq, Structural, Debug)]
pub struct PlayerTurn(pub PieceColor);

impl Default for PlayerTurn {
    /// White moves first.
    fn default() -> (r: Self)
        ensures
            r.0 == PieceColor::White,
    {
        Self(PieceColor::White)
    }
}

impl PlayerTurn {
    /// Hand the move to the other side.
    pub fn change(&mut self)
        ensures
            final(self).0 == opposite(old(self).0),
    {
        self.0 = match self.0 {
            PieceColor::White => PieceColor::Black,
            PieceColor::Black => PieceColor::White,
        }
    }
}

/// The terminal signal: raised once, when a king is captured, naming the
/// winning color.
#[derive(Clone, Copy, PartialEq, Eq, Structural, Debug)]
pub struct GameOutcome {
    pub winner: PieceColor,
}

/// The whole mutable game state: the live pieces, whose turn it is, the
/// pending selection, and the outcome once a king has been captured.
#[derive(Debug)]
pub struct GameState {
    /// The live pieces. A captured piece is removed.
    pub pieces: Vec<Piece>,
    /// Whose move it is. Flips exactly once per committed move.
    pub turn: PlayerTurn,
    /// The square marked by the last click, if any.
    pub selected_square: Option<Square>,
    /// Index into `pieces` of the piece chosen to move, if any.
    pub selected_piece: Option<usize>,
    /// Set when a king is captured; the game is then over and further
    /// clicks are ignored.
    pub outcome: Option<GameOutcome>,
}

impl GameState {
    /// A chosen piece refers to a live piece of the side to move, standing
    /// on the selected square.
    pub open spec fn selection_ok(self) -> bool {
        match self.selected_piece {
            Some(i) => match self.selected_square {
                Some(sq) => {
                    &&& i < self.pieces@.len()
                    &&& self.pieces@[i as int].x == sq.x
                    &&& self.pieces@[i as int].y == sq.y
                    &&& self.pieces@[i as int].color == self.turn.0
                },
                None => false,
            },
            None => true,
        }
    }

    /// The state invariant: pieces on the board, one piece per square, and
    /// a coherent selection.
    pub open spec fn wf(self) -> bool {
        &&& positions_distinct(self.pieces@)
        &&& pieces_on_board(self.pieces@)
        &&& self.selection_ok()
    }

    /// A fresh game: the standard setup, white to move, nothing selected.
    pub fn new() -> (r: GameState)
        ensures
            r.pieces@ == initial_board(),
            r.turn.0 == PieceColor::White,
            r.selected_square is None,
            r.selected_piece is None,
            r.outcome is None,
            r.wf(),
    {
        proof {
            lemma_initial_board_wf();
        }
        GameState {
            pieces: create_pieces(),
            turn: PlayerTurn(PieceColor::White),
            selected_square: None,
            selected_piece: None,
            outcome: None,
        }
    }

    /// Clear the selection; the board, the turn and the outcome are
    /// untouched. This is also the whole effect of a click outside the
    /// board.
    pub fn deselect_all(&mut self)
        ensures
            final(self).selected_square is None,
            final(self).selected_piece is None,
            final(self).pieces == old(self).pieces,
            final(self).turn == old(self).turn,
            final(self).outcome == old(self).outcome,
            old(self).wf() ==> final(self).wf(),
    {
        self.selected_square = None;
        self.selected_piece = None;
    }
}

/// The mover, standing on its new square.
pub open spec fn moved_piece(p: Piece, nx: u8, ny: u8) -> Piece {
    Piece { color: p.color, piece_type: p.piece_type, x: nx, y: ny }
}

/// A move by a piece of color `mover_color` onto (nx, ny) captures `p`:
/// `p` stands on the target square and belongs to the other side.
pub open spec fn captured_by_move(p: Piece, mover_color: PieceColor, nx: u8, ny: u8) -> bool {
    p.x == nx && p.y == ny && p.color != mover_color
}

/// The first `n` board slots after piece `idx` moves to (nx, ny): slot `idx`
/// carries the mover on its new square, every captured piece is dropped, and
/// the others keep their order.
pub open spec fn board_after_move(pieces: Seq<Piece>, idx: int, nx: u8, ny: u8, n: int) -> Seq<
    Piece,
>
    decreases n,
{
    if n <= 0 {
        Seq::empty()
    } else {
        let prev = board_after_move(pieces, idx, nx, ny, n - 1);
        let p = if n - 1 == idx {
            moved_piece(pieces[idx], nx, ny)
        } else {
            pieces[n - 1]
        };
        if captured_by_move(p, pieces[idx].color, nx, ny) {
            prev
        } else {
            prev.push(p)
        }
    }
}

/// The whole board after piece `idx` moves to (nx, ny).
pub open spec fn resolve_move(pieces: Seq<Piece>, idx: int, nx: u8, ny: u8) -> Seq<Piece> {
    board_after_move(pieces, idx, nx, ny, pieces.len() as int)
}

/// A move by a piece of color `mover_color` onto (nx, ny) captures a king.
pub open spec fn king_taken(pieces: Seq<Piece>, mover_color: PieceColor, nx: u8, ny: u8) -> bool {
    exists|i: int|
        0 <= i < pieces.len() && captured_by_move(#[trigger] pieces[i], mover_color, nx, ny)
            && pieces[i].piece_type == PieceType::King
}

/// Shape of the board after a move: every surviving slot is either the
/// mover on its new square or an uncaptured original piece, the mover
/// appears only once all slots up to its own are in, and no two survivors
/// share a square.
pub proof fn lemma_board_after_move_props(pieces: Seq<Piece>, idx: int, nx: u8, ny: u8, n: int)
    requires
        0 <= idx < pieces.len(),
        0 <= n <= pieces.len(),
        positions_distinct(pieces),
        !occupied_by(pieces, pieces[idx].color, nx as int, ny as int),
    ensures
        ({
            let moved = moved_piece(pieces[idx], nx, ny);
            let r = board_after_move(pieces, idx, nx, ny, n);
            &&& positions_distinct(r)
            &&& forall|a: int|
                0 <= a < r.len() ==> #[trigger] r[a] == moved || (exists|j: int|
                    0 <= j < n && j != idx && r[a] == #[trigger] pieces[j] && !(pieces[j].x == nx
                        && pieces[j].y == ny))
            &&& forall|a: int| 0 <= a < r.len() && #[trigger] r[a] == moved ==> idx < n
        }),
    decreases n,
{
    let moved = moved_piece(pieces[idx], nx, ny);
    let mover_color = pieces[idx].color;
    if n > 0 {
        lemma_board_after_move_props(pieces, idx, nx, ny, n - 1);
        let prev = board_after_move(pieces, idx, nx, ny, n - 1);
        let p = if n - 1 == idx {
            moved
        } else {
            pieces[n - 1]
        };
        let r = board_after_move(pieces, idx, nx, ny, n);
        if !captured_by_move(p, mover_color, nx, ny) {
            assert(r == prev.push(p));
            // No piece of the mover's color stands on the target square.
            assert forall|j: int|
                0 <= j < pieces.len() && (#[trigger] pieces[j]).x == nx && pieces[j].y == ny
                implies pieces[j].color != mover_color by {
                if pieces[j].color == mover_color {
                    assert(occupied_by(pieces, mover_color, nx as int, ny as int));
                }
            }
            // The new slot shares no square with an earlier survivor.
            assert forall|a: int| 0 <= a < prev.len() implies !((#[trigger] prev[a]).x == p.x
                && prev[a].y == p.y) by {
                if prev[a] == moved {
                    // Then idx < n - 1, so p is pieces[n - 1], kept, hence
                    // off the target square; moved stands on it.
                    assert(p == pieces[n - 1]);
                    assert(!(p.x == nx && p.y == ny));
                } else {
                    let j = choose|j: int|
                        0 <= j < n - 1 && j != idx && prev[a] == #[trigger] pieces[j]
                            && !(pieces[j].x == nx && pieces[j].y == ny);
                    if n - 1 == idx {
                        // p is the mover on the target square; pieces[j] is
                        // not on the target square.
                        assert(!(prev[a].x == p.x && prev[a].y == p.y));
                    } else {
                        // Two distinct original pieces.
                        assert(!(pieces[j].x == pieces[n - 1].x && pieces[j].y == pieces[n
                            - 1].y));
                    }
                }
            }
            assert(positions_distinct(r));
        }
    }
}

/// Piece `p` may be picked up by a click on `sq` when `c` is to move: it
/// stands on the clicked square and belongs to the side to move.
pub open spec fn selectable(p: Piece, sq: Square, c: PieceColor) -> bool {
    p.x == sq.x && p.y == sq.y && p.color == c
}

/// Rebuild the board after piece `idx` moves to (nx, ny): drop every
/// opposing piece on the target square, put the mover on it, keep the rest.
/// Also reports whether a king was captured.
#[verifier::loop_isolation(false)]
fn resolve_captures(pieces: &Vec<Piece>, idx: usize, nx: u8, ny: u8) -> (r: (Vec<Piece>, bool))
    requires
        idx < pieces@.len(),
    ensures
        r.0@ == resolve_move(pieces@, idx as int, nx, ny),
        r.1 == king_taken(pieces@, pieces@[idx as int].color, nx, ny),
{
    let mover = pieces[idx];
    let moved = Piece { color: mover.color, piece_type: mover.piece_type, x: nx, y: ny };
    let mut out: Vec<Piece> = Vec::new();
    let mut king: bool = false;
    let mut i: usize = 0;
    while i < pieces.len()
        invariant
            i <= pieces@.len(),
            out@ == board_after_move(pieces@, idx as int, nx, ny, i as int),
            king == exists|j: int|
                0 <= j < i && captured_by_move(#[trigger] pieces@[j], mover.color, nx, ny)
                    && pieces@[j].piece_type == PieceType::King,
        decreases pieces@.len() - i,
    {
        let p = if i == idx {
            moved
        } else {
            pieces[i]
        };
        if p.x == nx && p.y == ny && p.color != mover.color {
            // Captured: dropped from the live set.
            if p.piece_type == PieceType::King {
                king = true;
            }
            proof {
                if i != idx {
                    assert(captured_by_move(pieces@[i as int], mover.color, nx, ny));
                }
            }
        } else {
            out.push(p);
        }
        i += 1;
    }
    (out, king)
}

impl GameState {
    /// Handle a click on `square`: the whole selection / move / turn
    /// protocol.
    ///
    /// A finished game ignores the click. A click off the board clears the
    /// selection, as a click outside the board does. With no piece chosen
    /// yet, the square is marked and the first live piece of the side to
    /// move standing on it, if any, becomes the chosen piece. With a piece
    /// already chosen, the click is a move attempt: an invalid move changes
    /// nothing, a valid one removes every opposing piece on the target,
    /// moves the chosen piece there and flips the turn; either way the
    /// selection is cleared. Capturing a king ends the game: the outcome,
    /// naming the mover as winner, is returned and recorded, and every later
    /// click is ignored.
    pub fn select_square(&mut self, square: Square) -> (r: Option<GameOutcome>)
        requires
            old(self).wf(),
        ensures
            final(self).wf(),
            ({
                let s = *old(self);
                let t = *final(self);
                if s.outcome is Some {
                    t == s && r is None
                } else if !square.on_board() {
                    &&& t.pieces == s.pieces
                    &&& t.turn == s.turn
                    &&& t.outcome is None
                    &&& t.selected_square is None
                    &&& t.selected_piece is None
                    &&& r is None
                } else {
                    match s.selected_piece {
                        None => {
                            &&& t.pieces == s.pieces
                            &&& t.turn == s.turn
                            &&& t.outcome is None
                            &&& r is None
                            &&& t.selected_square == Some(square)
                            &&& match t.selected_piece {
                                Some(i) => 0 <= i < s.pieces@.len() && selectable(
                                    s.pieces@[i as int],
                                    square,
                                    s.turn.0,
                                ) && (forall|j: int|
                                    0 <= j < i ==> !selectable(
                                        #[trigger] s.pieces@[j],
                                        square,
                                        s.turn.0,
                                    )),
                                None => forall|j: int|
                                    0 <= j < s.pieces@.len() ==> !selectable(
                                        #[trigger] s.pieces@[j],
                                        square,
                                        s.turn.0,
                                    ),
                            }
                        },
                        Some(idx) => {
                            let p = s.pieces@[idx as int];
                            let accepted = move_valid(p, square.x, square.y, s.pieces@);
                            let won = king_taken(s.pieces@, p.color, square.x, square.y);
                            &&& t.selected_square is None
                            &&& t.selected_piece is None
                            &&& if accepted {
                                &&& t.pieces@ == resolve_move(
                                    s.pieces@,
                                    idx as int,
                                    square.x,
                                    square.y,
                                )
                                &&& t.turn.0 == opposite(s.turn.0)
                                &&& r == (if won {
                                    Some(GameOutcome { winner: s.turn.0 })
                                } else {
                                    None
                                })
                                &&& t.outcome == r
                            } else {
                                &&& t.pieces == s.pieces
                                &&& t.turn == s.turn
                                &&& t.outcome is None
                                &&& r is None
                            }
                        },
                    }
                }
            }),
    {
        // A captured king ended the game: refuse further input.
        if self.outcome.is_some() {
            return None;
        }

        // A click that resolves to no board square only clears the
        // selection.
        if square.x >= 8 || square.y >= 8 {
            self.deselect_all();
            return None;
        }

        match self.selected_piece {
            Some(idx) => {
                // A piece is chosen: this click is a move attempt, and
                // consumes the selection whether or not the move is legal.
                let piece = self.pieces[idx];
                self.selected_square = None;
                self.selected_piece = None;
                if piece.is_move_valid((square.x, square.y), &self.pieces) {
                    let (new_pieces, king) = resolve_captures(
                        &self.pieces,
                        idx,
                        square.x,
                        square.y,
                    );
                    proof {
                        lemma_board_after_move_props(
                            old(self).pieces@,
                            idx as int,
                            square.x,
                            square.y,
                            old(self).pieces@.len() as int,
                        );
                        let moved = moved_piece(old(self).pieces@[idx as int], square.x, square.y);
                        assert forall|a: int|
                            0 <= a < new_pieces@.len() implies (#[trigger] new_pieces@[a]).x < 8
                            && new_pieces@[a].y < 8 by {
                            if new_pieces@[a] != moved {
                                let j = choose|j: int|
                                    0 <= j < old(self).pieces@.len() && j != idx as int
                                        && new_pieces@[a] == #[trigger] old(self).pieces@[j] && !(
                                    old(self).pieces@[j].x == square.x && old(self).pieces@[j].y
                                        == square.y);
                            }
                        }
                    }
                    self.pieces = new_pieces;
                    let result = if king {
                        Some(GameOutcome { winner: self.turn.0 })
                    } else {
                        None
                    };
                    self.outcome = result;
                    self.turn.change();
                    result
                } else {
                    None
                }
            },
            None => {
                // No piece chosen yet: mark the square, then pick the first
                // live piece of the side to move standing on it, if any.
                self.selected_square = Some(square);
                let mut i: usize = 0;
                while i < self.pieces.len()
                    invariant
                        old(self).outcome is None,
                        old(self).selected_piece is None,
                        old(self).wf(),
                        square.on_board(),
                        self.pieces == old(self).pieces,
                        self.turn == old(self).turn,
                        self.outcome == old(self).outcome,
                        self.selected_square == Some(square),
                        self.selected_piece is None,
                        i <= self.pieces@.len(),
                        forall|j: int|
                            0 <= j < i ==> !selectable(
                                #[trigger] self.pieces@[j],
                                square,
                                self.turn.0,
                            ),
                    decreases self.pieces@.len() - i,
                {
                    let p = self.pieces[i];
                    if p.x == square.x && p.y == square.y && p.color == self.turn.0 {
                        self.selected_piece = Some(i);
                        return None;
                    }
                    i += 1;
                }
                None
            },
        }
    }
}

} // verus!
