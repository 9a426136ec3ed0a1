use chess_core::pieces::{get_piece_on_square, is_path_empty, Piece, PieceColor, PieceType};

fn piece(color: PieceColor, piece_type: PieceType, x: u8, y: u8) -> Piece {
    Piece { color, piece_type, x, y }
}

#[test]
fn same_color_target_rejected() {
    let rook = piece(PieceColor::White, PieceType::Rook, 0, 0);
    let pawn = piece(PieceColor::White, PieceType::Pawn, 0, 5);
    let pieces = vec![rook, pawn];
    assert!(!rook.is_move_valid((0, 5), &pieces));

    let queen = piece(PieceColor::Black, PieceType::Queen, 4, 4);
    let knight = piece(PieceColor::Black, PieceType::Knight, 4, 5);
    let pieces = vec![queen, knight];
    assert!(!queen.is_move_valid((4, 5), &pieces));
}

#[test]
fn null_move_rejected() {
    let kinds = vec![
        PieceType::King,
        PieceType::Queen,
        PieceType::Rook,
        PieceType::Bishop,
        PieceType::Knight,
        PieceType::Pawn,
    ];
    for kind in kinds {
        let p = piece(PieceColor::White, kind, 3, 3);
        let pieces = vec![p];
        assert!(!p.is_move_valid((3, 3), &pieces));
    }
}

#[test]
fn rook_blocked_by_either_color() {
    let rook = piece(PieceColor::White, PieceType::Rook, 0, 0);
    let friendly = piece(PieceColor::White, PieceType::Pawn, 0, 3);
    let hostile = piece(PieceColor::Black, PieceType::Pawn, 0, 3);

    assert!(!rook.is_move_valid((0, 5), &vec![rook, friendly]));
    assert!(!rook.is_move_valid((0, 5), &vec![rook, hostile]));
    assert!(rook.is_move_valid((0, 5), &vec![rook]));
    // Stopping just before the blocker is legal; capturing the hostile
    // blocker itself is too.
    assert!(rook.is_move_valid((0, 2), &vec![rook, friendly]));
    assert!(rook.is_move_valid((0, 3), &vec![rook, hostile]));
}

#[test]
fn bishop_blocked_on_diagonal() {
    let bishop = piece(PieceColor::White, PieceType::Bishop, 2, 2);
    let blocker = piece(PieceColor::Black, PieceType::Pawn, 4, 4);
    assert!(!bishop.is_move_valid((5, 5), &vec![bishop, blocker]));
    assert!(bishop.is_move_valid((5, 5), &vec![bishop]));
    assert!(bishop.is_move_valid((3, 3), &vec![bishop, blocker]));
    assert!(bishop.is_move_valid((4, 4), &vec![bishop, blocker]));
    assert!(!bishop.is_move_valid((4, 5), &vec![bishop]));
}

#[test]
fn queen_blocked_on_row() {
    let queen = piece(PieceColor::Black, PieceType::Queen, 3, 4);
    let blocker = piece(PieceColor::White, PieceType::Knight, 5, 4);
    assert!(!queen.is_move_valid((7, 4), &vec![queen, blocker]));
    assert!(queen.is_move_valid((7, 4), &vec![queen]));
    assert!(queen.is_move_valid((3, 0), &vec![queen, blocker]));
    assert!(queen.is_move_valid((6, 7), &vec![queen, blocker]));
    // Neither straight nor diagonal.
    assert!(!queen.is_move_valid((4, 6), &vec![queen]));
}

#[test]
fn knight_ignores_intervening_pieces() {
    let knight = piece(PieceColor::White, PieceType::Knight, 0, 1);
    let empty_board = vec![knight];
    let crowded = vec![
        knight,
        piece(PieceColor::White, PieceType::Pawn, 1, 1),
        piece(PieceColor::Black, PieceType::Pawn, 1, 2),
        piece(PieceColor::White, PieceType::Pawn, 0, 2),
        piece(PieceColor::Black, PieceType::Pawn, 2, 1),
    ];
    assert!(knight.is_move_valid((2, 2), &empty_board));
    assert!(knight.is_move_valid((2, 2), &crowded));
    assert!(knight.is_move_valid((1, 3), &empty_board));
    assert!(knight.is_move_valid((1, 3), &crowded));
    assert!(!knight.is_move_valid((2, 3), &empty_board));
    // Capturing on the landing square is legal; landing on a friend is not.
    let hostile_target = vec![knight, piece(PieceColor::Black, PieceType::Pawn, 2, 2)];
    let friendly_target = vec![knight, piece(PieceColor::White, PieceType::Pawn, 2, 2)];
    assert!(knight.is_move_valid((2, 2), &hostile_target));
    assert!(!knight.is_move_valid((2, 2), &friendly_target));
}

#[test]
fn king_steps_one_square() {
    let king = piece(PieceColor::White, PieceType::King, 4, 4);
    let pieces = vec![king];
    assert!(king.is_move_valid((5, 5), &pieces));
    assert!(king.is_move_valid((3, 4), &pieces));
    assert!(king.is_move_valid((4, 3), &pieces));
    assert!(!king.is_move_valid((6, 4), &pieces));
    assert!(!king.is_move_valid((5, 6), &pieces));
}

#[test]
fn pawn_diagonal_capture_iff_opposing() {
    let pawn = piece(PieceColor::White, PieceType::Pawn, 1, 3);
    let hostile = piece(PieceColor::Black, PieceType::Knight, 2, 4);
    let friendly = piece(PieceColor::White, PieceType::Knight, 2, 4);
    assert!(pawn.is_move_valid((2, 4), &vec![pawn, hostile]));
    assert!(!pawn.is_move_valid((2, 4), &vec![pawn]));
    assert!(!pawn.is_move_valid((2, 4), &vec![pawn, friendly]));
    // The other diagonal too.
    let hostile_left = piece(PieceColor::Black, PieceType::Bishop, 2, 2);
    assert!(pawn.is_move_valid((2, 2), &vec![pawn, hostile_left]));
    assert!(!pawn.is_move_valid((2, 2), &vec![pawn]));
}

#[test]
fn pawn_straight_step_iff_empty() {
    let pawn = piece(PieceColor::White, PieceType::Pawn, 1, 3);
    let hostile = piece(PieceColor::Black, PieceType::Knight, 2, 3);
    assert!(pawn.is_move_valid((2, 3), &vec![pawn]));
    // A pawn never captures straight ahead.
    assert!(!pawn.is_move_valid((2, 3), &vec![pawn, hostile]));
    // And never moves sideways or backward.
    assert!(!pawn.is_move_valid((1, 4), &vec![pawn]));
    assert!(!pawn.is_move_valid((0, 3), &vec![pawn]));
}

#[test]
fn pawn_two_step_from_home_only() {
    let pawn = piece(PieceColor::White, PieceType::Pawn, 1, 3);
    let mid_blocker = piece(PieceColor::Black, PieceType::Knight, 2, 3);
    let target_blocker = piece(PieceColor::Black, PieceType::Knight, 3, 3);
    assert!(pawn.is_move_valid((3, 3), &vec![pawn]));
    assert!(!pawn.is_move_valid((3, 3), &vec![pawn, mid_blocker]));
    assert!(!pawn.is_move_valid((3, 3), &vec![pawn, target_blocker]));
    let advanced = piece(PieceColor::White, PieceType::Pawn, 2, 3);
    assert!(!advanced.is_move_valid((4, 3), &vec![advanced]));
}

#[test]
fn black_pawn_advances_toward_zero() {
    let pawn = piece(PieceColor::Black, PieceType::Pawn, 6, 3);
    assert!(pawn.is_move_valid((5, 3), &vec![pawn]));
    assert!(pawn.is_move_valid((4, 3), &vec![pawn]));
    assert!(!pawn.is_move_valid((7, 3), &vec![pawn]));
    let white = piece(PieceColor::White, PieceType::Rook, 5, 2);
    assert!(pawn.is_move_valid((5, 2), &vec![pawn, white]));
    assert!(!pawn.is_move_valid((5, 4), &vec![pawn]));
}

#[test]
fn path_empty_on_lines_and_diagonals() {
    let blocker = piece(PieceColor::White, PieceType::Pawn, 3, 3);
    let pieces = vec![blocker];
    // Same column (x fixed).
    assert!(!is_path_empty((3, 0), (3, 7), &pieces));
    assert!(is_path_empty((3, 0), (3, 3), &pieces));
    // Same row (y fixed).
    assert!(!is_path_empty((0, 3), (7, 3), &pieces));
    assert!(is_path_empty((0, 3), (3, 3), &pieces));
    // Diagonals, in all four directions.
    assert!(!is_path_empty((1, 1), (5, 5), &pieces));
    assert!(!is_path_empty((5, 5), (1, 1), &pieces));
    assert!(!is_path_empty((1, 5), (5, 1), &pieces));
    assert!(!is_path_empty((5, 1), (1, 5), &pieces));
    assert!(is_path_empty((1, 1), (3, 3), &pieces));
    // Endpoints never count as blockers.
    assert!(is_path_empty((3, 3), (3, 7), &pieces));
}

#[test]
fn piece_lookup_finds_first_match() {
    let rook = piece(PieceColor::White, PieceType::Rook, 0, 0);
    let pawn = piece(PieceColor::Black, PieceType::Pawn, 6, 2);
    let pieces = vec![rook, pawn];
    assert_eq!(get_piece_on_square((6, 2), &pieces), Some(pawn));
    assert_eq!(get_piece_on_square((0, 0), &pieces), Some(rook));
    assert_eq!(get_piece_on_square((4, 4), &pieces), None);
}
