use eschec::bitboard::BitBoard;
use eschec::board_state::BoardState;
use eschec::components::{Piece, Side};
use eschec::move_buffer::MoveBuffer;
use eschec::move_info::{Move, QUIET, CAPTURE};
use eschec::move_tables::MoveTables;

fn file_a_above_a1() -> BitBoard {
    let mut ray = BitBoard(0);
    for r in 1..8 {
        ray.set(r * 8);
    }
    ray
}

#[test]
fn ray_stops_before_own_piece() {
    let tables = MoveTables::const_new();
    let ray = file_a_above_a1();
    let ally = BitBoard(1 << 24);
    let r = tables.ray_until_blocker(ray, ally, BitBoard(0), true);
    assert_eq!(r, BitBoard((1 << 8) | (1 << 16)));
}

#[test]
fn ray_takes_enemy_blocker() {
    let tables = MoveTables::new();
    let ray = file_a_above_a1();
    let enemy = BitBoard((1 << 24) | (1 << 40));
    let r = tables.ray_until_blocker(ray, BitBoard(0), enemy, true);
    assert_eq!(r, BitBoard((1 << 8) | (1 << 16) | (1 << 24)));
}

#[test]
fn ray_backward_stops_at_highest_blocker() {
    let tables = MoveTables::new();
    let ray = BitBoard((1 << 48) | (1 << 40) | (1 << 32) | (1 << 24) | (1 << 16) | (1 << 8) | 1);
    let ally = BitBoard(1 << 16);
    let enemy = BitBoard(1 << 32);
    let r = tables.ray_until_blocker(ray, ally, enemy, false);
    assert_eq!(r, BitBoard((1 << 48) | (1 << 40) | (1 << 32)));
    let clear = tables.ray_until_blocker(ray, BitBoard(0), BitBoard(0), false);
    assert_eq!(clear, ray);
}

#[test]
fn boards_change_in_place() {
    let mut state = BoardState::new();
    *state.get_side_bb_mut(Side::White) = BitBoard(5);
    assert_eq!(*state.get_side_bb(Side::White), BitBoard(5));
    assert_eq!(*state.get_side_bb(Side::Black), BitBoard(0));
    state.get_piece_bb_mut(Side::Black, Piece::Rook).set(63);
    assert_eq!(*state.get_piece_bb(Side::Black, Piece::Rook), BitBoard(1 << 63));
    state.get_colored_pieces_mut(Side::White)[0] = BitBoard(0xff00);
    assert_eq!(*state.get_piece_bb(Side::White, Piece::Pawn), BitBoard(0xff00));
    assert_eq!(*state.get_piece_bb(Side::Black, Piece::Pawn), BitBoard(0));
}

#[test]
fn retain_keeps_matching_moves_in_order() {
    let mut buf = MoveBuffer::new();
    buf.push(Move::new(12, 28, QUIET));
    buf.push(Move::new(11, 19, CAPTURE));
    buf.push(Move::new(6, 21, QUIET));
    buf.push(Move::new(1, 18, CAPTURE));
    buf.retain(|m: &Move| m.is_capture());
    assert_eq!(buf.len(), 2);
    assert_eq!(buf.get(0), Some(Move::new(11, 19, CAPTURE)));
    assert_eq!(buf.get(1), Some(Move::new(1, 18, CAPTURE)));
}

#[test]
fn mutable_slice_writes_back() {
    let mut buf = MoveBuffer::new();
    buf.push(Move::new(12, 28, QUIET));
    buf.push(Move::new(11, 19, QUIET));
    buf.as_mut_slice()[1] = Move::new(6, 21, QUIET);
    assert_eq!(buf.len(), 2);
    assert_eq!(buf.get(1), Some(Move::new(6, 21, QUIET)));
}
