use eschec::bitboard::BitBoard;
use eschec::board::Board;
use eschec::components::Square;
use eschec::move_buffer::MoveBuffer;
use eschec::move_tables::MoveTables;
use eschec::zobrist::ZobristKeys;

fn sq(name: &str) -> usize {
    Square::from_str(name).unwrap().index()
}

fn bb_from_squares(squares: &[&str]) -> BitBoard {
    let mut bb = BitBoard(0);
    for s in squares {
        bb.set(sq(s));
    }
    bb
}

// ---------------------------------------------------------------------------
// An independent reference move generator: a plain mailbox board, every
// pseudo-legal move tried and kept when the mover's king is not attacked.
// ---------------------------------------------------------------------------

#[derive(Clone, Copy)]
struct RefPos {
    cells: [Option<(char, bool)>; 64], // (lower-case kind, is_white)
    white: bool,
    castling: [bool; 4], // K Q k q
    ep: Option<usize>,
}

fn ref_parse(fen: &str) -> RefPos {
    let parts: Vec<&str> = fen.split_whitespace().collect();
    let mut cells = [None; 64];
    let mut rank: i32 = 7;
    let mut file: i32 = 0;
    for c in parts[0].chars() {
        if c == '/' {
            rank -= 1;
            file = 0;
        } else if let Some(d) = c.to_digit(10) {
            file += d as i32;
        } else {
            cells[(rank * 8 + file) as usize] = Some((c.to_ascii_lowercase(), c.is_ascii_uppercase()));
            file += 1;
        }
    }
    let castling = [parts[2].contains('K'), parts[2].contains('Q'), parts[2].contains('k'), parts[2].contains('q')];
    let ep = if parts[3] == "-" {
        None
    } else {
        let b = parts[3].as_bytes();
        Some(((b[1] - b'1') as usize) * 8 + (b[0] - b'a') as usize)
    };
    RefPos { cells, white: parts[1] == "w", castling, ep }
}

fn on(r: i32, f: i32) -> bool {
    (0..8).contains(&r) && (0..8).contains(&f)
}

fn attacked(p: &RefPos, target: usize, by_white: bool) -> bool {
    let tr = (target / 8) as i32;
    let tf = (target % 8) as i32;
    // pawns
    let pr = if by_white { tr - 1 } else { tr + 1 };
    for df in [-1, 1] {
        if on(pr, tf + df) && p.cells[(pr * 8 + tf + df) as usize] == Some(('p', by_white)) {
            return true;
        }
    }
    for (dr, df) in [(1, 2), (2, 1), (-1, 2), (-2, 1), (1, -2), (2, -1), (-1, -2), (-2, -1)] {
        if on(tr + dr, tf + df) && p.cells[((tr + dr) * 8 + tf + df) as usize] == Some(('n', by_white)) {
            return true;
        }
    }
    for dr in -1..=1 {
        for df in -1..=1 {
            if (dr != 0 || df != 0) && on(tr + dr, tf + df) && p.cells[((tr + dr) * 8 + tf + df) as usize] == Some(('k', by_white)) {
                return true;
            }
        }
    }
    for (dr, df, kinds) in [
        (1, 0, "rq"), (-1, 0, "rq"), (0, 1, "rq"), (0, -1, "rq"),
        (1, 1, "bq"), (1, -1, "bq"), (-1, 1, "bq"), (-1, -1, "bq"),
    ] {
        let (mut r, mut f) = (tr + dr, tf + df);
        while on(r, f) {
            if let Some((k, w)) = p.cells[(r * 8 + f) as usize] {
                if w == by_white && kinds.contains(k) {
                    return true;
                }
                break;
            }
            r += dr;
            f += df;
        }
    }
    false
}

fn name(i: usize) -> String {
    format!("{}{}", (b'a' + (i % 8) as u8) as char, (b'1' + (i / 8) as u8) as char)
}

fn ref_legal_moves(fen: &str) -> Vec<String> {
    let p = ref_parse(fen);
    let me = p.white;
    let mut cands: Vec<(usize, usize, Option<char>, bool)> = Vec::new(); // from, to, promo, is_ep
    for from in 0..64 {
        let Some((kind, w)) = p.cells[from] else { continue };
        if w != me {
            continue;
        }
        let r = (from / 8) as i32;
        let f = (from % 8) as i32;
        let mut add = |to: usize| cands.push((from, to, None, false));
        match kind {
            'p' => {
                let dir = if me { 1 } else { -1 };
                let last = if me { 7 } else { 0 };
                let start = if me { 1 } else { 6 };
                let mut targets: Vec<usize> = Vec::new();
                if on(r + dir, f) && p.cells[((r + dir) * 8 + f) as usize].is_none() {
                    targets.push(((r + dir) * 8 + f) as usize);
                    if r == start && p.cells[((r + 2 * dir) * 8 + f) as usize].is_none() {
                        targets.push(((r + 2 * dir) * 8 + f) as usize);
                    }
                }
                for df in [-1, 1] {
                    if on(r + dir, f + df) {
                        let t = ((r + dir) * 8 + f + df) as usize;
                        if let Some((_, tw)) = p.cells[t] {
                            if tw != me {
                                targets.push(t);
                            }
                        } else if p.ep == Some(t) {
                            cands.push((from, t, None, true));
                        }
                    }
                }
                for t in targets {
                    if (t / 8) as i32 == last {
                        for c in ['q', 'r', 'b', 'n'] {
                            cands.push((from, t, Some(c), false));
                        }
                    } else {
                        cands.push((from, t, None, false));
                    }
                }
            }
            'n' | 'k' => {
                let deltas: Vec<(i32, i32)> = if kind == 'n' {
                    vec![(1, 2), (2, 1), (-1, 2), (-2, 1), (1, -2), (2, -1), (-1, -2), (-2, -1)]
                } else {
                    vec![(1, 1), (1, 0), (1, -1), (0, 1), (0, -1), (-1, 1), (-1, 0), (-1, -1)]
                };
                for (dr, df) in deltas {
                    if on(r + dr, f + df) {
                        let t = ((r + dr) * 8 + f + df) as usize;
                        if p.cells[t].map_or(true, |(_, tw)| tw != me) {
                            add(t);
                        }
                    }
                }
            }
            _ => {
                let mut dirs: Vec<(i32, i32)> = Vec::new();
                if kind == 'r' || kind == 'q' {
                    dirs.extend([(1, 0), (-1, 0), (0, 1), (0, -1)]);
                }
                if kind == 'b' || kind == 'q' {
                    dirs.extend([(1, 1), (1, -1), (-1, 1), (-1, -1)]);
                }
                for (dr, df) in dirs {
                    let (mut rr, mut ff) = (r + dr, f + df);
                    while on(rr, ff) {
                        let t = (rr * 8 + ff) as usize;
                        match p.cells[t] {
                            None => add(t),
                            Some((_, tw)) => {
                                if tw != me {
                                    add(t);
                                }
                                break;
                            }
                        }
                        rr += dr;
                        ff += df;
                    }
                }
            }
        }
    }
    let mut out: Vec<String> = Vec::new();
    // castling
    let (home, ks, qs) = if me { (4usize, 0usize, 1usize) } else { (60usize, 2usize, 3usize) };
    if p.cells[home] == Some(('k', me)) && !attacked(&p, home, !me) {
        if p.castling[ks]
            && p.cells[home + 1].is_none()
            && p.cells[home + 2].is_none()
            && !attacked(&p, home + 1, !me)
            && !attacked(&p, home + 2, !me)
        {
            out.push(format!("{}{}", name(home), name(home + 2)));
        }
        if p.castling[qs]
            && p.cells[home - 1].is_none()
            && p.cells[home - 2].is_none()
            && p.cells[home - 3].is_none()
            && !attacked(&p, home - 1, !me)
            && !attacked(&p, home - 2, !me)
        {
            out.push(format!("{}{}", name(home), name(home - 2)));
        }
    }
    for (from, to, promo, is_ep) in cands {
        let mut q = p;
        let piece = q.cells[from];
        q.cells[from] = None;
        if is_ep {
            let victim = if me { to - 8 } else { to + 8 };
            q.cells[victim] = None;
        }
        q.cells[to] = match promo {
            Some(c) => Some((c, me)),
            None => piece,
        };
        let king = (0..64).find(|&i| q.cells[i] == Some(('k', me)));
        if let Some(k) = king {
            if attacked(&q, k, !me) {
                continue;
            }
        }
        let mut s = format!("{}{}", name(from), name(to));
        if let Some(c) = promo {
            s.push(c);
        }
        out.push(s);
    }
    out.sort_unstable();
    out
}

fn assert_moves_match_reference(fen: &str) {
    let keys = ZobristKeys::new();
    let board = Board::from_fen(fen, &keys);
    let mut legal_moves = MoveBuffer::new();
    board.generate_legal_moves(&mut legal_moves, false);
    let mut our_moves: Vec<String> = legal_moves.as_slice().iter().map(|m| m.uci()).collect();
    our_moves.sort_unstable();
    let reference = ref_legal_moves(fen);
    assert_eq!(our_moves, reference, "\nMove generation mismatch for FEN: '{fen}'");
}

fn test_make_unmake_symmetry(fen: &str) {
    let keys = ZobristKeys::new();
    let mut board = Board::from_fen(fen, &keys);
    let original_board = board;
    let mut legal_moves = MoveBuffer::new();
    board.generate_legal_moves(&mut legal_moves, false);
    if legal_moves.is_empty() {
        return;
    }
    for &mov in legal_moves.as_slice() {
        let move_data = match board.make_move(mov, &keys) {
            Ok(data) => data,
            Err(e) => panic!("make_move failed for FEN '{fen}', with move {}: {e:?}", mov.uci()),
        };
        assert_ne!(board, original_board, "Board state should change after making move {} on FEN {fen}", mov.uci());
        if let Err(e) = board.unmake_move(&move_data) {
            panic!("unmake_move failed for FEN '{fen}', with move {}: {e:?}", mov.uci())
        }
        assert_eq!(board, original_board, "Board state was not restored after unmaking move {} on FEN {fen}", mov.uci());
    }
}

#[test]
fn test_rook_mask_from_center() {
    let from = sq("d4");
    let mask = MoveTables::new().generate_sliding_attack_mask(from, true);
    let expected = bb_from_squares(&["d5", "d6", "d7", "d3", "d2", "e4", "f4", "g4", "c4", "b4"]);
    assert_eq!(mask, expected, "\nExpected:\n{}\nGot:\n{}", expected.print_bitboard(), mask.print_bitboard());
}

#[test]
fn test_rook_mask_from_corner_a1() {
    let from = sq("a1");
    let mask = MoveTables::new().generate_sliding_attack_mask(from, true);
    let expected = bb_from_squares(&["a2", "a3", "a4", "a5", "a6", "a7", "b1", "c1", "d1", "e1", "f1", "g1"]);
    assert_eq!(mask, expected, "\nExpected:\n{}\nGot:\n{}", expected.print_bitboard(), mask.print_bitboard());
}

#[test]
fn test_rook_mask_from_edge_h4() {
    let from = sq("h4");
    let mask = MoveTables::new().generate_sliding_attack_mask(from, true);
    let expected = bb_from_squares(&["h5", "h6", "h7", "h3", "h2", "g4", "f4", "e4", "d4", "c4", "b4"]);
    assert_eq!(mask, expected, "\nExpected:\n{}\nGot:\n{}", expected.print_bitboard(), mask.print_bitboard());
}

#[test]
fn test_bishop_mask_from_center() {
    let from = sq("d4");
    let mask = MoveTables::new().generate_sliding_attack_mask(from, false);
    let expected = bb_from_squares(&["e5", "f6", "g7", "e3", "f2", "c3", "b2", "c5", "b6"]);
    assert_eq!(mask, expected, "\nExpected:\n{}\nGot:\n{}", expected.print_bitboard(), mask.print_bitboard());
}

#[test]
fn test_bishop_mask_from_corner_a1() {
    let from = sq("a1");
    let mask = MoveTables::new().generate_sliding_attack_mask(from, false);
    let expected = bb_from_squares(&["b2", "c3", "d4", "e5", "f6", "g7"]);
    assert_eq!(mask, expected, "\nExpected:\n{}\nGot:\n{}", expected.print_bitboard(), mask.print_bitboard());
}

#[test]
fn test_bishop_mask_from_edge_b1() {
    let from = sq("b1");
    let mask = MoveTables::new().generate_sliding_attack_mask(from, false);
    let expected = bb_from_squares(&["c2", "d3", "e4", "f5", "g6"]);
    assert_eq!(mask, expected, "\nExpected:\n{}\nGot:\n{}", expected.print_bitboard(), mask.print_bitboard());
}

#[test]
fn test_make_unmake_startpos() {
    test_make_unmake_symmetry("rnbqkbnr/pppppppp/8/8/8/8/PPPPPPPP/RNBQKBNR w KQkq - 0 1");
}

#[test]
fn test_make_unmake_kiwipete() {
    test_make_unmake_symmetry("r3k2r/p1ppqpb1/bn2pnp1/3PN3/1p2P3/2N2Q1p/PPPBBPPP/R3K2R w KQkq - 0 1");
}

#[test]
fn test_make_unmake_en_passant() {
    test_make_unmake_symmetry("rnbqkbnr/pp1p1ppp/8/2pPp3/8/8/PPP1PPPP/RNBQKBNR w KQkq e6 0 3");
}

#[test]
fn test_make_unmake_promotion() {
    test_make_unmake_symmetry("r3k2r/pPpp1ppp/1b3nbN/nP6/BBP1P3/q4N2/P2P2PP/R2Q1RK1 b kq - 0 1");
}

#[test]
fn test_make_unmake_castling() {
    test_make_unmake_symmetry("r3k2r/pppppppp/8/8/8/8/PPPPPPPP/R3K2R w KQkq - 0 1");
}

#[test]
fn test_make_unmake_in_check() {
    test_make_unmake_symmetry("rnb1kbnr/pppp1ppp/8/4p3/4P2q/8/PPPP1PPP/RNBQKBNR w KQkq - 2 3");
}

#[test]
fn test_make_unmake_double_check() {
    test_make_unmake_symmetry("rnb1kbnr/pppp1ppp/8/8/3r4/3B4/PPP1PPPP/RN1QK1NR w KQkq - 0 5");
}

#[test]
fn test_start_pos() {
    assert_moves_match_reference("rnbqkbnr/pppppppp/8/8/8/8/PPPPPPPP/RNBQKBNR w KQkq - 0 1");
}

#[test]
fn test_kiwipete_position() {
    assert_moves_match_reference("r3k2r/p1ppqpb1/bn2pnp1/3PN3/1p2P3/2N2Q1p/PPPBBPPP/R3K2R w KQkq - 0 1");
}

#[test]
fn test_pawn_captures_and_pushes() {
    assert_moves_match_reference("rnbqkbnr/ppp1pppp/8/3p4/4P3/8/PPPP1PPP/RNBQKBNR w KQkq - 0 1");
}

#[test]
fn test_en_passant_white() {
    assert_moves_match_reference("rnbqkbnr/ppppp1pp/8/4Pp2/8/8/PPPP1PPP/RNBQKBNR w KQkq f6 0 3");
}

#[test]
fn test_promotion_with_capture() {
    assert_moves_match_reference("rnb2bnr/pppkPppp/8/8/8/8/PPPP1PPP/RNBQKBNR w KQ - 1 5");
}

#[test]
fn test_castling_all_rights() {
    assert_moves_match_reference("r3k2r/pppppppp/8/8/8/8/PPPPPPPP/R3K2R w KQkq - 0 1");
}

#[test]
fn test_castling_blocked() {
    assert_moves_match_reference("r3k1nr/p2ppppp/8/8/8/8/P2PPPPP/R1B1K2R w KQkq - 0 1");
}

#[test]
fn test_no_castling_through_check() {
    assert_moves_match_reference("1r2k2r/8/8/8/8/8/8/R3K2R w KQk - 0 1");
}

#[test]
fn test_no_castling_while_in_check() {
    assert_moves_match_reference("r3k2r/pp1ppppp/8/2b5/8/8/PPP1PPPP/R3K2R w KQkq - 0 1");
}

#[test]
fn test_pinned_piece_cannot_move() {
    assert_moves_match_reference("rnbqk1nr/1p1p1pbp/4p1p1/8/8/5N2/PPPPPPPP/RNBQKB1R w KQkq - 0 4");
}

#[test]
fn test_pinned_piece_can_move_along_ray() {
    assert_moves_match_reference("4k3/4r3/8/8/8/8/4R3/4K3 w - - 0 1");
}

#[test]
fn test_must_move_out_of_check() {
    assert_moves_match_reference("rnbqkbnr/pppp1ppp/8/8/4r3/8/PPPPPPPP/RNBQKBNR w KQkq - 0 2");
}

#[test]
fn test_double_check_only_king_moves() {
    assert_moves_match_reference("rnb1kbnr/pppp1ppp/8/8/3r4/3B4/PPP1PPPP/RN1QK1NR w KQkq - 0 5");
}

#[test]
fn test_stalemate_position() {
    assert_moves_match_reference("8/8/8/8/8/8/5Q2/7k b - - 0 1");
}

#[test]
fn test_checkmate_position() {
    assert_moves_match_reference("5rk1/p4ppp/8/1p1p4/3P3q/1P2r3/P5PP/2R2Q1K b - - 1 27");
}
