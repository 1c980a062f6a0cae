use eschec::accumulator::{EvalAccumulator, ScoreAccumulator};
use eschec::components::{Piece, Side};
use eschec::params::{TunableParams, MATERIAL_PAWN, MATERIAL_QUEEN};
use eschec::score::Score;

#[test]
fn features_count_for_white_and_against_black() {
    let params = TunableParams::default_params();
    let mut acc = ScoreAccumulator { params: &params, score: Score::new(0, 0) };
    acc.add_feature(MATERIAL_PAWN, Side::White, 3);
    assert_eq!((acc.score.mg, acc.score.eg), (246, 282));
    acc.add_feature(MATERIAL_QUEEN, Side::Black, 1);
    assert_eq!((acc.score.mg, acc.score.eg), (246 - 1025, 282 - 936));
}

#[test]
fn piece_square_weights_mirror_for_black() {
    let params = TunableParams::default_params();
    let mut white = ScoreAccumulator { params: &params, score: Score::new(0, 0) };
    white.add_pst(Piece::Knight, Side::White, 18);
    let mut black = ScoreAccumulator { params: &params, score: Score::new(0, 0) };
    black.add_pst(Piece::Knight, Side::Black, 42);
    assert_eq!(white.score.mg, -black.score.mg);
    assert_eq!(white.score.eg, -black.score.eg);
    assert_eq!(white.score.mg, params.psts[64 + 18].mg);
}

#[test]
fn mobility_and_fixed_scores() {
    let params = TunableParams::default_params();
    let mut acc = ScoreAccumulator { params: &params, score: Score::new(10, -10) };
    acc.add_mobility(Piece::Knight, Side::White, 4);
    assert_eq!(acc.score.mg, 10 + params.mobility[1].mg * 4);
    acc.add_fixed_score(Score::new(7, 9), Side::Black);
    assert_eq!(acc.score.eg, -10 + params.mobility[1].eg * 4 - 9);
}
