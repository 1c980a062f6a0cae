use vstd::prelude::*;
use crate::components::{Piece, Side};
use crate::params::{TunableParams, weight_of};
use crate::score::Score;

verus! {

/// `v` counted for `side`: as it is for white, negated for black.
pub open spec fn signed(side: Side, v: int) -> int {
    if side == Side::White {
        v
    } else {
        -v
    }
}

/// `v` fits in 32 signed bits.
pub open spec fn in_i32(v: int) -> bool {
    i32::MIN <= v <= i32::MAX
}

/// The square a piece-square weight is read at: the square itself for white, mirrored
/// across the middle rank for black.
pub open spec fn pst_square(side: Side, sq: int) -> int {
    if side == Side::White {
        sq
    } else {
        (7 - sq / 8) * 8 + sq % 8
    }
}

/// `score` with `w` counted `count` times for `side` added in, half by half, when every
/// step fits in 32 bits.
pub open spec fn adds_fit(score: Score, w: Score, count: int, side: Side) -> bool {
    &&& in_i32(w.mg * count)
    &&& in_i32(w.eg * count)
    &&& in_i32(score.mg + signed(side, w.mg * count))
    &&& in_i32(score.eg + signed(side, w.eg * count))
}

/// What an evaluation adds up as it walks a position's features, each counted for the side
/// it belongs to.
pub trait EvalAccumulator {
    /// A feature of weight index `param_idx`, counted `count` times for `side`, can be added.
    spec fn feature_fits(&self, param_idx: usize, side: Side, count: i32) -> bool;

    /// The mobility of `count` moves of a `piece` of `side` can be added.
    spec fn mobility_fits(&self, piece: Piece, side: Side, count: i32) -> bool;

    /// The piece-square weight of a `piece` of `side` on `sq` can be added.
    spec fn pst_fits(&self, piece: Piece, side: Side, sq: usize) -> bool;

    /// A fixed `score` for `side` can be added.
    spec fn fixed_fits(&self, score: Score, side: Side) -> bool;

    /// Adds a feature of weight index `param_idx`, counted `count` times for `side`.
    fn add_feature(&mut self, param_idx: usize, side: Side, count: i32)
        requires
            old(self).feature_fits(param_idx, side, count),
    ;

    /// Adds the mobility of `count` moves of a `piece` of `side`.
    fn add_mobility(&mut self, piece: Piece, side: Side, count: i32)
        requires
            old(self).mobility_fits(piece, side, count),
    ;

    /// Adds the piece-square weight of a `piece` of `side` on `sq`.
    fn add_pst(&mut self, piece: Piece, side: Side, sq: usize)
        requires
            old(self).pst_fits(piece, side, sq),
    ;

    /// Adds a fixed `score` for `side`.
    fn add_fixed_score(&mut self, score: Score, side: Side)
        requires
            old(self).fixed_fits(score, side),
    ;
}

/// Adds up the score of a position from white's side, reading the weights from `params`.
pub struct ScoreAccumulator<'a> {
    pub params: &'a TunableParams,
    pub score: Score,
}

impl<'a> ScoreAccumulator<'a> {
    /// Adds `w` counted `count` times for `side`.
    fn add_counted(&mut self, w: Score, side: Side, count: i32)
        requires
            adds_fit(old(self).score, w, count as int, side),
        ensures
            final(self).params == old(self).params,
            final(self).score.mg == old(self).score.mg + signed(side, w.mg * count),
            final(self).score.eg == old(self).score.eg + signed(side, w.eg * count),
    {
        let v = w.times(count);
        match side {
            Side::White => self.score.add_assign(v),
            Side::Black => self.score.sub_assign(v),
        }
    }
}

impl<'a> EvalAccumulator for ScoreAccumulator<'a> {
    open spec fn feature_fits(&self, param_idx: usize, side: Side, count: i32) -> bool {
        adds_fit(self.score, weight_of(*self.params, param_idx as int), count as int, side)
    }

    open spec fn mobility_fits(&self, piece: Piece, side: Side, count: i32) -> bool {
        &&& piece.spec_index() < 5
        &&& adds_fit(self.score, self.params.mobility[piece.spec_index() as int], count as int, side)
    }

    open spec fn pst_fits(&self, piece: Piece, side: Side, sq: usize) -> bool {
        &&& sq < 64
        &&& adds_fit(self.score, self.params.psts[piece.spec_index() * 64 + pst_square(side, sq as int)], 1, side)
    }

    open spec fn fixed_fits(&self, score: Score, side: Side) -> bool {
        adds_fit(self.score, score, 1, side)
    }

    /// Adds the weight of feature `param_idx` times `count`: to the score for white, taken
    /// from it for black.
    fn add_feature(&mut self, param_idx: usize, side: Side, count: i32)
        ensures
            final(self).params == old(self).params,
            final(self).score.mg == old(self).score.mg + signed(side, weight_of(*old(self).params, param_idx as int).mg * count),
            final(self).score.eg == old(self).score.eg + signed(side, weight_of(*old(self).params, param_idx as int).eg * count),
    {
        let weight = self.params.get_weight(param_idx);
        self.add_counted(weight, side, count);
    }

    /// Adds the per-move mobility weight of `piece` times `count`: to the score for white,
    /// taken from it for black.
    fn add_mobility(&mut self, piece: Piece, side: Side, count: i32)
        ensures
            final(self).params == old(self).params,
            final(self).score.mg == old(self).score.mg + signed(side, old(self).params.mobility[piece.spec_index() as int].mg * count),
            final(self).score.eg == old(self).score.eg + signed(side, old(self).params.mobility[piece.spec_index() as int].eg * count),
    {
        let weight = self.params.get_mobility_weight(piece.index());
        self.add_counted(weight, side, count);
    }

    /// Adds the piece-square weight of `piece` on `sq`, the square mirrored for black: to the
    /// score for white, taken from it for black.
    fn add_pst(&mut self, piece: Piece, side: Side, sq: usize)
        ensures
            final(self).params == old(self).params,
            final(self).score.mg == old(self).score.mg + signed(
                side,
                old(self).params.psts[piece.spec_index() * 64 + pst_square(side, sq as int)].mg as int,
            ),
            final(self).score.eg == old(self).score.eg + signed(
                side,
                old(self).params.psts[piece.spec_index() * 64 + pst_square(side, sq as int)].eg as int,
            ),
    {
        let actual_sq = if side == Side::White { sq } else { sq ^ 56 };
        proof {
            assert(sq < 64 ==> sq ^ 56 == (7 - sq / 8) * 8 + sq % 8) by (bit_vector);
        }
        let idx = (piece.index() * 64) + actual_sq;
        let weight = self.params.psts[idx];
        self.add_counted(weight, side, 1);
    }

    /// Adds `score`: to the score for white, taken from it for black.
    fn add_fixed_score(&mut self, score: Score, side: Side)
        ensures
            final(self).params == old(self).params,
            final(self).score.mg == old(self).score.mg + signed(side, score.mg as int),
            final(self).score.eg == old(self).score.eg + signed(side, score.eg as int),
    {
        self.add_counted(score, side, 1);
    }
}

} // verus!
