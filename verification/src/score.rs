use vstd::prelude::*;

verus! {

/// Number of squares on the board.
pub const NUM_SQUARES: usize = 64;

/// Phase value of a bare board, all pieces present.
pub const MIDGAME_PHASE: i32 = 0;

/// Phase value of a board with no material but kings and pawns.
pub const ENDGAME_PHASE: i32 = 256;

/// Sum of the phase weights of all pieces at the start.
pub const TOTAL_PHASE: i32 = 24;

/// Bound on the magnitude of either half of a score that the arithmetic keeps safe.
pub const SCORE_LIMIT: i32 = 0x4000_0000;

/// Game phase, scaled from 0 (midgame) to 256 (endgame).
#[derive(Debug, Clone, Copy, PartialEq, Eq, Structural, PartialOrd, Ord, Default)]
pub struct Phase(pub i32);

/// A score with separate midgame and endgame values.
#[derive(Debug, Clone, Copy, PartialEq, Eq, Structural, PartialOrd, Ord, Default, Hash)]
pub struct Score {
    pub mg: i32,
    pub eg: i32,
}

/// Integer division rounding toward zero, as machine division does.
pub open spec fn div_trunc(a: int, b: int) -> int
    recommends
        b > 0,
{
    if a >= 0 {
        a / b
    } else {
        -((-a) / b)
    }
}

/// The tapered value of a score at a phase.
pub open spec fn taper_value(mg: int, eg: int, phase: int) -> int {
    div_trunc(mg * (ENDGAME_PHASE - phase) + eg * phase, ENDGAME_PHASE as int)
}

/// The tapered value is the midgame value at phase 0 and the endgame value at the last
/// phase, and in between it never leaves the range the two values span.
pub proof fn lemma_taper_between(mg: int, eg: int, phase: int)
    requires
        0 <= phase <= ENDGAME_PHASE,
    ensures
        phase == 0 ==> taper_value(mg, eg, phase) == mg,
        phase == ENDGAME_PHASE ==> taper_value(mg, eg, phase) == eg,
        (if mg <= eg { mg } else { eg }) <= taper_value(mg, eg, phase) <= (if mg <= eg { eg } else { mg }),
{
    let lo = if mg <= eg { mg } else { eg };
    let hi = if mg <= eg { eg } else { mg };
    let s = mg * (256 - phase) + eg * phase;
    assert(256 * lo <= s <= 256 * hi) by (nonlinear_arith)
        requires
            0 <= phase <= 256,
            lo <= mg <= hi,
            lo <= eg <= hi,
            s == mg * (256 - phase) + eg * phase,
    ;
    assert(phase == 0 ==> s == 256 * mg) by (nonlinear_arith)
        requires
            s == mg * (256 - phase) + eg * phase,
    ;
    assert(phase == 256 ==> s == 256 * eg) by (nonlinear_arith)
        requires
            s == mg * (256 - phase) + eg * phase,
    ;
    if s >= 0 {
        assert(lo <= s / 256 <= hi) by (nonlinear_arith)
            requires
                256 * lo <= s <= 256 * hi,
                s >= 0,
        ;
    } else {
        assert(lo <= -((-s) / 256) <= hi) by (nonlinear_arith)
            requires
                256 * lo <= s <= 256 * hi,
                s < 0,
        ;
    }
}

/// Pairs up midgame and endgame tables square by square.
pub fn const_zip(mg: [i32; NUM_SQUARES], eg: [i32; NUM_SQUARES]) -> (r: [Score; NUM_SQUARES])
    ensures
        forall|i: int| 0 <= i < 64 ==> #[trigger] r[i] == (Score { mg: mg[i], eg: eg[i] }),
{
    let mut result = [Score::new(0, 0); NUM_SQUARES];
    let mut i: usize = 0;
    while i < NUM_SQUARES
        invariant
            i <= 64,
            forall|j: int| 0 <= j < i ==> #[trigger] result[j] == (Score { mg: mg[j], eg: eg[j] }),
        decreases 64 - i,
    {
        result[i] = Score::new(mg[i], eg[i]);
        i = i + 1;
    }
    result
}

impl Score {

    pub fn new(mg: i32, eg: i32) -> (r: Self)
        ensures
            r.mg == mg,
            r.eg == eg,
    {
        Self { mg, eg }
    }

    /// A score with the same midgame and endgame value.
    pub fn splat(score: i32) -> (r: Self)
        ensures
            r.mg == score,
            r.eg == score,
    {
        Self { mg: score, eg: score }
    }

    /// Blends the two halves by the phase: all midgame at 0, all endgame at 256.
    pub fn taper(&self, phase: Phase) -> (r: i32)
        requires
            0 <= phase.0 <= ENDGAME_PHASE,
            i32::MIN <= self.mg * (ENDGAME_PHASE - phase.0) <= i32::MAX,
            i32::MIN <= self.eg * phase.0 <= i32::MAX,
            i32::MIN <= self.mg * (ENDGAME_PHASE - phase.0) + self.eg * phase.0 <= i32::MAX,
        ensures
            r == taper_value(self.mg as int, self.eg as int, phase.0 as int),
    {
        let mg_w = ENDGAME_PHASE - phase.0;
        let eg_w = phase.0;
        let total = (self.mg * mg_w) + (self.eg * eg_w);
        total / ENDGAME_PHASE
    }

    /// Half-by-half sum.
    pub fn plus(self, rhs: Self) -> (r: Self)
        requires
            i32::MIN <= self.mg + rhs.mg <= i32::MAX,
            i32::MIN <= self.eg + rhs.eg <= i32::MAX,
        ensures
            r.mg == self.mg + rhs.mg,
            r.eg == self.eg + rhs.eg,
    {
        Self { mg: self.mg + rhs.mg, eg: self.eg + rhs.eg }
    }

    /// Half-by-half difference.
    pub fn minus(self, rhs: Self) -> (r: Self)
        requires
            i32::MIN <= self.mg - rhs.mg <= i32::MAX,
            i32::MIN <= self.eg - rhs.eg <= i32::MAX,
        ensures
            r.mg == self.mg - rhs.mg,
            r.eg == self.eg - rhs.eg,
    {
        Self { mg: self.mg - rhs.mg, eg: self.eg - rhs.eg }
    }

    /// Both halves negated.
    pub fn negate(self) -> (r: Self)
        requires
            self.mg > i32::MIN,
            self.eg > i32::MIN,
        ensures
            r.mg == -self.mg,
            r.eg == -self.eg,
    {
        Self { mg: -self.mg, eg: -self.eg }
    }

    /// Both halves multiplied by `rhs`.
    pub fn times(self, rhs: i32) -> (r: Self)
        requires
            i32::MIN <= self.mg * rhs <= i32::MAX,
            i32::MIN <= self.eg * rhs <= i32::MAX,
        ensures
            r.mg == self.mg * rhs,
            r.eg == self.eg * rhs,
    {
        Self { mg: self.mg * rhs, eg: self.eg * rhs }
    }

    /// Both halves divided by `rhs`, rounding toward zero.
    pub fn divide(self, rhs: i32) -> (r: Self)
        requires
            rhs > 0,
        ensures
            r.mg == div_trunc(self.mg as int, rhs as int),
            r.eg == div_trunc(self.eg as int, rhs as int),
    {
        Self { mg: self.mg / rhs, eg: self.eg / rhs }
    }

    /// Adds `rhs` in place.
    pub fn add_assign(&mut self, rhs: Self)
        requires
            i32::MIN <= old(self).mg + rhs.mg <= i32::MAX,
            i32::MIN <= old(self).eg + rhs.eg <= i32::MAX,
        ensures
            final(self).mg == old(self).mg + rhs.mg,
            final(self).eg == old(self).eg + rhs.eg,
    {
        self.mg = self.mg + rhs.mg;
        self.eg = self.eg + rhs.eg;
    }

    /// Subtracts `rhs` in place.
    pub fn sub_assign(&mut self, rhs: Self)
        requires
            i32::MIN <= old(self).mg - rhs.mg <= i32::MAX,
            i32::MIN <= old(self).eg - rhs.eg <= i32::MAX,
        ensures
            final(self).mg == old(self).mg - rhs.mg,
            final(self).eg == old(self).eg - rhs.eg,
    {
        self.mg = self.mg - rhs.mg;
        self.eg = self.eg - rhs.eg;
    }
}

} // verus!
