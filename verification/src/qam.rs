//! V.22 / V.22bis mode tables and the 16-QAM constellation with its
//! minimum-distance slicer.
//!
//! Constellation coordinates are the integers {-3, -1, 1, 3}; on the
//! wire they are normalized by 1/3. The slicer works on fixed-point
//! inputs scaled so that a constellation coordinate `c` sits at
//! `c * QAM16_SCALE`: distance comparisons between such points are then
//! exact integer arithmetic.

use vstd::prelude::*;

verus! {

/// Fixed-point scale of one constellation unit for the slicer input.
pub const QAM16_SCALE: i32 = 1024;

/// V.22-family mode: 600 baud in every mode.
#[derive(Debug, Clone, Copy, PartialEq)]
pub enum QAMMode {
    V22,
    V22bis,
    Bell212A,
}

impl QAMMode {
    /// Symbol rate in baud: 600 in every mode.
    pub fn symbol_rate(&self) -> (r: u32)
        ensures
            r == 600,
    {
        600
    }

    /// Bits carried per symbol: 2 for DPSK, 4 for 16-QAM.
    pub fn bits_per_symbol(&self) -> (r: usize)
        ensures
            r == match self {
                QAMMode::V22 | QAMMode::Bell212A => 2usize,
                QAMMode::V22bis => 4usize,
            },
    {
        match self {
            QAMMode::V22 | QAMMode::Bell212A => 2,
            QAMMode::V22bis => 4,
        }
    }

    /// Data rate in bits per second: symbol rate times bits per symbol.
    pub fn data_rate(&self) -> (r: u32)
        ensures
            r == match self {
                QAMMode::V22 | QAMMode::Bell212A => 1200u32,
                QAMMode::V22bis => 2400u32,
            },
    {
        match self {
            QAMMode::V22 | QAMMode::Bell212A => 1200,
            QAMMode::V22bis => 2400,
        }
    }

    /// Carrier of the originating side, in hertz (low band).
    pub fn carrier_freq_originate(&self) -> (r: u32)
        ensures
            r == 1200,
    {
        1200
    }

    /// Carrier of the answering side, in hertz (high band).
    pub fn carrier_freq_answer(&self) -> (r: u32)
        ensures
            r == 2400,
    {
        2400
    }
}

/// Samples per symbol at the given sample rate (600 baud).
pub fn samples_per_symbol(sample_rate_hz: u32) -> (r: u32)
    ensures
        r == sample_rate_hz / 600,
{
    sample_rate_hz / 600
}

/// The 16-QAM constellation entry for a 4-bit index: coordinates in
/// {-3, -1, 1, 3} x {-3, -1, 1, 3}, one quadrant per group of four.
pub open spec fn qam16_point_spec(idx: int) -> (int, int) {
    if idx == 0 {
        (1, 1)
    } else if idx == 1 {
        (1, 3)
    } else if idx == 2 {
        (3, 1)
    } else if idx == 3 {
        (3, 3)
    } else if idx == 4 {
        (-1, 1)
    } else if idx == 5 {
        (-1, 3)
    } else if idx == 6 {
        (-3, 1)
    } else if idx == 7 {
        (-3, 3)
    } else if idx == 8 {
        (-1, -1)
    } else if idx == 9 {
        (-1, -3)
    } else if idx == 10 {
        (-3, -1)
    } else if idx == 11 {
        (-3, -3)
    } else if idx == 12 {
        (1, -1)
    } else if idx == 13 {
        (1, -3)
    } else if idx == 14 {
        (3, -1)
    } else {
        (3, -3)
    }
}

/// Map 4 bits to their 16-QAM constellation point.
pub fn map_to_qam16(bits: u8) -> (r: (i8, i8))
    ensures
        (r.0 as int, r.1 as int) == qam16_point_spec((bits & 0x0F) as int),
{
    match bits & 0x0F {
        0 => (1, 1),
        1 => (1, 3),
        2 => (3, 1),
        3 => (3, 3),
        4 => (-1, 1),
        5 => (-1, 3),
        6 => (-3, 1),
        7 => (-3, 3),
        8 => (-1, -1),
        9 => (-1, -3),
        10 => (-3, -1),
        11 => (-3, -3),
        12 => (1, -1),
        13 => (1, -3),
        14 => (3, -1),
        _ => (3, -3),
    }
}

/// Squared Euclidean distance between the fixed-point input `(x, y)`
/// and constellation entry `idx` scaled by `QAM16_SCALE`.
pub open spec fn qam16_dist(idx: int, x: int, y: int) -> int {
    let (ci, cq) = qam16_point_spec(idx);
    (x - ci * (QAM16_SCALE as int)) * (x - ci * (QAM16_SCALE as int)) + (y - cq * (
    QAM16_SCALE as int)) * (y - cq * (QAM16_SCALE as int))
}

/// First index among the first `n` entries with minimal distance.
pub open spec fn qam16_best(x: int, y: int, n: int) -> int
    decreases n,
{
    if n <= 1 {
        0
    } else {
        let b = qam16_best(x, y, n - 1);
        if qam16_dist(n - 1, x, y) < qam16_dist(b, x, y) {
            n - 1
        } else {
            b
        }
    }
}

/// The slicer's decision: the first constellation index at minimal
/// squared distance from the input.
pub open spec fn slice_qam16_spec(x: int, y: int) -> int {
    qam16_best(x, y, 16)
}

proof fn lemma_qam16_best_props(x: int, y: int, n: int)
    requires
        1 <= n <= 16,
    ensures
        0 <= qam16_best(x, y, n) < n,
        forall|j: int|
            0 <= j < n ==> qam16_dist(qam16_best(x, y, n), x, y) <= #[trigger] qam16_dist(
                j,
                x,
                y,
            ),
        forall|j: int|
            0 <= j < qam16_best(x, y, n) ==> #[trigger] qam16_dist(j, x, y) > qam16_dist(
                qam16_best(x, y, n),
                x,
                y,
            ),
    decreases n,
{
    if n > 1 {
        lemma_qam16_best_props(x, y, n - 1);
    }
}

/// Find the nearest constellation point for a fixed-point baseband
/// sample: brute-force minimum over the 16 entries, first index wins
/// ties.
pub fn slice_qam16(x: i32, y: i32) -> (r: u8)
    ensures
        r < 16,
        r as int == slice_qam16_spec(x as int, y as int),
{
    let mut best_idx: u8 = 0;
    let mut min_dist: i128 = qam16_dist_exec(0, x, y);
    let mut idx: u8 = 1;
    while idx < 16
        invariant
            1 <= idx <= 16,
            best_idx < idx,
            best_idx as int == qam16_best(x as int, y as int, idx as int),
            min_dist == qam16_dist(best_idx as int, x as int, y as int),
        decreases 16 - idx,
    {
        let d = qam16_dist_exec(idx, x, y);
        if d < min_dist {
            min_dist = d;
            best_idx = idx;
        }
        idx = idx + 1;
    }
    best_idx
}

/// Squared distance of the input from constellation entry `idx`, exact
/// in 128-bit arithmetic.
fn qam16_dist_exec(idx: u8, x: i32, y: i32) -> (d: i128)
    requires
        idx < 16,
    ensures
        d == qam16_dist(idx as int, x as int, y as int),
{
    let (ci, cq) = map_to_qam16(idx);
    let dx: i64 = (x as i64) - (ci as i64) * 1024;
    let dy: i64 = (y as i64) - (cq as i64) * 1024;
    proof {
        assert((dx as i128) * (dx as i128) <= 0x1_0000_0000_0000_0000 && (dx as i128) * (
        dx as i128) >= 0) by (nonlinear_arith)
            requires
                -0x1_0000_0000 <= dx <= 0x1_0000_0000,
        ;
        assert((dy as i128) * (dy as i128) <= 0x1_0000_0000_0000_0000 && (dy as i128) * (
        dy as i128) >= 0) by (nonlinear_arith)
            requires
                -0x1_0000_0000 <= dy <= 0x1_0000_0000,
        ;
        assert(idx & 0x0F == idx) by (bit_vector)
            requires
                idx < 16,
        ;
        assert(dx as int == x - qam16_point_spec(idx as int).0 * (QAM16_SCALE as int));
        assert(dy as int == y - qam16_point_spec(idx as int).1 * (QAM16_SCALE as int));
        assert((dx as int) * (dx as int) + (dy as int) * (dy as int) == qam16_dist(
            idx as int,
            x as int,
            y as int,
        )) by (nonlinear_arith)
            requires
                dx as int == x - qam16_point_spec(idx as int).0 * (QAM16_SCALE as int),
                dy as int == y - qam16_point_spec(idx as int).1 * (QAM16_SCALE as int),
                qam16_dist(idx as int, x as int, y as int) == (x - qam16_point_spec(idx as int).0
                    * (QAM16_SCALE as int)) * (x - qam16_point_spec(idx as int).0 * (
                QAM16_SCALE as int)) + (y - qam16_point_spec(idx as int).1 * (QAM16_SCALE as int))
                    * (y - qam16_point_spec(idx as int).1 * (QAM16_SCALE as int)),
        ;
    }
    (dx as i128) * (dx as i128) + (dy as i128) * (dy as i128)
}

/// Slicing the exact (scaled) constellation point of any index returns
/// that index: the slicer inverts the mapper on clean symbols.
pub proof fn lemma_qam16_slicer_exact(idx: int)
    requires
        0 <= idx < 16,
    ensures
        slice_qam16_spec(
            qam16_point_spec(idx).0 * (QAM16_SCALE as int),
            qam16_point_spec(idx).1 * (QAM16_SCALE as int),
        ) == idx,
{
    let x = qam16_point_spec(idx).0 * (QAM16_SCALE as int);
    let y = qam16_point_spec(idx).1 * (QAM16_SCALE as int);
    assert(qam16_dist(idx, x, y) == 0);
    assert forall|j: int| 0 <= j < 16 && j != idx implies qam16_dist(j, x, y) > 0 by {
        let (ci, cq) = qam16_point_spec(idx);
        let (cj, dj) = qam16_point_spec(j);
        assert(ci != cj || cq != dj);
        assert((x - cj * (QAM16_SCALE as int)) == (ci - cj) * 1024 && (y - dj * (
        QAM16_SCALE as int)) == (cq - dj) * 1024) by (nonlinear_arith)
            requires
                x == ci * (QAM16_SCALE as int),
                y == cq * (QAM16_SCALE as int),
                QAM16_SCALE == 1024,
        ;
        assert(ci != cj ==> (ci - cj) * 1024 * ((ci - cj) * 1024) > 0) by (nonlinear_arith);
        assert(cq != dj ==> (cq - dj) * 1024 * ((cq - dj) * 1024) > 0) by (nonlinear_arith);
        assert((ci - cj) * 1024 * ((ci - cj) * 1024) >= 0) by (nonlinear_arith);
        assert((cq - dj) * 1024 * ((cq - dj) * 1024) >= 0) by (nonlinear_arith);
    }
    lemma_qam16_best_props(x, y, 16);
    let b = qam16_best(x, y, 16);
    assert(qam16_dist(b, x, y) <= 0);
    if b != idx {
        assert(qam16_dist(b, x, y) > 0);
    }
}

} // verus!
