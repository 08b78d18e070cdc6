//! The spatial attenuation rule: players in the same world are heard at a
//! volume that falls off with the square of the attenuation factor
//! `1 - d / max_hearing_distance`, scaled to the 0..=110 range the voice
//! session accepts and rounded up so near-threshold listeners are not muted
//! early. Players in different worlds, and every player while the hearing
//! distance is unset (zero), are silent.
//!
//! Distances are whole blocks: the distance used is the integer part of the
//! Euclidean distance between the two integer coordinate triples.

use vstd::prelude::*;
use crate::position::{Position, PositionView};
use crate::position::str_eq;

verus! {

/// The loudest volume the voice session accepts.
pub const MAX_VOLUME: u8 = 110;

/// Squared Euclidean distance between two coordinate triples.
pub open spec fn dist_sq(l: PositionView, o: PositionView) -> int {
    (l.x - o.x) * (l.x - o.x) + (l.y - o.y) * (l.y - o.y) + (l.z - o.z) * (l.z - o.z)
}

/// The integer part of the square root of `s`.
pub open spec fn floor_sqrt(s: nat) -> nat
    decreases s,
{
    if s == 0 {
        0
    } else {
        let r = floor_sqrt((s - 1) as nat);
        if (r + 1) * (r + 1) <= s {
            r + 1
        } else {
            r
        }
    }
}

/// `floor_sqrt(s)` is the unique integer whose square is at most `s` while
/// the next square is above it.
pub proof fn lemma_floor_sqrt_bracket(s: nat)
    ensures
        floor_sqrt(s) * floor_sqrt(s) <= s,
        s < (floor_sqrt(s) + 1) * (floor_sqrt(s) + 1),
    decreases s,
{
    if s == 0 {
        assert(floor_sqrt(0) == 0);
        assert(s < (floor_sqrt(s) + 1) * (floor_sqrt(s) + 1)) by (nonlinear_arith)
            requires
                s == 0,
                floor_sqrt(s) == 0,
        ;
    } else {
        lemma_floor_sqrt_bracket((s - 1) as nat);
        let r = floor_sqrt((s - 1) as nat);
        assert(r * r <= s - 1 && s - 1 < (r + 1) * (r + 1));
        if (r + 1) * (r + 1) <= s {
            assert(floor_sqrt(s) == r + 1);
            assert(s < (r + 2) * (r + 2)) by (nonlinear_arith)
                requires
                    s <= (r + 1) * (r + 1),
                    r >= 0,
            ;
            assert((floor_sqrt(s) + 1) * (floor_sqrt(s) + 1) == (r + 2) * (r + 2));
        } else {
            assert(floor_sqrt(s) == r);
            assert(s < (r + 1) * (r + 1));
            assert((floor_sqrt(s) + 1) * (floor_sqrt(s) + 1) == (r + 1) * (r + 1));
        }
    }
}

/// Any integer bracketed the same way equals `floor_sqrt(s)`.
pub proof fn lemma_floor_sqrt_unique(s: nat, r: nat)
    requires
        r * r <= s,
        s < (r + 1) * (r + 1),
    ensures
        r == floor_sqrt(s),
{
    lemma_floor_sqrt_bracket(s);
    let f = floor_sqrt(s);
    assert(r == f) by (nonlinear_arith)
        requires
            r * r <= s,
            s < (r + 1) * (r + 1),
            f * f <= s,
            s < (f + 1) * (f + 1),
            r >= 0,
            f >= 0,
    ;
}

/// `a / b` rounded towards positive infinity, for positive `b`.
pub open spec fn ceil_div(a: int, b: int) -> int
    recommends
        b > 0,
{
    (a + b - 1) / b
}

/// Volume as a function of the squared distance `s` and a positive maximum
/// hearing distance `m`: the distance is clamped to `m` and the squared
/// attenuation is scaled to the volume range and rounded up.
pub open spec fn volume_of_dist_sq(s: nat, m: nat) -> int
    recommends
        m > 0,
{
    let d = if floor_sqrt(s) <= m {
        floor_sqrt(s)
    } else {
        m
    };
    ceil_div(MAX_VOLUME as int * (m - d) * (m - d), (m * m) as int)
}

/// The volume directive for listener `l` hearing speaker `o` under maximum
/// hearing distance `m`: zero across worlds and while the hearing distance
/// is unset, else the attenuated volume.
pub open spec fn spec_volume(l: PositionView, o: PositionView, m: nat) -> int {
    if l.world != o.world || m == 0 {
        0
    } else {
        volume_of_dist_sq(dist_sq(l, o) as nat, m)
    }
}

/// Squared Euclidean distance between two positions.
pub fn dist_sq_exec(l: &Position, o: &Position) -> (s: u128)
    ensures
        s == dist_sq(l@, o@),
{
    let dx: i64 = l.x as i64 - o.x as i64;
    let dy: i64 = l.y as i64 - o.y as i64;
    let dz: i64 = l.z as i64 - o.z as i64;
    proof {
        assert(0 <= dx as int * dx as int <= 0x1_0000_0000_0000_0000) by (nonlinear_arith)
            requires
                -0x1_0000_0000 <= dx as int <= 0x1_0000_0000,
        ;
        assert(0 <= dy as int * dy as int <= 0x1_0000_0000_0000_0000) by (nonlinear_arith)
            requires
                -0x1_0000_0000 <= dy as int <= 0x1_0000_0000,
        ;
        assert(0 <= dz as int * dz as int <= 0x1_0000_0000_0000_0000) by (nonlinear_arith)
            requires
                -0x1_0000_0000 <= dz as int <= 0x1_0000_0000,
        ;
    }
    let sx: i128 = dx as i128 * dx as i128;
    let sy: i128 = dy as i128 * dy as i128;
    let sz: i128 = dz as i128 * dz as i128;
    (sx + sy + sz) as u128
}

/// The integer part of the square root of `s`, by bisection.
pub fn isqrt(s: u128) -> (r: u64)
    ensures
        r as nat == floor_sqrt(s as nat),
{
    let mut lo: u128 = 0;
    let mut hi: u128 = 0x1_0000_0000_0000_0000;
    proof {
        assert(hi as int * hi as int > s) by (nonlinear_arith)
            requires
                hi as int == 0x1_0000_0000_0000_0000int,
                s <= 0xffff_ffff_ffff_ffff_ffff_ffff_ffff_ffffint,
        ;
    }
    while lo + 1 < hi
        invariant
            0 <= lo < hi <= 0x1_0000_0000_0000_0000,
            lo as int * lo as int <= s,
            hi as int * hi as int > s,
        decreases hi - lo,
    {
        let mid: u128 = lo + (hi - lo) / 2;
        proof {
            assert(mid as int * mid as int <= 0xffff_ffff_ffff_ffff_ffff_ffff_ffff_ffffint)
                by (nonlinear_arith)
                requires
                    0 <= mid as int,
                    (mid as int) < 0x1_0000_0000_0000_0000int,
            ;
        }
        if mid * mid <= s {
            lo = mid;
        } else {
            hi = mid;
        }
    }
    proof {
        assert(hi == lo + 1);
        assert(s < ((lo as nat) + 1) * ((lo as nat) + 1));
        lemma_floor_sqrt_unique(s as nat, lo as nat);
    }
    lo as u64
}

/// The volume at which listener `l` hears speaker `o`, given the configured
/// maximum hearing distance. Zero when the two are in different worlds or the
/// hearing distance is unset; otherwise the clamped squared-falloff volume,
/// never above [`MAX_VOLUME`].
pub fn volume(l: &Position, o: &Position, max_hearing_distance: u32) -> (v: u8)
    ensures
        v as int == spec_volume(l@, o@, max_hearing_distance as nat),
        v <= MAX_VOLUME,
{
    let m = max_hearing_distance;
    if !str_eq(l.world.as_str(), o.world.as_str()) || m == 0 {
        return 0;
    }
    let s = dist_sq_exec(l, o);
    let d64 = isqrt(s);
    let m64 = m as u64;
    let d_clamped: u64 = if d64 <= m64 {
        d64
    } else {
        m64
    };
    let q: u64 = m64 - d_clamped;
    proof {
        assert(0 <= (MAX_VOLUME as int) * (q as int) * (q as int) <= 110 * 0x1_0000_0000
            * 0x1_0000_0000) by (nonlinear_arith)
            requires
                0 <= q as int <= 0x1_0000_0000,
        ;
        assert(1 <= (m as int) * (m as int) <= 0x1_0000_0000 * 0x1_0000_0000)
            by (nonlinear_arith)
            requires
                1 <= m as int <= 0x1_0000_0000,
        ;
    }
    let num: u128 = (MAX_VOLUME as u128) * (q as u128) * (q as u128);
    let den: u128 = (m as u128) * (m as u128);
    let v128: u128 = (num + den - 1) / den;
    proof {
        assert(num <= (MAX_VOLUME as int) * den) by (nonlinear_arith)
            requires
                num == (MAX_VOLUME as int) * (q as int) * (q as int),
                den == m as int * m as int,
                0 <= q as int <= m as int,
        ;
        assert(v128 <= MAX_VOLUME as int) by (nonlinear_arith)
            requires
                v128 == (num + den - 1) / (den as int),
                num <= (MAX_VOLUME as int) * den,
                den >= 1,
        ;
    }
    v128 as u8
}

/// The volume falls off with distance: a larger squared distance never
/// yields a louder volume (same worlds, same positive hearing distance).
pub proof fn lemma_volume_monotone(s1: nat, s2: nat, m: nat)
    requires
        m > 0,
        s1 <= s2,
    ensures
        volume_of_dist_sq(s1, m) >= volume_of_dist_sq(s2, m),
{
    lemma_floor_sqrt_bracket(s1);
    lemma_floor_sqrt_bracket(s2);
    let f1 = floor_sqrt(s1);
    let f2 = floor_sqrt(s2);
    assert(f1 <= f2) by (nonlinear_arith)
        requires
            f1 * f1 <= s1,
            s2 < (f2 + 1) * (f2 + 1),
            s1 <= s2,
            f1 >= 0,
            f2 >= 0,
    ;
    let d1 = if f1 <= m { f1 } else { m };
    let d2 = if f2 <= m { f2 } else { m };
    let q1 = m - d1;
    let q2 = m - d2;
    assert((MAX_VOLUME as int) * q2 * q2 <= (MAX_VOLUME as int) * q1 * q1) by (nonlinear_arith)
        requires
            0 <= q2 <= q1,
    ;
    assert(ceil_div((MAX_VOLUME as int) * q2 * q2, (m * m) as int) <= ceil_div(
        (MAX_VOLUME as int) * q1 * q1,
        (m * m) as int,
    )) by (nonlinear_arith)
        requires
            (MAX_VOLUME as int) * q2 * q2 <= (MAX_VOLUME as int) * q1 * q1,
            m >= 1,
            ceil_div((MAX_VOLUME as int) * q2 * q2, (m * m) as int) == ((MAX_VOLUME as int) * q2
                * q2 + m * m - 1) / ((m * m) as int),
            ceil_div((MAX_VOLUME as int) * q1 * q1, (m * m) as int) == ((MAX_VOLUME as int) * q1
                * q1 + m * m - 1) / ((m * m) as int),
    ;
}

/// At distance zero the volume is the full [`MAX_VOLUME`].
pub proof fn lemma_volume_full_at_zero(m: nat)
    requires
        m > 0,
    ensures
        volume_of_dist_sq(0, m) == MAX_VOLUME as int,
{
    assert(floor_sqrt(0) == 0);
    assert(ceil_div((MAX_VOLUME as int) * m * m, (m * m) as int) == MAX_VOLUME as int)
        by (nonlinear_arith)
        requires
            m >= 1,
            ceil_div((MAX_VOLUME as int) * m * m, (m * m) as int) == ((MAX_VOLUME as int) * m * m
                + m * m - 1) / ((m * m) as int),
    ;
}

/// The volume is zero exactly when the distance has reached the maximum
/// hearing distance: `floor_sqrt(s) >= m` is `s >= m * m`.
pub proof fn lemma_volume_zero_iff_far(s: nat, m: nat)
    requires
        m > 0,
    ensures
        volume_of_dist_sq(s, m) == 0 <==> s >= m * m,
{
    lemma_floor_sqrt_bracket(s);
    let f = floor_sqrt(s);
    let d = if f <= m { f } else { m };
    let q = m - d;
    if s >= m * m {
        assert(f >= m) by (nonlinear_arith)
            requires
                s < (f + 1) * (f + 1),
                s >= m * m,
                f >= 0,
                m >= 1,
        ;
        assert(q == 0);
        assert((MAX_VOLUME as int) * q * q == 0) by (nonlinear_arith)
            requires
                q == 0,
        ;
        assert(ceil_div(0, (m * m) as int) == 0) by (nonlinear_arith)
            requires
                m >= 1,
                ceil_div(0, (m * m) as int) == (0 + m * m - 1) / ((m * m) as int),
        ;
    } else {
        assert(f < m) by (nonlinear_arith)
            requires
                f * f <= s,
                s < m * m,
                f >= 0,
                m >= 1,
        ;
        assert(q >= 1);
        assert(ceil_div((MAX_VOLUME as int) * q * q, (m * m) as int) >= 1) by (nonlinear_arith)
            requires
                q >= 1,
                m >= 1,
                ceil_div((MAX_VOLUME as int) * q * q, (m * m) as int) == ((MAX_VOLUME as int) * q
                    * q + m * m - 1) / ((m * m) as int),
        ;
    }
}

/// The volume is full exactly at distance zero. The rounding-up makes this
/// an equivalence only away from the near field: when `s > 0` but the
/// scaled squared attenuation still exceeds 109 of 110 parts (a hearing
/// distance in the hundreds with a speaker one block away), the ceiling
/// also reaches the full volume, so such inputs are excluded here.
pub proof fn lemma_volume_full_iff_zero(s: nat, m: nat)
    requires
        m > 0,
        s > 0 ==> (MAX_VOLUME as int) * ((m - (if floor_sqrt(s) <= m {
            floor_sqrt(s)
        } else {
            m
        })) as int) * ((m - (if floor_sqrt(s) <= m {
            floor_sqrt(s)
        } else {
            m
        })) as int) <= (MAX_VOLUME - 1) * (m * m) as int,
    ensures
        volume_of_dist_sq(s, m) == MAX_VOLUME as int <==> s == 0,
{
    if s == 0 {
        lemma_volume_full_at_zero(m);
    } else {
        lemma_floor_sqrt_bracket(s);
        let f = floor_sqrt(s);
        let d = if f <= m { f } else { m };
        let q = m - d;
        assert(ceil_div((MAX_VOLUME as int) * q * q, (m * m) as int) < MAX_VOLUME as int)
            by (nonlinear_arith)
            requires
                m >= 1,
                q >= 0,
                (MAX_VOLUME as int) * q * q <= (MAX_VOLUME - 1) * (m * m) as int,
                ceil_div((MAX_VOLUME as int) * q * q, (m * m) as int) == ((MAX_VOLUME as int) * q
                    * q + m * m - 1) / ((m * m) as int),
        ;
    }
}

/// Across different worlds the volume is zero whatever the coordinates and
/// the configured hearing distance.
pub proof fn lemma_volume_zero_across_worlds(l: PositionView, o: PositionView, m: nat)
    requires
        l.world != o.world,
    ensures
        spec_volume(l, o, m) == 0,
{
}

} // verus!
