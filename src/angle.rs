use vstd::arithmetic::div_mod::{lemma_fundamental_div_mod, lemma_fundamental_div_mod_converse_mod};
use vstd::prelude::*;

verus! {

/// One full turn, in micro-degrees.
pub const FULL_TURN: i64 = 360_000_000;

/// Half a turn, in micro-degrees.
pub const HALF_TURN: i64 = 180_000_000;

/// A longitude in micro-degrees, normalized into `[0, FULL_TURN)`.
pub open spec fn is_longitude(x: int) -> bool {
    0 <= x < FULL_TURN
}

/// Any angle brought into `[0, FULL_TURN)`.
pub open spec fn wrap(x: int) -> int {
    x % (FULL_TURN as int)
}

/// Signed shortest distance from `b` to `a`, in `(-HALF_TURN, HALF_TURN]`.
pub open spec fn closest(a: int, b: int) -> int {
    let m = wrap(a - b);
    if m > HALF_TURN {
        m - FULL_TURN
    } else {
        m
    }
}

/// Magnitude of the circular separation of two angles.
pub open spec fn sep(a: int, b: int) -> int {
    let d = closest(a, b);
    if d < 0 {
        -d
    } else {
        d
    }
}

/// Brings any angle in micro-degrees into `[0, FULL_TURN)`.
pub fn normalize_longitude(x: i64) -> (r: i64)
    ensures
        r == wrap(x as int),
        is_longitude(r as int),
{
    let r = x % FULL_TURN;
    if r < 0 {
        r + FULL_TURN
    } else {
        r
    }
}

/// A wrapped angle is a longitude.
pub proof fn lemma_wrap_range(x: int)
    ensures
        is_longitude(wrap(x)),
{
    lemma_fundamental_div_mod(x, FULL_TURN as int);
}

/// `wrap` is determined by any decomposition `x == q * FULL_TURN + r` with `r` in range.
proof fn lemma_wrap_of(x: int, q: int, r: int)
    requires
        x == q * FULL_TURN + r,
        0 <= r < FULL_TURN,
    ensures
        wrap(x) == r,
{
    lemma_fundamental_div_mod_converse_mod(x, FULL_TURN as int, q, r);
}

/// Wrapping the difference of two angles equals wrapping the difference of their wrapped values.
proof fn lemma_wrap_difference(a: int, b: int)
    ensures
        wrap(a - b) == if wrap(a) - wrap(b) < 0 {
            wrap(a) - wrap(b) + FULL_TURN
        } else {
            wrap(a) - wrap(b)
        },
{
    let f = FULL_TURN as int;
    lemma_fundamental_div_mod(a, f);
    lemma_fundamental_div_mod(b, f);
    let qa = a / f;
    let qb = b / f;
    let d = wrap(a) - wrap(b);
    assert(a - b == (qa - qb) * f + d) by (nonlinear_arith)
        requires
            a == f * qa + wrap(a),
            b == f * qb + wrap(b),
            d == wrap(a) - wrap(b),
    ;
    if d < 0 {
        assert(a - b == (qa - qb - 1) * f + (d + f)) by (nonlinear_arith)
            requires
                a - b == (qa - qb) * f + d,
        ;
        lemma_wrap_of(a - b, qa - qb - 1, d + f);
    } else {
        lemma_wrap_of(a - b, qa - qb, d);
    }
}

/// Signed shortest distance from longitude `b` to longitude `a`, in micro-degrees.
/// Both arguments may be any angle: they are normalized first.
pub fn closest_distance(a: i64, b: i64) -> (r: i64)
    ensures
        r == closest(a as int, b as int),
        -HALF_TURN < r <= HALF_TURN,
{
    let na = normalize_longitude(a);
    let nb = normalize_longitude(b);
    proof {
        lemma_wrap_difference(a as int, b as int);
    }
    let d = na - nb;
    let m = if d < 0 {
        d + FULL_TURN
    } else {
        d
    };
    if m > HALF_TURN {
        m - FULL_TURN
    } else {
        m
    }
}

/// Magnitude of the circular separation of two angles, in micro-degrees.
pub fn separation(a: i64, b: i64) -> (r: i64)
    ensures
        r == sep(a as int, b as int),
        0 <= r <= HALF_TURN,
{
    let d = closest_distance(a, b);
    if d < 0 {
        -d
    } else {
        d
    }
}

/// The circular separation does not depend on the order of its arguments.
pub proof fn lemma_separation_symmetric(a: int, b: int)
    ensures
        sep(a, b) == sep(b, a),
{
    let f = FULL_TURN as int;
    let m = wrap(a - b);
    lemma_fundamental_div_mod(a - b, f);
    let q = (a - b) / f;
    if m == 0 {
        assert(b - a == (-q) * f + 0) by (nonlinear_arith)
            requires
                a - b == f * q + m,
                m == 0,
        ;
        lemma_wrap_of(b - a, -q, 0);
    } else {
        assert(b - a == (-q - 1) * f + (f - m)) by (nonlinear_arith)
            requires
                a - b == f * q + m,
        ;
        lemma_wrap_of(b - a, -q - 1, f - m);
    }
}

/// The circular separation of any two angles lies in `[0, HALF_TURN]`.
pub proof fn lemma_separation_bounded(a: int, b: int)
    ensures
        0 <= sep(a, b) <= HALF_TURN,
{
    lemma_fundamental_div_mod(a - b, FULL_TURN as int);
}

/// An angle is at separation zero from itself.
pub proof fn lemma_separation_self(x: int)
    ensures
        sep(x, x) == 0,
{
    lemma_wrap_of(x - x, 0, 0);
}

} // verus!
