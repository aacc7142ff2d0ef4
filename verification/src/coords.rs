//! Integer coordinates: splitting a world coordinate into the coordinate of a
//! chunk and the coordinate of a cell inside that chunk.
use vstd::prelude::*;
use crate::fixed::{div_floor, mod_floor};

verus! {

/// Quotient of the division rounded towards minus infinity.
pub open spec fn floor_div_spec(x: int, d: int) -> int {
    x / d
}

/// Remainder of the division rounded towards minus infinity: never negative.
pub open spec fn floor_mod_spec(x: int, d: int) -> int {
    x % d
}

/// Quotient of `x` by the positive `d`, rounded down also where `x` is negative.
pub fn floor_div(x: i32, d: i32) -> (q: i32)
    requires
        d > 0,
    ensures
        q as int == floor_div_spec(x as int, d as int),
{
    let q: i128 = div_floor(x as i128, d as i128);
    proof {
        lemma_floor_round_trip(x as int, d as int);
        assert(i32::MIN <= q <= i32::MAX) by (nonlinear_arith)
            requires
                q * d + (x as int) % (d as int) == x,
                0 <= (x as int) % (d as int) < d,
                d >= 1,
                i32::MIN <= x <= i32::MAX,
        ;
    }
    q as i32
}

/// Remainder of `x` by the positive `d`, in `0..d` also where `x` is negative.
pub fn floor_mod(x: i32, d: i32) -> (r: i32)
    requires
        d > 0,
    ensures
        r as int == floor_mod_spec(x as int, d as int),
        0 <= r < d,
{
    mod_floor(x as i128, d as i128) as i32
}

/// Quotient and remainder put a coordinate together again: for every integer
/// `x`, negative ones included, and every positive `d`,
/// `floor_div(x, d) * d + floor_mod(x, d) == x`, with the remainder in `0..d`.
pub proof fn lemma_floor_round_trip(x: int, d: int)
    requires
        d > 0,
    ensures
        floor_div_spec(x, d) * d + floor_mod_spec(x, d) == x,
        0 <= floor_mod_spec(x, d) < d,
{
    assert((x / d) * d + x % d == x && 0 <= x % d < d) by (nonlinear_arith)
        requires
            d > 0,
    ;
}

/// The chunk and the cell of a coordinate determine it: two coordinates with
/// the same quotient and the same remainder are equal.
pub proof fn lemma_floor_split_injective(x: int, y: int, d: int)
    requires
        d > 0,
        floor_div_spec(x, d) == floor_div_spec(y, d),
        floor_mod_spec(x, d) == floor_mod_spec(y, d),
    ensures
        x == y,
{
    lemma_floor_round_trip(x, d);
    lemma_floor_round_trip(y, d);
}

} // verus!
