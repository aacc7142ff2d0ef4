//! Simplex noise over the plane: continuous gradient noise on a lattice of
//! triangles, in fixed-point arithmetic.
use vstd::prelude::*;
use crate::fixed::{div_floor, mod_floor, Fixed};
use crate::noise::{Noise, NoiseConfig, NoiseDomain};
use crate::perm_table::{gradient_index_spec, is_permutation, PermSeeded, PermTable};

verus! {

/// The configuration of simplex noise. It has no parameters.
#[derive(Clone, Copy)]
pub struct Simplex;

/// The skew factor `(sqrt(3) - 1) / 2`, with 56 fractional bits.
pub const SKEW: i128 = 26374909953467732;

/// The unskew factor `(3 - sqrt(3)) / 6`, with 56 fractional bits.
pub const UNSKEW: i128 = 15227561361486735;

/// The unskew factor as a fixed-point number.
pub const UNSKEW_FIXED: i64 = 3545442;

/// The largest absolute value that the noise takes: 70 times three corners
/// of at most 1/8 each.
pub const SIMPLEX_BOUND: i64 = 440401920;

/// First component of gradient `p` of the table of twelve.
pub open spec fn grad_x(p: int) -> int {
    if p >= 8 {
        0
    } else if p % 2 == 0 {
        1
    } else {
        -1
    }
}

/// Second component of gradient `p` of the table of twelve.
pub open spec fn grad_y(p: int) -> int {
    if p < 4 {
        if p < 2 {
            1
        } else {
            -1
        }
    } else if p < 8 {
        0
    } else if p % 2 == 0 {
        1
    } else {
        -1
    }
}

/// The square of a fixed-point number, rounded down.
pub open spec fn square_spec(a: int) -> int {
    (a * a) / 16777216
}

/// What the lattice point `(base_x, base_y)` adds to the noise at a point that
/// lies `(rel_x, rel_y)` from it: with `t = 1/2 - rel_x^2 - rel_y^2`, nothing
/// if `t` is negative, else `t^4` times the dot product of the point's
/// gradient with the offset.
pub open spec fn corner_spec(table: Seq<u8>, base_x: u8, base_y: u8, rel_x: int, rel_y: int) -> int {
    let t = 8388608 - square_spec(rel_x) - square_spec(rel_y);
    if t < 0 {
        0
    } else {
        let p = gradient_index_spec(table, base_x, base_y);
        let t2 = (t * t) / 16777216;
        let t4 = (t2 * t2) / 16777216;
        (t4 * (grad_x(p) * rel_x + grad_y(p) * rel_y)) / 16777216
    }
}

/// The shift that skews the point `(x, y)` onto the lattice:
/// `(x + y) * (sqrt(3) - 1) / 2`.
pub open spec fn skew_spec(x: int, y: int) -> int {
    ((x + y) * 26374909953467732) / 72057594037927936
}

/// The shift that takes the lattice cell `(i, j)` back to the plane:
/// `(i + j) * (3 - sqrt(3)) / 6`, as a fixed-point number.
pub open spec fn unskew_spec(i: int, j: int) -> int {
    ((i + j) * 15227561361486735) / 4294967296
}

/// The sum of the three corners of the triangle that holds a point: the
/// point lies `(rel_x, rel_y)` from the origin `(base_x, base_y)` of its cell.
/// The middle corner is `(1, 0)` if `rel_x > rel_y`, else `(0, 1)`; the last
/// is `(1, 1)`. Corner `k` is corrected by `k` times the unskew factor.
pub open spec fn corners_spec(table: Seq<u8>, base_x: u8, base_y: u8, rel_x: int, rel_y: int) -> int {
    let step_x: int = if rel_x > rel_y { 1 } else { 0 };
    let step_y: int = 1 - step_x;
    corner_spec(table, base_x, base_y, rel_x, rel_y)
        + corner_spec(
            table,
            ((base_x + step_x) % 256) as u8,
            ((base_y + step_y) % 256) as u8,
            rel_x - step_x * 16777216 + 3545442,
            rel_y - step_y * 16777216 + 3545442,
        )
        + corner_spec(
            table,
            ((base_x + 1) % 256) as u8,
            ((base_y + 1) % 256) as u8,
            rel_x - 16777216 + 2 * 3545442,
            rel_y - 16777216 + 2 * 3545442,
        )
}

/// Simplex noise at `(x, y)` under the permutation table `table`.
///
/// The point is skewed onto the lattice and rounded down to its cell
/// `(i, j)`; the cell is unskewed to give the offset of the point from the
/// cell's origin. The contributions of the three corners are summed and
/// multiplied by 70.
pub open spec fn simplex_spec(table: Seq<u8>, x: int, y: int) -> int {
    let s = skew_spec(x, y);
    let i = (x + s) / 16777216;
    let j = (y + s) / 16777216;
    let u = unskew_spec(i, j);
    70 * corners_spec(
        table,
        (i % 256) as u8,
        (j % 256) as u8,
        x - i * 16777216 + u,
        y - j * 16777216 + u,
    )
}

/// An offset of a whole unit or more lies outside the reach of a corner.
pub proof fn lemma_far_corner_is_zero(table: Seq<u8>, base_x: u8, base_y: u8, rel_x: int, rel_y: int)
    requires
        rel_x >= 16777216 || rel_x <= -16777216 || rel_y >= 16777216 || rel_y <= -16777216,
    ensures
        corner_spec(table, base_x, base_y, rel_x, rel_y) == 0,
{
    lemma_square_bounds(rel_x);
    lemma_square_bounds(rel_y);
}

/// A square is not negative, and that of a unit or more is a unit or more.
pub proof fn lemma_square_bounds(a: int)
    ensures
        square_spec(a) >= 0,
        a >= 16777216 || a <= -16777216 ==> square_spec(a) >= 16777216,
        -16777216 < a < 16777216 ==> square_spec(a) <= 16777216,
{
    assert(a * a >= 0) by (nonlinear_arith);
    if a >= 16777216 || a <= -16777216 {
        assert(a * a >= 16777216 * 16777216) by (nonlinear_arith)
            requires
                a >= 16777216 || a <= -16777216,
        ;
    }
    if -16777216 < a < 16777216 {
        assert(a * a <= 16777216 * 16777216) by (nonlinear_arith)
            requires
                -16777216 < a < 16777216,
        ;
    }
}

/// The components of gradient `p`.
pub fn gradient(p: u8) -> (g: (i8, i8))
    requires
        p < 12,
    ensures
        g.0 as int == grad_x(p as int),
        g.1 as int == grad_y(p as int),
{
    let gx: i8 = if p >= 8 {
        0
    } else if p % 2 == 0 {
        1
    } else {
        -1
    };
    let gy: i8 = if p < 2 {
        1
    } else if p < 4 {
        -1
    } else if p < 8 {
        0
    } else if p % 2 == 0 {
        1
    } else {
        -1
    };
    (gx, gy)
}

/// The product of a gradient component, which is -1, 0 or 1, with an offset.
fn signed(g: i8, v: i128) -> (r: i128)
    requires
        -1 <= g <= 1,
        -16777216 < v < 16777216,
    ensures
        r as int == (g as int) * (v as int),
        -16777216 < r < 16777216,
{
    proof {
        assert(g == 0 ==> (g as int) * (v as int) == 0) by (nonlinear_arith);
        assert(g == 1 ==> (g as int) * (v as int) == v) by (nonlinear_arith);
        assert(g == -1 ==> (g as int) * (v as int) == -v) by (nonlinear_arith);
    }
    if g == 0 {
        0
    } else if g == 1 {
        v
    } else {
        -v
    }
}

/// The contribution of one corner of the triangle.
pub fn simplex_factor_2(perm_table: &PermTable, base_x: u8, base_y: u8, rel_x: i128, rel_y: i128) -> (c: i64)
    ensures
        c as int == corner_spec(perm_table@, base_x, base_y, rel_x as int, rel_y as int),
        -2097152 <= c <= 2097152,
{
    if rel_x >= 16777216 || rel_x <= -16777216 || rel_y >= 16777216 || rel_y <= -16777216 {
        proof {
            lemma_far_corner_is_zero(perm_table@, base_x, base_y, rel_x as int, rel_y as int);
        }
        return 0;
    }
    proof {
        lemma_square_bounds(rel_x as int);
        lemma_square_bounds(rel_y as int);
        assert(0 <= rel_x * rel_x <= 16777216 * 16777216) by (nonlinear_arith)
            requires
                -16777216 < rel_x < 16777216,
        ;
        assert(0 <= rel_y * rel_y <= 16777216 * 16777216) by (nonlinear_arith)
            requires
                -16777216 < rel_y < 16777216,
        ;
    }
    let square_x: i128 = (rel_x * rel_x) / 16777216;
    let square_y: i128 = (rel_y * rel_y) / 16777216;
    let t: i128 = 8388608 - square_x - square_y;
    if t < 0 {
        0
    } else {
        let p: u8 = perm_table.gradient_index(base_x, base_y);
        let g = gradient(p);
        proof {
            assert(0 <= t * t <= 8388608 * 8388608) by (nonlinear_arith)
                requires
                    0 <= t <= 8388608,
            ;
        }
        let t2: i128 = (t * t) / 16777216;
        proof {
            assert(0 <= t2 * t2 <= 4194304 * 4194304) by (nonlinear_arith)
                requires
                    0 <= t2 <= 4194304,
            ;
        }
        let t4: i128 = (t2 * t2) / 16777216;
        let dot: i128 = signed(g.0, rel_x) + signed(g.1, rel_y);
        proof {
            assert(-1048576 * 33554432 <= t4 * dot <= 1048576 * 33554432) by (nonlinear_arith)
                requires
                    0 <= t4 <= 1048576,
                    -33554432 <= dot <= 33554432,
            ;
        }
        let scaled: i128 = div_floor(t4 * dot, 16777216);
        scaled as i64
    }
}

impl Simplex {
    /// The configuration of simplex noise.
    pub fn new() -> (config: Simplex) {
        Simplex
    }
}

impl Noise for PermSeeded<Simplex> {

}

impl NoiseDomain for PermSeeded<Simplex> {
    open spec fn value_at(&self, x: int, y: int) -> int {
        simplex_spec(self.perm_table@, x, y)
    }

    fn noise(&self, x: Fixed, y: Fixed) -> (value: Fixed) {
        simplex_2(&self.perm_table, x, y)
    }
}

impl NoiseConfig for Simplex {
    type TNoise = PermSeeded<Simplex>;

    open spec fn seeds_to(&self, seed: u64, noise: &PermSeeded<Simplex>) -> bool {
        is_permutation(noise.perm_table@)
    }

    fn seed(&self, seed: u64) -> (noise: PermSeeded<Simplex>) {
        PermSeeded { config: *self, perm_table: PermTable::new(seed) }
    }
}

/// The shift that skews `(x, y)` onto the lattice.
fn skew(x: Fixed, y: Fixed) -> (s: i128)
    ensures
        s as int == skew_spec(x as int, y as int),
        -0x8000_0000_0000_0000 <= s <= 0x8000_0000_0000_0000,
{
    div_floor((x as i128 + y as i128) * 26374909953467732, 72057594037927936)
}

/// The lattice coordinate of the skewed coordinate `x + s`.
fn cell(x: Fixed, s: i128) -> (i: i128)
    requires
        -0x8000_0000_0000_0000 <= s <= 0x8000_0000_0000_0000,
    ensures
        i as int == (x as int + s as int) / 16777216,
        -0x100_0000_0000 <= i <= 0x100_0000_0000,
{
    div_floor(x as i128 + s, 16777216)
}

/// The shift that takes the cell `(i, j)` back to the plane.
fn unskew(i: i128, j: i128) -> (u: i128)
    requires
        -0x100_0000_0000 <= i <= 0x100_0000_0000,
        -0x100_0000_0000 <= j <= 0x100_0000_0000,
    ensures
        u as int == unskew_spec(i as int, j as int),
        -0x1_0000_0000_0000_0000 <= u <= 0x1_0000_0000_0000_0000,
{
    div_floor((i + j) * 15227561361486735, 4294967296)
}

/// The three corners of one triangle, summed.
fn corners(perm_table: &PermTable, base_x: u8, base_y: u8, rel_x: i128, rel_y: i128) -> (sum: i64)
    requires
        -0x4_0000_0000_0000_0000 <= rel_x <= 0x4_0000_0000_0000_0000,
        -0x4_0000_0000_0000_0000 <= rel_y <= 0x4_0000_0000_0000_0000,
    ensures
        sum as int == corners_spec(perm_table@, base_x, base_y, rel_x as int, rel_y as int),
        -6291456 <= sum <= 6291456,
{
    let first = simplex_factor_2(perm_table, base_x, base_y, rel_x, rel_y);
    let middle = if rel_x > rel_y {
        simplex_factor_2(
            perm_table,
            base_x.wrapping_add(1),
            base_y,
            rel_x - 16777216 + 3545442,
            rel_y + 3545442,
        )
    } else {
        simplex_factor_2(
            perm_table,
            base_x,
            base_y.wrapping_add(1),
            rel_x + 3545442,
            rel_y - 16777216 + 3545442,
        )
    };
    let last = simplex_factor_2(
        perm_table,
        base_x.wrapping_add(1),
        base_y.wrapping_add(1),
        rel_x - 16777216 + 2 * 3545442,
        rel_y - 16777216 + 2 * 3545442,
    );
    first + middle + last
}

/// Simplex noise at the point `(x, y)`. Its absolute value is at most
/// [`SIMPLEX_BOUND`].
pub fn simplex_2(perm_table: &PermTable, x: Fixed, y: Fixed) -> (value: Fixed)
    ensures
        value as int == simplex_spec(perm_table@, x as int, y as int),
        -SIMPLEX_BOUND <= value <= SIMPLEX_BOUND,
{
    let s: i128 = skew(x, y);
    let i: i128 = cell(x, s);
    let j: i128 = cell(y, s);
    let u: i128 = unskew(i, j);
    let rel_x: i128 = x as i128 - i * 16777216 + u;
    let rel_y: i128 = y as i128 - j * 16777216 + u;
    let base_x: u8 = mod_floor(i, 256) as u8;
    let base_y: u8 = mod_floor(j, 256) as u8;
    70 * corners(perm_table, base_x, base_y, rel_x, rel_y)
}

} // verus!
