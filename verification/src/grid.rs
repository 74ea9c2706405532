//! The lattice of sample points laid over the plane.
//!
//! The plane is centred on the origin. Along an axis of extent `e` the lattice
//! lines start at `-(e / 2)` and follow one another every `interval` units for
//! as long as they stay below `e / 2`. A sample point sits on every crossing of
//! a vertical with a horizontal line.

use vstd::prelude::*;
use vstd::arithmetic::div_mod::{
    lemma_fundamental_div_mod,
    lemma_fundamental_div_mod_converse,
    lemma_mod_bound,
};

verus! {

/// Width of the plane that the display shows, in whole units.
pub const WIDTH: i32 = 1000;

/// Height of the plane that the display shows, in whole units.
pub const HEIGHT: i32 = 500;

/// Distance between neighbouring sample points of the display.
pub const ARROW_INTERVAL: usize = 20;

/// A point of the plane with whole coordinates.
#[derive(Clone, Copy, Debug, PartialEq, Eq, Structural)]
pub struct GridPoint {
    pub x: i32,
    pub y: i32,
}

impl View for GridPoint {
    type V = (int, int);

    open spec fn view(&self) -> (int, int) {
        (self.x as int, self.y as int)
    }
}

/// Half of an axis extent, in whole units; an extent that is not positive has none.
pub open spec fn axis_half(extent: int) -> int {
    if extent > 0 {
        extent / 2
    } else {
        0
    }
}

/// The coordinate of the `k`-th line of the lattice along one axis.
pub open spec fn axis_coord(extent: int, interval: int, k: int) -> int {
    -axis_half(extent) + k * interval
}

/// How many lattice lines fit on an axis: those from `-half` up to, but not
/// including, `half`, one every `interval` units.
pub open spec fn axis_len(extent: int, interval: int) -> nat {
    if interval > 0 {
        ((2 * axis_half(extent) + interval - 1) / interval) as nat
    } else {
        0
    }
}

/// The lattice coordinates along one axis, in increasing order.
pub open spec fn axis_coords(extent: int, interval: int) -> Seq<int> {
    Seq::new(axis_len(extent, interval), |k: int| axis_coord(extent, interval, k))
}

/// The sample points of a plane of the given width and height: one for each
/// pair of a vertical and a horizontal lattice line, column after column from
/// the left, and within a column from the bottom up.
pub open spec fn lattice(width: int, height: int, interval: int) -> Seq<(int, int)> {
    let rows = axis_len(height, interval) as int;
    Seq::new(
        axis_len(width, interval) * axis_len(height, interval),
        |n: int| (axis_coord(width, interval, n / rows), axis_coord(height, interval, n % rows)),
    )
}

/// A line index is below `axis_len` exactly when its coordinate is below the
/// upper end of the axis.
pub proof fn lemma_axis_len_bounds_coords(extent: int, interval: int, k: int)
    requires
        interval > 0,
        k >= 0,
    ensures
        k < axis_len(extent, interval) <==> axis_coord(extent, interval, k) < axis_half(extent),
{
    let top = 2 * axis_half(extent) + interval - 1;
    let n = top / interval;
    lemma_fundamental_div_mod(top, interval);
    lemma_mod_bound(top, interval);
    assert(n >= 0) by (nonlinear_arith)
        requires
            top == interval * n + top % interval,
            0 <= top % interval < interval,
            top >= 0,
    ;
    if k < n {
        assert(k * interval <= n * interval - interval) by (nonlinear_arith)
            requires
                k <= n - 1,
                interval > 0,
        ;
    } else {
        assert(k * interval >= n * interval) by (nonlinear_arith)
            requires
                k >= n,
                interval > 0,
        ;
    }
    assert(interval * n == n * interval) by (nonlinear_arith);
}

/// The column and the row of the `n`-th sample point are in range.
proof fn lemma_lattice_index_splits(columns: int, rows: int, n: int)
    requires
        0 <= n < columns * rows,
        rows >= 0,
    ensures
        rows > 0,
        0 <= n / rows < columns,
        0 <= n % rows < rows,
        n == (n / rows) * rows + n % rows,
{
    assert(rows > 0) by (nonlinear_arith)
        requires
            0 <= n < columns * rows,
            rows >= 0,
    ;
    lemma_fundamental_div_mod(n, rows);
    lemma_mod_bound(n, rows);
    let q = n / rows;
    assert(rows * q == q * rows) by (nonlinear_arith);
    assert(0 <= q < columns) by (nonlinear_arith)
        requires
            n == q * rows + n % rows,
            0 <= n % rows < rows,
            0 <= n < columns * rows,
    ;
}

/// Every sample point lies on the plane: between `-half` and `half` along each
/// axis, the lower end included and the upper end not.
pub proof fn lemma_lattice_within_plane(width: int, height: int, interval: int, n: int)
    requires
        interval > 0,
        0 <= n < lattice(width, height, interval).len(),
    ensures
        -axis_half(width) <= lattice(width, height, interval)[n].0 < axis_half(width),
        -axis_half(height) <= lattice(width, height, interval)[n].1 < axis_half(height),
{
    let columns = axis_len(width, interval) as int;
    let rows = axis_len(height, interval) as int;
    lemma_lattice_index_splits(columns, rows, n);
    let i = n / rows;
    let j = n % rows;
    lemma_axis_len_bounds_coords(width, interval, i);
    lemma_axis_len_bounds_coords(height, interval, j);
    assert(i * interval >= 0 && j * interval >= 0) by (nonlinear_arith)
        requires
            i >= 0,
            j >= 0,
            interval > 0,
    ;
}

/// No two sample points share a position.
pub proof fn lemma_lattice_points_distinct(width: int, height: int, interval: int, m: int, n: int)
    requires
        interval > 0,
        0 <= m < n < lattice(width, height, interval).len(),
    ensures
        lattice(width, height, interval)[m] != lattice(width, height, interval)[n],
{
    let columns = axis_len(width, interval) as int;
    let rows = axis_len(height, interval) as int;
    lemma_lattice_index_splits(columns, rows, m);
    lemma_lattice_index_splits(columns, rows, n);
    if lattice(width, height, interval)[m] == lattice(width, height, interval)[n] {
        assert(m / rows == n / rows && m % rows == n % rows) by (nonlinear_arith)
            requires
                (m / rows) * interval == (n / rows) * interval,
                (m % rows) * interval == (n % rows) * interval,
                interval > 0,
        ;
    }
}

/// Whether the square cell that has `corner` as its lower left corner and
/// sides of `interval` units holds the point `(x, y)`.
pub open spec fn cell_holds(corner: (int, int), interval: int, x: int, y: int) -> bool {
    &&& corner.0 <= x < corner.0 + interval
    &&& corner.1 <= y < corner.1 + interval
}

/// The sample points cover the plane at the spacing asked for: every point of
/// the plane lies in the cell of some sample point.
pub proof fn lemma_lattice_covers_plane(width: int, height: int, interval: int, x: int, y: int)
    requires
        interval > 0,
        -axis_half(width) <= x < axis_half(width),
        -axis_half(height) <= y < axis_half(height),
    ensures
        exists|n: int|
            0 <= n < lattice(width, height, interval).len() && cell_holds(
                #[trigger] lattice(width, height, interval)[n],
                interval,
                x,
                y,
            ),
{
    let columns = axis_len(width, interval) as int;
    let rows = axis_len(height, interval) as int;
    let i = (x + axis_half(width)) / interval;
    let j = (y + axis_half(height)) / interval;
    lemma_fundamental_div_mod(x + axis_half(width), interval);
    lemma_mod_bound(x + axis_half(width), interval);
    lemma_fundamental_div_mod(y + axis_half(height), interval);
    lemma_mod_bound(y + axis_half(height), interval);
    assert(interval * i == i * interval && interval * j == j * interval) by (nonlinear_arith);
    assert(i >= 0 && j >= 0) by (nonlinear_arith)
        requires
            x + axis_half(width) == i * interval + (x + axis_half(width)) % interval,
            y + axis_half(height) == j * interval + (y + axis_half(height)) % interval,
            0 <= (x + axis_half(width)) % interval < interval,
            0 <= (y + axis_half(height)) % interval < interval,
            x + axis_half(width) >= 0,
            y + axis_half(height) >= 0,
    ;
    lemma_axis_len_bounds_coords(width, interval, i);
    lemma_axis_len_bounds_coords(height, interval, j);
    let n = i * rows + j;
    lemma_fundamental_div_mod_converse(n, rows, i, j);
    assert(0 <= n < columns * rows) by (nonlinear_arith)
        requires
            n == i * rows + j,
            0 <= i < columns,
            0 <= j < rows,
    ;
    assert(cell_holds(lattice(width, height, interval)[n], interval, x, y));
}

/// Lists the lattice coordinates along an axis of the given extent.
pub fn axis_coordinates(extent: i32, interval: usize) -> (coords: Vec<i32>)
    requires
        interval > 0,
    ensures
        coords@.len() == axis_coords(extent as int, interval as int).len(),
        forall|k: int|
            0 <= k < coords@.len() ==> #[trigger] coords@[k] == axis_coords(
                extent as int,
                interval as int,
            )[k],
{
    let mut coords: Vec<i32> = Vec::new();
    if extent >= 2 {
        let half: i32 = extent / 2;
        let mut x: i32 = -half;
        let ghost mut k: int = 0;
        loop
            invariant_except_break
                x == axis_coord(extent as int, interval as int, k),
                x < half,
                coords@.len() == k,
            invariant
                interval > 0,
                half == axis_half(extent as int),
                0 <= k <= axis_len(extent as int, interval as int),
                forall|j: int|
                    0 <= j < coords@.len() ==> coords@[j] == axis_coord(
                        extent as int,
                        interval as int,
                        j,
                    ),
            ensures
                coords@.len() == axis_len(extent as int, interval as int),
            decreases axis_len(extent as int, interval as int) - k,
        {
            proof {
                lemma_axis_len_bounds_coords(extent as int, interval as int, k);
                lemma_axis_len_bounds_coords(extent as int, interval as int, k + 1);
                assert((k + 1) * interval == k * interval + interval) by (nonlinear_arith);
            }
            coords.push(x);
            let room: u32 = (half as i64 - x as i64) as u32;
            if interval >= room as usize {
                break ;
            }
            x = x + interval as i32;
            proof {
                k = k + 1;
            }
        }
    } else {
        proof {
            lemma_axis_len_bounds_coords(extent as int, interval as int, 0);
        }
    }
    coords
}

/// Lists the sample points of a plane of the given width and height, centred
/// on the origin, with `interval` units between neighbouring points.
pub fn sample_positions(width: i32, height: i32, interval: usize) -> (points: Vec<GridPoint>)
    requires
        interval > 0,
    ensures
        points@.len() == lattice(width as int, height as int, interval as int).len(),
        forall|n: int|
            0 <= n < points@.len() ==> (#[trigger] points@[n])@ == lattice(
                width as int,
                height as int,
                interval as int,
            )[n],
{
    let xs = axis_coordinates(width, interval);
    let ys = axis_coordinates(height, interval);
    let ghost columns = axis_len(width as int, interval as int) as int;
    let ghost rows = axis_len(height as int, interval as int) as int;
    let ghost expected = lattice(width as int, height as int, interval as int);
    proof {
        assert(expected.len() == columns * rows);
    }
    let mut points: Vec<GridPoint> = Vec::new();
    let mut i: usize = 0;
    while i < xs.len()
        invariant
            xs@.len() == columns,
            ys@.len() == rows,
            0 <= i <= columns,
            rows == axis_len(height as int, interval as int),
            expected == lattice(width as int, height as int, interval as int),
            expected.len() == columns * rows,
            forall|a: int| 0 <= a < columns ==> xs@[a] == axis_coord(width as int, interval as int, a),
            forall|b: int| 0 <= b < rows ==> ys@[b] == axis_coord(height as int, interval as int, b),
            points@.len() == i * rows,
            forall|n: int| 0 <= n < points@.len() ==> (#[trigger] points@[n])@ == expected[n],
        decreases columns - i,
    {
        let mut j: usize = 0;
        while j < ys.len()
            invariant
                xs@.len() == columns,
                ys@.len() == rows,
                0 <= i < columns,
                0 <= j <= rows,
                rows == axis_len(height as int, interval as int),
                expected == lattice(width as int, height as int, interval as int),
                expected.len() == columns * rows,
                forall|a: int|
                    0 <= a < columns ==> xs@[a] == axis_coord(width as int, interval as int, a),
                forall|b: int|
                    0 <= b < rows ==> ys@[b] == axis_coord(height as int, interval as int, b),
                points@.len() == i * rows + j,
                forall|n: int| 0 <= n < points@.len() ==> (#[trigger] points@[n])@ == expected[n],
            decreases rows - j,
        {
            proof {
                let n = i * rows + j;
                lemma_fundamental_div_mod_converse(n, rows, i as int, j as int);
                assert(n < columns * rows) by (nonlinear_arith)
                    requires
                        n == i * rows + j,
                        0 <= i < columns,
                        0 <= j < rows,
                ;
                assert(expected[n] == (xs@[i as int] as int, ys@[j as int] as int));
            }
            points.push(GridPoint { x: xs[i], y: ys[j] });
            j = j + 1;
        }
        proof {
            assert((i + 1) * rows == i * rows + rows) by (nonlinear_arith);
        }
        i = i + 1;
    }
    points
}

} // verus!
