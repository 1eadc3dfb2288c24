//! Grids: the values along several axes spread over every combination of
//! them, the first axis varying slowest.
use vstd::prelude::*;
use crate::distribution::{Features, InitFeatures};

verus! {

/// Position of the pair (`row`, `col`) when rows of `width` entries are laid
/// out one after another.
pub open spec fn flat(width: int, row: int, col: int) -> int {
    row * width + col
}

pub proof fn lemma_flat_bound(width: int, row: int, col: int, rows: int)
    requires
        0 <= row < rows,
        0 <= col < width,
    ensures
        0 <= flat(width, row, col) < rows * width,
        flat(width, row, col) < (row + 1) * width,
        row * width <= flat(width, row, col),
{
    assert(row * width + width == (row + 1) * width) by (nonlinear_arith);
    assert((row + 1) * width <= rows * width) by (nonlinear_arith)
        requires
            row + 1 <= rows,
            0 <= width,
    ;
    assert(0 <= row * width) by (nonlinear_arith)
        requires
            0 <= row,
            0 <= width,
    ;
}

/// Every entry of `column` repeated `times` times in a row.
pub fn repeat_each<R: Copy>(column: &Vec<R>, times: usize) -> (out: Vec<R>)
    requires
        column@.len() * times <= usize::MAX,
    ensures
        out@.len() == column@.len() * times,
        forall|row: int, col: int|
            0 <= row < column@.len() && 0 <= col < times ==> #[trigger] out@[flat(
                times as int,
                row,
                col,
            )] == column@[row],
{
    let rows = column.len();
    let mut out: Vec<R> = Vec::new();
    let mut row: usize = 0;
    while row < rows
        invariant
            row <= rows,
            rows == column@.len(),
            out@.len() == row * times,
            forall|r: int, c: int|
                0 <= r < row && 0 <= c < times ==> #[trigger] out@[flat(times as int, r, c)]
                    == column@[r],
        decreases rows - row,
    {
        let mut col: usize = 0;
        while col < times
            invariant
                col <= times,
                row < rows,
                rows == column@.len(),
                out@.len() == row * times + col,
                forall|r: int, c: int|
                    0 <= r < row && 0 <= c < times ==> #[trigger] out@[flat(times as int, r, c)]
                        == column@[r],
                forall|c: int|
                    0 <= c < col ==> #[trigger] out@[flat(times as int, row as int, c)]
                        == column@[row as int],
            decreases times - col,
        {
            proof {
                assert forall|r: int, c: int| 0 <= r < row && 0 <= c < times implies flat(
                    times as int,
                    r,
                    c,
                ) < out@.len() by {
                    lemma_flat_bound(times as int, r, c, row as int);
                }
            }
            out.push(column[row]);
            col = col + 1;
        }
        proof {
            assert(row * times + times == (row + 1) * times) by (nonlinear_arith);
        }
        row = row + 1;
    }
    out
}

/// The whole of `axis`, `rows` times in a row.
pub fn tile<R: Copy>(axis: &Vec<R>, rows: usize) -> (out: Vec<R>)
    requires
        rows * axis@.len() <= usize::MAX,
    ensures
        out@.len() == rows * axis@.len(),
        forall|row: int, col: int|
            0 <= row < rows && 0 <= col < axis@.len() ==> #[trigger] out@[flat(
                axis@.len() as int,
                row,
                col,
            )] == axis@[col],
{
    let width = axis.len();
    let mut out: Vec<R> = Vec::new();
    let mut row: usize = 0;
    while row < rows
        invariant
            row <= rows,
            width == axis@.len(),
            out@.len() == row * width,
            forall|r: int, c: int|
                0 <= r < row && 0 <= c < width ==> #[trigger] out@[flat(width as int, r, c)]
                    == axis@[c],
        decreases rows - row,
    {
        let mut col: usize = 0;
        while col < width
            invariant
                col <= width,
                row < rows,
                width == axis@.len(),
                out@.len() == row * width + col,
                forall|r: int, c: int|
                    0 <= r < row && 0 <= c < width ==> #[trigger] out@[flat(width as int, r, c)]
                        == axis@[c],
                forall|c: int|
                    0 <= c < col ==> #[trigger] out@[flat(width as int, row as int, c)] == axis@[c],
            decreases width - col,
        {
            proof {
                assert forall|r: int, c: int| 0 <= r < row && 0 <= c < width implies flat(
                    width as int,
                    r,
                    c,
                ) < out@.len() by {
                    lemma_flat_bound(width as int, r, c, row as int);
                }
            }
            out.push(axis[col]);
            col = col + 1;
        }
        proof {
            assert(row * width + width == (row + 1) * width) by (nonlinear_arith);
        }
        row = row + 1;
    }
    out
}

/// The grid over two axes: entry `flat(ny, a, b)` of the first column is
/// `x[a]`, and of the second `y[b]`.
pub fn hyper_mesh_2<R: Copy>(xy_spaces: InitFeatures<R>) -> (grid: Features<R>)
    requires
        xy_spaces@.len() == 2,
        xy_spaces@[0]@.len() * xy_spaces@[1]@.len() <= usize::MAX,
    ensures
        grid@.len() == 2,
        grid@[0]@.len() == xy_spaces@[0]@.len() * xy_spaces@[1]@.len(),
        grid@[1]@.len() == xy_spaces@[0]@.len() * xy_spaces@[1]@.len(),
        forall|a: int, b: int|
            0 <= a < xy_spaces@[0]@.len() && 0 <= b < xy_spaces@[1]@.len() ==> {
                let at = #[trigger] flat(xy_spaces@[1]@.len() as int, a, b);
                &&& grid@[0]@[at] == xy_spaces@[0]@[a]
                &&& grid@[1]@[at] == xy_spaces@[1]@[b]
            },
{
    let x_grid = repeat_each(&xy_spaces[0], xy_spaces[1].len());
    let y_grid = tile(&xy_spaces[1], xy_spaces[0].len());
    let mut grid: Vec<Vec<R>> = Vec::new();
    grid.push(x_grid);
    grid.push(y_grid);
    grid
}

/// The grid over three axes: entry `flat(nz, flat(ny, a, b), c)` of the three
/// columns is `x[a]`, `y[b]` and `z[c]`.
pub fn hyper_mesh_3<R: Copy>(xyz_spaces: InitFeatures<R>) -> (grid: Features<R>)
    requires
        xyz_spaces@.len() == 3,
        xyz_spaces@[0]@.len() * xyz_spaces@[1]@.len() <= usize::MAX,
        xyz_spaces@[0]@.len() * xyz_spaces@[1]@.len() * xyz_spaces@[2]@.len() <= usize::MAX,
    ensures
        grid@.len() == 3,
        forall|k: int|
            0 <= k < 3 ==> (#[trigger] grid@[k])@.len() == xyz_spaces@[0]@.len()
                * xyz_spaces@[1]@.len() * xyz_spaces@[2]@.len(),
        forall|a: int, b: int, c: int|
            0 <= a < xyz_spaces@[0]@.len() && 0 <= b < xyz_spaces@[1]@.len() && 0 <= c
                < xyz_spaces@[2]@.len() ==> {
                let at = #[trigger] flat(
                    xyz_spaces@[2]@.len() as int,
                    flat(xyz_spaces@[1]@.len() as int, a, b),
                    c,
                );
                &&& grid@[0]@[at] == xyz_spaces@[0]@[a]
                &&& grid@[1]@[at] == xyz_spaces@[1]@[b]
                &&& grid@[2]@[at] == xyz_spaces@[2]@[c]
            },
{
    let nx = xyz_spaces[0].len();
    let ny = xyz_spaces[1].len();
    let nz = xyz_spaces[2].len();
    let x_plane = repeat_each(&xyz_spaces[0], ny);
    let y_plane = tile(&xyz_spaces[1], nx);
    let x_grid = repeat_each(&x_plane, nz);
    let y_grid = repeat_each(&y_plane, nz);
    let z_grid = tile(&xyz_spaces[2], nx * ny);
    proof {
        assert forall|a: int, b: int, c: int| 0 <= a < nx && 0 <= b < ny && 0 <= c < nz implies {
            let at = #[trigger] flat(nz as int, flat(ny as int, a, b), c);
            &&& x_grid@[at] == xyz_spaces@[0]@[a]
            &&& y_grid@[at] == xyz_spaces@[1]@[b]
            &&& z_grid@[at] == xyz_spaces@[2]@[c]
        } by {
            lemma_flat_bound(ny as int, a, b, nx as int);
        }
    }
    let mut grid: Vec<Vec<R>> = Vec::new();
    grid.push(x_grid);
    grid.push(y_grid);
    grid.push(z_grid);
    grid
}

/// The grid over four axes: entry `flat(nw, flat(nz, flat(ny, a, b), c), d)`
/// of the four columns is `x[a]`, `y[b]`, `z[c]` and `w[d]`.
pub fn hyper_mesh_4<R: Copy>(xyzw_spaces: InitFeatures<R>) -> (grid: Features<R>)
    requires
        xyzw_spaces@.len() == 4,
        xyzw_spaces@[0]@.len() * xyzw_spaces@[1]@.len() <= usize::MAX,
        xyzw_spaces@[0]@.len() * xyzw_spaces@[1]@.len() * xyzw_spaces@[2]@.len() <= usize::MAX,
        xyzw_spaces@[0]@.len() * xyzw_spaces@[1]@.len() * xyzw_spaces@[2]@.len()
            * xyzw_spaces@[3]@.len() <= usize::MAX,
    ensures
        grid@.len() == 4,
        forall|k: int|
            0 <= k < 4 ==> (#[trigger] grid@[k])@.len() == xyzw_spaces@[0]@.len()
                * xyzw_spaces@[1]@.len() * xyzw_spaces@[2]@.len() * xyzw_spaces@[3]@.len(),
        forall|a: int, b: int, c: int, d: int|
            0 <= a < xyzw_spaces@[0]@.len() && 0 <= b < xyzw_spaces@[1]@.len() && 0 <= c
                < xyzw_spaces@[2]@.len() && 0 <= d < xyzw_spaces@[3]@.len() ==> {
                let at = #[trigger] flat(
                    xyzw_spaces@[3]@.len() as int,
                    flat(
                        xyzw_spaces@[2]@.len() as int,
                        flat(xyzw_spaces@[1]@.len() as int, a, b),
                        c,
                    ),
                    d,
                );
                &&& grid@[0]@[at] == xyzw_spaces@[0]@[a]
                &&& grid@[1]@[at] == xyzw_spaces@[1]@[b]
                &&& grid@[2]@[at] == xyzw_spaces@[2]@[c]
                &&& grid@[3]@[at] == xyzw_spaces@[3]@[d]
            },
{
    let nx = xyzw_spaces[0].len();
    let ny = xyzw_spaces[1].len();
    let nz = xyzw_spaces[2].len();
    let nw = xyzw_spaces[3].len();
    let x_plane = repeat_each(&xyzw_spaces[0], ny);
    let y_plane = tile(&xyzw_spaces[1], nx);
    let x_cube = repeat_each(&x_plane, nz);
    let y_cube = repeat_each(&y_plane, nz);
    let z_cube = tile(&xyzw_spaces[2], nx * ny);
    let x_grid = repeat_each(&x_cube, nw);
    let y_grid = repeat_each(&y_cube, nw);
    let z_grid = repeat_each(&z_cube, nw);
    let w_grid = tile(&xyzw_spaces[3], nx * ny * nz);
    proof {
        assert forall|a: int, b: int, c: int, d: int|
            0 <= a < nx && 0 <= b < ny && 0 <= c < nz && 0 <= d < nw implies {
            let at = #[trigger] flat(
                nw as int,
                flat(nz as int, flat(ny as int, a, b), c),
                d,
            );
            &&& x_grid@[at] == xyzw_spaces@[0]@[a]
            &&& y_grid@[at] == xyzw_spaces@[1]@[b]
            &&& z_grid@[at] == xyzw_spaces@[2]@[c]
            &&& w_grid@[at] == xyzw_spaces@[3]@[d]
        } by {
            lemma_flat_bound(ny as int, a, b, nx as int);
            lemma_flat_bound(nz as int, flat(ny as int, a, b), c, nx * ny);
        }
    }
    let mut grid: Vec<Vec<R>> = Vec::new();
    grid.push(x_grid);
    grid.push(y_grid);
    grid.push(z_grid);
    grid.push(w_grid);
    grid
}

/// The position in the grid of the combination that takes value
/// `digits[m]` from an axis of `lengths[m]` values, for the first `k` axes:
/// the last axis varies fastest.
pub open spec fn cell_index(lengths: Seq<int>, digits: Seq<int>, k: nat) -> int
    decreases k,
{
    if k == 0 {
        0
    } else {
        cell_index(lengths, digits, (k - 1) as nat) * lengths[k - 1] + digits[k - 1]
    }
}

/// Whether `digits` names one value of each axis.
pub open spec fn is_cell(lengths: Seq<int>, digits: Seq<int>) -> bool {
    &&& digits.len() == lengths.len()
    &&& forall|m: int| 0 <= m < lengths.len() ==> 0 <= #[trigger] digits[m] < lengths[m]
}

/// The number of values along each axis.
pub open spec fn axis_lengths<R>(axes: Seq<Vec<R>>) -> Seq<int> {
    Seq::new(axes.len(), |m: int| axes[m]@.len() as int)
}

/// Whether `grid` holds, for every combination of one value from each axis,
/// that value of each axis at the combination's position.
pub open spec fn is_grid_of<R>(grid: Seq<Vec<R>>, axes: Seq<Vec<R>>) -> bool {
    &&& grid.len() == axes.len()
    &&& forall|digits: Seq<int>, m: int|
        #![trigger cell_index(axis_lengths(axes), digits, axes.len()), grid[m]]
        is_cell(axis_lengths(axes), digits) && 0 <= m < axes.len() ==> 0 <= cell_index(
            axis_lengths(axes),
            digits,
            axes.len(),
        ) < grid[m]@.len() && grid[m]@[cell_index(axis_lengths(axes), digits, axes.len())]
            == axes[m]@[digits[m]]
}

/// Whether the grid over these axes can be held: there are at most four
/// axes, and the number of combinations fits the machine's word.
pub open spec fn grid_fits<R>(axes: Seq<Vec<R>>) -> bool {
    &&& axes.len() <= 4
    &&& axes.len() >= 2 ==> axes[0]@.len() * axes[1]@.len() <= usize::MAX
    &&& axes.len() >= 3 ==> axes[0]@.len() * axes[1]@.len() * axes[2]@.len() <= usize::MAX
    &&& axes.len() >= 4 ==> axes[0]@.len() * axes[1]@.len() * axes[2]@.len() * axes[3]@.len()
        <= usize::MAX
}

/// Number of combinations of one value from each axis.
pub open spec fn grid_size<R>(axes: Seq<Vec<R>>) -> int
    decreases axes.len(),
{
    if axes.len() == 0 {
        1
    } else {
        grid_size(axes.drop_last()) * axes.last()@.len()
    }
}

/// The number of combinations of up to four axes, written out.
pub proof fn lemma_grid_size<R>(axes: Seq<Vec<R>>)
    requires
        axes.len() <= 4,
    ensures
        axes.len() == 0 ==> grid_size(axes) == 1,
        axes.len() == 1 ==> grid_size(axes) == axes[0]@.len(),
        axes.len() == 2 ==> grid_size(axes) == axes[0]@.len() * axes[1]@.len(),
        axes.len() == 3 ==> grid_size(axes) == axes[0]@.len() * axes[1]@.len() * axes[2]@.len(),
        axes.len() == 4 ==> grid_size(axes) == axes[0]@.len() * axes[1]@.len() * axes[2]@.len()
            * axes[3]@.len(),
{
    reveal_with_fuel(grid_size, 5);
    if axes.len() >= 1 {
        assert(axes.drop_last().len() == axes.len() - 1);
    }
    if axes.len() == 2 {
        assert(axes.drop_last().drop_last().len() == 0);
    }
    if axes.len() == 3 {
        assert(axes.drop_last().drop_last().drop_last().len() == 0);
    }
    if axes.len() == 4 {
        assert(axes.drop_last().drop_last().drop_last().drop_last().len() == 0);
    }
}

/// Spreads the values along up to four axes over the grid of all their
/// combinations, one column per axis. A single axis, or none, is handed back
/// as it is.
pub fn hyper_mesh_grid<R: Copy>(meshes_init: InitFeatures<R>) -> (grid: Features<R>)
    requires
        grid_fits(meshes_init@),
    ensures
        grid@.len() == meshes_init@.len(),
        meshes_init@.len() <= 1 ==> grid == meshes_init,
        forall|k: int|
            0 <= k < grid@.len() ==> (#[trigger] grid@[k])@.len() == grid_size(meshes_init@),
        is_grid_of(grid@, meshes_init@),
{
    let ghost lengths = axis_lengths(meshes_init@);
    proof {
        lemma_grid_size(meshes_init@);
    }
    let ghost axes = meshes_init@;
    let grid = match meshes_init.len() {
        0 | 1 => meshes_init,
        2 => hyper_mesh_2(meshes_init),
        3 => hyper_mesh_3(meshes_init),
        _ => hyper_mesh_4(meshes_init),
    };
    proof {
        reveal_with_fuel(cell_index, 5);
        assert forall|digits: Seq<int>, m: int|
            #![trigger cell_index(lengths, digits, axes.len()), grid@[m]]
            is_cell(lengths, digits) && 0 <= m < axes.len() implies 0 <= cell_index(
            lengths,
            digits,
            axes.len(),
        ) < grid@[m]@.len() && grid@[m]@[cell_index(lengths, digits, axes.len())]
            == axes[m]@[digits[m]] by {
            let at = cell_index(lengths, digits, axes.len());
            assert(forall|j: int| 0 <= j < axes.len() ==> lengths[j] == axes[j]@.len());
            if axes.len() == 1 {
                assert(0 <= digits[0] < lengths[0]);
                assert(at == digits[0]);
            } else if axes.len() == 2 {
                assert(0 <= digits[0] < lengths[0] && 0 <= digits[1] < lengths[1]);
                assert(at == flat(lengths[1], digits[0], digits[1]));
                lemma_flat_bound(lengths[1], digits[0], digits[1], lengths[0]);
            } else if axes.len() == 3 {
                assert(0 <= digits[0] < lengths[0] && 0 <= digits[1] < lengths[1] && 0
                    <= digits[2] < lengths[2]);
                let plane = flat(lengths[1], digits[0], digits[1]);
                assert(at == flat(lengths[2], plane, digits[2]));
                lemma_flat_bound(lengths[1], digits[0], digits[1], lengths[0]);
                lemma_flat_bound(lengths[2], plane, digits[2], lengths[0] * lengths[1]);
            } else {
                assert(0 <= digits[0] < lengths[0] && 0 <= digits[1] < lengths[1] && 0
                    <= digits[2] < lengths[2] && 0 <= digits[3] < lengths[3]);
                let plane = flat(lengths[1], digits[0], digits[1]);
                let cube = flat(lengths[2], plane, digits[2]);
                assert(at == flat(lengths[3], cube, digits[3]));
                lemma_flat_bound(lengths[1], digits[0], digits[1], lengths[0]);
                lemma_flat_bound(lengths[2], plane, digits[2], lengths[0] * lengths[1]);
                lemma_flat_bound(
                    lengths[3],
                    cube,
                    digits[3],
                    lengths[0] * lengths[1] * lengths[2],
                );
            }
        }
    }
    grid
}

} // verus!
