//! The tile map: a rectangular grid of small unsigned tile identifiers.
//!
//! A tile of 0 is empty space; any nonzero tile is a wall material. A
//! well-formed map is rectangular and enclosed by a nonzero border, which
//! is what guarantees that every ray cast from inside the map terminates.

use vstd::prelude::*;

verus! {

/// Largest accepted number of rows or of columns of a map.
pub const MAX_DIM: usize = 4096;

/// The rows of `cells`, each seen as a sequence of tiles.
pub open spec fn grid_view(cells: Seq<Vec<u8>>) -> Seq<Seq<u8>> {
    Seq::new(cells.len(), |i: int| cells[i]@)
}

/// Every row of `g` has exactly `cols` tiles.
pub open spec fn rectangular(g: Seq<Seq<u8>>, cols: int) -> bool {
    forall|i: int| 0 <= i < g.len() ==> #[trigger] g[i].len() == cols
}

/// Every cell on the outer border of `g` holds a wall (a nonzero tile).
pub open spec fn border_walled(g: Seq<Seq<u8>>) -> bool {
    forall|i: int, j: int|
        0 <= i < g.len() && 0 <= j < g[i].len() && (i == 0 || i == g.len() - 1 || j == 0 || j
            == g[i].len() - 1) ==> #[trigger] g[i][j] != 0
}

/// A well-formed grid: bounded in both dimensions, rectangular, and
/// enclosed by a nonzero border.
pub open spec fn grid_wf(g: Seq<Seq<u8>>) -> bool {
    &&& 1 <= g.len() <= MAX_DIM
    &&& g.len() > 0 ==> 1 <= g[0].len() <= MAX_DIM
    &&& rectangular(g, g[0].len() as int)
    &&& border_walled(g)
}

/// A rectangular grid of tile identifiers, enclosed by a nonzero border.
pub struct GridMap {
    cells: Vec<Vec<u8>>,
}

impl View for GridMap {
    type V = Seq<Seq<u8>>;

    closed spec fn view(&self) -> Seq<Seq<u8>> {
        grid_view(self.cells@)
    }
}

impl GridMap {
    /// Well-formedness of the map.
    pub open spec fn wf(&self) -> bool {
        grid_wf(self@)
    }

    /// Number of rows.
    pub fn rows(&self) -> (r: usize)
        ensures
            r == self@.len(),
    {
        self.cells.len()
    }

    /// Number of columns.
    pub fn cols(&self) -> (r: usize)
        requires
            self@.len() > 0,
        ensures
            r == self@[0].len(),
    {
        self.cells[0].len()
    }

    /// The tile at column `x` of row `y`.
    pub fn tile(&self, x: usize, y: usize) -> (t: u8)
        requires
            0 <= y < self@.len(),
            0 <= x < self@[y as int].len(),
        ensures
            t == self@[y as int][x as int],
    {
        self.cells[y][x]
    }

    /// Builds a map from its rows, accepting exactly the well-formed grids:
    /// nonempty, no larger than `MAX_DIM` in either dimension, rectangular,
    /// and with a nonzero border.
    pub fn new(cells: Vec<Vec<u8>>) -> (r: Option<GridMap>)
        ensures
            r is Some <==> grid_wf(grid_view(cells@)),
            r is Some ==> r->Some_0@ == grid_view(cells@) && r->Some_0.wf(),
    {
        let ghost g = grid_view(cells@);
        let rows = cells.len();
        if rows < 1 || rows > MAX_DIM {
            return None;
        }
        let cols = cells[0].len();
        if cols < 1 || cols > MAX_DIM {
            return None;
        }
        let mut i: usize = 0;
        while i < rows
            invariant
                0 <= i <= rows,
                rows == g.len(),
                cols == g[0].len(),
                g == grid_view(cells@),
                forall|k: int| 0 <= k < i ==> #[trigger] g[k].len() == cols,
                forall|k: int, j: int|
                    0 <= k < i && 0 <= j < g[k].len() && (k == 0 || k == g.len() - 1 || j == 0 || j
                        == g[k].len() - 1) ==> #[trigger] g[k][j] != 0,
            decreases rows - i,
        {
            let row = &cells[i];
            if row.len() != cols {
                proof {
                    assert(g[i as int].len() != cols);
                    assert(!rectangular(g, g[0].len() as int));
                }
                return None;
            }
            let mut j: usize = 0;
            while j < cols
                invariant
                    0 <= j <= cols,
                    0 <= i < rows,
                    rows == g.len(),
                    cols == g[i as int].len(),
                    g == grid_view(cells@),
                    row == cells[i as int],
                    forall|l: int|
                        0 <= l < j && (i == 0 || i == g.len() - 1 || l == 0 || l == g[i as int].len()
                            - 1) ==> #[trigger] g[i as int][l] != 0,
                decreases cols - j,
            {
                if (i == 0 || i == rows - 1 || j == 0 || j == cols - 1) && row[j] == 0 {
                    return None;
                }
                j = j + 1;
            }
            i = i + 1;
        }
        let m = GridMap { cells };
        proof {
            assert(m@ == g);
        }
        Some(m)
    }
}

} // verus!
