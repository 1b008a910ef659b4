//! The board: a rectangular array of cells with bounds-checked access
//! and eight-neighbor lookup clipped at edges and corners.

use vstd::prelude::*;

use crate::cell::{Cell, Team};
use crate::indexer::Indexer;

verus! {

/// A grid view is rectangular, at least 2 x 2, and narrow enough that any
/// coordinate (plus one step outward) fits in `isize`.
pub open spec fn grid_wf(g: Seq<Seq<Cell>>) -> bool {
    &&& 2 <= g.len() <= isize::MAX as int
    &&& 2 <= g[0].len() <= isize::MAX as int
    &&& forall|x: int| 0 <= x < g.len() ==> #[trigger] g[x].len() == g[0].len()
}

/// Whether (x, y) indexes a cell of the grid view `g`.
pub open spec fn grid_in_bounds(g: Seq<Seq<Cell>>, x: int, y: int) -> bool {
    0 <= x < g.len() && 0 <= y < g[0].len()
}

/// The grid view `g` with the cell at (x, y) replaced by `c`.
pub open spec fn grid_update(g: Seq<Seq<Cell>>, x: int, y: int, c: Cell) -> Seq<Seq<Cell>> {
    g.update(x, g[x].update(y, c))
}

/// The cell at (x, y) as a sequence: one element when (x, y) is on the
/// grid, empty when it is not.
pub open spec fn cell_window(g: Seq<Seq<Cell>>, x: int, y: int) -> Seq<Cell> {
    if grid_in_bounds(g, x, y) {
        seq![g[x][y]]
    } else {
        Seq::empty()
    }
}

/// The cells surrounding (cx, cy), in the order the lookup visits them:
/// the column to the left, then the center column without (cx, cy) itself,
/// then the column to the right; positions off the grid are skipped.
pub open spec fn neighbors_seq(g: Seq<Seq<Cell>>, cx: int, cy: int) -> Seq<Cell> {
    cell_window(g, cx - 1, cy - 1) + cell_window(g, cx - 1, cy) + cell_window(g, cx - 1, cy + 1)
        + cell_window(g, cx, cy - 1) + cell_window(g, cx, cy + 1) + cell_window(g, cx + 1, cy - 1)
        + cell_window(g, cx + 1, cy) + cell_window(g, cx + 1, cy + 1)
}

/// Whether (x, y) is one of the grid's four corner cells.
pub open spec fn is_corner(g: Seq<Seq<Cell>>, x: int, y: int) -> bool {
    grid_in_bounds(g, x, y) && (x == 0 || x == g.len() - 1) && (y == 0 || y == g[0].len() - 1)
}

/// Whether (x, y) lies on the grid's rim but not in a corner.
pub open spec fn is_edge(g: Seq<Seq<Cell>>, x: int, y: int) -> bool {
    grid_in_bounds(g, x, y) && (x == 0 || x == g.len() - 1 || y == 0 || y == g[0].len() - 1)
        && !is_corner(g, x, y)
}

/// Whether (x, y) touches no rim of the grid.
pub open spec fn is_interior(g: Seq<Seq<Cell>>, x: int, y: int) -> bool {
    1 <= x < g.len() - 1 && 1 <= y < g[0].len() - 1
}

/// Clipping at the rim leaves an interior cell exactly eight neighbors,
/// a non-corner edge cell exactly five, and a corner cell exactly three;
/// no in-bounds coordinate sees any other count.
pub proof fn lemma_neighbor_count(g: Seq<Seq<Cell>>, x: int, y: int)
    requires
        grid_wf(g),
        grid_in_bounds(g, x, y),
    ensures
        neighbors_seq(g, x, y).len() == 3 || neighbors_seq(g, x, y).len() == 5 || neighbors_seq(
            g,
            x,
            y,
        ).len() == 8,
        is_interior(g, x, y) ==> neighbors_seq(g, x, y).len() == 8,
        is_edge(g, x, y) ==> neighbors_seq(g, x, y).len() == 5,
        is_corner(g, x, y) ==> neighbors_seq(g, x, y).len() == 3,
{
}

/// The board itself: `cells[x][y]` is the cell in column x, row y.
pub struct Cells {
    cells: Vec<Vec<Cell>>,
}

impl View for Cells {
    type V = Seq<Seq<Cell>>;

    closed spec fn view(&self) -> Seq<Seq<Cell>> {
        self.cells@.map_values(|col: Vec<Cell>| col@)
    }
}

impl Cells {
    /// A valid board: rectangular and at least 2 x 2.
    pub open spec fn wf(self) -> bool {
        grid_wf(self@)
    }

    /// Number of columns.
    pub open spec fn spec_width(self) -> int {
        self@.len() as int
    }

    /// Number of rows.
    pub open spec fn spec_height(self) -> int {
        self@[0].len() as int
    }

    /// A fresh board of `width` x `height` cells, all dead and Neutral.
    pub fn new(width: usize, height: usize) -> (r: Cells)
        requires
            2 <= width <= isize::MAX as usize,
            2 <= height <= isize::MAX as usize,
        ensures
            r.wf(),
            r.spec_width() == width,
            r.spec_height() == height,
            forall|x: int, y: int|
                0 <= x < width && 0 <= y < height ==> #[trigger] r@[x][y] == (Cell {
                    alive: false,
                    team: Team::Neutral,
                }),
    {
        let mut cols: Vec<Vec<Cell>> = Vec::new();
        let mut x: usize = 0;
        while x < width
            invariant
                x <= width,
                2 <= height,
                cols@.len() == x,
                forall|i: int|
                    0 <= i < x ==> (#[trigger] cols@[i])@.len() == height && forall|j: int|
                        0 <= j < height ==> cols@[i]@[j] == (Cell {
                            alive: false,
                            team: Team::Neutral,
                        }),
            decreases width - x,
        {
            let mut col: Vec<Cell> = Vec::new();
            let mut y: usize = 0;
            while y < height
                invariant
                    y <= height,
                    col@.len() == y,
                    forall|j: int|
                        0 <= j < y ==> #[trigger] col@[j] == (Cell {
                            alive: false,
                            team: Team::Neutral,
                        }),
                decreases height - y,
            {
                col.push(Cell::new());
                y = y + 1;
            }
            cols.push(col);
            x = x + 1;
        }
        let r = Cells { cells: cols };
        proof {
            assert(forall|i: int| 0 <= i < width ==> #[trigger] r@[i] == cols@[i]@);
        }
        r
    }

    /// The cell at (x, y), or nothing when either coordinate is negative
    /// or reaches past the board.
    pub fn get<T: Indexer>(&self, x: T, y: T) -> (r: Option<Cell>)
        requires
            self.wf(),
        ensures
            grid_in_bounds(self@, x.value(), y.value()) ==> r == Some(
                self@[x.value()][y.value()],
            ),
            !grid_in_bounds(self@, x.value(), y.value()) ==> r is None,
    {
        if x.is_negative() || y.is_negative() {
            return None;
        }
        proof {
            x.lemma_value_fits();
            y.lemma_value_fits();
        }
        let xu = x.as_usize();
        let yu = y.as_usize();
        if xu >= self.cells.len() || yu >= self.cells[0].len() {
            None
        } else {
            proof {
                assert(self@[xu as int] == self.cells@[xu as int]@);
                assert(self@[0] == self.cells@[0]@);
            }
            Some(self.cells[xu][yu])
        }
    }

    /// A mutable borrow of the cell at (x, y), or nothing when either
    /// coordinate is negative or reaches past the board.
    pub fn get_mut<T: Indexer>(&mut self, x: T, y: T) -> (r: Option<&mut Cell>)
        requires
            old(self).wf(),
        ensures
            grid_in_bounds(old(self)@, x.value(), y.value()) ==> (r matches Some(m) && *m == old(
                self,
            )@[x.value()][y.value()] && final(self)@ == grid_update(
                old(self)@,
                x.value(),
                y.value(),
                *final(m),
            )),
            !grid_in_bounds(old(self)@, x.value(), y.value()) ==> (r is None && final(self)@ == old(
                self,
            )@),
    {
        if x.is_negative() || y.is_negative() {
            return None;
        }
        proof {
            x.lemma_value_fits();
            y.lemma_value_fits();
        }
        let xu = x.as_usize();
        let yu = y.as_usize();
        if xu >= self.cells.len() || yu >= self.cells[0].len() {
            None
        } else {
            proof {
                assert(self@[xu as int] == self.cells@[xu as int]@);
                assert(self@[0] == self.cells@[0]@);
            }
            Some(&mut self.cells[xu][yu])
        }
    }

    /// Append to `out` the cell at (x, y), or nothing when (x, y) is off
    /// the board.
    fn push_window(&self, out: &mut Vec<Cell>, x: isize, y: isize)
        requires
            self.wf(),
        ensures
            final(out)@ == old(out)@ + cell_window(self@, x as int, y as int),
    {
        if let Some(c) = self.get(x, y) {
            out.push(c);
        }
        proof {
            assert(out@ =~= old(out)@ + cell_window(self@, x as int, y as int));
        }
    }

    /// The cells surrounding (cx, cy): all eight for an interior cell,
    /// five along an edge, three in a corner.
    pub fn get_neighbors(&self, cx: usize, cy: usize) -> (r: Vec<Cell>)
        requires
            self.wf(),
            cx < self.spec_width(),
            cy < self.spec_height(),
        ensures
            r@ == neighbors_seq(self@, cx as int, cy as int),
            r@.len() == 3 || r@.len() == 5 || r@.len() == 8,
            is_interior(self@, cx as int, cy as int) ==> r@.len() == 8,
            is_edge(self@, cx as int, cy as int) ==> r@.len() == 5,
            is_corner(self@, cx as int, cy as int) ==> r@.len() == 3,
    {
        let cxi = cx as isize;
        let cyi = cy as isize;
        let mut neighbors: Vec<Cell> = Vec::new();
        self.push_window(&mut neighbors, cxi - 1, cyi - 1);
        self.push_window(&mut neighbors, cxi - 1, cyi);
        self.push_window(&mut neighbors, cxi - 1, cyi + 1);
        self.push_window(&mut neighbors, cxi, cyi - 1);
        self.push_window(&mut neighbors, cxi, cyi + 1);
        self.push_window(&mut neighbors, cxi + 1, cyi - 1);
        self.push_window(&mut neighbors, cxi + 1, cyi);
        self.push_window(&mut neighbors, cxi + 1, cyi + 1);
        proof {
            assert(neighbors@ =~= neighbors_seq(self@, cx as int, cy as int));
            lemma_neighbor_count(self@, cx as int, cy as int);
        }
        neighbors
    }

    /// A copy of the board: the buffer a tick writes into, and the
    /// backing of a traversal.
    pub fn snapshot(&self) -> (r: Cells)
        ensures
            r@ == self@,
    {
        let mut cols: Vec<Vec<Cell>> = Vec::new();
        let mut x: usize = 0;
        while x < self.cells.len()
            invariant
                x <= self.cells@.len(),
                cols@.len() == x,
                forall|i: int| 0 <= i < x ==> (#[trigger] cols@[i])@ == self.cells@[i]@,
            decreases self.cells@.len() - x,
        {
            let mut col: Vec<Cell> = Vec::new();
            let mut y: usize = 0;
            while y < self.cells[x].len()
                invariant
                    x < self.cells@.len(),
                    y <= self.cells@[x as int]@.len(),
                    col@.len() == y,
                    forall|j: int| 0 <= j < y ==> #[trigger] col@[j] == self.cells@[x as int]@[j],
                decreases self.cells@[x as int]@.len() - y,
            {
                col.push(self.cells[x][y]);
                y = y + 1;
            }
            proof {
                assert(col@ =~= self.cells@[x as int]@);
            }
            cols.push(col);
            x = x + 1;
        }
        let r = Cells { cells: cols };
        proof {
            assert(r@ =~~= self@);
        }
        r
    }

    /// A fresh traversal of the board as it stands now: every position
    /// with its cell, x varying fastest.
    pub fn iter(&self) -> (r: CellsIterator)
        requires
            self.wf(),
        ensures
            r.wf(),
            r.grid() == self@,
            r.spec_x() == 0,
            r.spec_y() == 0,
    {
        CellsIterator::new(self)
    }

    /// Replace the cell at (x, y); a write whose coordinates miss the
    /// board in either dimension is silently ignored.
    pub fn set<T: Indexer>(&mut self, x: T, y: T, new_cell: Cell)
        requires
            old(self).wf(),
        ensures
            final(self).wf(),
            final(self).spec_width() == old(self).spec_width(),
            final(self).spec_height() == old(self).spec_height(),
            grid_in_bounds(old(self)@, x.value(), y.value()) ==> final(self)@ == grid_update(
                old(self)@,
                x.value(),
                y.value(),
                new_cell,
            ),
            !grid_in_bounds(old(self)@, x.value(), y.value()) ==> final(self)@ == old(self)@,
    {
        if x.is_negative() || y.is_negative() {
            return ;
        }
        proof {
            x.lemma_value_fits();
            y.lemma_value_fits();
        }
        let xu = x.as_usize();
        let yu = y.as_usize();
        if xu < self.cells.len() && yu < self.cells[0].len() {
            proof {
                assert(self@[xu as int] == self.cells@[xu as int]@);
                assert(self@[0] == self.cells@[0]@);
            }
            self.cells[xu][yu] = new_cell;
            proof {
                assert(self@ =~~= grid_update(old(self)@, x.value(), y.value(), new_cell));
            }
        }
    }
}

/// A traversal of a snapshot of the board, position by position: x
/// varies fastest, and the traversal ends once y has walked past the
/// last row.
pub struct CellsIterator {
    x: usize,
    y: usize,
    cells: Cells,
}

impl CellsIterator {
    /// The column the traversal will yield next.
    pub closed spec fn spec_x(self) -> int {
        self.x as int
    }

    /// The row the traversal will yield next.
    pub closed spec fn spec_y(self) -> int {
        self.y as int
    }

    /// The snapshot being walked.
    pub closed spec fn grid(self) -> Seq<Seq<Cell>> {
        self.cells@
    }

    /// A live traversal: its snapshot is a valid board and its position
    /// is on the board or just past the last row.
    pub open spec fn wf(self) -> bool {
        &&& grid_wf(self.grid())
        &&& 0 <= self.spec_x() < self.grid().len()
        &&& 0 <= self.spec_y() <= self.grid()[0].len()
    }

    fn new(cells: &Cells) -> (r: CellsIterator)
        requires
            cells.wf(),
        ensures
            r.wf(),
            r.grid() == cells@,
            r.spec_x() == 0,
            r.spec_y() == 0,
    {
        CellsIterator { x: 0, y: 0, cells: cells.snapshot() }
    }

    /// The next position and its cell, or nothing once every cell of the
    /// snapshot has been yielded.
    pub fn next(&mut self) -> (r: Option<(usize, usize, Cell)>)
        requires
            old(self).wf(),
        ensures
            final(self).wf(),
            final(self).grid() == old(self).grid(),
            old(self).spec_y() == old(self).grid()[0].len() ==> r is None && final(self).spec_x()
                == old(self).spec_x() && final(self).spec_y() == old(self).spec_y(),
            old(self).spec_y() < old(self).grid()[0].len() ==> match r {
                Some(t) => {
                    &&& t.0 == old(self).spec_x()
                    &&& t.1 == old(self).spec_y()
                    &&& t.2 == old(self).grid()[t.0 as int][t.1 as int]
                },
                None => false,
            },
            old(self).spec_y() < old(self).grid()[0].len() ==> {
                if old(self).spec_x() + 1 < old(self).grid().len() {
                    final(self).spec_x() == old(self).spec_x() + 1 && final(self).spec_y() == old(
                        self,
                    ).spec_y()
                } else {
                    final(self).spec_x() == 0 && final(self).spec_y() == old(self).spec_y() + 1
                }
            },
    {
        proof {
            assert(self.cells@[self.x as int] == self.cells.cells@[self.x as int]@);
            assert(self.cells@[0] == self.cells.cells@[0]@);
        }
        if self.y >= self.cells.cells[0].len() {
            return None;
        }
        let cell = self.cells.cells[self.x][self.y];
        let x = self.x;
        let y = self.y;
        self.x = self.x + 1;
        if self.x >= self.cells.cells.len() {
            self.x = 0;
            self.y = y + 1;
        }
        Some((x, y, cell))
    }
}

} // verus!
