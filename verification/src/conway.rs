//! The simulation: one board, advanced a generation at a time by the
//! Life survival and birth rules, with team inheritance at each birth.

use vstd::prelude::*;

use crate::cell::{inherited_team, live_cells, Cell, Team};
use crate::cells::{grid_in_bounds, grid_wf, neighbors_seq, Cells};
use crate::rng::random_below;

verus! {

/// The cell (x, y) holds after one generation: a live cell dies unless
/// two or three of its neighbors live; a dead cell with exactly three
/// live neighbors is born, taking the team its parents hand down; every
/// other cell is carried over unchanged.
pub open spec fn next_cell(g: Seq<Seq<Cell>>, x: int, y: int) -> Cell {
    let c = g[x][y];
    let parents = live_cells(neighbors_seq(g, x, y));
    let population = parents.len();
    if c.alive && (population < 2 || population > 3) {
        Cell { alive: false, team: c.team }
    } else if !c.alive && population == 3 {
        Cell { alive: true, team: inherited_team(parents) }
    } else {
        c
    }
}

/// The whole board after one generation, every cell judged against the
/// same snapshot.
pub open spec fn next_grid(g: Seq<Seq<Cell>>) -> Seq<Seq<Cell>> {
    Seq::new(g.len(), |x: int| Seq::new(g[0].len(), |y: int| next_cell(g, x, y)))
}

/// The board with every cell dead and reset to Neutral.
pub open spec fn cleared_grid(g: Seq<Seq<Cell>>) -> Seq<Seq<Cell>> {
    Seq::new(
        g.len(),
        |x: int| Seq::new(g[0].len(), |y: int| Cell { alive: false, team: Team::Neutral }),
    )
}

/// Whether (x, y) is one of the five seed positions of the glider.
pub open spec fn is_glider_seed(x: int, y: int) -> bool {
    ||| x == 2 && y == 1
    ||| x == 3 && y == 2
    ||| x == 3 && y == 3
    ||| x == 2 && y == 3
    ||| x == 1 && y == 3
}

/// The board cleared and then reseeded with the glider: exactly the five
/// seed positions live, and every cell — seed or not — is Neutral.
pub open spec fn glider_grid(g: Seq<Seq<Cell>>) -> Seq<Seq<Cell>> {
    Seq::new(
        g.len(),
        |x: int| Seq::new(g[0].len(), |y: int| Cell { alive: is_glider_seed(x, y), team: Team::Neutral }),
    )
}

/// Clearing an already cleared board changes nothing: clearing is
/// idempotent.
pub proof fn lemma_clear_idempotent(g: Seq<Seq<Cell>>)
    requires
        grid_wf(g),
    ensures
        cleared_grid(cleared_grid(g)) == cleared_grid(g),
{
    assert(cleared_grid(cleared_grid(g)) =~~= cleared_grid(g));
}

/// The next generation is a function of the grid contents alone: two
/// boards that hold the same cells advance to the same cells.
pub proof fn lemma_tick_deterministic(a: GameOfLife, b: GameOfLife)
    requires
        a.cells@ == b.cells@,
    ensures
        next_grid(a.cells@) == next_grid(b.cells@),
{
}

/// One running game: its fixed dimensions and the current generation.
pub struct GameOfLife {
    pub width: usize,
    pub height: usize,
    pub cells: Cells,
}

impl GameOfLife {
    /// Number of columns, fixed at construction.
    pub open spec fn spec_width(self) -> int {
        self.width as int
    }

    /// Number of rows, fixed at construction.
    pub open spec fn spec_height(self) -> int {
        self.height as int
    }

    /// A valid game: the board is valid and matches the stated dimensions.
    pub open spec fn wf(self) -> bool {
        &&& self.cells.wf()
        &&& self.spec_width() == self.cells.spec_width()
        &&& self.spec_height() == self.cells.spec_height()
    }

    /// A fresh game of `width` x `height` cells, all dead and Neutral.
    pub fn new(width: usize, height: usize) -> (r: GameOfLife)
        requires
            2 <= width <= isize::MAX as usize,
            2 <= height <= isize::MAX as usize,
        ensures
            r.wf(),
            r.spec_width() == width,
            r.spec_height() == height,
            forall|x: int, y: int|
                0 <= x < width && 0 <= y < height ==> #[trigger] r.cells@[x][y] == (Cell {
                    alive: false,
                    team: Team::Neutral,
                }),
    {
        GameOfLife { width, height, cells: Cells::new(width, height) }
    }

    /// Kill every cell and reset its team to Neutral.
    pub fn clear(&mut self)
        requires
            old(self).wf(),
        ensures
            final(self).wf(),
            final(self).spec_width() == old(self).spec_width(),
            final(self).spec_height() == old(self).spec_height(),
            final(self).cells@ == cleared_grid(old(self).cells@),
    {
        let ghost g0 = self.cells@;
        let mut x: usize = 0;
        while x < self.width
            invariant
                self.wf(),
                self.width == old(self).width,
                self.height == old(self).height,
                x <= self.spec_width(),
                self.cells.spec_width() == g0.len(),
                self.cells.spec_height() == g0[0].len(),
                g0 == old(self).cells@,
                grid_wf(g0),
                forall|a: int, b: int|
                    0 <= a < x && 0 <= b < g0[0].len() ==> #[trigger] self.cells@[a][b] == (Cell {
                        alive: false,
                        team: Team::Neutral,
                    }),
                forall|a: int, b: int|
                    x <= a < g0.len() && 0 <= b < g0[0].len() ==> #[trigger] self.cells@[a][b]
                        == g0[a][b],
            decreases self.spec_width() - x,
        {
            let mut y: usize = 0;
            while y < self.height
                invariant
                    self.wf(),
                    self.width == old(self).width,
                    self.height == old(self).height,
                    x < self.spec_width(),
                    y <= self.spec_height(),
                    self.cells.spec_width() == g0.len(),
                    self.cells.spec_height() == g0[0].len(),
                    g0 == old(self).cells@,
                    grid_wf(g0),
                    forall|a: int, b: int|
                        0 <= a < x && 0 <= b < g0[0].len() ==> #[trigger] self.cells@[a][b] == (
                        Cell { alive: false, team: Team::Neutral }),
                    forall|b: int|
                        0 <= b < y ==> #[trigger] self.cells@[x as int][b] == (Cell {
                            alive: false,
                            team: Team::Neutral,
                        }),
                    forall|b: int|
                        y <= b < g0[0].len() ==> #[trigger] self.cells@[x as int][b] == g0[x as
                            int][b],
                    forall|a: int, b: int|
                        x < a < g0.len() && 0 <= b < g0[0].len() ==> #[trigger] self.cells@[a][b]
                            == g0[a][b],
                decreases self.spec_height() - y,
            {
                if let Some(c) = self.cells.get_mut(x, y) {
                    *c = Cell::new();
                }
                y = y + 1;
            }
            x = x + 1;
        }
        proof {
            assert(self.cells@ =~~= cleared_grid(g0));
        }
    }

    /// Advance the game by exactly one generation: every cell is judged
    /// by `next_cell` against the same snapshot of the board, and the
    /// finished next generation replaces the current one in one step.
    pub fn tick(&mut self)
        requires
            old(self).wf(),
        ensures
            final(self).wf(),
            final(self).spec_width() == old(self).spec_width(),
            final(self).spec_height() == old(self).spec_height(),
            final(self).cells@ == next_grid(old(self).cells@),
    {
        let ghost g0 = self.cells@;
        let mut new_cells = self.cells.snapshot();
        let mut x: usize = 0;
        while x < self.width
            invariant
                self.wf(),
                self == old(self),
                g0 == self.cells@,
                x <= self.spec_width(),
                new_cells.wf(),
                new_cells.spec_width() == g0.len(),
                new_cells.spec_height() == g0[0].len(),
                forall|a: int, b: int|
                    0 <= a < x && 0 <= b < g0[0].len() ==> #[trigger] new_cells@[a][b] == next_cell(
                        g0,
                        a,
                        b,
                    ),
                forall|a: int, b: int|
                    x <= a < g0.len() && 0 <= b < g0[0].len() ==> #[trigger] new_cells@[a][b]
                        == g0[a][b],
            decreases self.spec_width() - x,
        {
            let mut y: usize = 0;
            while y < self.height
                invariant
                    self.wf(),
                    self == old(self),
                    g0 == self.cells@,
                    x < self.spec_width(),
                    y <= self.spec_height(),
                    new_cells.wf(),
                    new_cells.spec_width() == g0.len(),
                    new_cells.spec_height() == g0[0].len(),
                    forall|a: int, b: int|
                        0 <= a < x && 0 <= b < g0[0].len() ==> #[trigger] new_cells@[a][b]
                            == next_cell(g0, a, b),
                    forall|b: int|
                        0 <= b < y ==> #[trigger] new_cells@[x as int][b] == next_cell(
                            g0,
                            x as int,
                            b,
                        ),
                    forall|b: int|
                        y <= b < g0[0].len() ==> #[trigger] new_cells@[x as int][b] == g0[x as
                            int][b],
                    forall|a: int, b: int|
                        x < a < g0.len() && 0 <= b < g0[0].len() ==> #[trigger] new_cells@[a][b]
                            == g0[a][b],
                decreases self.spec_height() - y,
            {
                let neighbors = self.cells.get_neighbors(x, y);
                let mut parents: Vec<Cell> = Vec::new();
                let mut i: usize = 0;
                while i < neighbors.len()
                    invariant
                        i <= neighbors@.len(),
                        parents@ == live_cells(neighbors@.take(i as int)),
                    decreases neighbors@.len() - i,
                {
                    proof {
                        assert(neighbors@.take(i as int + 1).drop_last() =~= neighbors@.take(
                            i as int,
                        ));
                    }
                    if neighbors[i].alive {
                        parents.push(neighbors[i]);
                    }
                    i = i + 1;
                }
                proof {
                    assert(neighbors@.take(neighbors@.len() as int) =~= neighbors@);
                }
                let population = parents.len();
                let cell = self.cells.get(x, y).unwrap();
                if cell.alive && (population < 2 || population > 3) {
                    new_cells.set(x, y, Cell { alive: false, team: cell.team });
                } else if !cell.alive && population == 3 {
                    let mut new_cell = cell;
                    new_cell.alive = true;
                    new_cell.inherit_from(&parents);
                    new_cells.set(x, y, new_cell);
                }
                proof {
                    assert(new_cells@[x as int][y as int] == next_cell(g0, x as int, y as int));
                }
                y = y + 1;
            }
            x = x + 1;
        }
        self.cells = new_cells;
        proof {
            assert(self.cells@ =~~= next_grid(g0));
        }
    }

    /// Clear the board and seed the five-cell glider, all of it Neutral.
    /// The board must reach at least to column 3 and row 3.
    pub fn glider(&mut self)
        requires
            old(self).wf(),
            old(self).spec_width() >= 4,
            old(self).spec_height() >= 4,
        ensures
            final(self).wf(),
            final(self).spec_width() == old(self).spec_width(),
            final(self).spec_height() == old(self).spec_height(),
            final(self).cells@ == glider_grid(old(self).cells@),
    {
        let ghost g0 = self.cells@;
        self.clear();
        if let Some(c) = self.cells.get_mut(2usize, 1usize) {
            c.alive = true;
        }
        if let Some(c) = self.cells.get_mut(3usize, 2usize) {
            c.alive = true;
        }
        if let Some(c) = self.cells.get_mut(3usize, 3usize) {
            c.alive = true;
        }
        if let Some(c) = self.cells.get_mut(2usize, 3usize) {
            c.alive = true;
        }
        if let Some(c) = self.cells.get_mut(1usize, 3usize) {
            c.alive = true;
        }
        proof {
            assert(self.cells@ =~~= glider_grid(g0));
        }
    }

    /// Reseed the whole board at random: each cell lives with probability
    /// two in five, and every cell is dealt to Red or to Blue — a freshly
    /// randomized board holds no Neutral cell, live or dead.
    pub fn randomize(&mut self, rng: &mut rand::rngs::StdRng)
        requires
            old(self).wf(),
        ensures
            final(self).wf(),
            final(self).spec_width() == old(self).spec_width(),
            final(self).spec_height() == old(self).spec_height(),
            forall|x: int, y: int|
                grid_in_bounds(final(self).cells@, x, y) ==> (#[trigger] final(self).cells@[x][y]).team
                    != Team::Neutral,
    {
        let mut x: usize = 0;
        while x < self.width
            invariant
                self.wf(),
                self.width == old(self).width,
                self.height == old(self).height,
                x <= self.spec_width(),
                self.cells.spec_width() == old(self).cells.spec_width(),
                self.cells.spec_height() == old(self).cells.spec_height(),
                forall|a: int, b: int|
                    0 <= a < x && 0 <= b < self.spec_height() ==> (#[trigger] self.cells@[a][b]).team
                        != Team::Neutral,
            decreases self.spec_width() - x,
        {
            let mut y: usize = 0;
            while y < self.height
                invariant
                    self.wf(),
                    self.width == old(self).width,
                    self.height == old(self).height,
                    x < self.spec_width(),
                    y <= self.spec_height(),
                    self.cells.spec_width() == old(self).cells.spec_width(),
                    self.cells.spec_height() == old(self).cells.spec_height(),
                    forall|a: int, b: int|
                        0 <= a < x && 0 <= b < self.spec_height() ==> (#[trigger] self.cells@[a][b]).team
                            != Team::Neutral,
                    forall|b: int|
                        0 <= b < y ==> (#[trigger] self.cells@[x as int][b]).team != Team::Neutral,
                decreases self.spec_height() - y,
            {
                let roll = random_below(rng, 10);
                let team_roll = random_below(rng, 2);
                self.cells.set(x, y, Cell::from_rolls(roll, team_roll));
                y = y + 1;
            }
            x = x + 1;
        }
    }
}

} // verus!
