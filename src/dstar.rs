use vstd::prelude::*;

verus! {

/// An occupancy grid of `width` by `height` cells, stored row by row:
/// cell `(x, y)` lives at index `y * width + x` of `obstacles`.
pub struct GridMap {
    pub width: usize,
    pub height: usize,
    pub obstacles: Vec<bool>,
}

/// Cells of a row-major grid have distinct indices, all below `width * height`.
proof fn lemma_cell_index(width: int, height: int, x1: int, y1: int, x2: int, y2: int)
    requires
        0 <= x1 < width,
        0 <= y1 < height,
        0 <= x2 < width,
        0 <= y2 < height,
    ensures
        0 <= y1 * width + x1 < width * height,
        y1 * width + x1 == y2 * width + x2 ==> x1 == x2 && y1 == y2,
{
    assert(0 <= y1 * width + x1 < width * height) by (nonlinear_arith)
        requires
            0 <= x1 < width,
            0 <= y1 < height,
    ;
    assert(y1 * width + x1 == y2 * width + x2 ==> x1 == x2 && y1 == y2) by (nonlinear_arith)
        requires
            0 <= x1 < width,
            0 <= x2 < width,
            0 <= y1,
            0 <= y2,
    ;
}

impl GridMap {
    /// One flag per cell.
    pub open spec fn wf(&self) -> bool {
        self.obstacles@.len() == self.width * self.height
    }

    pub open spec fn in_bounds(&self, x: int, y: int) -> bool {
        0 <= x < self.width && 0 <= y < self.height
    }

    pub open spec fn cell_index(&self, x: int, y: int) -> int {
        y * self.width + x
    }

    /// Whether `(x, y)` is blocked: a marked cell, or any point off the grid.
    pub open spec fn blocked(&self, x: int, y: int) -> bool {
        if self.in_bounds(x, y) {
            self.obstacles@[self.cell_index(x, y)]
        } else {
            true
        }
    }

    /// A grid of the given size with no cell marked.
    pub fn new(width: usize, height: usize) -> (r: Self)
        requires
            width * height <= usize::MAX,
        ensures
            r.wf(),
            r.width == width,
            r.height == height,
            r.obstacles@ == Seq::new((width * height) as nat, |i: int| false),
            forall|x: int, y: int| #[trigger] r.blocked(x, y) == !r.in_bounds(x, y),
    {
        let n: usize = width * height;
        let mut obstacles: Vec<bool> = Vec::new();
        let mut i: usize = 0;
        while i < n
            invariant
                i <= n,
                obstacles@ == Seq::new(i as nat, |k: int| false),
            decreases n - i,
        {
            obstacles.push(false);
            i = i + 1;
        }
        let r = GridMap { width, height, obstacles };
        assert forall|x: int, y: int| #[trigger] r.blocked(x, y) == !r.in_bounds(x, y) by {
            if r.in_bounds(x, y) {
                lemma_cell_index(width as int, height as int, x, y, x, y);
            }
        }
        r
    }

    /// Marks cell `(x, y)` as blocked or free; a point off the grid is ignored.
    pub fn set_obstacle(&mut self, x: usize, y: usize, is_obs: bool)
        requires
            old(self).wf(),
        ensures
            final(self).wf(),
            final(self).width == old(self).width,
            final(self).height == old(self).height,
            final(self).obstacles@ == if old(self).in_bounds(x as int, y as int) {
                old(self).obstacles@.update(old(self).cell_index(x as int, y as int), is_obs)
            } else {
                old(self).obstacles@
            },
            forall|cx: int, cy: int|
                #[trigger] final(self).blocked(cx, cy) == if cx == x && cy == y
                    && old(self).in_bounds(cx, cy) {
                    is_obs
                } else {
                    old(self).blocked(cx, cy)
                },
    {
        if x < self.width && y < self.height {
            proof {
                lemma_cell_index(self.width as int, self.height as int, x as int, y as int, x as int, y as int);
            }
            let n: usize = self.obstacles.len();
            assert(y * self.width + x < n);
            let idx: usize = y * self.width + x;
            self.obstacles.set(idx, is_obs);
        }
        assert forall|cx: int, cy: int|
            #[trigger] self.blocked(cx, cy) == if cx == x && cy == y && old(self).in_bounds(cx, cy) {
                is_obs
            } else {
                old(self).blocked(cx, cy)
            } by {
            if old(self).in_bounds(cx, cy) && old(self).in_bounds(x as int, y as int) {
                lemma_cell_index(
                    self.width as int,
                    self.height as int,
                    cx,
                    cy,
                    x as int,
                    y as int,
                );
            }
        }
    }

    /// Whether `(x, y)` is blocked; every point off the grid counts as blocked.
    pub fn is_obstacle(&self, x: usize, y: usize) -> (r: bool)
        requires
            self.wf(),
        ensures
            r == self.blocked(x as int, y as int),
    {
        if x < self.width && y < self.height {
            proof {
                lemma_cell_index(self.width as int, self.height as int, x as int, y as int, x as int, y as int);
            }
            let n: usize = self.obstacles.len();
            assert(y * self.width + x < n);
            self.obstacles[y * self.width + x]
        } else {
            true
        }
    }
}

/// A planner over a `GridMap`: it keeps a start cell, a goal cell and the
/// last path it produced, as a list of cells from start to goal.
pub struct DStarLite {
    pub start: (usize, usize),
    pub goal: (usize, usize),
    pub map: GridMap,
    pub path: Vec<(usize, usize)>,
}

impl DStarLite {
    /// A planner over an empty `width` by `height` grid, from the top-left cell
    /// to the bottom-right one, with no path yet.
    pub fn new(width: usize, height: usize) -> (r: Self)
        requires
            width >= 1,
            height >= 1,
            width * height <= usize::MAX,
        ensures
            r.start == (0usize, 0usize),
            r.goal == ((width - 1) as usize, (height - 1) as usize),
            r.map.wf(),
            r.map.width == width,
            r.map.height == height,
            r.map.obstacles@ == Seq::new((width * height) as nat, |i: int| false),
            r.path@ == Seq::<(usize, usize)>::empty(),
    {
        DStarLite {
            start: (0, 0),
            goal: (width - 1, height - 1),
            map: GridMap::new(width, height),
            path: Vec::new(),
        }
    }

    /// Replaces the path with the straight two-point path from `start` to
    /// `goal`; the grid's obstacles are not consulted.
    pub fn compute_shortest_path(&mut self)
        ensures
            final(self).path@ == seq![old(self).start, old(self).goal],
            final(self).start == old(self).start,
            final(self).goal == old(self).goal,
            final(self).map == old(self).map,
    {
        self.path.clear();
        self.path.push(self.start);
        self.path.push(self.goal);
    }
}

} // verus!
