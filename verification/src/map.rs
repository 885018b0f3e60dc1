use vstd::prelude::*;

verus! {

/// What one cell of the maze holds.
#[derive(Clone, Copy, PartialEq, Eq, Structural, Debug)]
pub enum MapObj {
    /// An empty corridor cell.
    Space,
    /// A wall: nothing moves into it.
    Wall,
    /// A dot to collect; once drawn, the id of the entity that shows it.
    Dot(Option<u64>),
}

/// `1` for a cell holding a dot, `0` otherwise.
pub open spec fn dot_weight(obj: MapObj) -> nat {
    if obj is Dot {
        1
    } else {
        0
    }
}

/// Number of dots in one column of the maze.
pub open spec fn dots_in_column(col: Seq<MapObj>) -> nat
    decreases col.len(),
{
    if col.len() == 0 {
        0
    } else {
        dots_in_column(col.drop_last()) + dot_weight(col.last())
    }
}

/// Number of dots in the whole maze, given column by column.
pub open spec fn dots_in_grid(grid: Seq<Seq<MapObj>>) -> nat
    decreases grid.len(),
{
    if grid.len() == 0 {
        0
    } else {
        dots_in_grid(grid.drop_last()) + dots_in_column(grid.last())
    }
}

/// Putting `obj` in row `y` of a column changes its dot count by the
/// difference of the two cells' weights.
pub proof fn lemma_column_update(col: Seq<MapObj>, y: int, obj: MapObj)
    requires
        0 <= y < col.len(),
    ensures
        dots_in_column(col.update(y, obj)) + dot_weight(col[y]) == dots_in_column(col)
            + dot_weight(obj),
    decreases col.len(),
{
    let upd = col.update(y, obj);
    if y == col.len() - 1 {
        assert(upd.drop_last() =~= col.drop_last());
    } else {
        lemma_column_update(col.drop_last(), y, obj);
        assert(upd.drop_last() =~= col.drop_last().update(y, obj));
    }
}

/// Replacing column `x` changes the maze's dot count by the difference of
/// the two columns' counts.
pub proof fn lemma_grid_update(grid: Seq<Seq<MapObj>>, x: int, col: Seq<MapObj>)
    requires
        0 <= x < grid.len(),
    ensures
        dots_in_grid(grid.update(x, col)) + dots_in_column(grid[x]) == dots_in_grid(grid)
            + dots_in_column(col),
    decreases grid.len(),
{
    let upd = grid.update(x, col);
    if x == grid.len() - 1 {
        assert(upd.drop_last() =~= grid.drop_last());
    } else {
        lemma_grid_update(grid.drop_last(), x, col);
        assert(upd.drop_last() =~= grid.drop_last().update(x, col));
    }
}

/// The dots of a prefix of a column are no more than those of the column.
proof fn lemma_column_prefix(col: Seq<MapObj>, n: int)
    requires
        0 <= n <= col.len(),
    ensures
        dots_in_column(col.take(n)) <= dots_in_column(col),
    decreases col.len(),
{
    if n < col.len() {
        lemma_column_prefix(col.drop_last(), n);
        assert(col.drop_last().take(n) =~= col.take(n));
    } else {
        assert(col.take(n) =~= col);
    }
}

/// The dots of the first columns of a maze are no more than those of the maze.
proof fn lemma_grid_prefix(grid: Seq<Seq<MapObj>>, n: int)
    requires
        0 <= n <= grid.len(),
    ensures
        dots_in_grid(grid.take(n)) <= dots_in_grid(grid),
    decreases grid.len(),
{
    if n < grid.len() {
        lemma_grid_prefix(grid.drop_last(), n);
        assert(grid.drop_last().take(n) =~= grid.take(n));
    } else {
        assert(grid.take(n) =~= grid);
    }
}

/// The maze: a grid of cells, indexed `[x][y]` (column, then row), and the
/// number of dots left on it.
pub struct MapInfo {
    pub array: Vec<Vec<MapObj>>,
    pub count_dots: usize,
}

impl MapInfo {
    /// The cells, column by column.
    pub open spec fn cells(&self) -> Seq<Seq<MapObj>> {
        self.array@.map_values(|col: Vec<MapObj>| col@)
    }

    pub open spec fn width(&self) -> int {
        self.array@.len() as int
    }

    pub open spec fn height(&self) -> int {
        if self.array@.len() == 0 {
            0
        } else {
            self.array@[0]@.len() as int
        }
    }

    /// The cell at column `x`, row `y`.
    pub open spec fn cell(&self, x: int, y: int) -> MapObj {
        self.cells()[x][y]
    }

    /// Every column has the same length.
    pub open spec fn is_rectangular(&self) -> bool {
        forall|x: int| 0 <= x < self.width() ==> (#[trigger] self.array@[x])@.len() == self.height()
    }

    /// Whether `(x, y)` names a cell of the maze.
    pub open spec fn in_bounds(&self, x: int, y: int) -> bool {
        0 <= x < self.width() && 0 <= y < self.height()
    }

    /// Well-formed: rectangular, and `count_dots` is the number of dots on it.
    pub open spec fn wf(&self) -> bool {
        &&& self.is_rectangular()
        &&& self.count_dots == dots_in_grid(self.cells())
    }

    /// Builds the maze from its columns and counts its dots.
    pub fn new(array: Vec<Vec<MapObj>>) -> (map: MapInfo)
        requires
            forall|x: int|
                0 <= x < array@.len() ==> (#[trigger] array@[x])@.len() == array@[0]@.len(),
            dots_in_grid(array@.map_values(|col: Vec<MapObj>| col@)) <= usize::MAX,
        ensures
            map.wf(),
            map.array@ == array@,
    {
        let ghost grid = array@.map_values(|col: Vec<MapObj>| col@);
        let mut count: usize = 0;
        let mut x: usize = 0;
        while x < array.len()
            invariant
                x <= array@.len(),
                grid == array@.map_values(|col: Vec<MapObj>| col@),
                dots_in_grid(grid) <= usize::MAX,
                count == dots_in_grid(grid.take(x as int)),
            decreases array@.len() - x,
        {
            let col = &array[x];
            proof {
                lemma_grid_prefix(grid, x + 1);
                assert(grid.take(x + 1).drop_last() =~= grid.take(x as int));
                assert(grid.take(x + 1).last() == col@);
            }
            let mut y: usize = 0;
            while y < col.len()
                invariant
                    x < array@.len(),
                    col@ == grid[x as int],
                    y <= col@.len(),
                    dots_in_grid(grid.take(x as int)) + dots_in_column(col@) <= usize::MAX,
                    count == dots_in_grid(grid.take(x as int)) + dots_in_column(col@.take(y as int)),
                decreases col@.len() - y,
            {
                proof {
                    lemma_column_prefix(col@, y + 1);
                    assert(col@.take(y + 1).drop_last() =~= col@.take(y as int));
                }
                match col[y] {
                    MapObj::Dot(_) => {
                        count = count + 1;
                    },
                    _ => {},
                }
                y = y + 1;
            }
            proof {
                assert(col@.take(y as int) =~= col@);
            }
            x = x + 1;
        }
        proof {
            assert(grid.take(x as int) =~= grid);
        }
        MapInfo { array, count_dots: count }
    }

    /// The cells above, to the left of, to the right of and below `grid`.
    pub open spec fn ulrd(&self, grid: (usize, usize)) -> (MapObj, MapObj, MapObj, MapObj) {
        let (x, y) = (grid.0 as int, grid.1 as int);
        (self.cell(x, y - 1), self.cell(x - 1, y), self.cell(x + 1, y), self.cell(x, y + 1))
    }

    /// `grid` is a cell with a neighbour on each of its four sides.
    pub open spec fn is_inner(&self, grid: (usize, usize)) -> bool {
        &&& 1 <= grid.0 && grid.0 + 1 < self.width()
        &&& 1 <= grid.1 && grid.1 + 1 < self.height()
    }

    /// Puts `obj` in the cell at `(x, y)`; `count_dots` is left as it was.
    pub(crate) fn set_cell(&mut self, x: usize, y: usize, obj: MapObj)
        requires
            old(self).is_rectangular(),
            old(self).in_bounds(x as int, y as int),
        ensures
            final(self).cells() == old(self).cells().update(
                x as int,
                old(self).cells()[x as int].update(y as int, obj),
            ),
            final(self).is_rectangular(),
            final(self).width() == old(self).width(),
            final(self).height() == old(self).height(),
            final(self).count_dots == old(self).count_dots,
    {
        self.array[x].set(y, obj);
        assert(self.cells() =~= old(self).cells().update(
            x as int,
            old(self).cells()[x as int].update(y as int, obj),
        ));
    }
}

/// The cells above, to the left of, to the right of and below `grid`.
pub fn get_map_obj_ulrd(grid: (usize, usize), map: &MapInfo) -> (ulrd: (
    MapObj,
    MapObj,
    MapObj,
    MapObj,
))
    requires
        map.is_rectangular(),
        map.is_inner(grid),
    ensures
        ulrd == map.ulrd(grid),
{
    let (x, y) = grid;
    let width = map.array.len();
    let height = map.array[x].len();
    assert(x + 1 < width && y + 1 < height);
    (map.array[x][y - 1], map.array[x - 1][y], map.array[x + 1][y], map.array[x][y + 1])
}

} // verus!
