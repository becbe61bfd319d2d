//! A dense, fixed-size, row-major grid.

use vstd::prelude::*;
use crate::utils::Coord;

verus! {

/// The row-major offset of column `x` in row `y` of a grid `width` wide.
pub open spec fn offset(width: int, x: int, y: int) -> int {
    y * width + x
}

/// Every cell of a `width` by `height` grid has an offset below the grid's
/// area, and two different cells have different offsets.
pub proof fn lemma_offset_bounds(width: int, height: int, x: int, y: int)
    requires
        0 <= x < width,
        0 <= y < height,
    ensures
        0 <= offset(width, x, y) < width * height,
{
    assert(y * width + x < width * height) by (nonlinear_arith)
        requires
            0 <= x < width,
            0 <= y < height,
    {
        assert((y + 1) * width <= height * width);
    }
    assert(0 <= y * width) by (nonlinear_arith)
        requires
            0 <= y,
            0 <= width,
    ;
}

/// Two cells of one grid share an offset only if they are the same cell.
pub proof fn lemma_offset_injective(width: int, x1: int, y1: int, x2: int, y2: int)
    requires
        0 <= x1 < width,
        0 <= x2 < width,
        0 <= y1,
        0 <= y2,
        offset(width, x1, y1) == offset(width, x2, y2),
    ensures
        x1 == x2,
        y1 == y2,
{
    if y1 < y2 {
        assert((y1 + 1) * width <= y2 * width) by (nonlinear_arith)
            requires
                y1 + 1 <= y2,
                0 <= width,
        ;
        assert((y1 + 1) * width == y1 * width + width) by (nonlinear_arith);
    } else if y2 < y1 {
        assert((y2 + 1) * width <= y1 * width) by (nonlinear_arith)
            requires
                y2 + 1 <= y1,
                0 <= width,
        ;
        assert((y2 + 1) * width == y2 * width + width) by (nonlinear_arith);
    }
}

/// A grid of `dimensions.0` columns and `dimensions.1` rows, stored row by
/// row in `grid`.
#[derive(Debug, PartialEq, Eq)]
pub struct Grid<T: Copy> {
    pub dimensions: Coord,
    pub grid: Vec<T>,
}

impl<T: Copy> Grid<T> {
    /// The storage holds exactly one value per cell.
    pub open spec fn wf(&self) -> bool {
        self.grid.len() == self.dimensions.0 * self.dimensions.1
    }

    /// Whether column `x`, row `y` is a cell of this grid.
    pub open spec fn in_bounds(&self, x: int, y: int) -> bool {
        0 <= x < self.dimensions.0 && 0 <= y < self.dimensions.1
    }

    /// The value in column `x` of row `y`.
    pub open spec fn cell(&self, x: int, y: int) -> T {
        self.grid@[offset(self.dimensions.0 as int, x, y)]
    }

    /// A grid of the given size with `default` in every cell.
    pub fn new(map_size: Coord, default: T) -> (m: Self)
        requires
            map_size.0 * map_size.1 <= usize::MAX,
        ensures
            m.wf(),
            m.dimensions == map_size,
            forall|i: int| 0 <= i < m.grid@.len() ==> m.grid@[i] == default,
            forall|x: int, y: int| m.in_bounds(x, y) ==> #[trigger] m.cell(x, y) == default,
    {
        let size = map_size.area();
        let mut grid = Vec::<T>::with_capacity(size);
        let mut i: usize = 0;
        while i < size
            invariant
                i <= size,
                grid@.len() == i,
                forall|k: int| 0 <= k < i ==> grid@[k] == default,
            decreases size - i,
        {
            grid.push(default);
            i = i + 1;
        }
        let m = Grid { dimensions: map_size, grid };
        proof {
            assert forall|x: int, y: int| m.in_bounds(x, y) implies #[trigger] m.cell(x, y)
                == default by {
                lemma_offset_bounds(map_size.0 as int, map_size.1 as int, x, y);
            }
        }
        m
    }

    pub fn width(&self) -> (w: usize)
        ensures
            w == self.dimensions.0,
    {
        self.dimensions.0
    }

    pub fn height(&self) -> (h: usize)
        ensures
            h == self.dimensions.1,
    {
        self.dimensions.1
    }

    /// Reads the cell in column `x` of row `y`.
    pub fn get(&self, x: usize, y: usize) -> (value: T)
        requires
            self.wf(),
            self.in_bounds(x as int, y as int),
        ensures
            value == self.cell(x as int, y as int),
    {
        proof {
            lemma_offset_bounds(
                self.dimensions.0 as int,
                self.dimensions.1 as int,
                x as int,
                y as int,
            );
        }
        self.grid[y * self.dimensions.0 + x]
    }

    /// Writes `value` to the cell in column `x` of row `y` and leaves every
    /// other cell as it was.
    pub fn set(&mut self, x: usize, y: usize, value: T)
        requires
            old(self).wf(),
            old(self).in_bounds(x as int, y as int),
        ensures
            final(self).wf(),
            final(self).dimensions == old(self).dimensions,
            final(self).grid@ == old(self).grid@.update(
                offset(old(self).dimensions.0 as int, x as int, y as int),
                value,
            ),
            final(self).cell(x as int, y as int) == value,
            forall|a: int, b: int|
                old(self).in_bounds(a, b) && !(a == x && b == y) ==> #[trigger] final(self).cell(
                    a,
                    b,
                ) == old(self).cell(a, b),
    {
        let width = self.dimensions.0;
        proof {
            lemma_offset_bounds(width as int, self.dimensions.1 as int, x as int, y as int);
        }
        let index = y * width + x;
        self.grid[index] = value;
        proof {
            assert forall|a: int, b: int|
                old(self).in_bounds(a, b) && !(a == x && b == y) implies #[trigger] self.cell(a, b)
                == old(self).cell(a, b) by {
                lemma_offset_bounds(width as int, self.dimensions.1 as int, a, b);
                if offset(width as int, a, b) == offset(width as int, x as int, y as int) {
                    lemma_offset_injective(width as int, a, b, x as int, y as int);
                }
            }
        }
    }

    /// Reads the cell at `pos`.
    pub fn get_at(&self, pos: &Coord) -> (value: T)
        requires
            self.wf(),
            self.in_bounds(pos.0 as int, pos.1 as int),
        ensures
            value == self.cell(pos.0 as int, pos.1 as int),
    {
        self.get(pos.0, pos.1)
    }

    /// Writes `value` to the cell at `pos` and leaves every other cell as it
    /// was.
    pub fn set_at(&mut self, pos: &Coord, value: T)
        requires
            old(self).wf(),
            old(self).in_bounds(pos.0 as int, pos.1 as int),
        ensures
            final(self).wf(),
            final(self).dimensions == old(self).dimensions,
            final(self).grid@ == old(self).grid@.update(
                offset(old(self).dimensions.0 as int, pos.0 as int, pos.1 as int),
                value,
            ),
            final(self).cell(pos.0 as int, pos.1 as int) == value,
            forall|a: int, b: int|
                old(self).in_bounds(a, b) && !(a == pos.0 && b == pos.1)
                    ==> #[trigger] final(self).cell(a, b) == old(self).cell(a, b),
    {
        self.set(pos.0, pos.1, value)
    }
}

} // verus!
