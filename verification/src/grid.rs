//! A dense 2-D array addressed by integer coordinates, row-major.
//!
//! Lookups are bounds-checked: an out-of-range coordinate yields `None`
//! rather than a panic, so callers can treat "outside the grid" as a safe
//! default.

use vstd::prelude::*;

verus! {

/// An integer grid coordinate. Negative components are never in bounds.
#[derive(Debug, Copy, Clone, Eq, PartialEq, Hash, Structural)]
pub struct Coord {
    pub x: i32,
    pub y: i32,
}

impl Coord {
    pub fn new(x: i32, y: i32) -> (r: Self)
        ensures
            r == (Coord { x, y }),
    {
        Coord { x, y }
    }
}

/// A dense `width x height` array of cells, stored row-major: the cell at
/// `(x, y)` lives at index `width * y + x`.
#[derive(Debug, Clone, PartialEq, Eq)]
pub struct Grid<T> {
    cells: Vec<T>,
    width: usize,
    height: usize,
}

impl<T> Grid<T> {
    pub closed spec fn spec_width(self) -> usize {
        self.width
    }

    pub closed spec fn spec_height(self) -> usize {
        self.height
    }

    /// The cells in row-major order.
    pub closed spec fn spec_cells(self) -> Seq<T> {
        self.cells@
    }

    /// The grid invariant: the cell store covers exactly the advertised
    /// rectangle.
    pub open spec fn wf(self) -> bool {
        self.spec_cells().len() == self.spec_width() * self.spec_height()
    }

    /// Whether `(x, y)` addresses a cell of the grid.
    pub open spec fn in_bounds(self, x: int, y: int) -> bool {
        0 <= x < self.spec_width() && 0 <= y < self.spec_height()
    }

    /// The row-major index of `(x, y)`.
    pub open spec fn spec_index(self, x: int, y: int) -> int {
        self.spec_width() * y + x
    }

    /// The cell at `(x, y)`, or `None` when out of range.
    pub open spec fn spec_get(self, x: int, y: int) -> Option<T> {
        if self.in_bounds(x, y) {
            Some(self.spec_cells()[self.spec_index(x, y)])
        } else {
            None
        }
    }

    pub fn width(&self) -> (r: usize)
        ensures
            r == self.spec_width(),
    {
        self.width
    }

    pub fn height(&self) -> (r: usize)
        ensures
            r == self.spec_height(),
    {
        self.height
    }

    /// The row-major index of `coord`, or `None` when `coord` is outside
    /// the grid.
    pub fn index_of(&self, coord: Coord) -> (r: Option<usize>)
        requires
            self.wf(),
        ensures
            self.in_bounds(coord.x as int, coord.y as int) ==> (r matches Some(i) && i as int
                == self.spec_index(coord.x as int, coord.y as int)),
            !self.in_bounds(coord.x as int, coord.y as int) ==> r is None,
            r matches Some(i) ==> i < self.spec_cells().len(),
    {
        if coord.x < 0 || coord.y < 0 {
            return None;
        }
        let x = coord.x as usize;
        let y = coord.y as usize;
        if x >= self.width || y >= self.height {
            return None;
        }
        let n = self.cells.len();
        proof {
            assert(self.width * y + x < self.width * self.height) by (nonlinear_arith)
                requires
                    x < self.width,
                    y < self.height,
            ;
            assert(self.width * self.height == n);
        }
        Some(self.width * y + x)
    }

    /// The cell at `coord`, or `None` when `coord` is outside the grid.
    pub fn get(&self, coord: Coord) -> (r: Option<&T>)
        requires
            self.wf(),
        ensures
            match r {
                Some(v) => self.spec_get(coord.x as int, coord.y as int) == Some(*v),
                None => !self.in_bounds(coord.x as int, coord.y as int),
            },
    {
        match self.index_of(coord) {
            Some(i) => Some(&self.cells[i]),
            None => None,
        }
    }

    /// Replaces the cell at `coord`, returning the previous value, or
    /// returns `None` (dropping `cell`) when `coord` is outside the grid.
    pub fn set(&mut self, coord: Coord, cell: T) -> (r: Option<T>)
        requires
            old(self).wf(),
        ensures
            final(self).spec_width() == old(self).spec_width(),
            final(self).spec_height() == old(self).spec_height(),
            final(self).wf(),
            old(self).in_bounds(coord.x as int, coord.y as int) ==> {
                &&& r == Some(
                    old(self).spec_cells()[old(self).spec_index(coord.x as int, coord.y as int)],
                )
                &&& final(self).spec_cells() == old(self).spec_cells().update(
                    old(self).spec_index(coord.x as int, coord.y as int),
                    cell,
                )
            },
            !old(self).in_bounds(coord.x as int, coord.y as int) ==> {
                r is None && final(self).spec_cells() == old(self).spec_cells()
            },
    {
        match self.index_of(coord) {
            Some(i) => {
                let mut cell = cell;
                core::mem::swap(&mut self.cells[i], &mut cell);
                Some(cell)
            },
            None => None,
        }
    }
}

impl<T> Grid<T> {
    /// A `width x height` grid where every cell is produced by
    /// `init_cell`.
    pub fn new_with<F: Fn() -> T>(width: usize, height: usize, init_cell: F) -> (r: Self)
        requires
            width * height <= usize::MAX,
            call_requires(init_cell, ()),
        ensures
            r.spec_width() == width,
            r.spec_height() == height,
            r.wf(),
            forall|i: int|
                0 <= i < r.spec_cells().len() ==> call_ensures(
                    init_cell,
                    (),
                    #[trigger] r.spec_cells()[i],
                ),
    {
        let len = width * height;
        let mut cells: Vec<T> = Vec::new();
        while cells.len() < len
            invariant
                cells@.len() <= len,
                call_requires(init_cell, ()),
                forall|i: int|
                    0 <= i < cells@.len() ==> call_ensures(init_cell, (), #[trigger] cells@[i]),
            decreases len - cells@.len(),
        {
            cells.push(init_cell());
        }
        Grid { cells, width, height }
    }
}

impl<T: Copy> Grid<T> {
    /// An independent copy of the grid.
    pub fn duplicate(&self) -> (r: Self)
        ensures
            r.spec_width() == self.spec_width(),
            r.spec_height() == self.spec_height(),
            r.spec_cells() == self.spec_cells(),
    {
        let mut cells: Vec<T> = Vec::new();
        let mut i: usize = 0;
        while i < self.cells.len()
            invariant
                i <= self.cells@.len(),
                cells@.len() == i,
                forall|j: int| 0 <= j < i ==> cells@[j] == self.cells@[j],
            decreases self.cells@.len() - i,
        {
            cells.push(self.cells[i]);
            i = i + 1;
        }
        proof {
            assert(cells@ =~= self.cells@);
        }
        Grid { cells, width: self.width, height: self.height }
    }
}

impl<T: Default> Grid<T> {
    /// A `width x height` grid where every cell holds the default value.
    pub fn new(width: usize, height: usize) -> (r: Self)
        requires
            width * height <= usize::MAX,
        ensures
            r.spec_width() == width,
            r.spec_height() == height,
            r.wf(),
            forall|i: int|
                0 <= i < r.spec_cells().len() ==> call_ensures(
                    T::default,
                    (),
                    #[trigger] r.spec_cells()[i],
                ),
    {
        let len = width * height;
        let mut cells: Vec<T> = Vec::new();
        while cells.len() < len
            invariant
                cells@.len() <= len,
                forall|i: int|
                    0 <= i < cells@.len() ==> call_ensures(T::default, (), #[trigger] cells@[i]),
            decreases len - cells@.len(),
        {
            cells.push(T::default());
        }
        Grid { cells, width, height }
    }

    /// Fills a `width x height` grid row-major from `items`, truncating
    /// excess items and padding any shortfall with default values.
    pub fn from_iter(width: usize, height: usize, items: Vec<T>) -> (r: Self)
        requires
            width * height <= usize::MAX,
        ensures
            r.spec_width() == width,
            r.spec_height() == height,
            r.wf(),
            forall|i: int|
                0 <= i < r.spec_cells().len() && i < items@.len() ==> r.spec_cells()[i]
                    == items@[i],
            forall|i: int|
                items@.len() <= i < r.spec_cells().len() ==> call_ensures(
                    T::default,
                    (),
                    #[trigger] r.spec_cells()[i],
                ),
    {
        let ghost orig = items@;
        let len = width * height;
        let mut cells = items;
        cells.truncate(len);
        while cells.len() < len
            invariant
                cells@.len() <= len,
                orig.len() <= cells@.len() || cells@.len() == len,
                forall|i: int| 0 <= i < cells@.len() && i < orig.len() ==> cells@[i] == orig[i],
                forall|i: int|
                    orig.len() <= i < cells@.len() ==> call_ensures(
                        T::default,
                        (),
                        #[trigger] cells@[i],
                    ),
            decreases len - cells@.len(),
        {
            cells.push(T::default());
        }
        Grid { cells, width, height }
    }
}

impl<T> Default for Grid<T> {
    /// The empty grid.
    fn default() -> (r: Self)
        ensures
            r.spec_width() == 0,
            r.spec_height() == 0,
            r.spec_cells() == Seq::<T>::empty(),
            r.wf(),
    {
        Grid { cells: Vec::new(), width: 0, height: 0 }
    }
}

} // verus!
