use platformer::collision::Aabb;
use platformer::grid::{Coord, Grid};
use platformer::level::{coords, load_grid, Cell};
use platformer::vector::{Vector, TILE};

#[test]
fn new_grid_holds_defaults() {
    let grid: Grid<Cell> = Grid::new(3, 2);
    assert_eq!(grid.width(), 3);
    assert_eq!(grid.height(), 2);
    for y in 0..2 {
        for x in 0..3 {
            assert_eq!(grid.get(Coord::new(x, y)), Some(&Cell::Empty));
        }
    }
}

#[test]
fn new_with_fills_every_cell() {
    let grid: Grid<u8> = Grid::new_with(2, 2, || 7);
    for y in 0..2 {
        for x in 0..2 {
            assert_eq!(grid.get(Coord::new(x, y)), Some(&7));
        }
    }
}

#[test]
fn from_iter_is_row_major_and_pads() {
    let grid: Grid<Cell> = Grid::from_iter(2, 2, vec![Cell::Terrain, Cell::Hazard, Cell::Empty]);
    assert_eq!(grid.get(Coord::new(0, 0)), Some(&Cell::Terrain));
    assert_eq!(grid.get(Coord::new(1, 0)), Some(&Cell::Hazard));
    assert_eq!(grid.get(Coord::new(0, 1)), Some(&Cell::Empty));
    // The shortfall is filled with the default cell.
    assert_eq!(grid.get(Coord::new(1, 1)), Some(&Cell::Empty));
}

#[test]
fn from_iter_truncates_excess() {
    let grid: Grid<u8> = Grid::from_iter(1, 2, vec![1, 2, 3, 4]);
    assert_eq!(grid.get(Coord::new(0, 0)), Some(&1));
    assert_eq!(grid.get(Coord::new(0, 1)), Some(&2));
    assert_eq!(grid.get(Coord::new(0, 2)), None);
}

#[test]
fn lookups_out_of_range_return_none() {
    let grid: Grid<u8> = Grid::new(2, 2);
    assert_eq!(grid.get(Coord::new(-1, 0)), None);
    assert_eq!(grid.get(Coord::new(0, -1)), None);
    assert_eq!(grid.get(Coord::new(2, 0)), None);
    assert_eq!(grid.get(Coord::new(0, 2)), None);
    assert_eq!(grid.index_of(Coord::new(2, 0)), None);
    assert_eq!(grid.index_of(Coord::new(1, 1)), Some(3));
}

#[test]
fn set_replaces_and_returns_previous() {
    let mut grid: Grid<u8> = Grid::new(2, 1);
    assert_eq!(grid.set(Coord::new(1, 0), 9), Some(0));
    assert_eq!(grid.get(Coord::new(1, 0)), Some(&9));
    assert_eq!(grid.set(Coord::new(5, 0), 3), None);
}

#[test]
fn default_grid_is_empty() {
    let grid: Grid<u8> = Grid::default();
    assert_eq!(grid.width(), 0);
    assert_eq!(grid.height(), 0);
    assert_eq!(grid.get(Coord::new(0, 0)), None);
}

#[test]
fn duplicate_copies_all_cells() {
    let mut grid: Grid<u8> = Grid::new(2, 2);
    grid.set(Coord::new(1, 1), 5);
    let copy = grid.duplicate();
    assert_eq!(copy.get(Coord::new(1, 1)), Some(&5));
    assert_eq!(copy.get(Coord::new(0, 0)), Some(&0));
}

#[test]
fn load_grid_classifies_entries() {
    let grid = load_grid(b"0,1,2,1", 2, 2);
    assert_eq!(grid.get(Coord::new(0, 0)), Some(&Cell::Empty));
    assert_eq!(grid.get(Coord::new(1, 0)), Some(&Cell::Terrain));
    assert_eq!(grid.get(Coord::new(0, 1)), Some(&Cell::Hazard));
    assert_eq!(grid.get(Coord::new(1, 1)), Some(&Cell::Terrain));
}

#[test]
fn load_grid_trims_whitespace_and_skips_blanks() {
    let grid = load_grid(b" 1 ,\n2,, 0 ,\t1", 2, 2);
    assert_eq!(grid.get(Coord::new(0, 0)), Some(&Cell::Terrain));
    assert_eq!(grid.get(Coord::new(1, 0)), Some(&Cell::Hazard));
    assert_eq!(grid.get(Coord::new(0, 1)), Some(&Cell::Empty));
    assert_eq!(grid.get(Coord::new(1, 1)), Some(&Cell::Terrain));
}

#[test]
fn load_grid_maps_unknown_entries_to_empty() {
    let grid = load_grid(b"7,x,12", 3, 1);
    assert_eq!(grid.get(Coord::new(0, 0)), Some(&Cell::Empty));
    assert_eq!(grid.get(Coord::new(1, 0)), Some(&Cell::Empty));
    assert_eq!(grid.get(Coord::new(2, 0)), Some(&Cell::Empty));
}

#[test]
fn load_grid_pads_missing_entries() {
    let grid = load_grid(b"1", 2, 1);
    assert_eq!(grid.get(Coord::new(0, 0)), Some(&Cell::Terrain));
    assert_eq!(grid.get(Coord::new(1, 0)), Some(&Cell::Empty));
}

#[test]
fn coords_of_exact_unit_box_is_its_own_cell() {
    let unit = Aabb::from_min_max(Vector::new(0, 0), Vector::new(TILE, TILE));
    assert_eq!(coords(unit), vec![[0usize, 0usize]]);
}

#[test]
fn coords_of_offset_box_covers_four_cells() {
    let shifted = Aabb::from_min_max(
        Vector::new(TILE / 2, TILE / 2),
        Vector::new(3 * TILE / 2, 3 * TILE / 2),
    );
    assert_eq!(coords(shifted), vec![[0usize, 0usize], [0, 1], [1, 0], [1, 1]]);
}

#[test]
fn coords_clips_negative_cells_at_zero() {
    let span = Aabb::from_min_max(Vector::new(-TILE, 0), Vector::new(TILE, TILE));
    assert_eq!(coords(span), vec![[0usize, 0usize]]);
    let negative = Aabb::from_min_max(Vector::new(-2 * TILE, 0), Vector::new(-TILE, TILE));
    assert_eq!(coords(negative), Vec::<[usize; 2]>::new());
}
