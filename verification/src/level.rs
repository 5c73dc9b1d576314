//! The level: its cell grid, the grid-range query that turns a bounding
//! box into candidate cells, and the per-tick collision resolution loop.

use vstd::prelude::*;

use crate::collision::{max_penetration_spec, Aabb, Range};
use crate::grid::{Coord, Grid};
use crate::input::ButtonState;
use crate::lift::{lift_activated, Lift, CRANK_LIMIT};
use crate::player::Player;
use crate::timer::{Duration, MAX_TICK_MILLIS};
use crate::vector::{ceil_div, clamp_spec, floor_div, Vector, COORD_LIMIT, POS_LIMIT, TILE};
use crate::water::{Water, RAISE_SPEED, SCREEN_BOTTOM};

verus! {

/// What a grid cell holds.
#[derive(Debug, Clone, Copy, PartialEq, Eq, Structural)]
pub enum Cell {
    /// Nothing: the cell takes no part in collision or hazard checks.
    Empty,
    /// Solid ground, resolved against like any other obstacle.
    Terrain,
    /// A cell that harms the player on contact instead of blocking.
    Hazard,
}

impl Default for Cell {
    fn default() -> (r: Self)
        ensures
            r == Cell::Empty,
    {
        Cell::Empty
    }
}

/// The first tile index a box touches on one axis: the floor of its lower
/// bound in tiles, never negative.
pub open spec fn coord_lo(v: i64) -> int {
    let t = v as int / TILE as int;
    if t > 0 {
        t
    } else {
        0
    }
}

/// One past the last tile index a box touches on one axis: the ceiling of
/// its upper bound in tiles, never negative.
pub open spec fn coord_hi(v: i64) -> int {
    let t = -((-(v as int)) / (TILE as int));
    if t > 0 {
        t
    } else {
        0
    }
}

/// Every tile coordinate covered by `b`: the rectangle of cells from the
/// floor of its lower corner to the ceiling of its upper corner, columns
/// first. Cells left or above the world origin are cut off at zero.
pub open spec fn coords_spec(b: Aabb) -> Seq<(int, int)> {
    let lo_x = coord_lo(b.x.min);
    let hi_x = coord_hi(b.x.max);
    let lo_y = coord_lo(b.y.min);
    let hi_y = coord_hi(b.y.max);
    let ny = hi_y - lo_y;
    Seq::new(((hi_x - lo_x) * ny) as nat, |i: int| (lo_x + i / ny, lo_y + i % ny))
}

/// Largest tile index the query can produce for a well-formed box: the
/// ceiling of [`COORD_LIMIT`] in tiles.
pub open spec fn max_tile_index() -> int {
    -((-(COORD_LIMIT as int)) / (TILE as int))
}

/// Every tile coordinate covered by `bounding_box`, columns first.
///
/// The rectangle is a conservative superset of the cells the box truly
/// overlaps; candidates it lists in excess only ever touch the box along
/// a boundary, which the strict overlap test discards.
pub fn coords(bounding_box: Aabb) -> (r: Vec<[usize; 2]>)
    requires
        bounding_box.wf(),
    ensures
        r@.len() == coords_spec(bounding_box).len(),
        forall|i: int|
            0 <= i < r@.len() ==> (#[trigger] r@[i])@[0] == coords_spec(bounding_box)[i].0
                && r@[i]@[1] == coords_spec(bounding_box)[i].1,
        forall|i: int|
            0 <= i < r@.len() ==> (#[trigger] r@[i])@[0] <= max_tile_index() && r@[i]@[1]
                <= max_tile_index(),
{
    let lo_x = lower_tile(bounding_box.x.min);
    let hi_x = upper_tile(bounding_box.x.max);
    let lo_y = lower_tile(bounding_box.y.min);
    let hi_y = upper_tile(bounding_box.y.max);
    proof {
        lemma_tile_range_ordered(bounding_box.x.min, bounding_box.x.max);
        lemma_tile_range_ordered(bounding_box.y.min, bounding_box.y.max);
    }
    let ny = hi_y - lo_y;
    let ghost cs = coords_spec(bounding_box);
    let mut r: Vec<[usize; 2]> = Vec::new();
    let mut x = lo_x;
    while x < hi_x
        invariant
            lo_x <= x <= hi_x || (lo_x == x && hi_x <= lo_x),
            0 <= lo_x,
            0 <= lo_y <= hi_y,
            hi_x <= max_tile_index(),
            hi_y <= max_tile_index(),
            ny == hi_y - lo_y,
            cs == coords_spec(bounding_box),
            cs.len() == (hi_x - lo_x) * (hi_y - lo_y),
            forall|i: int|
                0 <= i < cs.len() ==> cs[i] == (
                    lo_x + i / (ny as int),
                    lo_y + i % (ny as int),
                ),
            r@.len() == (x - lo_x) * ny,
            forall|i: int|
                0 <= i < r@.len() ==> (#[trigger] r@[i])@[0] == cs[i].0 && r@[i]@[1] == cs[i].1,
            forall|i: int|
                0 <= i < r@.len() ==> lo_x <= (#[trigger] r@[i])@[0] < hi_x && lo_y <= r@[i]@[1]
                    < hi_y,
        decreases hi_x - x,
    {
        let mut y = lo_y;
        while y < hi_y
            invariant
                lo_x <= x < hi_x,
                0 <= lo_x,
                0 <= lo_y <= y <= hi_y,
                hi_x <= max_tile_index(),
                hi_y <= max_tile_index(),
                ny == hi_y - lo_y,
                cs == coords_spec(bounding_box),
                cs.len() == (hi_x - lo_x) * (hi_y - lo_y),
                forall|i: int|
                0 <= i < cs.len() ==> cs[i] == (
                    lo_x + i / (ny as int),
                    lo_y + i % (ny as int),
                ),
                r@.len() == (x - lo_x) * ny + (y - lo_y),
                forall|i: int|
                    0 <= i < r@.len() ==> (#[trigger] r@[i])@[0] == cs[i].0 && r@[i]@[1] == cs[i].1,
                forall|i: int|
                    0 <= i < r@.len() ==> lo_x <= (#[trigger] r@[i])@[0] < hi_x && lo_y
                        <= r@[i]@[1] < hi_y,
            decreases hi_y - y,
        {
            proof {
                let i = r@.len() as int;
                assert(i == (x - lo_x) * ny + (y - lo_y));
                assert(0 <= i < cs.len()) by (nonlinear_arith)
                    requires
                        i == (x - lo_x) * ny + (y - lo_y),
                        cs.len() == (hi_x - lo_x) * ny,
                        lo_x <= x < hi_x,
                        lo_y <= y < hi_y,
                        ny == hi_y - lo_y,
                ;
                vstd::arithmetic::div_mod::lemma_fundamental_div_mod_converse(
                    i,
                    ny as int,
                    (x - lo_x) as int,
                    (y - lo_y) as int,
                );
                assert(cs[i] == (x as int, y as int));
            }
            r.push([x as usize, y as usize]);
            y = y + 1;
        }
        proof {
            assert((x - lo_x) * ny + ny == (x + 1 - lo_x) * ny) by (nonlinear_arith);
        }
        x = x + 1;
    }
    proof {
        if hi_x <= lo_x {
            assert(cs.len() == (hi_x - lo_x) * ny <= 0) by (nonlinear_arith)
                requires
                    cs.len() == (hi_x - lo_x) * ny,
                    hi_x <= lo_x,
                    ny >= 0,
            ;
        } else {
            assert(r@.len() == (hi_x - lo_x) * ny);
        }
    }
    r
}

/// The first tile index at or below the coordinate `v`, cut off at zero.
fn lower_tile(v: i64) -> (r: i64)
    requires
        -COORD_LIMIT <= v <= COORD_LIMIT,
    ensures
        r == coord_lo(v),
        0 <= r <= max_tile_index(),
{
    proof {
        lemma_tile_index_bound(v);
    }
    let t = floor_div(v, TILE);
    if t > 0 {
        t
    } else {
        0
    }
}

/// One past the last tile index reaching the coordinate `v`, cut off at
/// zero.
fn upper_tile(v: i64) -> (r: i64)
    requires
        -COORD_LIMIT <= v <= COORD_LIMIT,
    ensures
        r == coord_hi(v),
        0 <= r <= max_tile_index(),
{
    proof {
        lemma_tile_index_bound(v);
    }
    let t = ceil_div(v, TILE);
    if t > 0 {
        t
    } else {
        0
    }
}

/// Floor and ceiling tile indices of a bounded coordinate stay within
/// the largest tile index.
proof fn lemma_tile_index_bound(v: i64)
    requires
        -COORD_LIMIT <= v <= COORD_LIMIT,
    ensures
        v as int / TILE as int <= max_tile_index(),
        -((-(v as int)) / (TILE as int)) <= max_tile_index(),
{
    vstd::arithmetic::div_mod::lemma_div_is_ordered(v as int, COORD_LIMIT as int, TILE as int);
    vstd::arithmetic::div_mod::lemma_div_is_ordered(
        -(COORD_LIMIT as int),
        -(v as int),
        TILE as int,
    );
    vstd::arithmetic::div_mod::lemma_fundamental_div_mod(COORD_LIMIT as int, TILE as int);
    vstd::arithmetic::div_mod::lemma_mod_division_less_than_divisor(
        COORD_LIMIT as int,
        TILE as int,
    );
    assert(COORD_LIMIT as int / TILE as int <= max_tile_index()) by {
        let q = COORD_LIMIT as int / TILE as int;
        let r = COORD_LIMIT as int % TILE as int;
        assert(-(COORD_LIMIT as int) == (-q - 1) * (TILE as int) + ((TILE as int) - r) || -(
        COORD_LIMIT as int) == (-q) * (TILE as int) + 0) by (nonlinear_arith)
            requires
                COORD_LIMIT as int == (TILE as int) * q + r,
                0 <= r < TILE as int,
        ;
        if r == 0 {
            vstd::arithmetic::div_mod::lemma_fundamental_div_mod_converse(
                -(COORD_LIMIT as int),
                TILE as int,
                -q,
                0,
            );
        } else {
            vstd::arithmetic::div_mod::lemma_fundamental_div_mod_converse(
                -(COORD_LIMIT as int),
                TILE as int,
                -q - 1,
                (TILE as int) - r,
            );
        }
    }
}

/// The tile range of an axis interval is ordered: the lower index never
/// exceeds the upper one.
proof fn lemma_tile_range_ordered(lo: i64, hi: i64)
    requires
        lo <= hi,
    ensures
        coord_lo(lo) <= coord_hi(hi),
{
    vstd::arithmetic::div_mod::lemma_div_is_ordered(lo as int, hi as int, TILE as int);
    vstd::arithmetic::div_mod::lemma_fundamental_div_mod(hi as int, TILE as int);
    vstd::arithmetic::div_mod::lemma_mod_division_less_than_divisor(hi as int, TILE as int);
    let q = hi as int / TILE as int;
    let r = hi as int % TILE as int;
    assert(-(hi as int) == (-q - 1) * (TILE as int) + ((TILE as int) - r) || -(hi as int) == (-q)
        * (TILE as int) + 0) by (nonlinear_arith)
        requires
            hi as int == (TILE as int) * q + r,
            0 <= r < TILE as int,
    ;
    if r == 0 {
        vstd::arithmetic::div_mod::lemma_fundamental_div_mod_converse(
            -(hi as int),
            TILE as int,
            -q,
            0,
        );
    } else {
        vstd::arithmetic::div_mod::lemma_fundamental_div_mod_converse(
            -(hi as int),
            TILE as int,
            -q - 1,
            (TILE as int) - r,
        );
    }
}


/// The ASCII whitespace bytes the grid text may carry around its entries:
/// space, tab, line feed, carriage return.
pub open spec fn is_ascii_space(b: u8) -> bool {
    b == 32 || b == 9 || b == 10 || b == 13
}

/// `s` with its leading whitespace removed.
pub open spec fn trim_front(s: Seq<u8>) -> Seq<u8>
    decreases s.len(),
{
    if s.len() > 0 && is_ascii_space(s[0]) {
        trim_front(s.skip(1))
    } else {
        s
    }
}

/// `s` with its trailing whitespace removed.
pub open spec fn trim_back(s: Seq<u8>) -> Seq<u8>
    decreases s.len(),
{
    if s.len() > 0 && is_ascii_space(s.last()) {
        trim_back(s.drop_last())
    } else {
        s
    }
}

/// `s` with surrounding whitespace removed.
pub open spec fn trimmed(s: Seq<u8>) -> Seq<u8> {
    trim_back(trim_front(s))
}

/// The cell a trimmed grid entry stands for: `"1"` is terrain, `"2"` is a
/// hazard, anything else is empty.
pub open spec fn token_cell(tok: Seq<u8>) -> Cell {
    if trimmed(tok) == seq![49u8] {
        Cell::Terrain
    } else if trimmed(tok) == seq![50u8] {
        Cell::Hazard
    } else {
        Cell::Empty
    }
}

/// The cells one raw entry contributes: none if it is all whitespace,
/// otherwise the single cell it names.
pub open spec fn finish_token(tok: Seq<u8>) -> Seq<Cell> {
    if trimmed(tok).len() == 0 {
        Seq::empty()
    } else {
        seq![token_cell(tok)]
    }
}

/// The cells of the comma-separated text `s`, with `tok` the entry bytes
/// already consumed before `s`.
pub open spec fn parse_cells_from(s: Seq<u8>, tok: Seq<u8>) -> Seq<Cell>
    decreases s.len(),
{
    if s.len() == 0 {
        finish_token(tok)
    } else if s[0] == 44 {
        finish_token(tok) + parse_cells_from(s.skip(1), Seq::empty())
    } else {
        parse_cells_from(s.skip(1), tok.push(s[0]))
    }
}

/// The cells of a comma-separated grid text: one cell per entry that
/// holds anything beyond whitespace.
pub open spec fn parse_cells(s: Seq<u8>) -> Seq<Cell> {
    parse_cells_from(s, Seq::empty())
}

/// Whether `b` is one of the whitespace bytes entries may carry.
fn is_space_byte(b: u8) -> (r: bool)
    ensures
        r == is_ascii_space(b),
{
    b == 32 || b == 9 || b == 10 || b == 13
}

/// The cell named by one raw entry, or `None` for an all-whitespace
/// entry.
fn classify_token(tok: &[u8]) -> (r: Option<Cell>)
    ensures
        r == if trimmed(tok@).len() == 0 {
            Option::<Cell>::None
        } else {
            Some(token_cell(tok@))
        },
{
    let n = tok.len();
    let mut start: usize = 0;
    proof {
        assert(tok@.skip(0) =~= tok@);
    }
    while start < n && is_space_byte(tok[start])
        invariant
            start <= n,
            n == tok@.len(),
            trim_front(tok@) == trim_front(tok@.skip(start as int)),
        decreases n - start,
    {
        proof {
            assert(tok@.skip(start as int).skip(1) =~= tok@.skip(start as int + 1));
        }
        start = start + 1;
    }
    proof {
        assert(trim_front(tok@) == tok@.skip(start as int));
        assert(tok@.skip(start as int) =~= tok@.subrange(start as int, n as int));
    }
    let mut end: usize = n;
    while end > start && is_space_byte(tok[end - 1])
        invariant
            start <= end <= n,
            n == tok@.len(),
            trim_front(tok@) == tok@.subrange(start as int, n as int),
            trim_back(tok@.subrange(start as int, n as int)) == trim_back(
                tok@.subrange(start as int, end as int),
            ),
        decreases end,
    {
        proof {
            assert(tok@.subrange(start as int, end as int).drop_last() =~= tok@.subrange(
                start as int,
                end as int - 1,
            ));
        }
        end = end - 1;
    }
    proof {
        assert(trimmed(tok@) == tok@.subrange(start as int, end as int));
    }
    if end == start {
        None
    } else if end - start == 1 {
        let b = tok[start];
        proof {
            assert(tok@.subrange(start as int, end as int) =~= seq![tok@[start as int]]);
        }
        if b == 49 {
            Some(Cell::Terrain)
        } else if b == 50 {
            Some(Cell::Hazard)
        } else {
            proof {
                assert(trimmed(tok@) != seq![49u8] && trimmed(tok@) != seq![50u8]);
            }
            Some(Cell::Empty)
        }
    } else {
        proof {
            assert(trimmed(tok@).len() != 1);
            assert(seq![49u8].len() == 1 && seq![50u8].len() == 1);
        }
        Some(Cell::Empty)
    }
}

/// Builds the level grid from its comma-separated text form, row-major:
/// `"1"` entries become terrain, `"2"` hazards, anything else empty.
/// Missing entries are filled in as empty; entries beyond the grid are
/// dropped.
pub fn load_grid(raw: &[u8], width: usize, height: usize) -> (r: Grid<Cell>)
    requires
        width * height <= usize::MAX,
    ensures
        r.spec_width() == width,
        r.spec_height() == height,
        r.wf(),
        forall|i: int|
            0 <= i < r.spec_cells().len() && i < parse_cells(raw@).len()
                ==> r.spec_cells()[i] == parse_cells(raw@)[i],
        forall|i: int|
            parse_cells(raw@).len() <= i < r.spec_cells().len()
                ==> r.spec_cells()[i] == Cell::Empty,
{
    let mut cells: Vec<Cell> = Vec::new();
    let mut tok: Vec<u8> = Vec::new();
    let mut i: usize = 0;
    proof {
        assert(raw@.skip(0) =~= raw@);
        assert(tok@ =~= Seq::<u8>::empty());
        assert(cells@ + parse_cells_from(raw@, Seq::empty()) =~= parse_cells(raw@));
    }
    while i < raw.len()
        invariant
            i <= raw@.len(),
            parse_cells(raw@) == cells@ + parse_cells_from(raw@.skip(i as int), tok@),
        decreases raw@.len() - i,
    {
        let b = raw[i];
        proof {
            assert(raw@.skip(i as int)[0] == raw@[i as int]);
            assert(raw@.skip(i as int).skip(1) =~= raw@.skip(i as int + 1));
        }
        if b == 44 {
            match classify_token(tok.as_slice()) {
                Some(c) => {
                    cells.push(c);
                },
                None => {},
            }
            tok.clear();
            proof {
                assert(cells@ + parse_cells_from(raw@.skip(i as int + 1), tok@) =~= parse_cells(
                    raw@,
                ));
            }
        } else {
            tok.push(b);
        }
        i = i + 1;
    }
    proof {
        assert(raw@.skip(i as int).len() == 0);
    }
    match classify_token(tok.as_slice()) {
        Some(c) => {
            cells.push(c);
        },
        None => {},
    }
    proof {
        assert(cells@ =~= parse_cells(raw@));
    }
    Grid::from_iter(width, height, cells)
}


/// Most corrective steps the resolution loop takes in one tick.
pub const PENETRATION_RESOLUTION_MAX_ITER: u32 = 10;

/// How far a hazard cell's harmful box is inset from the cell's lower
/// corner: a tenth of a tile.
pub const HAZARD_INSET_MIN: i64 = 80;

/// Where a hazard cell's harmful box ends, from the cell's lower corner:
/// eight tenths of a tile.
pub const HAZARD_INSET_MAX: i64 = 640;

/// The solid box of the terrain cell at tile `(x, y)`: the full tile.
pub open spec fn cell_box_spec(x: int, y: int) -> Aabb {
    Aabb {
        x: Range { min: (x * TILE) as i64, max: ((x + 1) * TILE) as i64 },
        y: Range { min: (y * TILE) as i64, max: ((y + 1) * TILE) as i64 },
    }
}

/// The harmful box of the hazard cell at tile `(x, y)`: a box inset from
/// the tile, so only a clear intrusion counts as contact.
pub open spec fn hazard_box_spec(x: int, y: int) -> Aabb {
    Aabb {
        x: Range {
            min: (x * TILE + HAZARD_INSET_MIN) as i64,
            max: (x * TILE + HAZARD_INSET_MAX) as i64,
        },
        y: Range {
            min: (y * TILE + HAZARD_INSET_MIN) as i64,
            max: (y * TILE + HAZARD_INSET_MAX) as i64,
        },
    }
}

/// The solid boxes among the queried coordinates: one full-tile box for
/// each coordinate holding a terrain cell, in query order.
pub open spec fn terrain_boxes_spec(grid: Grid<Cell>, cs: Seq<(int, int)>) -> Seq<Aabb>
    decreases cs.len(),
{
    if cs.len() == 0 {
        Seq::empty()
    } else {
        let rest = terrain_boxes_spec(grid, cs.drop_last());
        let c = cs.last();
        if grid.spec_get(c.0, c.1) == Some(Cell::Terrain) {
            rest.push(cell_box_spec(c.0, c.1))
        } else {
            rest
        }
    }
}

/// The harmful boxes among the queried coordinates: one inset box for
/// each coordinate holding a hazard cell, in query order.
pub open spec fn hazard_boxes_spec(grid: Grid<Cell>, cs: Seq<(int, int)>) -> Seq<Aabb>
    decreases cs.len(),
{
    if cs.len() == 0 {
        Seq::empty()
    } else {
        let rest = hazard_boxes_spec(grid, cs.drop_last());
        let c = cs.last();
        if grid.spec_get(c.0, c.1) == Some(Cell::Hazard) {
            rest.push(hazard_box_spec(c.0, c.1))
        } else {
            rest
        }
    }
}

/// Whether one lift placement — its base, optional key position and
/// travel height — lies within the world bounds.
pub open spec fn lift_def_wf(d: (Vector, Option<Vector>, i64)) -> bool {
    &&& -POS_LIMIT <= d.0.x <= POS_LIMIT
    &&& d.0.y <= POS_LIMIT
    &&& -POS_LIMIT <= d.0.y - d.2
    &&& 0 <= d.2 <= POS_LIMIT
    &&& (d.1 matches Some(k) ==> -POS_LIMIT <= k.x <= POS_LIMIT && -POS_LIMIT <= k.y <= POS_LIMIT)
}

/// The lift built from one placement.
pub open spec fn lift_from_def(d: (Vector, Option<Vector>, i64)) -> Lift {
    Lift {
        base: d.0,
        can_be_active: d.1 is Some,
        key: d.1,
        height: d.2,
        current: if d.1 is None {
            0
        } else if d.2 - TILE > 0 {
            (d.2 - TILE) as i64
        } else {
            0
        },
        active: false,
    }
}

/// The static data a level is built from: where the player starts, the
/// cell grid, and the lift placements.
#[derive(Debug)]
pub struct Definition {
    pub player_start: Vector,
    pub grid: Grid<Cell>,
    pub lifts: Vec<(Vector, Option<Vector>, i64)>,
}

impl Definition {
    pub open spec fn wf(self) -> bool {
        &&& self.grid.wf()
        &&& -POS_LIMIT <= self.player_start.x <= POS_LIMIT
        &&& -POS_LIMIT <= self.player_start.y <= POS_LIMIT
        &&& forall|i: int| 0 <= i < self.lifts@.len() ==> lift_def_wf(#[trigger] self.lifts@[i])
    }

    /// Whether two definitions describe the same level.
    pub open spec fn equivalent_to(self, other: Definition) -> bool {
        &&& self.player_start == other.player_start
        &&& self.grid.spec_width() == other.grid.spec_width()
        &&& self.grid.spec_height() == other.grid.spec_height()
        &&& self.grid.spec_cells() == other.grid.spec_cells()
        &&& self.lifts@ == other.lifts@
    }

    /// An independent copy of the definition.
    pub fn duplicate(&self) -> (r: Self)
        ensures
            r.equivalent_to(*self),
    {
        let mut lifts: Vec<(Vector, Option<Vector>, i64)> = Vec::new();
        let mut i: usize = 0;
        while i < self.lifts.len()
            invariant
                i <= self.lifts@.len(),
                lifts@.len() == i,
                forall|j: int| 0 <= j < i ==> lifts@[j] == self.lifts@[j],
            decreases self.lifts@.len() - i,
        {
            lifts.push(self.lifts[i]);
            i = i + 1;
        }
        proof {
            assert(lifts@ =~= self.lifts@);
        }
        Definition { player_start: self.player_start, grid: self.grid.duplicate(), lifts }
    }
}

/// What one simulation tick reports back to the host.
#[derive(Debug, Clone, Copy, PartialEq, Eq, Structural)]
pub struct TickOutcome {
    /// Whether the resolution loop removed all overlap; `false` means the
    /// iteration budget ran out and a residual overlap was tolerated.
    pub converged: bool,
    /// Whether the player touched a hazard and the level was restarted.
    pub respawned: bool,
}

/// A running level: its immutable definition and the mutable actors.
#[derive(Debug)]
pub struct Level {
    pub definition: Definition,
    pub player: Player,
    pub water: Water,
    pub lifts: Vec<Lift>,
}

/// The player after one corrective step of the resolution loop: pushed by
/// the penetration vector through the clamped move, then the contact
/// classified — a downward push is a floor contact that stops a falling
/// player and grounds it, an upward push is a ceiling contact that stops
/// a rising player, and a pure horizontal push changes no vertical state.
pub open spec fn player_after_step(p: Player, push: Vector) -> Player {
    let moved = Player {
        position: Vector {
            x: clamp_spec(p.position.x + push.x, -POS_LIMIT as int, POS_LIMIT as int) as i64,
            y: clamp_spec(p.position.y + push.y, -POS_LIMIT as int, POS_LIMIT as int) as i64,
        },
        ..p
    };
    if push.y < 0 && moved.velocity.y >= 0 {
        Player { velocity: Vector { x: moved.velocity.x, y: 0 }, is_on_ground: true, ..moved }
    } else if push.y > 0 && moved.velocity.y < 0 {
        Player { velocity: Vector { x: moved.velocity.x, y: 0 }, ..moved }
    } else {
        moved
    }
}

/// One corrective step of the resolution loop: if the player penetrates
/// any solid, it is moved out along the worst overlap; a clear player is
/// left alone.
pub open spec fn resolve_step_spec(l: Level) -> Level {
    match l.terrain_penetration_spec() {
        None => l,
        Some(push) => Level { player: player_after_step(l.player, push), ..l },
    }
}

/// `n` corrective steps of the resolution loop. Once a step finds the
/// player clear, every later step leaves the level unchanged.
pub open spec fn resolve_steps_spec(l: Level, n: nat) -> Level
    decreases n,
{
    if n == 0 {
        l
    } else {
        resolve_step_spec(resolve_steps_spec(l, (n - 1) as nat))
    }
}

/// Resolution is stable once clear: if `k` corrective steps leave the
/// player free of overlap, running any number of further steps changes
/// nothing — geometry resolvable in fewer steps than the budget ends with
/// zero residual overlap.
pub proof fn lemma_resolution_is_stable_once_clear(l: Level, k: nat, n: nat)
    requires
        k <= n,
        resolve_steps_spec(l, k).terrain_penetration_spec() is None,
    ensures
        resolve_steps_spec(l, n) == resolve_steps_spec(l, k),
    decreases n,
{
    if n > k {
        lemma_resolution_is_stable_once_clear(l, k, (n - 1) as nat);
    }
}

/// The lifts and the carried player after one tick's lift pass: each lift
/// in turn is activated exactly when its riding box overlaps `rider_box`
/// and then updated, threading the player through.
pub open spec fn lifts_after_tick(
    lifts: Seq<Lift>,
    rider_box: Aabb,
    delta_millis: u64,
    crank_speed: i64,
    p: Player,
) -> (Seq<Lift>, Player)
    decreases lifts.len(),
{
    if lifts.len() == 0 {
        (Seq::empty(), p)
    } else {
        let (front, carried) = lifts_after_tick(
            lifts.drop_last(),
            rider_box,
            delta_millis,
            crank_speed,
            p,
        );
        let activated = lift_activated(
            lifts.last(),
            lifts.last().interaction_box_spec().collides_spec(rider_box),
        );
        let (updated, rider) = activated.spec_updated(delta_millis, crank_speed, carried);
        (front.push(updated), rider)
    }
}

/// Whether a player at `player`, over `grid`, with the water risen to
/// `water_level`, is in contact with a hazard: under the water line, or
/// overlapping the harmful box of a hazard cell.
pub open spec fn hazard_at(player: Player, grid: Grid<Cell>, water_level: i64) -> bool {
    ||| player.position.y > SCREEN_BOTTOM - water_level
    ||| {
        let player_box = player.collision_box_spec();
        let hazards = hazard_boxes_spec(grid, coords_spec(player_box));
        exists|i: int| 0 <= i < hazards.len() && player_box.collides_spec(#[trigger] hazards[i])
    }
}

impl Level {
    pub open spec fn wf(self) -> bool {
        &&& self.definition.wf()
        &&& self.player.wf()
        &&& self.water.wf()
        &&& forall|i: int| 0 <= i < self.lifts@.len() ==> (#[trigger] self.lifts@[i]).wf()
    }

    /// Whether this is the starting state of the level `d` describes.
    pub open spec fn is_fresh_from(self, d: Definition) -> bool {
        &&& self.definition.equivalent_to(d)
        &&& self.player == (Player {
            position: d.player_start,
            velocity: Vector { x: 0, y: 0 },
            is_on_ground: false,
            run_animation: None,
        })
        &&& self.water.spec_level() == 0
        &&& self.lifts@ == d.lifts@.map_values(|t: (Vector, Option<Vector>, i64)| lift_from_def(t))
    }

    /// The worst penetration of the player against the level's solids:
    /// the terrain cells the player's box touches, and every lift.
    pub open spec fn terrain_penetration_spec(self) -> Option<Vector> {
        let player_box = self.player.collision_box_spec();
        max_penetration_spec(
            player_box,
            terrain_boxes_spec(self.definition.grid, coords_spec(player_box))
                + self.lifts@.map_values(|l: Lift| l.collision_box_spec()),
        )
    }

    /// Whether the player is in contact with a hazard: under water, or
    /// overlapping the harmful box of a hazard cell.
    pub open spec fn hazard_spec(self) -> bool {
        hazard_at(self.player, self.definition.grid, self.water.spec_level())
    }

    /// The starting state of the level `definition` describes.
    pub fn from_definition(definition: Definition) -> (r: Level)
        requires
            definition.wf(),
        ensures
            r.definition == definition,
            r.is_fresh_from(definition),
            r.wf(),
    {
        let player = Player::new(definition.player_start);
        let mut lifts: Vec<Lift> = Vec::new();
        let mut i: usize = 0;
        while i < definition.lifts.len()
            invariant
                definition.wf(),
                i <= definition.lifts@.len(),
                lifts@.len() == i,
                forall|j: int| 0 <= j < i ==> lifts@[j] == lift_from_def(definition.lifts@[j]),
                forall|j: int| 0 <= j < i ==> (#[trigger] lifts@[j]).wf(),
            decreases definition.lifts@.len() - i,
        {
            let (base, key, height) = definition.lifts[i];
            lifts.push(Lift::new(base, key, height));
            i = i + 1;
        }
        proof {
            assert(lifts@ =~= definition.lifts@.map_values(
                |t: (Vector, Option<Vector>, i64)| lift_from_def(t),
            ));
        }
        Level { definition, player, water: Water::new(), lifts }
    }

    /// One query of the player against the level's solids: the worst
    /// current overlap, or `None` when the player is clear.
    pub fn collides_against_terrain(&self) -> (r: Option<Vector>)
        requires
            self.wf(),
        ensures
            r == self.terrain_penetration_spec(),
            r matches Some(p) ==> -2 * COORD_LIMIT <= p.x <= 2 * COORD_LIMIT && -2 * COORD_LIMIT
                <= p.y <= 2 * COORD_LIMIT,
    {
        let player_box = self.player.collision_box();
        let cs = coords(player_box);
        let ghost cs_spec = coords_spec(player_box);
        let mut candidates: Vec<Aabb> = Vec::new();
        let mut i: usize = 0;
        proof {
            assert(cs_spec.take(0) =~= Seq::<(int, int)>::empty());
            lemma_tile_bound_keeps_boxes_wf(player_box);
        }
        while i < cs.len()
            invariant
                self.wf(),
                player_box == self.player.collision_box_spec(),
                player_box.wf(),
                cs_spec == coords_spec(player_box),
                cs@.len() == cs_spec.len(),
                forall|k: int|
                    0 <= k < cs@.len() ==> (#[trigger] cs@[k])@[0] == cs_spec[k].0 && cs@[k]@[1]
                        == cs_spec[k].1,
                forall|k: int|
                    0 <= k < cs@.len() ==> 0 <= (#[trigger] cs@[k])@[0] && (cs@[k]@[0] + 1) * (
                    TILE as int) <= COORD_LIMIT && 0 <= cs@[k]@[1] && (cs@[k]@[1] + 1) * (
                    TILE as int) <= COORD_LIMIT,
                i <= cs@.len(),
                candidates@ == terrain_boxes_spec(self.definition.grid, cs_spec.take(i as int)),
                forall|k: int| 0 <= k < candidates@.len() ==> (#[trigger] candidates@[k]).wf(),
            decreases cs@.len() - i,
        {
            proof {
                assert(cs_spec.take(i as int + 1).drop_last() =~= cs_spec.take(i as int));
                assert(cs_spec.take(i as int + 1).last() == cs_spec[i as int]);
            }
            let c = cs[i];
            let is_terrain = match self.definition.grid.get(Coord::new(c[0] as i32, c[1] as i32)) {
                Some(Cell::Terrain) => true,
                _ => false,
            };
            if is_terrain {
                let min_x = (c[0] as i64) * TILE;
                let min_y = (c[1] as i64) * TILE;
                candidates.push(
                    Aabb::from_min_max(
                        Vector { x: min_x, y: min_y },
                        Vector { x: min_x + TILE, y: min_y + TILE },
                    ),
                );
            }
            i = i + 1;
        }
        proof {
            assert(cs_spec.take(cs_spec.len() as int) =~= cs_spec);
        }
        let ghost terrain_part = candidates@;
        let mut j: usize = 0;
        while j < self.lifts.len()
            invariant
                self.wf(),
                j <= self.lifts@.len(),
                forall|k: int| 0 <= k < candidates@.len() ==> (#[trigger] candidates@[k]).wf(),
                candidates@ == terrain_part + self.lifts@.take(j as int).map_values(
                    |l: Lift| l.collision_box_spec(),
                ),
            decreases self.lifts@.len() - j,
        {
            candidates.push(self.lifts[j].collision_box());
            proof {
                assert(candidates@ =~= terrain_part + self.lifts@.take(j as int + 1).map_values(
                    |l: Lift| l.collision_box_spec(),
                ));
            }
            j = j + 1;
        }
        proof {
            assert(self.lifts@.take(self.lifts@.len() as int) =~= self.lifts@);
        }
        let r = player_box.max_penetration(candidates.as_slice());
        proof {
            if r is Some {
                let p = r->0;
                let w = choose|k: int|
                    0 <= k < candidates@.len() && #[trigger] player_box.penetration_spec(
                        candidates@[k],
                    ) == Some(p);
                crate::collision::lemma_penetration_in_bounds(player_box, candidates@[w]);
            }
        }
        r
    }

    /// Pushes the player out of overlapping solids, worst overlap first,
    /// until none remains or the iteration budget runs out: the level ends
    /// up exactly at the budgeted fold of [`resolve_step_spec`].
    ///
    /// Returns whether the loop converged: afterwards the player is clear
    /// of all solids exactly when the result is `true`.
    pub fn resolve_collisions(&mut self) -> (converged: bool)
        requires
            old(self).wf(),
        ensures
            *final(self) == resolve_steps_spec(
                *old(self),
                PENETRATION_RESOLUTION_MAX_ITER as nat,
            ),
            final(self).wf(),
            final(self).definition == old(self).definition,
            final(self).water == old(self).water,
            final(self).lifts == old(self).lifts,
            converged == (final(self).terrain_penetration_spec() is None),
    {
        let mut iterations: u32 = 0;
        while iterations < PENETRATION_RESOLUTION_MAX_ITER
            invariant
                iterations <= PENETRATION_RESOLUTION_MAX_ITER,
                self.wf(),
                self.definition == old(self).definition,
                self.water == old(self).water,
                self.lifts == old(self).lifts,
                *self == resolve_steps_spec(*old(self), iterations as nat),
            decreases PENETRATION_RESOLUTION_MAX_ITER - iterations,
        {
            let ghost pre = *self;
            match self.collides_against_terrain() {
                None => {
                    proof {
                        lemma_resolution_is_stable_once_clear(
                            *old(self),
                            iterations as nat,
                            PENETRATION_RESOLUTION_MAX_ITER as nat,
                        );
                    }
                    return true;
                },
                Some(p) => {
                    self.player.move_by(p);
                    if p.y < 0 {
                        self.player.on_floor_hit();
                    } else if p.y > 0 {
                        self.player.on_roof_hit();
                    }
                    proof {
                        assert(self.player == player_after_step(pre.player, p));
                        assert(*self == resolve_step_spec(pre));
                        assert(resolve_steps_spec(*old(self), (iterations + 1) as nat)
                            == resolve_step_spec(resolve_steps_spec(*old(self), iterations as nat)));
                    }
                },
            }
            iterations = iterations + 1;
        }
        match self.collides_against_terrain() {
            None => true,
            Some(_) => false,
        }
    }

    /// Whether the player is currently in contact with a hazard: under
    /// the water line, or inside the harmful box of a hazard cell.
    pub fn collides_against_hazard(&self) -> (r: bool)
        requires
            self.wf(),
        ensures
            r == self.hazard_spec(),
    {
        let water_vertical_pos = self.water.vertical_position();
        let player_vertical_pos = self.player.position.y;
        if player_vertical_pos > water_vertical_pos {
            return true;
        }
        let player_box = self.player.collision_box();
        let cs = coords(player_box);
        let ghost cs_spec = coords_spec(player_box);
        let mut hazards: Vec<Aabb> = Vec::new();
        let mut i: usize = 0;
        proof {
            assert(cs_spec.take(0) =~= Seq::<(int, int)>::empty());
            lemma_tile_bound_keeps_boxes_wf(player_box);
        }
        while i < cs.len()
            invariant
                self.wf(),
                player_box == self.player.collision_box_spec(),
                cs_spec == coords_spec(player_box),
                cs@.len() == cs_spec.len(),
                forall|k: int|
                    0 <= k < cs@.len() ==> (#[trigger] cs@[k])@[0] == cs_spec[k].0 && cs@[k]@[1]
                        == cs_spec[k].1,
                forall|k: int|
                    0 <= k < cs@.len() ==> 0 <= (#[trigger] cs@[k])@[0] && (cs@[k]@[0] + 1) * (
                    TILE as int) <= COORD_LIMIT && 0 <= cs@[k]@[1] && (cs@[k]@[1] + 1) * (
                    TILE as int) <= COORD_LIMIT,
                i <= cs@.len(),
                hazards@ == hazard_boxes_spec(self.definition.grid, cs_spec.take(i as int)),
            decreases cs@.len() - i,
        {
            proof {
                assert(cs_spec.take(i as int + 1).drop_last() =~= cs_spec.take(i as int));
                assert(cs_spec.take(i as int + 1).last() == cs_spec[i as int]);
            }
            let c = cs[i];
            let is_hazard = match self.definition.grid.get(Coord::new(c[0] as i32, c[1] as i32)) {
                Some(Cell::Hazard) => true,
                _ => false,
            };
            if is_hazard {
                let min_x = (c[0] as i64) * TILE;
                let min_y = (c[1] as i64) * TILE;
                hazards.push(
                    Aabb::from_min_max(
                        Vector { x: min_x + HAZARD_INSET_MIN, y: min_y + HAZARD_INSET_MIN },
                        Vector { x: min_x + HAZARD_INSET_MAX, y: min_y + HAZARD_INSET_MAX },
                    ),
                );
            }
            i = i + 1;
        }
        proof {
            assert(cs_spec.take(cs_spec.len() as int) =~= cs_spec);
        }
        player_box.collides_any(hazards.as_slice())
    }

    /// One simulation tick: apply input, integrate the player, resolve
    /// overlap against terrain and lifts, drive the lifts and the water,
    /// and restart the level if the player ends up in a hazard.
    ///
    /// The pipeline is pinned step by step: the player after input and
    /// integration, the budgeted resolution fold, the lift pass threading
    /// the player through, the water advance, and the hazard verdict on
    /// the resulting state.
    pub fn update(&mut self, delta_time: Duration, buttons: ButtonState, crank_speed: i64) -> (
        outcome: TickOutcome)
        requires
            old(self).wf(),
            delta_time.millis <= MAX_TICK_MILLIS,
            -CRANK_LIMIT <= crank_speed <= CRANK_LIMIT,
        ensures
            final(self).wf(),
            final(self).definition.equivalent_to(old(self).definition),
            outcome.respawned ==> final(self).is_fresh_from(old(self).definition),
            !outcome.respawned ==> !final(self).hazard_spec(),
            ({
                let integrated = old(self).player.spec_after_input(buttons).spec_updated(
                    delta_time.millis,
                );
                let resolved = resolve_steps_spec(
                    Level { player: integrated, ..*old(self) },
                    PENETRATION_RESOLUTION_MAX_ITER as nat,
                );
                let carried = lifts_after_tick(
                    resolved.lifts@,
                    integrated.collision_box_spec(),
                    delta_time.millis,
                    crank_speed,
                    resolved.player,
                );
                let water_level = clamp_spec(
                    old(self).water.spec_level() + RAISE_SPEED * delta_time.millis / 1000,
                    0,
                    POS_LIMIT as int,
                ) as i64;
                &&& outcome.converged == (resolved.terrain_penetration_spec() is None)
                &&& outcome.respawned == hazard_at(
                    carried.1,
                    old(self).definition.grid,
                    water_level,
                )
                &&& !outcome.respawned ==> final(self).player == carried.1
                    && final(self).lifts@ == carried.0
                    && final(self).water.spec_level() == water_level
                    && final(self).definition == old(self).definition
            }),
    {
        self.player.handle_input(buttons);
        self.player.update(delta_time);
        let ghost integrated = self.player;
        let ghost start = Level { player: integrated, ..*old(self) };
        proof {
            assert(*self == start);
        }
        let player_collision_box = self.player.collision_box();
        let converged = self.resolve_collisions();
        let ghost resolved = resolve_steps_spec(start, PENETRATION_RESOLUTION_MAX_ITER as nat);
        let ghost rider = integrated.collision_box_spec();
        proof {
            assert(*self == resolved);
            assert(resolved.lifts@.take(0) =~= Seq::<Lift>::empty());
        }
        let mut i: usize = 0;
        while i < self.lifts.len()
            invariant
                self.wf(),
                self.definition == resolved.definition,
                self.water == resolved.water,
                resolved.definition == old(self).definition,
                resolved.water == old(self).water,
                self.lifts@.len() == resolved.lifts@.len(),
                i <= self.lifts@.len(),
                delta_time.millis <= MAX_TICK_MILLIS,
                -CRANK_LIMIT <= crank_speed <= CRANK_LIMIT,
                player_collision_box == rider,
                forall|j: int| i <= j < self.lifts@.len() ==> self.lifts@[j] == resolved.lifts@[j],
                (self.lifts@.take(i as int), self.player) == lifts_after_tick(
                    resolved.lifts@.take(i as int),
                    rider,
                    delta_time.millis,
                    crank_speed,
                    resolved.player,
                ),
            decreases self.lifts@.len() - i,
        {
            let ghost prefix = self.lifts@.take(i as int);
            let mut lift = self.lifts[i];
            let active = lift.interaction_box().collides(player_collision_box);
            lift.set_active(active);
            lift.update(delta_time, crank_speed, &mut self.player);
            self.lifts.set(i, lift);
            proof {
                assert(resolved.lifts@.take(i as int + 1).drop_last() =~= resolved.lifts@.take(
                    i as int,
                ));
                assert(resolved.lifts@.take(i as int + 1).last() == resolved.lifts@[i as int]);
                assert(self.lifts@.take(i as int + 1) =~= prefix.push(lift));
            }
            i = i + 1;
        }
        proof {
            assert(resolved.lifts@.take(resolved.lifts@.len() as int) =~= resolved.lifts@);
            assert(self.lifts@.take(self.lifts@.len() as int) =~= self.lifts@);
        }
        self.water.update(delta_time);
        let respawned = self.collides_against_hazard();
        if respawned {
            let definition = self.definition.duplicate();
            proof {
                assert(definition.wf());
            }
            *self = Level::from_definition(definition);
        }
        TickOutcome { converged, respawned }
    }
}

/// The grid query is complete: every cell whose full box strictly
/// overlaps `b` appears among the queried coordinates. The rectangle of
/// candidates is a superset of the truly touched cells; the excess only
/// ever touches `b` along a boundary.
pub proof fn lemma_coords_cover_overlapping_cells(b: Aabb, x: int, y: int)
    requires
        b.wf(),
        0 <= x <= max_tile_index(),
        0 <= y <= max_tile_index(),
        b.collides_spec(cell_box_spec(x, y)),
    ensures
        exists|i: int| 0 <= i < coords_spec(b).len() && coords_spec(b)[i] == (x, y),
{
    let lo_x = coord_lo(b.x.min);
    let hi_x = coord_hi(b.x.max);
    let lo_y = coord_lo(b.y.min);
    let hi_y = coord_hi(b.y.max);
    lemma_cell_axis_bounds(b.x.min, b.x.max, x);
    lemma_cell_axis_bounds(b.y.min, b.y.max, y);
    let ny = hi_y - lo_y;
    let i = (x - lo_x) * ny + (y - lo_y);
    assert(0 <= i < (hi_x - lo_x) * ny) by (nonlinear_arith)
        requires
            i == (x - lo_x) * ny + (y - lo_y),
            lo_x <= x < hi_x,
            lo_y <= y < hi_y,
            ny == hi_y - lo_y,
    ;
    vstd::arithmetic::div_mod::lemma_fundamental_div_mod_converse(i, ny, x - lo_x, y - lo_y);
    assert(coords_spec(b)[i] == (x, y));
}

/// On one axis, an interval that strictly overlaps the tile `[c*TILE,
/// (c+1)*TILE]` has that tile inside its queried range.
proof fn lemma_cell_axis_bounds(lo: i64, hi: i64, c: int)
    requires
        -COORD_LIMIT <= lo <= hi <= COORD_LIMIT,
        0 <= c <= max_tile_index(),
        hi > c * (TILE as int),
        lo < (c + 1) * (TILE as int),
    ensures
        coord_lo(lo) <= c,
        coord_hi(hi) > c,
{
    let t = TILE as int;
    assert((c + 1) * t - 1 == c * t + (t - 1)) by (nonlinear_arith);
    vstd::arithmetic::div_mod::lemma_fundamental_div_mod_converse_div(
        (c + 1) * t - 1,
        t,
        c,
        t - 1,
    );
    vstd::arithmetic::div_mod::lemma_div_is_ordered(lo as int, (c + 1) * t - 1, t);
    assert(-(c * t) - 1 == (-c - 1) * t + (t - 1)) by (nonlinear_arith);
    vstd::arithmetic::div_mod::lemma_fundamental_div_mod_converse_div(
        -(c * t) - 1,
        t,
        -c - 1,
        t - 1,
    );
    vstd::arithmetic::div_mod::lemma_div_is_ordered(-(hi as int), -(c * t) - 1, t);
}

/// The upper tile index of a coordinate, scaled back to units, lands at
/// most one tile past the coordinate.
proof fn lemma_ceil_scaled_bound(v: i64)
    ensures
        coord_hi(v) > 0 ==> coord_hi(v) * (TILE as int) <= v + TILE,
{
    vstd::arithmetic::div_mod::lemma_fundamental_div_mod(-(v as int), TILE as int);
    vstd::arithmetic::div_mod::lemma_mod_division_less_than_divisor(-(v as int), TILE as int);
    let m = (-(v as int)) / (TILE as int);
    let r = (-(v as int)) % (TILE as int);
    assert((-m) * (TILE as int) == v + r) by (nonlinear_arith)
        requires
            -(v as int) == (TILE as int) * m + r,
    ;
}

/// Every candidate cell box of an entity's bounding box stays inside the
/// world coordinate bounds: the query's tile indices are nonnegative and,
/// scaled back to units, land at most one tile past the box.
proof fn lemma_tile_bound_keeps_boxes_wf(b: Aabb)
    requires
        b.wf(),
        b.x.max <= POS_LIMIT + 2 * TILE,
        b.y.max <= POS_LIMIT + 2 * TILE,
    ensures
        forall|i: int|
            0 <= i < coords_spec(b).len() ==> {
                let c = #[trigger] coords_spec(b)[i];
                0 <= c.0 && (c.0 + 1) * (TILE as int) <= COORD_LIMIT && 0 <= c.1 && (c.1 + 1) * (
                TILE as int) <= COORD_LIMIT
            },
{
    let lo_x = coord_lo(b.x.min);
    let hi_x = coord_hi(b.x.max);
    let lo_y = coord_lo(b.y.min);
    let hi_y = coord_hi(b.y.max);
    let ny = hi_y - lo_y;
    let cs = coords_spec(b);
    lemma_tile_range_ordered(b.x.min, b.x.max);
    lemma_tile_range_ordered(b.y.min, b.y.max);
    lemma_ceil_scaled_bound(b.x.max);
    lemma_ceil_scaled_bound(b.y.max);
    assert forall|i: int| 0 <= i < cs.len() implies {
        let c = #[trigger] cs[i];
        0 <= c.0 && (c.0 + 1) * (TILE as int) <= COORD_LIMIT && 0 <= c.1 && (c.1 + 1) * (
        TILE as int) <= COORD_LIMIT
    } by {
        assert(cs.len() == (hi_x - lo_x) * ny);
        assert(ny > 0) by (nonlinear_arith)
            requires
                (hi_x - lo_x) * ny > 0,
                ny >= 0,
        ;
        vstd::arithmetic::div_mod::lemma_div_pos_is_pos(i, ny);
        vstd::arithmetic::div_mod::lemma_mod_division_less_than_divisor(i, ny);
        assert((hi_x - lo_x) * ny - 1 == (hi_x - lo_x - 1) * ny + (ny - 1)) by (nonlinear_arith);
        vstd::arithmetic::div_mod::lemma_fundamental_div_mod_converse_div(
            (hi_x - lo_x) * ny - 1,
            ny,
            hi_x - lo_x - 1,
            ny - 1,
        );
        vstd::arithmetic::div_mod::lemma_div_is_ordered(i, (hi_x - lo_x) * ny - 1, ny);
        assert(cs[i].0 == lo_x + i / ny && lo_x <= cs[i].0 < hi_x);
        assert(cs[i].1 == lo_y + i % ny && lo_y <= cs[i].1 < hi_y);
        assert((cs[i].0 + 1) * (TILE as int) <= hi_x * (TILE as int)) by (nonlinear_arith)
            requires
                cs[i].0 + 1 <= hi_x,
                TILE > 0,
        ;
        assert((cs[i].1 + 1) * (TILE as int) <= hi_y * (TILE as int)) by (nonlinear_arith)
            requires
                cs[i].1 + 1 <= hi_y,
                TILE > 0,
        ;
    }
}

} // verus!
