use vstd::prelude::*;

verus! {

/// Side length of the square factory lattice.
pub const GRID_SIZE: usize = 10;

/// Number of cells of the lattice.
pub const GRID_CELLS: usize = 100;

/// One of the four sides of a tile.
#[derive(Clone, Copy, Debug, PartialEq, Eq, Structural)]
pub enum Direction {
    Right,
    Up,
    Left,
    Down,
}

/// An integer position on the lattice; `x` grows to the right, `y` upwards.
#[derive(Clone, Copy, Debug, PartialEq, Eq, Structural)]
pub struct TileCoords {
    pub x: i32,
    pub y: i32,
}

/// A building that occupies a cell: a pipe segment or a machine, by arena handle.
#[derive(Clone, Copy, Debug, PartialEq, Eq, Structural)]
pub enum Building {
    Pipe(usize),
    Machine(usize),
}

impl Direction {
    /// The side facing the other way.
    pub open spec fn flip_spec(self) -> Direction {
        match self {
            Direction::Right => Direction::Left,
            Direction::Up => Direction::Down,
            Direction::Left => Direction::Right,
            Direction::Down => Direction::Up,
        }
    }

    /// Unit step of this direction, as `(dx, dy)`.
    pub open spec fn step_spec(self) -> (int, int) {
        match self {
            Direction::Right => (1, 0),
            Direction::Up => (0, 1),
            Direction::Left => (-1, 0),
            Direction::Down => (0, -1),
        }
    }

    /// The four directions, in the order right, up, left, down.
    pub open spec fn all_spec() -> Seq<Direction> {
        seq![Direction::Right, Direction::Up, Direction::Left, Direction::Down]
    }

    /// The four directions, in the order right, up, left, down.
    pub fn iter() -> (r: Vec<Direction>)
        ensures
            r@ == Self::all_spec(),
    {
        let r = vec![Direction::Right, Direction::Up, Direction::Left, Direction::Down];
        assert(r@ =~= Self::all_spec());
        r
    }

    /// Unit step of this direction, as `(dx, dy)`.
    pub fn as_ivec2(&self) -> (r: (i32, i32))
        ensures
            r.0 as int == self.step_spec().0,
            r.1 as int == self.step_spec().1,
    {
        match self {
            Direction::Right => (1, 0),
            Direction::Up => (0, 1),
            Direction::Left => (-1, 0),
            Direction::Down => (0, -1),
        }
    }

    pub fn flip(&self) -> (r: Direction)
        ensures
            r == self.flip_spec(),
    {
        match self {
            Direction::Right => Direction::Left,
            Direction::Up => Direction::Down,
            Direction::Left => Direction::Right,
            Direction::Down => Direction::Up,
        }
    }
}

impl TileCoords {
    pub fn new(x: i32, y: i32) -> (r: TileCoords)
        ensures
            r.x == x,
            r.y == y,
    {
        TileCoords { x, y }
    }

    /// The cell one step away in direction `dir`.
    pub open spec fn neighbor_spec(self, dir: Direction) -> (int, int) {
        (self.x + dir.step_spec().0, self.y + dir.step_spec().1)
    }

    /// The cell one step away in direction `dir`, or `None` where that leaves the `i32` range.
    pub fn neighbor(&self, dir: Direction) -> (r: Option<TileCoords>)
        ensures
            r matches Some(n) ==> n.x == self.neighbor_spec(dir).0 && n.y == self.neighbor_spec(dir).1,
            r is None <==> !(i32::MIN <= self.neighbor_spec(dir).0 <= i32::MAX
                && i32::MIN <= self.neighbor_spec(dir).1 <= i32::MAX),
    {
        let (dx, dy) = dir.as_ivec2();
        let x = self.x.checked_add(dx);
        let y = self.y.checked_add(dy);
        match (x, y) {
            (Some(x), Some(y)) => Some(TileCoords { x, y }),
            _ => None,
        }
    }

    /// Which way `other` lies from `self`: along the column up or down when the
    /// `x` coordinates agree (down also when the two are equal), else right or left.
    pub open spec fn direction_to_spec(self, other: TileCoords) -> Direction {
        if self.x == other.x {
            if self.y < other.y {
                Direction::Up
            } else {
                Direction::Down
            }
        } else if self.x < other.x {
            Direction::Right
        } else {
            Direction::Left
        }
    }

    pub fn direction_to(&self, other: &TileCoords) -> (r: Direction)
        ensures
            r == self.direction_to_spec(*other),
    {
        if self.x == other.x {
            if self.y < other.y {
                Direction::Up
            } else {
                Direction::Down
            }
        } else if self.x < other.x {
            Direction::Right
        } else {
            Direction::Left
        }
    }
}

/// Whether `(x, y)` lies on the lattice `[0, GRID_SIZE) x [0, GRID_SIZE)`.
pub open spec fn in_bounds(x: int, y: int) -> bool {
    0 <= x < GRID_SIZE && 0 <= y < GRID_SIZE
}

/// Row-major cell index of an in-bounds position.
pub open spec fn cell_index(x: int, y: int) -> int {
    y * GRID_SIZE + x
}

/// Whether `(x, y)` is an inner cell of the lattice, off its border.
pub open spec fn is_interior(x: int, y: int) -> bool {
    1 <= x < GRID_SIZE - 1 && 1 <= y < GRID_SIZE - 1
}

/// A position on the lattice has its cell index in `[0, GRID_CELLS)`.
pub proof fn lemma_cell_in_range(x: int, y: int)
    requires
        in_bounds(x, y),
    ensures
        0 <= cell_index(x, y) < GRID_CELLS,
{
    assert(0 <= y * 10 + x < 100) by (nonlinear_arith)
        requires
            0 <= x < 10,
            0 <= y < 10,
    ;
}

/// Distinct positions on the lattice have distinct cell indices.
pub proof fn lemma_cells_distinct(a: TileCoords, b: TileCoords)
    requires
        in_bounds(a.x as int, a.y as int),
        in_bounds(b.x as int, b.y as int),
        a != b,
    ensures
        cell_index(a.x as int, a.y as int) != cell_index(b.x as int, b.y as int),
        0 <= cell_index(a.x as int, a.y as int) < GRID_CELLS,
{
    assert(cell_index(a.x as int, a.y as int) != cell_index(b.x as int, b.y as int)) by (nonlinear_arith)
        requires
            a.x != b.x || a.y != b.y,
            0 <= a.x < 10,
            0 <= a.y < 10,
            0 <= b.x < 10,
            0 <= b.y < 10,
    ;
    assert(0 <= cell_index(a.x as int, a.y as int) < 100) by (nonlinear_arith)
        requires
            0 <= a.x < 10,
            0 <= a.y < 10,
    ;
}

/// The lattice: which cells can be built on, and which building stands on each cell.
pub struct Grid {
    pub tiles: Vec<bool>,
    pub buildings: Vec<Option<Building>>,
}

impl Grid {
    pub open spec fn wf(&self) -> bool {
        &&& self.tiles@.len() == GRID_CELLS
        &&& self.buildings@.len() == GRID_CELLS
    }

    /// Whether the cell at `pos` can be built on; false off the lattice.
    pub open spec fn tile_spec(&self, pos: TileCoords) -> bool {
        in_bounds(pos.x as int, pos.y as int) && self.tiles@[cell_index(pos.x as int, pos.y as int)]
    }

    /// The building at `pos`; none off the lattice.
    pub open spec fn building_spec(&self, pos: TileCoords) -> Option<Building> {
        if in_bounds(pos.x as int, pos.y as int) {
            self.buildings@[cell_index(pos.x as int, pos.y as int)]
        } else {
            None
        }
    }

    /// A lattice with no buildable cell and no building.
    pub fn empty() -> (r: Grid)
        ensures
            r.wf(),
            forall|pos: TileCoords| !r.tile_spec(pos) && r.building_spec(pos) is None,
    {
        let mut tiles: Vec<bool> = Vec::new();
        let mut buildings: Vec<Option<Building>> = Vec::new();
        let mut i: usize = 0;
        while i < GRID_CELLS
            invariant
                i <= GRID_CELLS,
                tiles@.len() == i,
                buildings@.len() == i,
                forall|j: int| 0 <= j < i ==> !tiles@[j] && buildings@[j] is None,
            decreases GRID_CELLS - i,
        {
            tiles.push(false);
            buildings.push(None);
            i = i + 1;
        }
        Grid { tiles, buildings }
    }

    /// Row-major index of `pos`, or `None` off the lattice.
    fn try_index(&self, pos: TileCoords) -> (r: Option<usize>)
        ensures
            r is Some <==> in_bounds(pos.x as int, pos.y as int),
            r matches Some(i) ==> i as int == cell_index(pos.x as int, pos.y as int) && i < GRID_CELLS,
    {
        if pos.x >= 0 && pos.y >= 0 && pos.x < GRID_SIZE as i32 && pos.y < GRID_SIZE as i32 {
            assert(0 <= pos.y * 10 + pos.x < 100) by (nonlinear_arith)
                requires
                    0 <= pos.x < 10,
                    0 <= pos.y < 10,
            ;
            Some((pos.y * GRID_SIZE as i32 + pos.x) as usize)
        } else {
            None
        }
    }

    pub fn get_tile(&self, pos: TileCoords) -> (r: bool)
        requires
            self.wf(),
        ensures
            r == self.tile_spec(pos),
    {
        match self.try_index(pos) {
            Some(i) => self.tiles[i],
            None => false,
        }
    }

    pub fn get_building(&self, pos: TileCoords) -> (r: Option<Building>)
        requires
            self.wf(),
        ensures
            r == self.building_spec(pos),
    {
        match self.try_index(pos) {
            Some(i) => self.buildings[i],
            None => None,
        }
    }

    /// Marks the cell at `pos` buildable or not; nothing happens off the lattice.
    pub fn set_tile(&mut self, pos: TileCoords, buildable: bool)
        requires
            old(self).wf(),
        ensures
            final(self).wf(),
            final(self).buildings@ == old(self).buildings@,
            forall|q: TileCoords| #[trigger] final(self).tile_spec(q) == if q == pos && in_bounds(
                pos.x as int,
                pos.y as int,
            ) {
                buildable
            } else {
                old(self).tile_spec(q)
            },
    {
        if let Some(i) = self.try_index(pos) {
            self.tiles.set(i, buildable);
        }
    }

    /// Puts `building` on the cell at `pos` and hands back what stood there.
    /// Off the lattice nothing changes and the result is `None`.
    pub fn insert_building(&mut self, pos: TileCoords, building: Building) -> (r: Option<
        Building,
    >)
        requires
            old(self).wf(),
        ensures
            final(self).wf(),
            r == old(self).building_spec(pos),
            final(self).tiles@ == old(self).tiles@,
            forall|q: TileCoords|
                q != pos ==> #[trigger] final(self).building_spec(q) == old(self).building_spec(q),
            in_bounds(pos.x as int, pos.y as int) ==> final(self).building_spec(pos) == Some(building),
            in_bounds(pos.x as int, pos.y as int) ==> final(self).buildings@ == old(
                self,
            ).buildings@.update(cell_index(pos.x as int, pos.y as int), Some(building)),
            !in_bounds(pos.x as int, pos.y as int) ==> final(self).buildings@ == old(
                self,
            ).buildings@,
    {
        match self.try_index(pos) {
            Some(i) => {
                let old_building = self.buildings[i];
                self.buildings.set(i, Some(building));
                assert forall|q: TileCoords| q != pos implies #[trigger] self.building_spec(q)
                    == old(self).building_spec(q) by {
                    if in_bounds(q.x as int, q.y as int) {
                        lemma_cells_distinct(q, pos);
                    }
                }
                old_building
            },
            None => None,
        }
    }

    /// Clears the cell at `pos` and hands back what stood there.
    /// Off the lattice nothing changes and the result is `None`.
    pub fn remove_building(&mut self, pos: TileCoords) -> (r: Option<Building>)
        requires
            old(self).wf(),
        ensures
            final(self).wf(),
            r == old(self).building_spec(pos),
            final(self).tiles@ == old(self).tiles@,
            forall|q: TileCoords|
                q != pos ==> #[trigger] final(self).building_spec(q) == old(self).building_spec(q),
            in_bounds(pos.x as int, pos.y as int) ==> final(self).building_spec(pos) is None,
            in_bounds(pos.x as int, pos.y as int) ==> final(self).buildings@ == old(
                self,
            ).buildings@.update(cell_index(pos.x as int, pos.y as int), None),
            !in_bounds(pos.x as int, pos.y as int) ==> final(self).buildings@ == old(
                self,
            ).buildings@,
    {
        match self.try_index(pos) {
            Some(i) => {
                let old_building = self.buildings[i];
                self.buildings.set(i, None);
                assert forall|q: TileCoords| q != pos implies #[trigger] self.building_spec(q)
                    == old(self).building_spec(q) by {
                    if in_bounds(q.x as int, q.y as int) {
                        lemma_cells_distinct(q, pos);
                    }
                }
                old_building
            },
            None => None,
        }
    }

    /// A lattice whose inner cells can be built on and whose border cells cannot,
    /// with no building.
    pub fn with_interior_tiles() -> (r: Grid)
        ensures
            r.wf(),
            forall|pos: TileCoords| #[trigger]
                r.tile_spec(pos) == is_interior(pos.x as int, pos.y as int),
            forall|pos: TileCoords| #[trigger] r.building_spec(pos) is None,
    {
        let mut tiles: Vec<bool> = Vec::new();
        let mut buildings: Vec<Option<Building>> = Vec::new();
        let mut i: usize = 0;
        while i < GRID_CELLS
            invariant
                i <= GRID_CELLS,
                tiles@.len() == i,
                buildings@.len() == i,
                forall|j: int|
                    0 <= j < i ==> #[trigger] tiles@[j] == is_interior(j % 10, j / 10),
                forall|j: int| 0 <= j < i ==> #[trigger] buildings@[j] is None,
            decreases GRID_CELLS - i,
        {
            let x = i % GRID_SIZE;
            let y = i / GRID_SIZE;
            tiles.push(1 <= x && x < GRID_SIZE - 1 && 1 <= y && y < GRID_SIZE - 1);
            buildings.push(None);
            i = i + 1;
        }
        let r = Grid { tiles, buildings };
        assert forall|pos: TileCoords| #[trigger]
            r.tile_spec(pos) == is_interior(pos.x as int, pos.y as int) by {
            if in_bounds(pos.x as int, pos.y as int) {
                let c = cell_index(pos.x as int, pos.y as int);
                vstd::arithmetic::div_mod::lemma_fundamental_div_mod_converse(
                    c,
                    10,
                    pos.y as int,
                    pos.x as int,
                );
                assert(0 <= c < 100) by (nonlinear_arith)
                    requires
                        c == pos.y * 10 + pos.x,
                        0 <= pos.x < 10,
                        0 <= pos.y < 10,
                ;
            }
        }
        assert forall|pos: TileCoords| #[trigger] r.building_spec(pos) is None by {
            if in_bounds(pos.x as int, pos.y as int) {
                let c = cell_index(pos.x as int, pos.y as int);
                assert(0 <= c < 100) by (nonlinear_arith)
                    requires
                        c == pos.y * 10 + pos.x,
                        0 <= pos.x < 10,
                        0 <= pos.y < 10,
                ;
            }
        }
        r
    }
}

} // verus!
