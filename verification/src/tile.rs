//! Tiles and the grid of tiles that makes up one dungeon level.

use vstd::prelude::*;

verus! {

/// Width of the grid, in tiles.
pub const MAP_WIDTH: i32 = 100;

/// Height of the grid, in tiles.
pub const MAP_HEIGHT: i32 = 50;

/// One cell of the grid.
#[derive(Clone, Copy, Debug, PartialEq, Eq, Structural)]
pub struct Tile {
    pub blocked: bool,
    pub explored: bool,
    pub block_sight: bool,
}

impl Tile {
    /// Open floor that nobody has seen yet.
    #[verifier::allow_in_spec]
    pub fn empty() -> Tile
        returns
            (Tile { blocked: false, explored: false, block_sight: false }),
    {
        Tile { blocked: false, explored: false, block_sight: false }
    }

    /// Whether one can see through the tile: what the field of view is told
    /// of it.
    pub fn is_transparent(&self) -> (transparent: bool)
        ensures
            transparent == !self.block_sight,
    {
        !self.block_sight
    }

    /// Whether one can walk over the tile.
    pub fn is_walkable(&self) -> (walkable: bool)
        ensures
            walkable == !self.blocked,
    {
        !self.blocked
    }

    /// A wall that nobody has seen yet: it stops movement and sight.
    #[verifier::allow_in_spec]
    pub fn wall() -> Tile
        returns
            (Tile { blocked: true, explored: false, block_sight: true }),
    {
        Tile { blocked: true, explored: false, block_sight: true }
    }
}

impl Default for Tile {
    /// Open floor that nobody has seen yet.
    fn default() -> (tile: Tile)
        ensures
            tile == Tile::empty(),
    {
        Tile::empty()
    }
}

/// The grid of one level: `MAP_WIDTH` columns of `MAP_HEIGHT` tiles each,
/// addressed as `grid[x][y]`.
pub type TileGrid = Vec<Vec<Tile>>;

/// Whether `(x, y)` names a cell of the grid.
pub open spec fn in_bounds(x: int, y: int) -> bool {
    0 <= x < MAP_WIDTH && 0 <= y < MAP_HEIGHT
}

/// A grid has the fixed dimensions.
pub open spec fn grid_wf(map: TileGrid) -> bool {
    &&& map.len() == MAP_WIDTH
    &&& forall|x: int| 0 <= x < MAP_WIDTH ==> (#[trigger] map[x]).len() == MAP_HEIGHT
}

/// Whether the grid holds a tile at `(x, y)`.
pub open spec fn has_tile(map: TileGrid, x: int, y: int) -> bool {
    0 <= x < map.len() && 0 <= y < map[x].len()
}

/// The tile at `(x, y)` exists and is no wall.
pub open spec fn is_open(map: TileGrid, x: int, y: int) -> bool {
    has_tile(map, x, y) && !map[x][y].blocked
}

/// A grid in which every tile is an unseen wall.
pub fn walled_grid() -> (map: TileGrid)
    ensures
        grid_wf(map),
        forall|x: int, y: int| in_bounds(x, y) ==> (#[trigger] map[x][y]) == Tile::wall(),
{
    let mut map: TileGrid = Vec::new();
    let mut x: i32 = 0;
    while x < MAP_WIDTH
        invariant
            0 <= x <= MAP_WIDTH,
            map.len() == x,
            forall|i: int| 0 <= i < x ==> (#[trigger] map[i]).len() == MAP_HEIGHT,
            forall|i: int, j: int|
                0 <= i < x && 0 <= j < MAP_HEIGHT ==> (#[trigger] map[i][j]) == Tile::wall(),
        decreases MAP_WIDTH - x,
    {
        let mut column: Vec<Tile> = Vec::new();
        let mut y: i32 = 0;
        while y < MAP_HEIGHT
            invariant
                0 <= y <= MAP_HEIGHT,
                column.len() == y,
                forall|j: int| 0 <= j < y ==> (#[trigger] column[j]) == Tile::wall(),
            decreases MAP_HEIGHT - y,
        {
            column.push(Tile::wall());
            y += 1;
        }
        map.push(column);
        x += 1;
    }
    map
}

} // verus!
