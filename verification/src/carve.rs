//! Digging: rooms and tunnels carved out of solid rock, and the corridors
//! that join one room to the next.

use vstd::prelude::*;
use crate::reach::{
    connected, lemma_column_connected, lemma_connected_symmetric, lemma_connected_transitive,
    lemma_row_connected,
};
use crate::rect::Rect;
use crate::tile::{grid_wf, in_bounds, is_open, Tile, TileGrid, MAP_HEIGHT, MAP_WIDTH};

verus! {

/// `v` lies between `a` and `b`, whichever of the two is the smaller.
pub open spec fn between(a: int, b: int, v: int) -> bool {
    (a <= v <= b) || (b <= v <= a)
}

/// `(px, py)` lies on the horizontal tunnel from `x1` to `x2` in row `y`.
pub open spec fn on_h_tunnel(x1: int, x2: int, y: int, px: int, py: int) -> bool {
    py == y && between(x1, x2, px)
}

/// `(px, py)` lies on the vertical tunnel from `y1` to `y2` in column `x`.
pub open spec fn on_v_tunnel(y1: int, y2: int, x: int, px: int, py: int) -> bool {
    px == x && between(y1, y2, py)
}

/// `(px, py)` lies on the corridor from `from` to `to`: an L of two tunnels,
/// which leaves `from` along its row if `horizontal_first` and along its
/// column if not.
pub open spec fn on_corridor(
    from: (int, int),
    to: (int, int),
    horizontal_first: bool,
    px: int,
    py: int,
) -> bool {
    if horizontal_first {
        on_h_tunnel(from.0, to.0, from.1, px, py) || on_v_tunnel(from.1, to.1, to.0, px, py)
    } else {
        on_v_tunnel(from.1, to.1, from.0, px, py) || on_h_tunnel(from.0, to.0, to.1, px, py)
    }
}

/// `after` is `before` with open floor on every tile that `dug` names, and
/// nothing else changed.
pub open spec fn carved(before: TileGrid, after: TileGrid, dug: spec_fn(int, int) -> bool) -> bool {
    &&& grid_wf(after)
    &&& forall|x: int, y: int|
        in_bounds(x, y) ==> (#[trigger] after[x][y]) == if dug(x, y) {
            Tile::empty()
        } else {
            before[x][y]
        }
}

/// The smaller of two numbers.
fn min(a: i32, b: i32) -> (m: i32)
    ensures
        m <= a,
        m <= b,
        m == a || m == b,
{
    if a < b {
        a
    } else {
        b
    }
}

/// The larger of two numbers.
fn max(a: i32, b: i32) -> (m: i32)
    ensures
        m >= a,
        m >= b,
        m == a || m == b,
{
    if a < b {
        b
    } else {
        a
    }
}

/// go through the tiles in the rectangle and make them passable
pub fn create_room(room: Rect, map: &mut TileGrid)
    requires
        grid_wf(*old(map)),
        room.x1 < i32::MAX,
        room.y1 < i32::MAX,
        forall|x: int, y: int| #[trigger] room.contains(x, y) ==> in_bounds(x, y),
    ensures
        carved(*old(map), *final(map), |x: int, y: int| room.contains(x, y)),
{
    let ghost before = *map;
    let mut x: i32 = room.x1 + 1;
    while x < room.x2
        invariant
            room.x1 < x,
            room.y1 < i32::MAX,
            forall|a: int, b: int| #[trigger] room.contains(a, b) ==> in_bounds(a, b),
            grid_wf(*map),
            forall|a: int, b: int|
                in_bounds(a, b) ==> (#[trigger] map[a][b]) == if room.contains(a, b) && a < x {
                    Tile::empty()
                } else {
                    before[a][b]
                },
        decreases room.x2 - x,
    {
        let mut y: i32 = room.y1 + 1;
        while y < room.y2
            invariant
                room.x1 < x < room.x2,
                room.y1 < y,
                forall|a: int, b: int| #[trigger] room.contains(a, b) ==> in_bounds(a, b),
                grid_wf(*map),
                forall|a: int, b: int|
                    in_bounds(a, b) ==> (#[trigger] map[a][b]) == if room.contains(a, b) && (a < x
                        || (a == x && b < y)) {
                        Tile::empty()
                    } else {
                        before[a][b]
                    },
            decreases room.y2 - y,
        {
            assert(room.contains(x as int, y as int));
            assert(map[x as int].len() == MAP_HEIGHT);
            map[x as usize][y as usize] = Tile::empty();
            y += 1;
        }
        x += 1;
    }
}

/// horizontal tunnel. `min()` and `max()` are used in case `x1 > x2`
pub fn create_h_tunnel(x1: i32, x2: i32, y: i32, map: &mut TileGrid)
    requires
        grid_wf(*old(map)),
        in_bounds(x1 as int, y as int),
        in_bounds(x2 as int, y as int),
    ensures
        carved(
            *old(map),
            *final(map),
            |px: int, py: int| on_h_tunnel(x1 as int, x2 as int, y as int, px, py),
        ),
{
    let ghost before = *map;
    let low: i32 = min(x1, x2);
    let high: i32 = max(x1, x2);
    let mut x: i32 = low;
    while x < high + 1
        invariant
            low <= x <= high + 1,
            0 <= low,
            high < MAP_WIDTH,
            0 <= y < MAP_HEIGHT,
            grid_wf(*map),
            forall|a: int, b: int|
                in_bounds(a, b) ==> (#[trigger] map[a][b]) == if b == y && low <= a < x {
                    Tile::empty()
                } else {
                    before[a][b]
                },
        decreases high + 1 - x,
    {
        map[x as usize][y as usize] = Tile::empty();
        x += 1;
    }
}

/// vertical tunnel
pub fn create_v_tunnel(y1: i32, y2: i32, x: i32, map: &mut TileGrid)
    requires
        grid_wf(*old(map)),
        in_bounds(x as int, y1 as int),
        in_bounds(x as int, y2 as int),
    ensures
        carved(
            *old(map),
            *final(map),
            |px: int, py: int| on_v_tunnel(y1 as int, y2 as int, x as int, px, py),
        ),
{
    let ghost before = *map;
    let low: i32 = min(y1, y2);
    let high: i32 = max(y1, y2);
    let mut y: i32 = low;
    while y < high + 1
        invariant
            low <= y <= high + 1,
            0 <= low,
            high < MAP_HEIGHT,
            0 <= x < MAP_WIDTH,
            grid_wf(*map),
            forall|a: int, b: int|
                in_bounds(a, b) ==> (#[trigger] map[a][b]) == if a == x && low <= b < y {
                    Tile::empty()
                } else {
                    before[a][b]
                },
        decreases high + 1 - y,
    {
        map[x as usize][y as usize] = Tile::empty();
        y += 1;
    }
}

/// A row of open tiles connects its ends, whichever is the left one.
proof fn lemma_tunnel_row(map: TileGrid, x1: int, x2: int, y: int)
    requires
        forall|x: int| between(x1, x2, x) ==> is_open(map, x, y),
    ensures
        connected(map, (x1, y), (x2, y)),
{
    if x1 <= x2 {
        lemma_row_connected(map, x1, x2, y);
    } else {
        lemma_row_connected(map, x2, x1, y);
        lemma_connected_symmetric(map, (x2, y), (x1, y));
    }
}

/// A column of open tiles connects its ends, whichever is the upper one.
proof fn lemma_tunnel_column(map: TileGrid, y1: int, y2: int, x: int)
    requires
        forall|y: int| between(y1, y2, y) ==> is_open(map, x, y),
    ensures
        connected(map, (x, y1), (x, y2)),
{
    if y1 <= y2 {
        lemma_column_connected(map, y1, y2, x);
    } else {
        lemma_column_connected(map, y2, y1, x);
        lemma_connected_symmetric(map, (x, y2), (x, y1));
    }
}

/// Digs the corridor from `from` to `to`: first along the row of `from` and
/// then along the column of `to` if `horizontal_first`, else first along the
/// column of `from` and then along the row of `to`. Afterwards one can walk
/// from the one to the other.
pub fn connect_rooms(from: (i32, i32), to: (i32, i32), horizontal_first: bool, map: &mut TileGrid)
    requires
        grid_wf(*old(map)),
        in_bounds(from.0 as int, from.1 as int),
        in_bounds(to.0 as int, to.1 as int),
    ensures
        carved(
            *old(map),
            *final(map),
            |px: int, py: int|
                on_corridor(
                    (from.0 as int, from.1 as int),
                    (to.0 as int, to.1 as int),
                    horizontal_first,
                    px,
                    py,
                ),
        ),
        connected(*final(map), (from.0 as int, from.1 as int), (to.0 as int, to.1 as int)),
{
    let (prev_x, prev_y) = from;
    let (new_x, new_y) = to;
    if horizontal_first {
        // first move horizontally, then vertically
        create_h_tunnel(prev_x, new_x, prev_y, map);
        create_v_tunnel(prev_y, new_y, new_x, map);
        proof {
            let grid = *map;
            assert forall|x: int| between(prev_x as int, new_x as int, x) implies is_open(
                grid,
                x,
                prev_y as int,
            ) by {
                assert(in_bounds(x, prev_y as int));
                assert(grid[x][prev_y as int] == Tile::empty());
            }
            assert forall|y: int| between(prev_y as int, new_y as int, y) implies is_open(
                grid,
                new_x as int,
                y,
            ) by {
                assert(in_bounds(new_x as int, y));
                assert(grid[new_x as int][y] == Tile::empty());
            }
            lemma_tunnel_row(grid, prev_x as int, new_x as int, prev_y as int);
            lemma_tunnel_column(grid, prev_y as int, new_y as int, new_x as int);
            lemma_connected_transitive(
                grid,
                (prev_x as int, prev_y as int),
                (new_x as int, prev_y as int),
                (new_x as int, new_y as int),
            );
        }
    } else {
        // first move vertically, then horizontally
        create_v_tunnel(prev_y, new_y, prev_x, map);
        create_h_tunnel(prev_x, new_x, new_y, map);
        proof {
            let grid = *map;
            assert forall|y: int| between(prev_y as int, new_y as int, y) implies is_open(
                grid,
                prev_x as int,
                y,
            ) by {
                assert(in_bounds(prev_x as int, y));
                assert(grid[prev_x as int][y] == Tile::empty());
            }
            assert forall|x: int| between(prev_x as int, new_x as int, x) implies is_open(
                grid,
                x,
                new_y as int,
            ) by {
                assert(in_bounds(x, new_y as int));
                assert(grid[x][new_y as int] == Tile::empty());
            }
            lemma_tunnel_column(grid, prev_y as int, new_y as int, prev_x as int);
            lemma_tunnel_row(grid, prev_x as int, new_x as int, new_y as int);
            lemma_connected_transitive(
                grid,
                (prev_x as int, prev_y as int),
                (prev_x as int, new_y as int),
                (new_x as int, new_y as int),
            );
        }
    }
}

} // verus!
