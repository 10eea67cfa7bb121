//! Where an object may stand, and moving it there.

use vstd::prelude::*;
use crate::object::Object;
use crate::tile::{is_open, TileGrid};

verus! {

/// Some object that blocks stands at `(x, y)`.
pub open spec fn blocker_at(objects: Seq<Object>, x: int, y: int) -> bool {
    exists|i: int|
        0 <= i < objects.len() && (#[trigger] objects[i]).blocks && objects[i].x == x
            && objects[i].y == y
}

/// Nothing can step onto `(x, y)`: no open tile is there, or an object that
/// blocks stands on it. What lies outside the grid counts as blocked.
pub open spec fn spec_is_blocked(x: int, y: int, map: TileGrid, objects: Seq<Object>) -> bool {
    !is_open(map, x, y) || blocker_at(objects, x, y)
}

/// Whether `(x, y)` cannot be stepped onto: it lies outside the grid, or is a
/// wall, or an object that blocks stands there.
pub fn is_blocked(x: i32, y: i32, map: &TileGrid, objects: &[Object]) -> (blocked: bool)
    ensures
        blocked == spec_is_blocked(x as int, y as int, *map, objects@),
{
    if x < 0 || y < 0 {
        return true;
    }
    let column: usize = x as usize;
    let row: usize = y as usize;
    if column >= map.len() || row >= map[column].len() {
        return true;
    }
    // first test the map tile
    if map[column][row].blocked {
        return true;
    }
    // now check for any blocking objects
    let mut i: usize = 0;
    while i < objects.len()
        invariant
            i <= objects.len(),
            forall|k: int|
                0 <= k < i ==> !((#[trigger] objects@[k]).blocks && objects@[k].x == x
                    && objects@[k].y == y),
        decreases objects.len() - i,
    {
        if objects[i].blocks && objects[i].x == x && objects[i].y == y {
            return true;
        }
        i += 1;
    }
    false
}

/// Whether both coordinates can be held by an object.
pub open spec fn is_position(x: int, y: int) -> bool {
    i32::MIN <= x <= i32::MAX && i32::MIN <= y <= i32::MAX
}

/// The objects after `move_by`: the one at `id` has moved by `(dx, dy)` if
/// it could, and nothing else has changed. It cannot move onto what is
/// blocked, nor to where no object can be.
pub open spec fn spec_move_by(
    id: int,
    dx: int,
    dy: int,
    map: TileGrid,
    objects: Seq<Object>,
) -> Seq<Object> {
    let x = objects[id].x + dx;
    let y = objects[id].y + dy;
    if !is_position(x, y) || spec_is_blocked(x, y, map, objects) {
        objects
    } else {
        objects.update(id, Object { x: x as i32, y: y as i32, ..objects[id] })
    }
}

/// move by the given amount, if the destination is not blocked
pub fn move_by(id: usize, dx: i32, dy: i32, map: &TileGrid, objects: &mut [Object])
    requires
        id < old(objects).len(),
    ensures
        final(objects)@ == spec_move_by(id as int, dx as int, dy as int, *map, old(objects)@),
{
    let (x, y) = objects[id].pos();
    match (x.checked_add(dx), y.checked_add(dy)) {
        (Some(new_x), Some(new_y)) => {
            if !is_blocked(new_x, new_y, map, objects) {
                objects[id].set_pos(new_x, new_y);
            }
        },
        _ => {},
    }
}

} // verus!
