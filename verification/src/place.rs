//! The items of a level: where one can be put down, and how a room is
//! filled with them.

use vstd::prelude::*;
use crate::movement::{is_blocked, spec_is_blocked};
use crate::object::{Item, Object};
use crate::random::{
    choice_weights, random_range, sample_index, total_weight, weighted_choice, WeightedChoice,
};
use crate::rect::Rect;
use crate::tables::{
    item_chances, item_view, max_items, spawn_item, spec_item_chance, spec_item_chances,
    spec_max_items,
};
use crate::tile::TileGrid;

verus! {

/// How often a spot is drawn for one item before the item is given up.
pub const PLACEMENT_ATTEMPTS: u32 = 10;

/// Some item lies at `(x, y)`.
pub open spec fn item_at(objects: Seq<Object>, x: int, y: int) -> bool {
    exists|i: int|
        0 <= i < objects.len() && (#[trigger] objects[i]).item is Some && objects[i].x == x
            && objects[i].y == y
}

/// No item can be put down at `(x, y)`: the spot is blocked, or an item lies
/// there already.
pub open spec fn spec_is_occupied(x: int, y: int, map: TileGrid, objects: Seq<Object>) -> bool {
    spec_is_blocked(x, y, map, objects) || item_at(objects, x, y)
}

/// Whether no item can be put down at `(x, y)`.
pub fn is_occupied(x: i32, y: i32, map: &TileGrid, objects: &[Object]) -> (occupied: bool)
    ensures
        occupied == spec_is_occupied(x as int, y as int, *map, objects@),
{
    if is_blocked(x, y, map, objects) {
        return true;
    }
    let mut i: usize = 0;
    while i < objects.len()
        invariant
            i <= objects.len(),
            forall|k: int|
                0 <= k < i ==> !((#[trigger] objects@[k]).item is Some && objects@[k].x == x
                    && objects@[k].y == y),
        decreases objects.len() - i,
    {
        if objects[i].item.is_some() && objects[i].x == x && objects[i].y == y {
            return true;
        }
        i += 1;
    }
    false
}

/// The object at index `j` is an item that was put into `room`: of a kind
/// that can be drawn at this level, made as `spawn_item` makes it, inside
/// the room, on a spot that nothing before it in the list occupied.
pub open spec fn placed_in(
    objects: Seq<Object>,
    j: int,
    room: Rect,
    map: TileGrid,
    level: u32,
) -> bool {
    let object = objects[j];
    &&& object.item is Some
    &&& spec_item_chance(object.item.unwrap(), level) > 0
    &&& object@ == item_view(object.item.unwrap(), object.x, object.y)
    &&& room.contains(object.x as int, object.y as int)
    &&& !spec_is_occupied(object.x as int, object.y as int, map, objects.subrange(0, j))
}

/// The weights of a table of chances, in its order.
fn chance_weights(chances: &Vec<(Item, u32)>) -> (weights: Vec<u32>)
    requires
        chances.len() >= 1,
        chances[0].1 == 35,
        forall|i: int| 0 <= i < chances.len() ==> (#[trigger] chances[i]).1 <= 35,
    ensures
        weights.len() == chances.len(),
        forall|i: int| 0 <= i < weights.len() ==> (#[trigger] weights[i]) == chances[i].1,
        35 <= total_weight(weights@) <= 35 * weights.len(),
{
    let mut weights: Vec<u32> = Vec::new();
    let mut i: usize = 0;
    while i < chances.len()
        invariant
            chances.len() >= 1,
            chances[0].1 == 35,
            forall|k: int| 0 <= k < chances.len() ==> (#[trigger] chances[k]).1 <= 35,
            i <= chances.len(),
            weights.len() == i,
            forall|k: int| 0 <= k < i ==> (#[trigger] weights[k]) == chances[k].1,
            total_weight(weights@) <= 35 * i,
            i >= 1 ==> 35 <= total_weight(weights@),
        decreases chances.len() - i,
    {
        let weight: u32 = chances[i].1;
        assert(weights@.push(weight).drop_last() =~= weights@);
        weights.push(weight);
        i += 1;
    }
    weights
}

/// Puts items into a room: as many as are drawn, no more than the level
/// allows, each of a kind drawn by the level's table of chances, each put
/// down by `place_item` on a spot drawn inside the room; a spot that is taken
/// is drawn again, a fixed number of times at most. What was in `objects`
/// stays before them. Where the level allows no items, nothing changes.
pub fn place_objects(room: Rect, map: &TileGrid, objects: &mut Vec<Object>, level: u32)
    requires
        spec_max_items(level) > 0 ==> room.x1 + 1 < room.x2 && room.y1 + 1 < room.y2,
    ensures
        old(objects).len() <= final(objects).len() <= old(objects).len() + spec_max_items(level),
        final(objects)@.subrange(0, old(objects).len() as int) == old(objects)@,
        forall|j: int|
            old(objects).len() <= j < final(objects).len() ==> placed_in(
                final(objects)@,
                j,
                room,
                *map,
                level,
            ),
        spec_max_items(level) == 0 ==> final(objects)@ == old(objects)@,
{
    let ghost before = objects@;
    // maximum number of items per room
    let most: u32 = max_items(level);

    // item random table
    let chances = item_chances(level);
    let weights = chance_weights(&chances);
    let item_choice: WeightedChoice = weighted_choice(&weights).unwrap();

    // choose random number of items
    let num_items: i32 = random_range(0, most as i32 + 1);

    assert(objects@.subrange(0, before.len() as int) =~= before);
    let mut i: i32 = 0;
    while i < num_items
        invariant
            0 <= i <= num_items <= most,
            most == spec_max_items(level),
            most > 0 ==> room.x1 + 1 < room.x2 && room.y1 + 1 < room.y2,
            chances@ == spec_item_chances(level),
            choice_weights(item_choice) == weights@,
            weights.len() == chances.len(),
            forall|k: int| 0 <= k < weights.len() ==> (#[trigger] weights[k]) == chances[k].1,
            before.len() <= objects.len() <= before.len() + i,
            objects@.subrange(0, before.len() as int) == before,
            forall|j: int|
                before.len() <= j < objects.len() ==> placed_in(objects@, j, room, *map, level),
        decreases num_items - i,
    {
        let mut tries: u32 = 0;
        let mut placed: bool = false;
        while tries < PLACEMENT_ATTEMPTS && !placed
            invariant
                room.x1 + 1 < room.x2 && room.y1 + 1 < room.y2,
                chances@ == spec_item_chances(level),
                choice_weights(item_choice) == weights@,
                weights.len() == chances.len(),
                forall|k: int| 0 <= k < weights.len() ==> (#[trigger] weights[k]) == chances[k].1,
                tries <= PLACEMENT_ATTEMPTS,
                before.len() <= objects.len() <= before.len() + i + if placed {
                    1int
                } else {
                    0int
                },
                objects@.subrange(0, before.len() as int) == before,
                forall|j: int|
                    before.len() <= j < objects.len() ==> placed_in(objects@, j, room, *map, level),
            decreases PLACEMENT_ATTEMPTS - tries + if placed { 0int } else { 1int },
        {
            // choose random spot for this item
            let x: i32 = random_range(room.x1 + 1, room.x2);
            let y: i32 = random_range(room.y1 + 1, room.y2);

            // choose the kind of item by the table of chances
            let drawn: usize = sample_index(&item_choice);
            let kind: Item = chances[drawn].0;

            let ghost earlier = objects@;
            placed = place_item(kind, x, y, map, objects);
            proof {
                if placed {
                    let now = objects@;
                    let last = earlier.len() as int;
                    assert(now.drop_last() == earlier);
                    assert forall|j: int| 0 <= j < last implies now[j] == earlier[j] by {
                        assert(now.drop_last()[j] == now[j]);
                    }
                    assert(now[last] == now.last());
                    assert(now.subrange(0, before.len() as int) =~= earlier.subrange(
                        0,
                        before.len() as int,
                    ));
                    assert(now.subrange(0, last) =~= earlier);
                    assert(weights[drawn as int] == chances[drawn as int].1);
                    assert(placed_in(now, last, room, *map, level));
                    assert forall|j: int| before.len() <= j < last implies placed_in(
                        now,
                        j,
                        room,
                        *map,
                        level,
                    ) by {
                        assert(placed_in(earlier, j, room, *map, level));
                        assert(now.subrange(0, j) =~= earlier.subrange(0, j));
                    }
                }
            }
            tries += 1;
        }
        i += 1;
    }
    assert(objects.len() == before.len() ==> objects@ =~= objects@.subrange(
        0,
        before.len() as int,
    ));
}

/// Puts an item of `kind` down at `(x, y)`, unless something occupies the
/// spot: then nothing changes. The new item comes last among the objects.
pub fn place_item(kind: Item, x: i32, y: i32, map: &TileGrid, objects: &mut Vec<Object>) -> (placed:
    bool)
    ensures
        placed == !spec_is_occupied(x as int, y as int, *map, old(objects)@),
        placed ==> final(objects).len() == old(objects).len() + 1 && final(objects)@.drop_last()
            == old(objects)@ && final(objects)@.last()@ == item_view(kind, x, y),
        !placed ==> final(objects)@ == old(objects)@,
{
    // only place it if the spot is free
    if is_occupied(x, y, map, objects.as_slice()) {
        return false;
    }
    let item = spawn_item(kind, x, y);
    objects.push(item);
    assert(objects@.drop_last() =~= old(objects)@);
    true
}

} // verus!
