//! The dungeon generator: rooms that keep apart, each joined to the one
//! before it, with the player in the first, the stairs in the last, and
//! items lying about.

use vstd::prelude::*;
use crate::carve::{carved, connect_rooms, create_room, on_corridor};
use crate::colors::white;
use crate::object::{Object, ObjectView};
use crate::place::{item_at, place_objects, placed_in};
use crate::random::{coin_flip, random_range};
use crate::reach::{
    connected, lemma_connected_monotone, lemma_connected_refl, lemma_connected_transitive,
};
use crate::rect::Rect;
use crate::tables::{item_view, spec_item_chance, spec_max_items};
use crate::tile::{grid_wf, in_bounds, is_open, walled_grid, Tile, TileGrid, MAP_HEIGHT, MAP_WIDTH};

verus! {


/// The most that a room measures along either axis.
pub const ROOM_MAX_SIZE: i32 = 10;

/// The least that a room measures along either axis.
pub const ROOM_MIN_SIZE: i32 = 6;

/// How many rooms the generator tries to place.
pub const MAX_ROOMS: i32 = 30;

/// The index of the player among the objects of a level: always the first.
pub const PLAYER: usize = 0;

/// A generated level: the grid, and the rooms in the order in which they were
/// dug.
#[derive(Debug)]
pub struct Level {
    pub map: TileGrid,
    pub rooms: Vec<Rect>,
}

/// A room as the generator draws them: its sides within the limits, and all
/// of it, walls included, on the grid.
pub open spec fn room_fits(room: Rect) -> bool {
    &&& 0 <= room.x1
    &&& 0 <= room.y1
    &&& ROOM_MIN_SIZE <= room.x2 - room.x1 <= ROOM_MAX_SIZE
    &&& ROOM_MIN_SIZE <= room.y2 - room.y1 <= ROOM_MAX_SIZE
    &&& room.x2 < MAP_WIDTH
    &&& room.y2 < MAP_HEIGHT
}

/// No two of the rooms intersect, not even with their walls.
pub open spec fn rooms_apart(rooms: Seq<Rect>) -> bool {
    forall|i: int, j: int|
        0 <= i < j < rooms.len() ==> !(#[trigger] rooms[i]).spec_intersects_with(
            #[trigger] rooms[j],
        )
}

/// `room` intersects one of `rooms`.
pub open spec fn spec_intersects_any(room: Rect, rooms: Seq<Rect>) -> bool {
    exists|k: int| 0 <= k < rooms.len() && room.spec_intersects_with(#[trigger] rooms[k])
}

/// Every tile of the corridor from `from` to `to` is floor.
pub open spec fn corridor_open(
    map: TileGrid,
    from: (int, int),
    to: (int, int),
    horizontal_first: bool,
) -> bool {
    forall|x: int, y: int| #[trigger]
        on_corridor(from, to, horizontal_first, x, y) ==> in_bounds(x, y) && map[x][y]
            == Tile::empty()
}

/// A corridor leads from the centre of `previous` to the centre of `next`:
/// one of the two that can.
pub open spec fn joined(map: TileGrid, previous: Rect, next: Rect) -> bool {
    corridor_open(map, previous.spec_center(), next.spec_center(), true) || corridor_open(
        map,
        previous.spec_center(),
        next.spec_center(),
        false,
    )
}

/// `(x, y)` was dug for the room at index `k`: it lies inside the room, or on
/// one of the two corridors that can lead to it from the room before.
pub open spec fn dug_by(rooms: Seq<Rect>, k: int, x: int, y: int) -> bool {
    &&& 0 <= k < rooms.len()
    &&& {
        ||| rooms[k].contains(x, y)
        ||| k >= 1 && on_corridor(rooms[k - 1].spec_center(), rooms[k].spec_center(), true, x, y)
        ||| k >= 1 && on_corridor(rooms[k - 1].spec_center(), rooms[k].spec_center(), false, x, y)
    }
}

/// `(x, y)` lies inside a room or on a corridor between two rooms that were
/// dug one after the other.
pub open spec fn dug(rooms: Seq<Rect>, x: int, y: int) -> bool {
    exists|k: int| dug_by(rooms, k, x, y)
}

/// What holds of the grid while rooms are dug, and of the finished level:
/// the rooms fit and keep apart; every tile is unseen floor or unseen wall;
/// the rooms are floor, and a corridor leads to each room from the one dug
/// before it; floor is found in rooms and on corridors only; and from the
/// centre of the first room one can walk to the centre of every room.
pub open spec fn rooms_dug(map: TileGrid, rooms: Seq<Rect>) -> bool {
    &&& grid_wf(map)
    &&& rooms.len() <= MAX_ROOMS
    &&& forall|k: int| 0 <= k < rooms.len() ==> room_fits(#[trigger] rooms[k])
    &&& rooms_apart(rooms)
    &&& forall|x: int, y: int|
        in_bounds(x, y) ==> (#[trigger] map[x][y]) == Tile::empty() || map[x][y] == Tile::wall()
    &&& forall|k: int, x: int, y: int|
        0 <= k < rooms.len() && (#[trigger] rooms[k].contains(x, y)) ==> map[x][y]
            == Tile::empty()
    &&& forall|k: int| 1 <= k < rooms.len() ==> joined(map, rooms[k - 1], #[trigger] rooms[k])
    &&& forall|x: int, y: int|
        in_bounds(x, y) && (#[trigger] map[x][y]) == Tile::empty() ==> dug(rooms, x, y)
    &&& forall|k: int|
        0 <= k < rooms.len() ==> connected(
            map,
            rooms[0].spec_center(),
            (#[trigger] rooms[k]).spec_center(),
        )
}

/// A finished level: `rooms_dug`, with at least one room.
pub open spec fn level_wf(map: TileGrid, rooms: Seq<Rect>) -> bool {
    rooms.len() >= 1 && rooms_dug(map, rooms)
}

/// The object at index `j` is an item of the level: of a kind that can be
/// drawn at this level, made as `spawn_item` makes it, inside one of the
/// rooms, and on another spot than every item before it.
pub open spec fn level_item(objects: Seq<Object>, j: int, rooms: Seq<Rect>, level: u32) -> bool {
    let object = objects[j];
    &&& object.item is Some
    &&& spec_item_chance(object.item.unwrap(), level) > 0
    &&& object@ == item_view(object.item.unwrap(), object.x, object.y)
    &&& exists|k: int|
        0 <= k < rooms.len() && (#[trigger] rooms[k]).contains(object.x as int, object.y as int)
    &&& forall|i: int|
        1 <= i < j ==> !((#[trigger] objects[i]).x == object.x && objects[i].y == object.y)
}

/// The stairs that lead down, as they stand at `(x, y)`: they block nothing
/// and stay on the screen once their tile has been seen.
pub open spec fn stairs_view(x: i32, y: i32) -> ObjectView {
    ObjectView {
        x,
        y,
        char: '<',
        color: white(),
        name: "stairs"@,
        blocks: false,
        alive: false,
        stats: None,
        ai: None,
        item: None,
        equipment: None,
        always_visible: true,
    }
}

/// The items lie room by room, in the order of the rooms: those of the room
/// at index `k` are the objects from index `starts[k]` up to `starts[k + 1]`,
/// and they are no more than `most`. The first item is the object at index 1,
/// and after the last comes the last object.
pub open spec fn items_by_room(
    objects: Seq<Object>,
    rooms: Seq<Rect>,
    starts: Seq<int>,
    most: int,
) -> bool {
    &&& starts.len() == rooms.len() + 1
    &&& starts[0] == 1
    &&& starts.last() == objects.len() - 1
    &&& forall|k: int|
        0 <= k < rooms.len() ==> 0 <= starts[k + 1] - (#[trigger] starts[k]) <= most
    &&& forall|k: int, j: int|
        0 <= k < rooms.len() && starts[k] <= j < starts[k + 1] ==> (#[trigger] rooms[k]).contains(
            (#[trigger] objects[j]).x as int,
            objects[j].y as int,
        )
}

/// What holds of every level that `make_map` generates for `player` at
/// dungeon level `level`, whatever was drawn.
///
/// The level has at least one room; its rooms keep apart; floor is found in
/// rooms and corridors only. The objects are the player, at the centre of the
/// first room and otherwise unchanged; then the items, room by room and in no
/// room more than the level allows; and last the stairs, at the centre of the
/// last room. The player can walk to the stairs.
pub open spec fn generated(
    map: TileGrid,
    rooms: Seq<Rect>,
    objects: Seq<Object>,
    player: Object,
    level: u32,
) -> bool {
    &&& level_wf(map, rooms)
    &&& objects.len() >= 2
    &&& objects[0] == Object {
        x: rooms[0].spec_center().0 as i32,
        y: rooms[0].spec_center().1 as i32,
        ..player
    }
    &&& objects.last()@ == stairs_view(
        rooms.last().spec_center().0 as i32,
        rooms.last().spec_center().1 as i32,
    )
    &&& forall|j: int| 1 <= j < objects.len() - 1 ==> level_item(objects, j, rooms, level)
    &&& exists|starts: Seq<int>|
        #[trigger] items_by_room(objects, rooms, starts, spec_max_items(level) as int)
    &&& objects.len() - 2 <= rooms.len() * spec_max_items(level)
    &&& connected(
        map,
        (objects[0].x as int, objects[0].y as int),
        (objects.last().x as int, objects.last().y as int),
    )
}

/// The centre of a room that fits lies inside it, on the grid.
pub proof fn lemma_center_inside(room: Rect)
    requires
        room_fits(room),
    ensures
        room.contains(room.spec_center().0, room.spec_center().1),
        in_bounds(room.spec_center().0, room.spec_center().1),
        forall|x: int, y: int| #[trigger] room.contains(x, y) ==> in_bounds(x, y),
{
}

/// What was dug for some rooms stays dug when a room is added.
pub proof fn lemma_dug_push(rooms: Seq<Rect>, room: Rect, x: int, y: int)
    requires
        dug(rooms, x, y),
    ensures
        dug(rooms.push(room), x, y),
{
    let k = choose|k: int| dug_by(rooms, k, x, y);
    let more = rooms.push(room);
    assert(more[k] == rooms[k]);
    if k >= 1 {
        assert(more[k - 1] == rooms[k - 1]);
    }
    assert(dug_by(more, k, x, y));
}

/// What was dug lies off the rim of the grid.
pub proof fn lemma_dug_off_rim(rooms: Seq<Rect>, x: int, y: int)
    requires
        forall|k: int| 0 <= k < rooms.len() ==> room_fits(#[trigger] rooms[k]),
        dug(rooms, x, y),
    ensures
        1 <= x <= MAP_WIDTH - 2,
        1 <= y <= MAP_HEIGHT - 2,
{
    let k = choose|k: int| dug_by(rooms, k, x, y);
    assert(room_fits(rooms[k]));
    lemma_center_inside(rooms[k]);
    if k >= 1 {
        assert(room_fits(rooms[k - 1]));
        lemma_center_inside(rooms[k - 1]);
    }
}

/// The outermost tiles of a level are walls: nothing leads off the grid.
pub proof fn lemma_rim_is_wall(map: TileGrid, rooms: Seq<Rect>, x: int, y: int)
    requires
        rooms_dug(map, rooms),
        in_bounds(x, y),
        x == 0 || y == 0 || x == MAP_WIDTH - 1 || y == MAP_HEIGHT - 1,
    ensures
        map[x][y] == Tile::wall(),
{
    if map[x][y] == Tile::empty() {
        assert(dug(rooms, x, y));
        lemma_dug_off_rim(rooms, x, y);
    }
}

/// A corridor stays a corridor while floor stays floor.
proof fn lemma_joined_stays(before: TileGrid, after: TileGrid, previous: Rect, next: Rect)
    requires
        joined(before, previous, next),
        forall|x: int, y: int|
            in_bounds(x, y) && before[x][y] == Tile::empty() ==> (#[trigger] after[x][y])
                == Tile::empty(),
    ensures
        joined(after, previous, next),
{
    let from = previous.spec_center();
    let to = next.spec_center();
    if corridor_open(before, from, to, true) {
        assert forall|x: int, y: int| #[trigger] on_corridor(from, to, true, x, y) implies in_bounds(
            x,
            y,
        ) && after[x][y] == Tile::empty() by {
            assert(before[x][y] == Tile::empty());
        }
    } else {
        assert forall|x: int, y: int| #[trigger]
            on_corridor(from, to, false, x, y) implies in_bounds(x, y) && after[x][y]
            == Tile::empty() by {
            assert(before[x][y] == Tile::empty());
        }
    }
}

/// Whether `room` intersects one of `rooms`.
pub fn intersects_any(room: &Rect, rooms: &Vec<Rect>) -> (hit: bool)
    ensures
        hit == spec_intersects_any(*room, rooms@),
{
    let mut k: usize = 0;
    while k < rooms.len()
        invariant
            k <= rooms.len(),
            forall|i: int| 0 <= i < k ==> !room.spec_intersects_with(#[trigger] rooms@[i]),
        decreases rooms.len() - k,
    {
        if room.intersects_with(&rooms[k]) {
            return true;
        }
        k += 1;
    }
    false
}

/// Digs `new_room`, which intersects none of `rooms`, and joins it to the
/// room dug before it by a corridor whose first leg `horizontal_first`
/// chooses; then appends it to `rooms`.
pub fn add_room(new_room: Rect, horizontal_first: bool, map: &mut TileGrid, rooms: &mut Vec<Rect>)
    requires
        rooms_dug(*old(map), old(rooms)@),
        old(rooms).len() < MAX_ROOMS,
        room_fits(new_room),
        !spec_intersects_any(new_room, old(rooms)@),
    ensures
        final(rooms)@ == old(rooms)@.push(new_room),
        level_wf(*final(map), final(rooms)@),
        carved(
            *old(map),
            *final(map),
            |x: int, y: int|
                new_room.contains(x, y) || (old(rooms).len() > 0 && on_corridor(
                    old(rooms)@.last().spec_center(),
                    new_room.spec_center(),
                    horizontal_first,
                    x,
                    y,
                )),
        ),
{
    let ghost map0 = *map;
    let ghost rooms0 = rooms@;
    let ghost more = rooms0.push(new_room);
    let ghost n = rooms0.len() as int;
    proof {
        lemma_center_inside(new_room);
    }
    // "paint" it to the map's tiles
    create_room(new_room, map);
    let ghost map1 = *map;

    // center coordinates of the new room
    let (new_x, new_y) = new_room.center();

    if !rooms.is_empty() {
        // all rooms after the first:
        // connect it to the previous room with a tunnel
        let previous: Rect = rooms[rooms.len() - 1];
        proof {
            assert(room_fits(rooms0[n - 1]));
            lemma_center_inside(previous);
        }
        // center coordinates of the previous room
        let (prev_x, prev_y) = previous.center();
        connect_rooms((prev_x, prev_y), (new_x, new_y), horizontal_first, map);
    }
    let ghost map2 = *map;

    // finally, append the new room to the list
    rooms.push(new_room);

    proof {
        assert(rooms@ == more);
        assert forall|x: int, y: int| is_open(map0, x, y) implies is_open(map2, x, y) by {
            assert(in_bounds(x, y));
            assert(map0[x][y] == Tile::empty() || map0[x][y] == Tile::wall());
            assert(map1[x][y] == Tile::empty() || map1[x][y] == map0[x][y]);
            assert(map2[x][y] == Tile::empty() || map2[x][y] == map1[x][y]);
        }
        assert forall|k: int| 0 <= k < more.len() implies room_fits(#[trigger] more[k]) by {
            if k < n {
                assert(more[k] == rooms0[k]);
            }
        }
        assert(rooms_apart(more)) by {
            assert forall|i: int, j: int| 0 <= i < j < more.len() implies !(#[trigger] more[i]).spec_intersects_with(
             #[trigger] more[j]) by {
                assert(more[i] == rooms0[i]);
                if j < n {
                    assert(more[j] == rooms0[j]);
                } else {
                    assert(!new_room.spec_intersects_with(rooms0[i]));
                }
            }
        }
        assert forall|x: int, y: int| in_bounds(x, y) implies (#[trigger] map2[x][y])
            == Tile::empty() || map2[x][y] == Tile::wall() by {
            assert(map0[x][y] == Tile::empty() || map0[x][y] == Tile::wall());
            assert(map1[x][y] == Tile::empty() || map1[x][y] == map0[x][y]);
        }
        assert forall|k: int, x: int, y: int|
            0 <= k < more.len() && (#[trigger] more[k].contains(x, y)) implies map2[x][y]
            == Tile::empty() by {
            assert(room_fits(more[k]));
            lemma_center_inside(more[k]);
            assert(in_bounds(x, y));
            if k < n {
                assert(rooms0[k].contains(x, y));
                assert(map0[x][y] == Tile::empty());
            }
            assert(map1[x][y] == Tile::empty());
        }
        assert forall|x: int, y: int| in_bounds(x, y) && (#[trigger] map2[x][y])
            == Tile::empty() implies dug(more, x, y) by {
            if map0[x][y] == Tile::empty() {
                assert(dug(rooms0, x, y));
                lemma_dug_push(rooms0, new_room, x, y);
            } else {
                assert(map0[x][y] == Tile::wall());
                if new_room.contains(x, y) {
                    assert(dug_by(more, n, x, y));
                } else {
                    assert(map1[x][y] == map0[x][y]);
                    assert(n >= 1);
                    assert(more[n - 1] == rooms0[n - 1]);
                    assert(on_corridor(
                        rooms0[n - 1].spec_center(),
                        new_room.spec_center(),
                        horizontal_first,
                        x,
                        y,
                    ));
                    assert(dug_by(more, n, x, y));
                }
            }
        }
        assert forall|x: int, y: int|
            in_bounds(x, y) && map0[x][y] == Tile::empty() implies (#[trigger] map2[x][y])
            == Tile::empty() by {
            assert(map1[x][y] == Tile::empty());
        }
        assert forall|k: int| 1 <= k < more.len() implies joined(
            map2,
            more[k - 1],
            #[trigger] more[k],
        ) by {
            assert(more[k - 1] == rooms0[k - 1]);
            if k < n {
                assert(more[k] == rooms0[k]);
                assert(joined(map0, rooms0[k - 1], rooms0[k]));
                lemma_joined_stays(map0, map2, rooms0[k - 1], rooms0[k]);
            } else {
                let from = rooms0[n - 1].spec_center();
                let to = new_room.spec_center();
                assert(room_fits(rooms0[n - 1]));
                lemma_center_inside(rooms0[n - 1]);
                assert forall|x: int, y: int| #[trigger]
                    on_corridor(from, to, horizontal_first, x, y) implies in_bounds(x, y)
                    && map2[x][y] == Tile::empty() by {}
                assert(corridor_open(map2, from, to, horizontal_first));
            }
        }
        assert forall|k: int| 0 <= k < more.len() implies connected(
            map2,
            more[0].spec_center(),
            (#[trigger] more[k]).spec_center(),
        ) by {
            if n == 0 {
                assert(map2[new_x as int][new_y as int] == Tile::empty());
                lemma_connected_refl(map2, new_room.spec_center());
            } else {
                assert(more[0] == rooms0[0]);
                if k < n {
                    assert(more[k] == rooms0[k]);
                    lemma_connected_monotone(
                        map0,
                        map2,
                        rooms0[0].spec_center(),
                        rooms0[k].spec_center(),
                    );
                } else {
                    lemma_connected_monotone(
                        map0,
                        map2,
                        rooms0[0].spec_center(),
                        rooms0[n - 1].spec_center(),
                    );
                    lemma_connected_transitive(
                        map2,
                        rooms0[0].spec_center(),
                        rooms0[n - 1].spec_center(),
                        new_room.spec_center(),
                    );
                }
            }
        }
    }
}

/// The items of a level stay its items when a room is added and items are
/// put into that room, wherever the player then goes.
proof fn lemma_items_after_room(
    before: Seq<Object>,
    filled: Seq<Object>,
    now: Seq<Object>,
    rooms: Seq<Rect>,
    new_room: Rect,
    map: TileGrid,
    level: u32,
)
    requires
        1 <= before.len() <= filled.len(),
        forall|j: int| 1 <= j < before.len() ==> level_item(before, j, rooms, level),
        filled.subrange(0, before.len() as int) == before,
        forall|j: int| before.len() <= j < filled.len() ==> placed_in(filled, j, new_room, map, level),
        now.len() == filled.len(),
        forall|j: int| 1 <= j < now.len() ==> now[j] == filled[j],
    ensures
        forall|j: int| 1 <= j < now.len() ==> level_item(now, j, rooms.push(new_room), level),
{
    let more = rooms.push(new_room);
    let n = rooms.len() as int;
    assert forall|i: int| 0 <= i < before.len() implies filled[i] == before[i] by {
        assert(filled.subrange(0, before.len() as int)[i] == filled[i]);
    }
    assert forall|j: int| 1 <= j < now.len() implies level_item(now, j, more, level) by {
        assert(now[j] == filled[j]);
        if j < before.len() {
            assert(level_item(before, j, rooms, level));
            let k = choose|k: int|
                0 <= k < rooms.len() && (#[trigger] rooms[k]).contains(
                    before[j].x as int,
                    before[j].y as int,
                );
            assert(more[k] == rooms[k]);
            assert forall|i: int| 1 <= i < j implies !((#[trigger] now[i]).x == now[j].x
                && now[i].y == now[j].y) by {
                assert(before[i].x == filled[i].x);
            }
        } else {
            assert(placed_in(filled, j, new_room, map, level));
            assert(more[n] == new_room);
            assert(more[n].contains(now[j].x as int, now[j].y as int));
            assert forall|i: int| 1 <= i < j implies !((#[trigger] now[i]).x == now[j].x
                && now[i].y == now[j].y) by {
                let earlier = filled.subrange(0, j);
                assert(earlier[i] == filled[i]);
                if i < before.len() {
                    assert(level_item(before, i, rooms, level));
                } else {
                    assert(placed_in(filled, i, new_room, map, level));
                }
                assert(earlier[i].item is Some);
                if now[i].x == now[j].x && now[i].y == now[j].y {
                    assert(item_at(earlier, now[j].x as int, now[j].y as int));
                }
            }
        }
    }
}

/// The starts of the rooms' items never fall from one room to a later one.
proof fn lemma_starts_rise(
    objects: Seq<Object>,
    rooms: Seq<Rect>,
    starts: Seq<int>,
    most: int,
    low: int,
    high: int,
)
    requires
        items_by_room(objects, rooms, starts, most),
        0 <= low <= high <= rooms.len(),
    ensures
        0 <= starts[high] - starts[low] <= (high - low) * most,
    decreases high - low,
{
    if low < high {
        lemma_starts_rise(objects, rooms, starts, most, low, high - 1);
        assert(0 <= starts[high - 1 + 1] - starts[high - 1] <= most);
        assert((high - low) * most == (high - 1 - low) * most + most) by (nonlinear_arith);
    } else {
        assert((high - low) * most == 0) by (nonlinear_arith)
            requires
                high == low,
        ;
    }
}

/// The items stay the items of the level, sorted by room, when the stairs
/// are put down after them.
proof fn lemma_stairs_added(
    items: Seq<Object>,
    now: Seq<Object>,
    rooms: Seq<Rect>,
    starts: Seq<int>,
    level: u32,
)
    requires
        items.len() >= 1,
        now.len() == items.len() + 1,
        forall|j: int| 0 <= j < items.len() ==> now[j] == items[j],
        items_by_room(items.push(items[0]), rooms, starts, spec_max_items(level) as int),
        forall|j: int| 1 <= j < items.len() ==> level_item(items, j, rooms, level),
    ensures
        items_by_room(now, rooms, starts, spec_max_items(level) as int),
        forall|j: int| 1 <= j < now.len() - 1 ==> level_item(now, j, rooms, level),
{
    let most = spec_max_items(level) as int;
    let padded = items.push(items[0]);
    assert forall|k: int, j: int|
        0 <= k < rooms.len() && starts[k] <= j < starts[k + 1] implies (#[trigger] rooms[k]).contains(
        (#[trigger] now[j]).x as int,
        now[j].y as int,
    ) by {
        lemma_starts_rise(padded, rooms, starts, most, 0, k);
        lemma_starts_rise(padded, rooms, starts, most, k + 1, rooms.len() as int);
        assert(starts[rooms.len() as int] == starts.last());
        assert(rooms[k].contains(padded[j].x as int, padded[j].y as int));
        assert(padded[j] == now[j]);
    }
    assert forall|j: int| 1 <= j < now.len() - 1 implies level_item(now, j, rooms, level) by {
        assert(level_item(items, j, rooms, level));
        assert(now[j] == items[j]);
        assert forall|i: int| 1 <= i < j implies now[i] == items[i] by {}
    }
}

/// The items stay sorted by room when a room is added and items are put
/// into that room, wherever the player then goes. The sequences end with a
/// stand-in for the stairs that are yet to come.
proof fn lemma_items_by_room_after(
    before: Seq<Object>,
    filled: Seq<Object>,
    now: Seq<Object>,
    rooms: Seq<Rect>,
    new_room: Rect,
    starts: Seq<int>,
    map: TileGrid,
    level: u32,
)
    requires
        1 <= before.len() <= filled.len() <= before.len() + spec_max_items(level),
        items_by_room(before.push(before[0]), rooms, starts, spec_max_items(level) as int),
        filled.subrange(0, before.len() as int) == before,
        forall|j: int| before.len() <= j < filled.len() ==> placed_in(filled, j, new_room, map, level),
        now.len() == filled.len(),
        forall|j: int| 1 <= j < now.len() ==> now[j] == filled[j],
    ensures
        items_by_room(
            now.push(now[0]),
            rooms.push(new_room),
            starts.push(now.len() as int),
            spec_max_items(level) as int,
        ),
{
    let most = spec_max_items(level) as int;
    let old_padded = before.push(before[0]);
    let padded = now.push(now[0]);
    let more = rooms.push(new_room);
    let longer = starts.push(now.len() as int);
    let n = rooms.len() as int;
    assert(starts[n] == starts.last());
    assert(starts[n] == before.len());
    assert forall|k: int| 0 <= k < more.len() implies 0 <= longer[k + 1] - (#[trigger] longer[k])
        <= most by {
        if k < n {
            assert(0 <= starts[k + 1] - starts[k] <= most);
        }
    }
    assert forall|k: int, j: int|
        0 <= k < more.len() && longer[k] <= j < longer[k + 1] implies (#[trigger] more[k]).contains(
        (#[trigger] padded[j]).x as int,
        padded[j].y as int,
    ) by {
        if k < n {
            lemma_starts_rise(old_padded, rooms, starts, most, 0, k);
            lemma_starts_rise(old_padded, rooms, starts, most, k + 1, n);
            assert(1 <= j < before.len());
            assert(rooms[k].contains(old_padded[j].x as int, old_padded[j].y as int));
            assert(filled.subrange(0, before.len() as int)[j] == filled[j]);
            assert(padded[j] == before[j]);
        } else {
            assert(placed_in(filled, j, new_room, map, level));
            assert(padded[j] == filled[j]);
        }
    }
}

/// Generates a level. Of `objects` only the first, the player, is kept: it is
/// moved to the centre of the first room. After it come the items of the
/// level, and last the stairs down, at the centre of the last room.
///
/// Rooms and items are drawn at random. Whatever is drawn, the level has at
/// least one room, its rooms keep apart, and the player can walk to the
/// stairs.
pub fn make_map(objects: &mut Vec<Object>, level: u32) -> (res: Level)
    requires
        old(objects).len() >= 1,
    ensures
        generated(res.map, res.rooms@, final(objects)@, old(objects)[0], level),
{
    let ghost player = objects[0];
    // fill map with "blocked" tiles
    let mut map = walled_grid();

    // Player is the first element, remove everything else.
    objects.truncate(1);

    let mut rooms: Vec<Rect> = Vec::new();
    let ghost most = spec_max_items(level) as int;
    let ghost mut starts: Seq<int> = seq![1int];

    let mut attempt: i32 = 0;
    while attempt < MAX_ROOMS
        invariant
            0 <= attempt <= MAX_ROOMS,
            rooms.len() <= attempt,
            attempt >= 1 ==> rooms.len() >= 1,
            rooms_dug(map, rooms@),
            most == spec_max_items(level),
            objects.len() >= 1,
            objects[0] == if rooms.len() == 0 {
                player
            } else {
                Object {
                    x: rooms[0].spec_center().0 as i32,
                    y: rooms[0].spec_center().1 as i32,
                    ..player
                }
            },
            forall|j: int| 1 <= j < objects.len() ==> level_item(objects@, j, rooms@, level),
            objects.len() - 1 <= rooms.len() * most,
            items_by_room(objects@.push(objects[0]), rooms@, starts, most),
        decreases MAX_ROOMS - attempt,
    {
        // random width and height
        let w: i32 = random_range(ROOM_MIN_SIZE, ROOM_MAX_SIZE + 1);
        let h: i32 = random_range(ROOM_MIN_SIZE, ROOM_MAX_SIZE + 1);
        // random position without going out of the boundaries of the map
        let x: i32 = random_range(0, MAP_WIDTH - w);
        let y: i32 = random_range(0, MAP_HEIGHT - h);

        let new_room = Rect::new(x, y, w, h);

        // run through the other rooms and see if they intersect with this one
        let failed: bool = intersects_any(&new_room, &rooms);

        if !failed {
            // this means there are no intersections, so this room is valid
            let ghost rooms0 = rooms@;
            let ghost objects0 = objects@;
            let first: bool = rooms.is_empty();

            // dig it, and the way to it from the room before
            add_room(new_room, coin_flip(), &mut map, &mut rooms);

            // add some content to this room
            place_objects(new_room, &map, objects, level);
            let ghost objects1 = objects@;

            if first {
                // this is the first room, where the player starts at
                let (new_x, new_y) = new_room.center();
                objects[PLAYER].set_pos(new_x, new_y);
            }
            proof {
                let n = rooms0.len() as int;
                assert(rooms@[n] == new_room);
                assert(n > 0 ==> rooms@[0] == rooms0[0]);
                assert((n + 1) * most == n * most + most) by (nonlinear_arith);
                lemma_items_after_room(objects0, objects1, objects@, rooms0, new_room, map, level);
                lemma_items_by_room_after(
                    objects0,
                    objects1,
                    objects@,
                    rooms0,
                    new_room,
                    starts,
                    map,
                    level,
                );
                starts = starts.push(objects@.len() as int);
            }
        }
        attempt += 1;
    }

    // create stairs at the center of the last room
    proof {
        assert(room_fits(rooms@[rooms.len() - 1]));
        lemma_center_inside(rooms@[rooms.len() - 1]);
    }
    let (last_room_x, last_room_y) = rooms[rooms.len() - 1].center();
    let mut stairs = Object::new(last_room_x, last_room_y, '<', "stairs", white(), false);
    stairs.always_visible = true;
    let ghost items = objects@;
    objects.push(stairs);
    proof {
        lemma_stairs_added(items, objects@, rooms@, starts, level);
    }
    Level { map, rooms }
}

} // verus!
