//! What the player sees: the field of view is worked out elsewhere and handed
//! in; here it is folded into what the player has seen so far, and decides
//! what is drawn.

use vstd::prelude::*;
use vstd::string::StringExecFns;
use crate::object::Object;
use crate::tile::{has_tile, Tile, TileGrid, MAP_HEIGHT, MAP_WIDTH};

verus! {

/// How far the player sees, in tiles.
pub const TORCH_RADIUS: i32 = 10;

/// A field of view: for each cell, whether it is in sight. It is addressed
/// as the grid is, `visible[x][y]`.
#[derive(Debug, PartialEq, Eq)]
pub struct Fov {
    pub visible: Vec<Vec<bool>>,
}

impl Fov {
    /// Whether `(x, y)` is in sight. What the field of view does not cover is
    /// out of sight.
    pub open spec fn sees(self, x: int, y: int) -> bool {
        0 <= x < self.visible.len() && 0 <= y < self.visible[x].len() && self.visible[x][y]
    }

    /// A field of view over the whole grid with nothing in sight.
    pub fn nothing() -> (fov: Fov)
        ensures
            fov.visible.len() == MAP_WIDTH,
            forall|x: int| 0 <= x < MAP_WIDTH ==> (#[trigger] fov.visible[x]).len() == MAP_HEIGHT,
            forall|x: int, y: int| !fov.sees(x, y),
    {
        let mut visible: Vec<Vec<bool>> = Vec::new();
        let mut x: i32 = 0;
        while x < MAP_WIDTH
            invariant
                0 <= x <= MAP_WIDTH,
                visible.len() == x,
                forall|a: int| 0 <= a < x ==> (#[trigger] visible[a]).len() == MAP_HEIGHT,
                forall|a: int, b: int| 0 <= a < x && 0 <= b < MAP_HEIGHT ==> !(#[trigger] visible[a][b]),
            decreases MAP_WIDTH - x,
        {
            let mut column: Vec<bool> = Vec::new();
            let mut y: i32 = 0;
            while y < MAP_HEIGHT
                invariant
                    0 <= y <= MAP_HEIGHT,
                    column.len() == y,
                    forall|b: int| 0 <= b < y ==> !(#[trigger] column[b]),
                decreases MAP_HEIGHT - y,
            {
                column.push(false);
                y += 1;
            }
            visible.push(column);
            x += 1;
        }
        Fov { visible }
    }

    /// Whether `(x, y)` is in sight.
    pub fn is_in_fov(&self, x: i32, y: i32) -> (seen: bool)
        ensures
            seen == self.sees(x as int, y as int),
    {
        if x < 0 || y < 0 {
            return false;
        }
        let column: usize = x as usize;
        let row: usize = y as usize;
        column < self.visible.len() && row < self.visible[column].len()
            && self.visible[column][row]
    }
}

/// Whether the field of view has to be worked out afresh: it has to once the
/// player stands elsewhere than at `previous`, where it stood when the field
/// of view was last worked out.
pub fn position_changed(previous: (i32, i32), player: &Object) -> (changed: bool)
    ensures
        changed == (previous != (player.x, player.y)),
{
    previous.0 != player.x || previous.1 != player.y
}

/// The tile with what is in sight now added to what was seen before.
pub open spec fn spec_explored(tile: Tile, visible: bool) -> Tile {
    Tile { explored: tile.explored || visible, ..tile }
}

/// `after` is `before` with every tile in sight marked as explored: the grid
/// keeps its shape, and each tile changes as `spec_explored` says.
pub open spec fn explored_from(before: TileGrid, after: TileGrid, fov: Fov) -> bool {
    &&& after.len() == before.len()
    &&& forall|x: int| 0 <= x < before.len() ==> (#[trigger] after[x]).len() == before[x].len()
    &&& forall|x: int, y: int|
        has_tile(before, x, y) ==> (#[trigger] after[x][y]) == spec_explored(
            before[x][y],
            fov.sees(x, y),
        )
}

/// Marks every tile that is in sight as explored. A tile that was explored
/// before stays so, and nothing else about a tile changes.
pub fn explore(map: &mut TileGrid, fov: &Fov)
    ensures
        explored_from(*old(map), *final(map), *fov),
        forall|x: int, y: int|
            has_tile(*old(map), x, y) && old(map)[x][y].explored ==> (#[trigger] final(map)[x][y]).explored,
{
    let ghost before = *map;
    let mut x: usize = 0;
    while x < map.len()
        invariant
            x <= map.len(),
            map.len() == before.len(),
            forall|a: int| 0 <= a < before.len() ==> (#[trigger] map[a]).len() == before[a].len(),
            forall|a: int, b: int|
                has_tile(before, a, b) ==> (#[trigger] map[a][b]) == if a < x {
                    spec_explored(before[a][b], fov.sees(a, b))
                } else {
                    before[a][b]
                },
        decreases map.len() - x,
    {
        let mut y: usize = 0;
        while y < map[x].len()
            invariant
                x < map.len(),
                y <= map[x as int].len(),
                map.len() == before.len(),
                forall|a: int|
                    0 <= a < before.len() ==> (#[trigger] map[a]).len() == before[a].len(),
                forall|a: int, b: int|
                    has_tile(before, a, b) ==> (#[trigger] map[a][b]) == if a < x || (a == x && b
                        < y) {
                        spec_explored(before[a][b], fov.sees(a, b))
                    } else {
                        before[a][b]
                    },
            decreases map[x as int].len() - y,
        {
            let visible: bool = x < fov.visible.len() && y < fov.visible[x].len()
                && fov.visible[x][y];
            if visible {
                // since it's visible, explore it
                map[x][y].explored = true;
            }
            y += 1;
        }
        x += 1;
    }
}

/// A tile after it has been in and out of sight as `sights` tells, one
/// recomputation of the field of view after the other.
pub open spec fn explored_after(tile: Tile, sights: Seq<bool>) -> Tile
    decreases sights.len(),
{
    if sights.len() == 0 {
        tile
    } else {
        spec_explored(explored_after(tile, sights.drop_last()), sights.last())
    }
}

/// Once a tile is explored it stays explored, however often the field of
/// view is recomputed and whatever it then holds; being seen or not changes
/// nothing else about the tile.
pub proof fn lemma_explored_is_monotone(tile: Tile, sights: Seq<bool>)
    ensures
        tile.explored ==> explored_after(tile, sights).explored,
        explored_after(tile, sights).blocked == tile.blocked,
        explored_after(tile, sights).block_sight == tile.block_sight,
    decreases sights.len(),
{
    if sights.len() > 0 {
        lemma_explored_is_monotone(tile, sights.drop_last());
    }
}

/// Whether an object is drawn: it is in sight, or it is one of those that
/// stay on the screen and stands on a tile that was seen before.
pub open spec fn is_drawn(object: Object, map: TileGrid, fov: Fov) -> bool {
    fov.sees(object.x as int, object.y as int) || (object.always_visible && has_tile(
        map,
        object.x as int,
        object.y as int,
    ) && map[object.x as int][object.y as int].explored)
}

/// The object at index `a` is drawn before the one at index `b`: what does
/// not block comes first, so that it ends up beneath what blocks; among
/// equals the order of the list decides.
pub open spec fn drawn_before(objects: Seq<Object>, a: int, b: int) -> bool {
    (!objects[a].blocks && objects[b].blocks) || (objects[a].blocks == objects[b].blocks && a < b)
}

/// Whether an object is drawn.
pub fn should_draw(object: &Object, map: &TileGrid, fov: &Fov) -> (drawn: bool)
    ensures
        drawn == is_drawn(*object, *map, *fov),
{
    if fov.is_in_fov(object.x, object.y) {
        return true;
    }
    if !object.always_visible || object.x < 0 || object.y < 0 {
        return false;
    }
    let column: usize = object.x as usize;
    let row: usize = object.y as usize;
    column < map.len() && row < map[column].len() && map[column][row].explored
}

/// The indices of the objects to draw, in the order in which to draw them:
/// every object that `is_drawn`, once, and those that block after the
/// others.
pub fn objects_to_draw(objects: &[Object], map: &TileGrid, fov: &Fov) -> (order: Vec<usize>)
    ensures
        forall|p: int|
            0 <= p < order.len() ==> (#[trigger] order[p]) < objects.len() && is_drawn(
                objects@[order[p] as int],
                *map,
                *fov,
            ),
        forall|i: int|
            0 <= i < objects.len() && is_drawn(#[trigger] objects@[i], *map, *fov) ==> exists|
                p: int,
            |
                0 <= p < order.len() && #[trigger] order[p] == i,
        forall|p: int, q: int|
            0 <= p < q < order.len() ==> drawn_before(
                objects@,
                #[trigger] order[p] as int,
                #[trigger] order[q] as int,
            ),
{
    let mut order: Vec<usize> = Vec::new();
    let mut i: usize = 0;
    while i < objects.len()
        invariant
            i <= objects.len(),
            forall|p: int|
                0 <= p < order.len() ==> (#[trigger] order[p]) < i && !objects@[order[p] as int].blocks
                    && is_drawn(objects@[order[p] as int], *map, *fov),
            forall|k: int|
                0 <= k < i && !objects@[k].blocks && is_drawn(#[trigger] objects@[k], *map, *fov)
                    ==> exists|p: int| 0 <= p < order.len() && #[trigger] order[p] == k,
            forall|p: int, q: int|
                0 <= p < q < order.len() ==> (#[trigger] order[p]) < (#[trigger] order[q]),
        decreases objects.len() - i,
    {
        if !objects[i].blocks && should_draw(&objects[i], map, fov) {
            let ghost earlier = order@;
            order.push(i);
            assert forall|k: int|
                0 <= k < i + 1 && !objects@[k].blocks && is_drawn(
                    #[trigger] objects@[k],
                    *map,
                    *fov,
                ) implies exists|p: int| 0 <= p < order.len() && #[trigger] order[p] == k by {
                if k < i {
                    let p = choose|p: int| 0 <= p < earlier.len() && #[trigger] earlier[p] == k;
                    assert(order[p] == k);
                } else {
                    assert(order[earlier.len() as int] == k);
                }
            }
        }
        i += 1;
    }
    let ghost floor = order@;
    let mut i: usize = 0;
    while i < objects.len()
        invariant
            i <= objects.len(),
            floor.len() <= order.len(),
            order@.subrange(0, floor.len() as int) == floor,
            forall|p: int|
                0 <= p < floor.len() ==> (#[trigger] floor[p]) < objects.len()
                    && !objects@[floor[p] as int].blocks && is_drawn(
                    objects@[floor[p] as int],
                    *map,
                    *fov,
                ),
            forall|k: int|
                0 <= k < objects.len() && !objects@[k].blocks && is_drawn(
                    #[trigger] objects@[k],
                    *map,
                    *fov,
                ) ==> exists|p: int| 0 <= p < floor.len() && #[trigger] floor[p] == k,
            forall|p: int, q: int|
                0 <= p < q < floor.len() ==> (#[trigger] floor[p]) < (#[trigger] floor[q]),
            forall|p: int|
                floor.len() <= p < order.len() ==> (#[trigger] order[p]) < i
                    && objects@[order[p] as int].blocks && is_drawn(
                    objects@[order[p] as int],
                    *map,
                    *fov,
                ),
            forall|k: int|
                0 <= k < i && objects@[k].blocks && is_drawn(#[trigger] objects@[k], *map, *fov)
                    ==> exists|p: int| floor.len() <= p < order.len() && #[trigger] order[p] == k,
            forall|p: int, q: int|
                floor.len() <= p < q < order.len() ==> (#[trigger] order[p]) < (
                #[trigger] order[q]),
        decreases objects.len() - i,
    {
        if objects[i].blocks && should_draw(&objects[i], map, fov) {
            let ghost earlier = order@;
            order.push(i);
            assert(order@.subrange(0, floor.len() as int) =~= earlier.subrange(
                0,
                floor.len() as int,
            ));
            assert forall|k: int|
                0 <= k < i + 1 && objects@[k].blocks && is_drawn(
                    #[trigger] objects@[k],
                    *map,
                    *fov,
                ) implies exists|p: int|
                floor.len() <= p < order.len() && #[trigger] order[p] == k by {
                if k < i {
                    let p = choose|p: int|
                        floor.len() <= p < earlier.len() && #[trigger] earlier[p] == k;
                    assert(order[p] == k);
                } else {
                    assert(order[earlier.len() as int] == k);
                }
            }
        }
        i += 1;
    }
    proof {
        assert forall|p: int| 0 <= p < floor.len() implies order[p] == floor[p] by {
            assert(order@.subrange(0, floor.len() as int)[p] == order[p]);
        }
        assert forall|p: int| 0 <= p < order.len() implies (#[trigger] order[p]) < objects.len()
            && is_drawn(objects@[order[p] as int], *map, *fov) by {
            if p < floor.len() {
                assert(order[p] == floor[p]);
            }
        }
        assert forall|k: int|
            0 <= k < objects.len() && is_drawn(#[trigger] objects@[k], *map, *fov) implies exists|
            p: int,
        |
            0 <= p < order.len() && #[trigger] order[p] == k by {
            if objects@[k].blocks {
                let p = choose|p: int| floor.len() <= p < order.len() && #[trigger] order[p] == k;
                assert(order[p] == k);
            } else {
                let p = choose|p: int| 0 <= p < floor.len() && #[trigger] floor[p] == k;
                assert(order[p] == k);
            }
        }
        assert forall|p: int, q: int| 0 <= p < q < order.len() implies drawn_before(
            objects@,
            #[trigger] order[p] as int,
            #[trigger] order[q] as int,
        ) by {
            if q < floor.len() {
                assert(floor[p] < floor[q]);
            } else if p < floor.len() {
                assert(!objects@[floor[p] as int].blocks);
            }
        }
    }
    order
}

/// Some object stands at `(x, y)`.
pub open spec fn any_at(objects: Seq<Object>, x: int, y: int) -> bool {
    exists|i: int| 0 <= i < objects.len() && (#[trigger] objects[i]).x == x && objects[i].y == y
}

/// The names of the objects that stand at `(x, y)`, in their order, with a
/// comma and a space between one name and the next.
pub open spec fn names_at(objects: Seq<Object>, x: int, y: int) -> Seq<char>
    decreases objects.len(),
{
    if objects.len() == 0 {
        Seq::empty()
    } else {
        let rest = objects.drop_last();
        let last = objects.last();
        if last.x == x && last.y == y {
            if any_at(rest, x, y) {
                names_at(rest, x, y) + ", "@ + last.name@
            } else {
                last.name@
            }
        } else {
            names_at(rest, x, y)
        }
    }
}

/// What is named under the mouse: the objects at `(x, y)` if that cell is in
/// sight, and nothing if it is not.
pub open spec fn spec_names_under_mouse(objects: Seq<Object>, x: int, y: int, fov: Fov) -> Seq<
    char,
> {
    if fov.sees(x, y) {
        names_at(objects, x, y)
    } else {
        Seq::empty()
    }
}

/// Where nothing stands, nothing is named.
proof fn lemma_names_at_nothing(objects: Seq<Object>, x: int, y: int)
    requires
        !any_at(objects, x, y),
    ensures
        names_at(objects, x, y) == Seq::<char>::empty(),
    decreases objects.len(),
{
    if objects.len() > 0 {
        let rest = objects.drop_last();
        assert(objects[objects.len() - 1] == objects.last());
        assert forall|i: int| 0 <= i < rest.len() implies !((#[trigger] rest[i]).x == x
            && rest[i].y == y) by {
            assert(rest[i] == objects[i]);
        }
        lemma_names_at_nothing(rest, x, y);
    }
}

/// return a string with the names of all objects under the mouse, which is
/// over the cell `(x, y)`
pub fn get_names_under_mouse(x: i32, y: i32, objects: &[Object], fov: &Fov) -> (names: String)
    ensures
        names@ == spec_names_under_mouse(objects@, x as int, y as int, *fov),
{
    let mut names = String::new();
    if !fov.is_in_fov(x, y) {
        return names;
    }
    let mut found: bool = false;
    let mut i: usize = 0;
    assert(objects@.subrange(0, 0) =~= Seq::<Object>::empty());
    while i < objects.len()
        invariant
            i <= objects.len(),
            found == any_at(objects@.subrange(0, i as int), x as int, y as int),
            names@ == names_at(objects@.subrange(0, i as int), x as int, y as int),
        decreases objects.len() - i,
    {
        let ghost before = objects@.subrange(0, i as int);
        let ghost now = objects@.subrange(0, i + 1);
        assert(now.drop_last() =~= before);
        assert(now.last() == objects@[i as int]);
        if objects[i].x == x && objects[i].y == y {
            if found {
                names.append(", ");
            } else {
                proof {
                    lemma_names_at_nothing(before, x as int, y as int);
                }
                assert(names@ =~= Seq::<char>::empty());
            }
            names.append(objects[i].name.as_str());
            assert(now[i as int].x == x && now[i as int].y == y);
            found = true;
        } else {
            assert(any_at(now, x as int, y as int) == any_at(before, x as int, y as int)) by {
                if any_at(before, x as int, y as int) {
                    let k = choose|k: int|
                        0 <= k < before.len() && (#[trigger] before[k]).x == x && before[k].y == y;
                    assert(now[k] == before[k]);
                }
                if any_at(now, x as int, y as int) {
                    let k = choose|k: int|
                        0 <= k < now.len() && (#[trigger] now[k]).x == x && now[k].y == y;
                    assert(before[k] == now[k]);
                }
            }
        }
        i += 1;
    }
    assert(objects@.subrange(0, objects.len() as int) =~= objects@);
    names
}

} // verus!
