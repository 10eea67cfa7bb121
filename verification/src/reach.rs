//! Walking over open tiles: paths, and when one tile can be reached from
//! another.

use vstd::prelude::*;
use crate::tile::{is_open, TileGrid};

verus! {

/// Two positions are one step apart, along a row or a column.
pub open spec fn adjacent(a: (int, int), b: (int, int)) -> bool {
    ||| a.0 == b.0 && (a.1 == b.1 + 1 || b.1 == a.1 + 1)
    ||| a.1 == b.1 && (a.0 == b.0 + 1 || b.0 == a.0 + 1)
}

/// A walk: at least one position, each on an open tile, each one step from
/// the one before.
pub open spec fn is_path(map: TileGrid, path: Seq<(int, int)>) -> bool {
    &&& path.len() > 0
    &&& forall|i: int| 0 <= i < path.len() ==> is_open(map, (#[trigger] path[i]).0, path[i].1)
    &&& forall|i: int| 0 <= i < path.len() - 1 ==> adjacent(#[trigger] path[i], path[i + 1])
}

/// Some walk over open tiles leads from `a` to `b`.
pub open spec fn connected(map: TileGrid, a: (int, int), b: (int, int)) -> bool {
    exists|path: Seq<(int, int)>| #[trigger] is_path(map, path) && path[0] == a && path.last() == b
}

/// An open tile is connected to itself.
pub proof fn lemma_connected_refl(map: TileGrid, a: (int, int))
    requires
        is_open(map, a.0, a.1),
    ensures
        connected(map, a, a),
{
    let path = seq![a];
    assert(is_path(map, path));
    assert(path[0] == a && path.last() == a);
}

/// A walk can be taken backwards.
pub proof fn lemma_connected_symmetric(map: TileGrid, a: (int, int), b: (int, int))
    requires
        connected(map, a, b),
    ensures
        connected(map, b, a),
{
    let path = choose|path: Seq<(int, int)>| #[trigger]
        is_path(map, path) && path[0] == a && path.last() == b;
    let back = Seq::new(path.len(), |i: int| path[path.len() - 1 - i]);
    assert forall|i: int| 0 <= i < back.len() - 1 implies adjacent(#[trigger] back[i], back[i + 1]) by {
        let j = path.len() - 2 - i;
        assert(adjacent(path[j], path[j + 1]));
    }
    assert(is_path(map, back));
    assert(back[0] == b && back.last() == a);
}

/// Two walks that meet make one walk.
pub proof fn lemma_connected_transitive(
    map: TileGrid,
    a: (int, int),
    b: (int, int),
    c: (int, int),
)
    requires
        connected(map, a, b),
        connected(map, b, c),
    ensures
        connected(map, a, c),
{
    let first = choose|path: Seq<(int, int)>| #[trigger]
        is_path(map, path) && path[0] == a && path.last() == b;
    let second = choose|path: Seq<(int, int)>| #[trigger]
        is_path(map, path) && path[0] == b && path.last() == c;
    let rest = second.subrange(1, second.len() as int);
    let whole = first + rest;
    assert forall|i: int| 0 <= i < whole.len() implies is_open(
        map,
        (#[trigger] whole[i]).0,
        whole[i].1,
    ) by {
        if i >= first.len() {
            assert(whole[i] == second[i - first.len() + 1]);
        }
    }
    assert forall|i: int| 0 <= i < whole.len() - 1 implies adjacent(
        #[trigger] whole[i],
        whole[i + 1],
    ) by {
        if i < first.len() - 1 {
            assert(adjacent(first[i], first[i + 1]));
        } else {
            let j = i - first.len() + 1;
            assert(whole[i] == second[j]);
            assert(whole[i + 1] == second[j + 1]);
            assert(adjacent(second[j], second[j + 1]));
        }
    }
    assert(is_path(map, whole));
    assert(whole[0] == a);
    if rest.len() == 0 {
        assert(whole.last() == first.last());
    } else {
        assert(whole.last() == second.last());
    }
}

/// Opening more tiles keeps what was connected.
pub proof fn lemma_connected_monotone(
    before: TileGrid,
    after: TileGrid,
    a: (int, int),
    b: (int, int),
)
    requires
        connected(before, a, b),
        forall|x: int, y: int| is_open(before, x, y) ==> is_open(after, x, y),
    ensures
        connected(after, a, b),
{
    let path = choose|path: Seq<(int, int)>| #[trigger]
        is_path(before, path) && path[0] == a && path.last() == b;
    assert(is_path(after, path));
}

/// A row of open tiles connects its two ends.
pub proof fn lemma_row_connected(map: TileGrid, x1: int, x2: int, y: int)
    requires
        x1 <= x2,
        forall|x: int| x1 <= x <= x2 ==> is_open(map, x, y),
    ensures
        connected(map, (x1, y), (x2, y)),
    decreases x2 - x1,
{
    if x1 == x2 {
        lemma_connected_refl(map, (x1, y));
    } else {
        lemma_row_connected(map, x1, x2 - 1, y);
        let step = seq![(x2 - 1, y), (x2, y)];
        assert(is_path(map, step));
        assert(step[0] == (x2 - 1, y) && step.last() == (x2, y));
        lemma_connected_transitive(map, (x1, y), (x2 - 1, y), (x2, y));
    }
}

/// A column of open tiles connects its two ends.
pub proof fn lemma_column_connected(map: TileGrid, y1: int, y2: int, x: int)
    requires
        y1 <= y2,
        forall|y: int| y1 <= y <= y2 ==> is_open(map, x, y),
    ensures
        connected(map, (x, y1), (x, y2)),
    decreases y2 - y1,
{
    if y1 == y2 {
        lemma_connected_refl(map, (x, y1));
    } else {
        lemma_column_connected(map, y1, y2 - 1, x);
        let step = seq![(x, y2 - 1), (x, y2)];
        assert(is_path(map, step));
        assert(step[0] == (x, y2 - 1) && step.last() == (x, y2));
        lemma_connected_transitive(map, (x, y1), (x, y2 - 1), (x, y2));
    }
}

} // verus!
