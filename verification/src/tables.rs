//! Tables that depend on the dungeon level: how many items a room may hold,
//! how likely each kind of item is, and what an item of each kind looks like.

use vstd::prelude::*;
use crate::colors::{darker_orange, light_yellow, sky, violet, Color};
use crate::object::{Equipment, Item, Object, ObjectView, Slot};

verus! {

/// One step of a table: from dungeon level `level` on, the value is `value`.
#[derive(Clone, Copy, Debug, PartialEq, Eq, Structural)]
pub struct Transition {
    pub level: u32,
    pub value: u32,
}

/// The index of the last step of `table` whose level does not exceed `level`,
/// if there is one.
pub open spec fn matched(table: Seq<Transition>, level: u32) -> Option<int>
    decreases table.len(),
{
    if table.len() == 0 {
        None
    } else if level >= table.last().level {
        Some(table.len() - 1)
    } else {
        matched(table.drop_last(), level)
    }
}

/// The value of the step that `matched` finds, and zero where it finds none.
pub open spec fn spec_from_dungeon_level(table: Seq<Transition>, level: u32) -> u32 {
    match matched(table, level) {
        Some(i) => table[i].value,
        None => 0,
    }
}

/// What `matched` finds is a step at or below `level` with no such step after
/// it; it finds nothing only where every step lies above `level`.
pub proof fn lemma_matched_is_last(table: Seq<Transition>, level: u32)
    ensures
        match matched(table, level) {
            Some(i) => 0 <= i < table.len() && table[i].level <= level && forall|j: int|
                i < j < table.len() ==> level < (#[trigger] table[j]).level,
            None => forall|j: int| 0 <= j < table.len() ==> level < (#[trigger] table[j]).level,
        },
    decreases table.len(),
{
    if table.len() > 0 && level < table.last().level {
        let front = table.drop_last();
        lemma_matched_is_last(front, level);
        assert forall|j: int| 0 <= j < table.len() - 1 implies (#[trigger] table[j])
            == front[j] by {}
    }
}

/// A higher level never matches an earlier step: as the level rises, the
/// matched step moves towards the end of the table or stays.
pub proof fn lemma_matched_monotone(table: Seq<Transition>, low: u32, high: u32)
    requires
        low <= high,
    ensures
        matched(table, low) is Some ==> matched(table, high) is Some && matched(
            table,
            low,
        ).unwrap() <= matched(table, high).unwrap(),
{
    lemma_matched_is_last(table, low);
    lemma_matched_is_last(table, high);
}

/// In a table whose values never fall from one step to the next, the value
/// never falls as the level rises.
pub proof fn lemma_from_dungeon_level_monotone(table: Seq<Transition>, low: u32, high: u32)
    requires
        low <= high,
        forall|i: int, j: int|
            0 <= i <= j < table.len() ==> (#[trigger] table[i]).value <= (#[trigger] table[j]).value,
    ensures
        spec_from_dungeon_level(table, low) <= spec_from_dungeon_level(table, high),
{
    lemma_matched_is_last(table, low);
    lemma_matched_is_last(table, high);
}

/// Returns a value that depends on level. the table specifies what
/// value occurs after each level, default is 0.
pub fn from_dungeon_level(table: &[Transition], level: u32) -> (value: u32)
    ensures
        value == spec_from_dungeon_level(table@, level),
{
    let mut i: usize = table.len();
    assert(table@.subrange(0, i as int) =~= table@);
    while i > 0
        invariant
            i <= table.len(),
            matched(table@, level) == matched(table@.subrange(0, i as int), level),
        decreases i,
    {
        i -= 1;
        assert(table@.subrange(0, i + 1).drop_last() =~= table@.subrange(0, i as int));
        if level >= table[i].level {
            return table[i].value;
        }
    }
    0
}

/// The most items that a room holds at a dungeon level: none above ground,
/// one from the first level on, two from the fourth.
pub open spec fn spec_max_items(level: u32) -> u32 {
    if level >= 4 {
        2
    } else if level >= 1 {
        1
    } else {
        0
    }
}

/// The most items that a room holds at a dungeon level.
pub fn max_items(level: u32) -> (most: u32)
    ensures
        most == spec_max_items(level),
{
    let table: [Transition; 2] = [
        Transition { level: 1, value: 1 },
        Transition { level: 4, value: 2 },
    ];
    proof {
        reveal_with_fuel(matched, 3);
    }
    from_dungeon_level(table.as_slice(), level)
}

/// The value of a table with one step.
fn single_step(from: u32, value: u32, level: u32) -> (chance: u32)
    ensures
        chance == if level >= from {
            value
        } else {
            0
        },
{
    let table: [Transition; 1] = [Transition { level: from, value }];
    proof {
        reveal_with_fuel(matched, 2);
    }
    from_dungeon_level(table.as_slice(), level)
}

/// The weight with which a kind of item is drawn at a dungeon level. Healing
/// potions are always to be had; each other kind appears from its own level
/// on.
pub open spec fn spec_item_chance(kind: Item, level: u32) -> u32 {
    match kind {
        Item::Heal => 35,
        Item::Lightning => if level >= 4 {
            25
        } else {
            0
        },
        Item::Fireball => if level >= 6 {
            25
        } else {
            0
        },
        Item::Confuse => if level >= 2 {
            10
        } else {
            0
        },
        Item::Sword => if level >= 4 {
            5
        } else {
            0
        },
        Item::Shield => if level >= 8 {
            15
        } else {
            0
        },
    }
}

/// The kinds of item in the order of the table of chances.
pub open spec fn item_kinds() -> Seq<Item> {
    seq![Item::Heal, Item::Lightning, Item::Fireball, Item::Confuse, Item::Sword, Item::Shield]
}

/// The table of chances at a dungeon level: each kind with its weight.
pub open spec fn spec_item_chances(level: u32) -> Seq<(Item, u32)> {
    item_kinds().map_values(|kind: Item| (kind, spec_item_chance(kind, level)))
}

/// The table of chances at a dungeon level: each kind with its weight.
pub fn item_chances(level: u32) -> (chances: Vec<(Item, u32)>)
    ensures
        chances@ == spec_item_chances(level),
{
    let mut chances: Vec<(Item, u32)> = Vec::new();
    // healing potion always shows up, even if all other items have 0 chance
    chances.push((Item::Heal, 35));
    chances.push((Item::Lightning, single_step(4, 25, level)));
    chances.push((Item::Fireball, single_step(6, 25, level)));
    chances.push((Item::Confuse, single_step(2, 10, level)));
    chances.push((Item::Sword, single_step(4, 5, level)));
    chances.push((Item::Shield, single_step(8, 15, level)));
    assert(chances@ =~= spec_item_chances(level));
    chances
}

/// The glyph of an item of a kind.
pub open spec fn item_char(kind: Item) -> char {
    match kind {
        Item::Heal => '!',
        Item::Lightning => '#',
        Item::Fireball => '#',
        Item::Confuse => '#',
        Item::Sword => '/',
        Item::Shield => '[',
    }
}

/// The name of an item of a kind.
pub open spec fn item_name(kind: Item) -> Seq<char> {
    match kind {
        Item::Heal => "healing potion"@,
        Item::Lightning => "scroll of lightning bolt"@,
        Item::Fireball => "scroll of fireball"@,
        Item::Confuse => "scroll of confusion"@,
        Item::Sword => "sword"@,
        Item::Shield => "shield"@,
    }
}

/// The colour of an item of a kind.
pub open spec fn item_color(kind: Item) -> Color {
    match kind {
        Item::Heal => violet(),
        Item::Lightning => light_yellow(),
        Item::Fireball => light_yellow(),
        Item::Confuse => light_yellow(),
        Item::Sword => sky(),
        Item::Shield => darker_orange(),
    }
}

/// What an item of a kind is worn as: a sword in the right hand, a shield in
/// the left; the rest is not worn.
pub open spec fn item_equipment(kind: Item) -> Option<Equipment> {
    match kind {
        Item::Sword => Some(
            Equipment {
                slot: Slot::RightHand,
                equipped: false,
                max_hp_bonus: 0,
                defense_bonus: 0,
                power_bonus: 3,
            },
        ),
        Item::Shield => Some(
            Equipment {
                slot: Slot::LeftHand,
                equipped: false,
                max_hp_bonus: 0,
                defense_bonus: 1,
                power_bonus: 0,
            },
        ),
        _ => None,
    }
}

/// An item of a kind as it lies at `(x, y)` in a fresh level. It blocks
/// nothing and stays on the screen once its tile has been seen.
pub open spec fn item_view(kind: Item, x: i32, y: i32) -> ObjectView {
    ObjectView {
        x,
        y,
        char: item_char(kind),
        color: item_color(kind),
        name: item_name(kind),
        blocks: false,
        alive: false,
        stats: None,
        ai: None,
        item: Some(kind),
        equipment: item_equipment(kind),
        always_visible: true,
    }
}

/// Makes an item of a kind at `(x, y)`.
pub fn spawn_item(kind: Item, x: i32, y: i32) -> (object: Object)
    ensures
        object@ == item_view(kind, x, y),
{
    let mut item = match kind {
        Item::Heal => {
            // create a healing potion
            let mut object = Object::new(x, y, '!', "healing potion", violet(), false);
            object.item = Some(Item::Heal);
            object
        },
        Item::Lightning => {
            // create a lightning bolt scroll
            let mut object = Object::new(
                x,
                y,
                '#',
                "scroll of lightning bolt",
                light_yellow(),
                false,
            );
            object.item = Some(Item::Lightning);
            object
        },
        Item::Fireball => {
            // create a fireball scroll
            let mut object = Object::new(x, y, '#', "scroll of fireball", light_yellow(), false);
            object.item = Some(Item::Fireball);
            object
        },
        Item::Confuse => {
            // create a confuse scroll
            let mut object = Object::new(x, y, '#', "scroll of confusion", light_yellow(), false);
            object.item = Some(Item::Confuse);
            object
        },
        Item::Sword => {
            // create a sword
            let mut object = Object::new(x, y, '/', "sword", sky(), false);
            object.item = Some(Item::Sword);
            object.equipment = Some(
                Equipment {
                    equipped: false,
                    slot: Slot::RightHand,
                    max_hp_bonus: 0,
                    defense_bonus: 0,
                    power_bonus: 3,
                },
            );
            object
        },
        Item::Shield => {
            // create a shield
            let mut object = Object::new(x, y, '[', "shield", darker_orange(), false);
            object.item = Some(Item::Shield);
            object.equipment = Some(
                Equipment {
                    equipped: false,
                    slot: Slot::LeftHand,
                    max_hp_bonus: 0,
                    defense_bonus: 1,
                    power_bonus: 0,
                },
            );
            object
        },
    };
    item.always_visible = true;
    item
}

} // verus!
