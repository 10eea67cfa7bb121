//! What the player carries: picking up and dropping, wearing and taking off,
//! and using items.

use vstd::prelude::*;
use vstd::string::StringExecFns;
use crate::colors::{green, red, white, yellow};
use crate::game::{clash, slot_taken, slots_exclusive, Game, GameView, INVENTORY_CAPACITY};
use crate::messages::{framed, MessageLog};
use crate::object::{raised, spec_raised, Equipment, Item, Object, Slot, Stats, UseResult};

verus! {

/// By how much the use of a potion or scroll raises a gauge.
pub const EFFECT_AMOUNT: i32 = 20;

/// The message for an item that does not fit into the inventory.
pub open spec fn full_text(name: Seq<char>) -> Seq<char> {
    "Your inventory is full, cannot pick up "@ + name + "."@
}

/// The message for an item picked up.
pub open spec fn picked_up_text(name: Seq<char>) -> Seq<char> {
    "You picked up a "@ + name + "!"@
}

/// The message for an item dropped.
pub open spec fn dropped_text(name: Seq<char>) -> Seq<char> {
    "You dropped a "@ + name + "."@
}

/// The message for something that is no item.
pub open spec fn unusable_text(name: Seq<char>) -> Seq<char> {
    "The "@ + name + " cannot be used."@
}

/// `i` is the first index of something that is worn in `slot`.
pub open spec fn is_first_equipped(inventory: Seq<Object>, slot: Slot, i: int) -> bool {
    &&& 0 <= i < inventory.len()
    &&& inventory[i].equipped_in(slot)
    &&& forall|j: int| 0 <= j < i ==> !(#[trigger] inventory[j]).equipped_in(slot)
}

/// The first index of something that is worn in `slot`, if anything is.
pub open spec fn spec_get_equipped_in_slot(slot: Slot, inventory: Seq<Object>) -> Option<int> {
    if slot_taken(inventory, slot) {
        Some(choose|i: int| is_first_equipped(inventory, slot, i))
    } else {
        None
    }
}

/// There is one first index at most.
pub proof fn lemma_first_equipped_unique(inventory: Seq<Object>, slot: Slot, i: int, k: int)
    requires
        is_first_equipped(inventory, slot, i),
        is_first_equipped(inventory, slot, k),
    ensures
        i == k,
{
    if i < k {
        assert(!inventory[i].equipped_in(slot));
    } else if k < i {
        assert(!inventory[k].equipped_in(slot));
    }
}

/// Where nothing before `start` is worn in `slot` and something from there
/// on is, one index is the first.
proof fn lemma_first_equipped_from(inventory: Seq<Object>, slot: Slot, start: int)
    requires
        0 <= start <= inventory.len(),
        forall|j: int| 0 <= j < start ==> !(#[trigger] inventory[j]).equipped_in(slot),
        exists|k: int| start <= k < inventory.len() && (#[trigger] inventory[k]).equipped_in(slot),
    ensures
        exists|i: int| is_first_equipped(inventory, slot, i),
    decreases inventory.len() - start,
{
    if inventory[start].equipped_in(slot) {
        assert(is_first_equipped(inventory, slot, start));
    } else {
        lemma_first_equipped_from(inventory, slot, start + 1);
    }
}

/// In a slot that is taken, what `spec_get_equipped_in_slot` names is the
/// first index of something worn in it.
pub proof fn lemma_first_equipped_exists(inventory: Seq<Object>, slot: Slot)
    requires
        slot_taken(inventory, slot),
    ensures
        spec_get_equipped_in_slot(slot, inventory) is Some,
        is_first_equipped(inventory, slot, spec_get_equipped_in_slot(slot, inventory).unwrap()),
{
    lemma_first_equipped_from(inventory, slot, 0);
}

/// An index that is the first is what `spec_get_equipped_in_slot` names.
pub proof fn lemma_get_equipped_in_slot(slot: Slot, inventory: Seq<Object>, i: int)
    requires
        is_first_equipped(inventory, slot, i),
    ensures
        spec_get_equipped_in_slot(slot, inventory) == Some(i),
{
    assert(slot_taken(inventory, slot));
    let k = choose|k: int| is_first_equipped(inventory, slot, k);
    lemma_first_equipped_unique(inventory, slot, i, k);
}

/// The index of the first thing in the inventory that is worn in `slot`, or
/// `None` if the slot is free.
pub fn get_equipped_in_slot(slot: Slot, inventory: &[Object]) -> (found: Option<usize>)
    ensures
        found is Some ==> is_first_equipped(inventory@, slot, found.unwrap() as int),
        found is None ==> !slot_taken(inventory@, slot),
        spec_get_equipped_in_slot(slot, inventory@) == match found {
            Some(i) => Some(i as int),
            None => None,
        },
{
    let mut inventory_id: usize = 0;
    while inventory_id < inventory.len()
        invariant
            inventory_id <= inventory.len(),
            forall|j: int| 0 <= j < inventory_id ==> !(#[trigger] inventory@[j]).equipped_in(slot),
        decreases inventory.len() - inventory_id,
    {
        let worn: bool = match inventory[inventory_id].equipment {
            Some(e) => e.equipped && e.slot == slot,
            None => false,
        };
        if worn {
            proof {
                lemma_get_equipped_in_slot(slot, inventory@, inventory_id as int);
            }
            return Some(inventory_id);
        }
        inventory_id += 1;
    }
    None
}

impl GameView {
    /// The session after an attempt to pick up the object at index `id`.
    ///
    /// With a full inventory only the log changes. Else the object leaves the
    /// level, the last object of the level taking its place, and goes to the
    /// end of the inventory; if it is equipment and its slot is free, it is
    /// put on.
    pub open spec fn pick_item_up(self, id: int) -> GameView {
        let item = self.objects[id];
        if self.inventory.len() >= INVENTORY_CAPACITY {
            GameView { log: self.log.push((full_text(item.name@), red())), ..self }
        } else {
            let held = self.inventory.push(item);
            let put_on = item.equipment is Some && !slot_taken(
                held,
                item.equipment.unwrap().slot,
            );
            GameView {
                objects: self.objects.update(id, self.objects.last()).drop_last(),
                inventory: if put_on {
                    self.inventory.push(item.spec_equip())
                } else {
                    held
                },
                log: self.log.push((picked_up_text(item.name@), green())) + if put_on {
                    item.equip_entries()
                } else {
                    Seq::empty()
                },
                ..self
            }
        }
    }

    /// The session after the item at index `id` of the inventory is dropped:
    /// it is taken off if it is equipment, and lies where the player stands,
    /// last among the objects of the level.
    pub open spec fn drop_item(self, id: int) -> GameView {
        let item = self.inventory[id];
        let taken_off = if item.equipment is Some {
            item.spec_unequip()
        } else {
            item
        };
        let entries = if item.equipment is Some {
            item.unequip_entries()
        } else {
            Seq::empty()
        };
        let dropped = Object { x: self.objects[0].x, y: self.objects[0].y, ..taken_off };
        GameView {
            inventory: self.inventory.remove(id),
            objects: self.objects.push(dropped),
            log: (self.log + entries).push((dropped_text(item.name@), yellow())),
            ..self
        }
    }

    /// How `toggle_equipment` ends for the item at index `id`.
    pub open spec fn toggle_result(self, id: int) -> UseResult {
        if self.inventory[id].equipment is None {
            UseResult::Cancelled
        } else {
            UseResult::UsedAndKept
        }
    }

    /// The session after `toggle_equipment` on the item at index `id`: what
    /// is worn is taken off; what is not worn is put on, after whatever holds
    /// its slot has been taken off. What is no equipment stays as it is.
    pub open spec fn toggle_equipment(self, id: int) -> GameView {
        let item = self.inventory[id];
        match item.equipment {
            None => self,
            Some(equipment) => {
                if equipment.equipped {
                    GameView {
                        inventory: self.inventory.update(id, item.spec_unequip()),
                        log: self.log + item.unequip_entries(),
                        ..self
                    }
                } else {
                    let cleared = match spec_get_equipped_in_slot(equipment.slot, self.inventory) {
                        Some(current) => GameView {
                            inventory: self.inventory.update(
                                current,
                                self.inventory[current].spec_unequip(),
                            ),
                            log: self.log + self.inventory[current].unequip_entries(),
                            ..self
                        },
                        None => self,
                    };
                    GameView {
                        inventory: cleared.inventory.update(id, item.spec_equip()),
                        log: cleared.log + item.equip_entries(),
                        ..cleared
                    }
                }
            },
        }
    }

    /// The session after one gauge of the player has been raised: the one
    /// that the kind of item stands for. Equipment raises none.
    pub open spec fn cast(self, kind: Item) -> GameView {
        let player = self.objects[0];
        let stats = player.stats.unwrap();
        let max = stats.base_max_all_stats as int;
        let stats = match kind {
            Item::Heal => Stats {
                bladder: spec_raised(stats.bladder as int, EFFECT_AMOUNT as int, max) as i32,
                ..stats
            },
            Item::Lightning => Stats {
                energy: spec_raised(stats.energy as int, EFFECT_AMOUNT as int, max) as i32,
                ..stats
            },
            Item::Confuse => Stats {
                social: spec_raised(stats.social as int, EFFECT_AMOUNT as int, max) as i32,
                ..stats
            },
            Item::Fireball => Stats {
                comfort: spec_raised(stats.comfort as int, EFFECT_AMOUNT as int, max) as i32,
                ..stats
            },
            _ => stats,
        };
        GameView { objects: self.objects.update(0, Object { stats: Some(stats), ..player }), ..self }
    }

    /// How the use of the item at index `id` ends, if it is an item.
    pub open spec fn use_result(self, id: int) -> Option<UseResult> {
        match self.inventory[id].item {
            None => None,
            Some(Item::Sword) | Some(Item::Shield) => Some(self.toggle_result(id)),
            Some(_) => Some(UseResult::UsedUp),
        }
    }

    /// The session after the effect of the item at index `id`, which is an
    /// item, and before the item is used up.
    pub open spec fn apply_item(self, id: int) -> GameView {
        match self.inventory[id].item.unwrap() {
            Item::Sword | Item::Shield => self.toggle_equipment(id),
            kind => self.cast(kind),
        }
    }

    /// The session after the use of the item at index `id`. What is no item
    /// earns a message. Else the item has its effect; then what is used up
    /// leaves the inventory, and what was cancelled earns a message.
    pub open spec fn use_item(self, id: int) -> GameView {
        match self.use_result(id) {
            None => GameView {
                log: self.log.push((unusable_text(self.inventory[id].name@), white())),
                ..self
            },
            Some(UseResult::UsedUp) => {
                let after = self.apply_item(id);
                GameView { inventory: after.inventory.remove(id), ..after }
            },
            Some(UseResult::UsedAndKept) => self.apply_item(id),
            Some(UseResult::Cancelled) => {
                let after = self.apply_item(id);
                GameView { log: after.log.push(("Cancelled"@, white())), ..after }
            },
        }
    }
}

/// `after` is the thing that `before` was: they differ at most in whether
/// they are worn.
pub open spec fn same_item(before: Object, after: Object) -> bool {
    &&& after == Object { equipment: after.equipment, ..before }
    &&& match (before.equipment, after.equipment) {
        (Some(was), Some(is)) => is == Equipment { equipped: is.equipped, ..was },
        (None, None) => true,
        _ => false,
    }
}

/// Picking up an item that lies on the level keeps the session in good
/// order: in particular, no slot comes to hold two things.
pub proof fn lemma_pick_item_up_wf(game: GameView, id: int)
    requires
        game.wf(),
        0 <= id < game.objects.len(),
        game.objects[id].item is Some,
    ensures
        game.pick_item_up(id).wf(),
{
    let after = game.pick_item_up(id);
    if game.inventory.len() < INVENTORY_CAPACITY {
        let item = game.objects[id];
        let held = game.inventory.push(item);
        assert(id >= 1);
        assert(after.objects[0] == game.objects[0]);
        assert(item.equipment is Some ==> !item.equipment.unwrap().equipped);
        let n = game.inventory.len() as int;
        assert forall|i: int, j: int| 0 <= i < j < after.inventory.len() implies !clash(
            #[trigger] after.inventory[i],
            #[trigger] after.inventory[j],
        ) by {
            if j < n {
                assert(!clash(game.inventory[i], game.inventory[j]));
            } else if clash(after.inventory[i], after.inventory[j]) {
                let slot = item.equipment.unwrap().slot;
                assert(held[i].equipped_in(slot));
                assert(slot_taken(held, slot));
            }
        }
    }
}

/// Dropping an item keeps the session in good order.
pub proof fn lemma_drop_item_wf(game: GameView, id: int)
    requires
        game.wf(),
        0 <= id < game.inventory.len(),
    ensures
        game.drop_item(id).wf(),
{
    let after = game.drop_item(id);
    assert(game.inventory[id].item is Some);
    assert forall|i: int, j: int| 0 <= i < j < after.inventory.len() implies !clash(
        #[trigger] after.inventory[i],
        #[trigger] after.inventory[j],
    ) by {
        let a = if i < id { i } else { i + 1 };
        let b = if j < id { j } else { j + 1 };
        assert(!clash(game.inventory[a], game.inventory[b]));
    }
    assert forall|i: int| 0 <= i < after.inventory.len() implies (#[trigger] after.inventory[i]).item is Some by {
        let a = if i < id { i } else { i + 1 };
        assert(game.inventory[a].item is Some);
    }
    assert forall|i: int| 0 <= i < after.objects.len() && (#[trigger] after.objects[i]).equipment
        is Some implies !after.objects[i].equipment.unwrap().equipped by {
        if i < game.objects.len() {
            assert(after.objects[i] == game.objects[i]);
        }
    }
}

/// Putting on or taking off changes nothing but the log and which of the
/// items are worn: the item itself is put on or taken off, and the others
/// stay as they are or are taken off.
pub proof fn lemma_toggle_equipment_shape(game: GameView, id: int)
    requires
        0 <= id < game.inventory.len(),
    ensures
        game.toggle_equipment(id).inventory.len() == game.inventory.len(),
        game.toggle_equipment(id).objects == game.objects,
        game.toggle_equipment(id).map == game.map,
        game.toggle_equipment(id).dungeon_level == game.dungeon_level,
        forall|k: int|
            0 <= k < game.inventory.len() ==> {
                let was = #[trigger] game.inventory[k];
                let is = game.toggle_equipment(id).inventory[k];
                if k == id {
                    is == if was.equipment is Some && was.equipment.unwrap().equipped {
                        was.spec_unequip()
                    } else {
                        was.spec_equip()
                    }
                } else {
                    is == was || is == was.spec_unequip()
                }
            },
{
    let item = game.inventory[id];
    if item.equipment is Some && !item.equipment.unwrap().equipped {
        let slot = item.equipment.unwrap().slot;
        match spec_get_equipped_in_slot(slot, game.inventory) {
            Some(current) => {
                lemma_first_equipped_exists(game.inventory, slot);
            },
            None => {},
        }
    }
}

/// Putting on or taking off keeps the session in good order: what held the
/// slot before is taken off first.
pub proof fn lemma_toggle_equipment_wf(game: GameView, id: int)
    requires
        game.wf(),
        0 <= id < game.inventory.len(),
    ensures
        game.toggle_equipment(id).wf(),
{
    let after = game.toggle_equipment(id);
    let item = game.inventory[id];
    assert(item.item is Some);
    lemma_toggle_equipment_shape(game, id);
    if item.equipment is Some {
        let slot = item.equipment.unwrap().slot;
        assert forall|i: int| 0 <= i < after.inventory.len() implies (#[trigger] after.inventory[i]).item is Some by {
            assert(game.inventory[i].item is Some);
        }
        if item.equipment.unwrap().equipped {
            assert forall|i: int, j: int| 0 <= i < j < after.inventory.len() implies !clash(
                #[trigger] after.inventory[i],
                #[trigger] after.inventory[j],
            ) by {
                assert(!clash(game.inventory[i], game.inventory[j]));
            }
        } else {
            let found = spec_get_equipped_in_slot(slot, game.inventory);
            assert forall|k: int| 0 <= k < after.inventory.len() && k != id implies !(
            #[trigger] after.inventory[k]).equipped_in(slot) by {
                assert(game.inventory[k].item is Some);
                if game.inventory[k].equipped_in(slot) {
                    assert(slot_taken(game.inventory, slot));
                    lemma_first_equipped_exists(game.inventory, slot);
                    let first = found.unwrap();
                    if first < k {
                        assert(clash(game.inventory[first], game.inventory[k]));
                    } else if k < first {
                        assert(clash(game.inventory[k], game.inventory[first]));
                    }
                }
            }
            assert forall|i: int, j: int| 0 <= i < j < after.inventory.len() implies !clash(
                #[trigger] after.inventory[i],
                #[trigger] after.inventory[j],
            ) by {
                assert(!clash(game.inventory[i], game.inventory[j]));
                if i == id {
                    assert(!after.inventory[j].equipped_in(slot));
                } else if j == id {
                    assert(!after.inventory[i].equipped_in(slot));
                } else {
                    assert(game.inventory[i].item is Some);
                    assert(game.inventory[j].item is Some);
                }
            }
        }
    }
}

/// Using an item keeps the session in good order: the gauges stay within
/// their bounds, and no slot comes to hold two things.
pub proof fn lemma_use_item_wf(game: GameView, id: int)
    requires
        game.wf(),
        0 <= id < game.inventory.len(),
    ensures
        game.use_item(id).wf(),
{
    let after = game.use_item(id);
    match game.inventory[id].item.unwrap() {
        Item::Sword | Item::Shield => {
            lemma_toggle_equipment_wf(game, id);
        },
        kind => {
            let cast = game.cast(kind);
            assert forall|i: int| 0 <= i < cast.objects.len() && (#[trigger] cast.objects[i]).equipment
                is Some implies !cast.objects[i].equipment.unwrap().equipped by {
                assert(game.objects[i].equipment is Some ==> !game.objects[i].equipment.unwrap().equipped);
            }
            assert forall|i: int, j: int| 0 <= i < j < after.inventory.len() implies !clash(
                #[trigger] after.inventory[i],
                #[trigger] after.inventory[j],
            ) by {
                let a = if i < id { i } else { i + 1 };
                let b = if j < id { j } else { j + 1 };
                assert(!clash(game.inventory[a], game.inventory[b]));
            }
            assert forall|i: int| 0 <= i < after.inventory.len() implies (#[trigger] after.inventory[i]).item is Some by {
                let a = if i < id { i } else { i + 1 };
                assert(game.inventory[a].item is Some);
            }
        },
    }
}

/// With a full inventory, picking up changes nothing but the log, which
/// gains one message.
pub proof fn lemma_pick_up_when_full(game: GameView, id: int)
    requires
        game.inventory.len() >= INVENTORY_CAPACITY,
    ensures
        game.pick_item_up(id).inventory == game.inventory,
        game.pick_item_up(id).objects == game.objects,
        game.pick_item_up(id).log.len() == game.log.len() + 1,
        game.pick_item_up(id).log.drop_last() == game.log,
{
    assert(game.pick_item_up(id).log.drop_last() =~= game.log);
}

/// What is used up is gone from the inventory, and the rest keeps its order;
/// what is used and kept, or cancelled, is still there, at its place, and is
/// the thing that it was.
pub proof fn lemma_use_item_outcome(game: GameView, id: int)
    requires
        0 <= id < game.inventory.len(),
    ensures
        match game.use_result(id) {
            Some(UseResult::UsedUp) => game.use_item(id).inventory == game.inventory.remove(id),
            _ => game.use_item(id).inventory.len() == game.inventory.len() && same_item(
                game.inventory[id],
                game.use_item(id).inventory[id],
            ),
        },
{
    lemma_toggle_equipment_shape(game, id);
}

/// One thing that the player does with what lies about or is carried.
pub enum InventoryAction {
    /// Pick up the object at this index of the level.
    PickUp(int),
    /// Drop the item at this index of the inventory.
    Drop(int),
    /// Put on or take off the item at this index of the inventory.
    Toggle(int),
    /// Use the item at this index of the inventory.
    Use(int),
}

impl GameView {
    /// Whether the action can be done: its index names something, and what is
    /// picked up is an item.
    pub open spec fn allows(self, action: InventoryAction) -> bool {
        match action {
            InventoryAction::PickUp(id) => 0 <= id < self.objects.len() && self.objects[id].item
                is Some,
            InventoryAction::Drop(id) => 0 <= id < self.inventory.len(),
            InventoryAction::Toggle(id) => 0 <= id < self.inventory.len(),
            InventoryAction::Use(id) => 0 <= id < self.inventory.len(),
        }
    }

    /// The session after the action, or as it was if the action cannot be
    /// done.
    pub open spec fn after(self, action: InventoryAction) -> GameView {
        if !self.allows(action) {
            self
        } else {
            match action {
                InventoryAction::PickUp(id) => self.pick_item_up(id),
                InventoryAction::Drop(id) => self.drop_item(id),
                InventoryAction::Toggle(id) => self.toggle_equipment(id),
                InventoryAction::Use(id) => self.use_item(id),
            }
        }
    }

    /// The session after the actions, done one after the other.
    pub open spec fn after_all(self, actions: Seq<InventoryAction>) -> GameView
        decreases actions.len(),
    {
        if actions.len() == 0 {
            self
        } else {
            self.after_all(actions.drop_last()).after(actions.last())
        }
    }
}

/// Whatever the player picks up, drops, puts on, takes off or uses, and in
/// whatever order: a session in good order stays so, and at no time does a
/// slot hold two things at once.
pub proof fn lemma_slots_stay_exclusive(game: GameView, actions: Seq<InventoryAction>)
    requires
        game.wf(),
    ensures
        game.after_all(actions).wf(),
        slots_exclusive(game.after_all(actions).inventory),
    decreases actions.len(),
{
    if actions.len() > 0 {
        lemma_slots_stay_exclusive(game, actions.drop_last());
        let before = game.after_all(actions.drop_last());
        if before.allows(actions.last()) {
            match actions.last() {
                InventoryAction::PickUp(id) => lemma_pick_item_up_wf(before, id),
                InventoryAction::Drop(id) => lemma_drop_item_wf(before, id),
                InventoryAction::Toggle(id) => lemma_toggle_equipment_wf(before, id),
                InventoryAction::Use(id) => lemma_use_item_wf(before, id),
            }
        }
    }
}

/// add to the player's inventory and remove from the map
pub fn pick_item_up(object_id: usize, game: &mut Game)
    requires
        object_id < old(game).objects.len(),
    ensures
        final(game)@ == old(game)@.pick_item_up(object_id as int),
{
    if game.inventory.len() >= INVENTORY_CAPACITY {
        let text = framed(
            "Your inventory is full, cannot pick up ",
            game.objects[object_id].name.as_str(),
            ".",
        );
        game.log.add(text, red());
    } else {
        let item = game.objects.swap_remove(object_id);
        let text = framed("You picked up a ", item.name.as_str(), "!");
        game.log.add(text, green());
        let index: usize = game.inventory.len();
        let slot: Option<Slot> = match item.equipment {
            Some(e) => Some(e.slot),
            None => None,
        };
        game.inventory.push(item);

        // automatically equip, if the corresponding equipment slot is unused
        if let Some(slot) = slot {
            if get_equipped_in_slot(slot, game.inventory.as_slice()).is_none() {
                game.inventory[index].equip(&mut game.log);
                assert(game.inventory@ =~= old(game).inventory@.push(item.spec_equip()));
            }
        }
    }
}

/// Drops the item at index `inventory_id` of the inventory at the player's
/// feet, taking it off first if it is equipment.
pub fn drop_item(inventory_id: usize, game: &mut Game)
    requires
        inventory_id < old(game).inventory.len(),
        old(game).objects.len() > 0,
    ensures
        final(game)@ == old(game)@.drop_item(inventory_id as int),
{
    let mut item = game.inventory.remove(inventory_id);
    if item.equipment.is_some() {
        item.unequip(&mut game.log);
    }
    item.set_pos(game.objects[0].x, game.objects[0].y);
    let text = framed("You dropped a ", item.name.as_str(), ".");
    game.log.add(text, yellow());
    game.objects.push(item);
}

/// Puts on or takes off the item at index `inventory_id` of the inventory.
/// What is no equipment cancels.
pub fn toggle_equipment(inventory_id: usize, game: &mut Game) -> (result: UseResult)
    requires
        inventory_id < old(game).inventory.len(),
    ensures
        result == old(game)@.toggle_result(inventory_id as int),
        final(game)@ == old(game)@.toggle_equipment(inventory_id as int),
{
    let equipment = match game.inventory[inventory_id].equipment {
        Some(equipment) => equipment,
        None => return UseResult::Cancelled,
    };
    if equipment.equipped {
        game.inventory[inventory_id].unequip(&mut game.log);
        assert(game.inventory@ =~= old(game).inventory@.update(
            inventory_id as int,
            old(game).inventory[inventory_id as int].spec_unequip(),
        ));
    } else {
        // if the slot is already being used, dequip whatever is there first
        if let Some(current) = get_equipped_in_slot(equipment.slot, game.inventory.as_slice()) {
            game.inventory[current].unequip(&mut game.log);
            assert(game.inventory@ =~= old(game).inventory@.update(
                current as int,
                old(game).inventory[current as int].spec_unequip(),
            ));
        }
        let ghost cleared = game.inventory@;
        game.inventory[inventory_id].equip(&mut game.log);
        assert(game.inventory@ =~= cleared.update(
            inventory_id as int,
            old(game).inventory[inventory_id as int].spec_equip(),
        ));
    }
    UseResult::UsedAndKept
}

/// Raises the gauge of the player that the kind of item stands for.
fn cast(kind: Item, game: &mut Game)
    requires
        old(game).objects.len() > 0,
        old(game).objects[0].stats is Some,
    ensures
        final(game)@ == old(game)@.cast(kind),
{
    let stats: Stats = game.objects[0].stats.unwrap();
    let max: i32 = stats.base_max_all_stats;
    let raised_stats: Stats = match kind {
        Item::Heal => Stats { bladder: raised(stats.bladder, EFFECT_AMOUNT, max), ..stats },
        Item::Lightning => Stats { energy: raised(stats.energy, EFFECT_AMOUNT, max), ..stats },
        Item::Confuse => Stats { social: raised(stats.social, EFFECT_AMOUNT, max), ..stats },
        Item::Fireball => Stats { comfort: raised(stats.comfort, EFFECT_AMOUNT, max), ..stats },
        _ => stats,
    };
    game.objects[0].stats = Some(raised_stats);
    assert(game.objects@ =~= old(game)@.cast(kind).objects);
}

/// A healing potion: relieves the bladder.
pub fn cast_heal(_inventory_id: usize, game: &mut Game) -> (result: UseResult)
    requires
        old(game).objects.len() > 0,
        old(game).objects[0].stats is Some,
    ensures
        result == UseResult::UsedUp,
        final(game)@ == old(game)@.cast(Item::Heal),
{
    cast(Item::Heal, game);
    UseResult::UsedUp
}

/// A scroll of lightning bolt: restores energy.
pub fn cast_lightning(_inventory_id: usize, game: &mut Game) -> (result: UseResult)
    requires
        old(game).objects.len() > 0,
        old(game).objects[0].stats is Some,
    ensures
        result == UseResult::UsedUp,
        final(game)@ == old(game)@.cast(Item::Lightning),
{
    cast(Item::Lightning, game);
    UseResult::UsedUp
}

/// A scroll of confusion: company for a while.
pub fn cast_confuse(_inventory_id: usize, game: &mut Game) -> (result: UseResult)
    requires
        old(game).objects.len() > 0,
        old(game).objects[0].stats is Some,
    ensures
        result == UseResult::UsedUp,
        final(game)@ == old(game)@.cast(Item::Confuse),
{
    cast(Item::Confuse, game);
    UseResult::UsedUp
}

/// A scroll of fireball: warmth and comfort.
pub fn cast_fireball(_inventory_id: usize, game: &mut Game) -> (result: UseResult)
    requires
        old(game).objects.len() > 0,
        old(game).objects[0].stats is Some,
    ensures
        result == UseResult::UsedUp,
        final(game)@ == old(game)@.cast(Item::Fireball),
{
    cast(Item::Fireball, game);
    UseResult::UsedUp
}

/// Uses the item at index `inventory_id` of the inventory.
pub fn use_item(inventory_id: usize, game: &mut Game)
    requires
        inventory_id < old(game).inventory.len(),
        old(game).objects.len() > 0,
        old(game).objects[0].stats is Some,
    ensures
        final(game)@ == old(game)@.use_item(inventory_id as int),
{
    // just call the "use_function" if it is defined
    if let Some(item) = game.inventory[inventory_id].item {
        let result: UseResult = match item {
            Item::Heal => cast_heal(inventory_id, game),
            Item::Lightning => cast_lightning(inventory_id, game),
            Item::Confuse => cast_confuse(inventory_id, game),
            Item::Fireball => cast_fireball(inventory_id, game),
            Item::Sword => toggle_equipment(inventory_id, game),
            Item::Shield => toggle_equipment(inventory_id, game),
        };
        match result {
            UseResult::UsedUp => {
                // destroy after use, unless it was cancelled for some reason
                game.inventory.remove(inventory_id);
            },
            UseResult::UsedAndKept => {},  // do nothing
            UseResult::Cancelled => {
                game.log.add(String::from_str("Cancelled"), white());
            },
        }
    } else {
        let text = framed("The ", game.inventory[inventory_id].name.as_str(), " cannot be used.");
        game.log.add(text, white());
    }
}

} // verus!
