use lardum::colors::{green, light_green, light_yellow, red, white, yellow};
use lardum::game::{Game, INVENTORY_CAPACITY};
use lardum::inventory::{
    cast_confuse, cast_fireball, cast_heal, cast_lightning, drop_item, get_equipped_in_slot,
    pick_item_up, toggle_equipment, use_item,
};
use lardum::object::{DeathCallback, Equipment, Item, Object, Slot, Stats, UseResult};
use lardum::tables::spawn_item;
use lardum::tile::walled_grid;

fn stats(value: i32) -> Stats {
    Stats {
        base_max_all_stats: 100,
        hunger: value,
        comfort: value,
        hygiene: value,
        bladder: value,
        energy: value,
        fun: value,
        social: value,
        room: value,
        on_death: DeathCallback::Player,
    }
}

fn player(x: i32, y: i32, value: i32) -> Object {
    let mut player = Object::new(x, y, '@', "player", white(), true);
    player.alive = true;
    player.stats = Some(stats(value));
    player
}

fn game(objects: Vec<Object>, inventory: Vec<Object>) -> Game {
    Game { map: walled_grid(), log: Vec::new(), inventory, dungeon_level: 1, objects }
}

fn worn(kind: Item, slot: Slot, equipped: bool, name: &str) -> Object {
    let mut object = spawn_item(kind, 0, 0);
    object.name = String::from(name);
    object.equipment = Some(Equipment {
        slot,
        equipped,
        max_hp_bonus: 0,
        defense_bonus: 0,
        power_bonus: 1,
    });
    object
}

fn equipped_slots(inventory: &[Object]) -> Vec<Slot> {
    inventory
        .iter()
        .filter_map(|item| item.equipment)
        .filter(|equipment| equipment.equipped)
        .map(|equipment| equipment.slot)
        .collect()
}

fn assert_slots_exclusive(inventory: &[Object]) {
    let slots = equipped_slots(inventory);
    for (i, slot) in slots.iter().enumerate() {
        assert!(!slots[..i].contains(slot));
    }
}

#[test]
fn get_equipped_in_slot_finds_the_first() {
    let inventory = vec![
        spawn_item(Item::Heal, 0, 0),
        worn(Item::Sword, Slot::RightHand, false, "sword"),
        worn(Item::Sword, Slot::RightHand, true, "sabre"),
        worn(Item::Shield, Slot::LeftHand, true, "shield"),
        worn(Item::Sword, Slot::RightHand, true, "rapier"),
    ];
    assert_eq!(get_equipped_in_slot(Slot::RightHand, &inventory), Some(2));
    assert_eq!(get_equipped_in_slot(Slot::LeftHand, &inventory), Some(3));
    assert_eq!(get_equipped_in_slot(Slot::Head, &inventory), None);
    assert_eq!(get_equipped_in_slot(Slot::Head, &[]), None);
}

#[test]
fn pick_up_moves_the_item_into_the_inventory() {
    let potion = spawn_item(Item::Heal, 3, 3);
    let scroll = spawn_item(Item::Confuse, 4, 4);
    let stairs = Object::new(9, 9, '<', "stairs", white(), false);
    let mut game = game(
        vec![player(3, 3, 100), potion, scroll, stairs],
        Vec::new(),
    );
    pick_item_up(1, &mut game);
    // the last object has taken the place of the one that left
    assert_eq!(
        game.objects,
        vec![
            player(3, 3, 100),
            Object::new(9, 9, '<', "stairs", white(), false),
            spawn_item(Item::Confuse, 4, 4),
        ]
    );
    assert_eq!(game.inventory, vec![spawn_item(Item::Heal, 3, 3)]);
    assert_eq!(game.log, vec![(String::from("You picked up a healing potion!"), green())]);
    assert_eq!(game.dungeon_level, 1);
    assert_eq!(game.map, walled_grid());
}

#[test]
fn pick_up_puts_on_equipment_whose_slot_is_free() {
    let mut game = game(
        vec![player(3, 3, 100), spawn_item(Item::Sword, 3, 3)],
        vec![worn(Item::Shield, Slot::LeftHand, true, "shield")],
    );
    pick_item_up(1, &mut game);
    assert_eq!(game.objects, vec![player(3, 3, 100)]);
    assert_eq!(game.inventory.len(), 2);
    let mut sword = spawn_item(Item::Sword, 3, 3);
    sword.equipment.as_mut().unwrap().equipped = true;
    assert_eq!(game.inventory[1], sword);
    assert_eq!(
        game.log,
        vec![
            (String::from("You picked up a sword!"), green()),
            (String::from("Equipped sword on right hand."), light_green()),
        ]
    );
    assert_slots_exclusive(&game.inventory);
}

#[test]
fn pick_up_leaves_equipment_off_when_the_slot_is_taken() {
    let mut game = game(
        vec![player(3, 3, 100), spawn_item(Item::Sword, 3, 3)],
        vec![worn(Item::Sword, Slot::RightHand, true, "sabre")],
    );
    pick_item_up(1, &mut game);
    assert_eq!(game.inventory[1], spawn_item(Item::Sword, 3, 3));
    assert_eq!(game.log, vec![(String::from("You picked up a sword!"), green())]);
    assert_slots_exclusive(&game.inventory);
}

#[test]
fn pick_up_with_a_full_inventory_only_logs() {
    let inventory: Vec<Object> =
        (0..INVENTORY_CAPACITY).map(|i| spawn_item(Item::Heal, i as i32, 0)).collect();
    let objects = vec![player(3, 3, 100), spawn_item(Item::Sword, 3, 3)];
    let mut game = game(objects, inventory);
    game.log.push((String::from("earlier"), white()));
    pick_item_up(1, &mut game);
    assert_eq!(game.inventory.len(), 26);
    for (i, item) in game.inventory.iter().enumerate() {
        assert_eq!(*item, spawn_item(Item::Heal, i as i32, 0));
    }
    assert_eq!(game.objects, vec![player(3, 3, 100), spawn_item(Item::Sword, 3, 3)]);
    assert_eq!(
        game.log,
        vec![
            (String::from("earlier"), white()),
            (String::from("Your inventory is full, cannot pick up sword."), red()),
        ]
    );
}

#[test]
fn pick_up_fills_the_last_place() {
    let inventory: Vec<Object> =
        (0..INVENTORY_CAPACITY - 1).map(|i| spawn_item(Item::Heal, i as i32, 0)).collect();
    let mut game = game(vec![player(3, 3, 100), spawn_item(Item::Confuse, 3, 3)], inventory);
    pick_item_up(1, &mut game);
    assert_eq!(game.inventory.len(), 26);
    assert_eq!(game.inventory[25], spawn_item(Item::Confuse, 3, 3));
    assert_eq!(game.objects.len(), 1);
}

#[test]
fn drop_puts_the_item_at_the_players_feet() {
    let mut game = game(
        vec![player(7, 8, 100)],
        vec![spawn_item(Item::Heal, 0, 0), spawn_item(Item::Confuse, 1, 1)],
    );
    drop_item(0, &mut game);
    assert_eq!(game.inventory, vec![spawn_item(Item::Confuse, 1, 1)]);
    assert_eq!(game.objects, vec![player(7, 8, 100), spawn_item(Item::Heal, 7, 8)]);
    assert_eq!(game.log, vec![(String::from("You dropped a healing potion."), yellow())]);
}

#[test]
fn drop_takes_equipment_off_first() {
    let mut game = game(
        vec![player(7, 8, 100)],
        vec![worn(Item::Sword, Slot::LeftHand, true, "dagger")],
    );
    drop_item(0, &mut game);
    assert!(game.inventory.is_empty());
    let mut dagger = worn(Item::Sword, Slot::LeftHand, false, "dagger");
    dagger.set_pos(7, 8);
    assert_eq!(game.objects[1], dagger);
    assert_eq!(
        game.log,
        vec![
            (String::from("unequipped dagger from left hand."), light_yellow()),
            (String::from("You dropped a dagger."), yellow()),
        ]
    );
}

#[test]
fn toggle_takes_off_what_is_worn() {
    let mut game = game(
        vec![player(0, 0, 100)],
        vec![worn(Item::Sword, Slot::LeftHand, true, "dagger")],
    );
    assert_eq!(toggle_equipment(0, &mut game), UseResult::UsedAndKept);
    assert_eq!(game.inventory, vec![worn(Item::Sword, Slot::LeftHand, false, "dagger")]);
    assert_eq!(
        game.log,
        vec![(String::from("unequipped dagger from left hand."), light_yellow())]
    );
}

#[test]
fn toggle_swaps_what_holds_the_slot() {
    let mut game = game(
        vec![player(0, 0, 100)],
        vec![
            worn(Item::Sword, Slot::RightHand, true, "sabre"),
            spawn_item(Item::Heal, 0, 0),
            worn(Item::Sword, Slot::RightHand, false, "sword"),
            worn(Item::Shield, Slot::LeftHand, true, "shield"),
        ],
    );
    assert_eq!(toggle_equipment(2, &mut game), UseResult::UsedAndKept);
    assert_eq!(
        game.inventory,
        vec![
            worn(Item::Sword, Slot::RightHand, false, "sabre"),
            spawn_item(Item::Heal, 0, 0),
            worn(Item::Sword, Slot::RightHand, true, "sword"),
            worn(Item::Shield, Slot::LeftHand, true, "shield"),
        ]
    );
    assert_eq!(
        game.log,
        vec![
            (String::from("unequipped sabre from right hand."), light_yellow()),
            (String::from("Equipped sword on right hand."), light_green()),
        ]
    );
    assert_slots_exclusive(&game.inventory);
}

#[test]
fn toggle_cancels_on_what_is_no_equipment() {
    let mut game = game(vec![player(0, 0, 100)], vec![spawn_item(Item::Heal, 0, 0)]);
    assert_eq!(toggle_equipment(0, &mut game), UseResult::Cancelled);
    assert_eq!(game.inventory, vec![spawn_item(Item::Heal, 0, 0)]);
    assert!(game.log.is_empty());
}

#[test]
fn each_scroll_and_potion_raises_its_gauge() {
    let mut game = game(vec![player(0, 0, 50)], Vec::new());
    assert_eq!(cast_heal(0, &mut game), UseResult::UsedUp);
    assert_eq!(game.objects[0].stats.unwrap(), Stats { bladder: 70, ..stats(50) });
    assert_eq!(cast_lightning(0, &mut game), UseResult::UsedUp);
    assert_eq!(game.objects[0].stats.unwrap(), Stats { bladder: 70, energy: 70, ..stats(50) });
    assert_eq!(cast_confuse(0, &mut game), UseResult::UsedUp);
    assert_eq!(
        game.objects[0].stats.unwrap(),
        Stats { bladder: 70, energy: 70, social: 70, ..stats(50) }
    );
    assert_eq!(cast_fireball(0, &mut game), UseResult::UsedUp);
    assert_eq!(
        game.objects[0].stats.unwrap(),
        Stats { bladder: 70, energy: 70, social: 70, comfort: 70, ..stats(50) }
    );
    assert!(game.log.is_empty());
}

#[test]
fn gauges_stop_at_their_maximum() {
    let mut game = game(vec![player(0, 0, 90)], Vec::new());
    cast_heal(0, &mut game);
    assert_eq!(game.objects[0].stats.unwrap().bladder, 100);
    cast_heal(0, &mut game);
    assert_eq!(game.objects[0].stats.unwrap().bladder, 100);
    assert!(game.objects[0].stats.unwrap().is_valid());
}

#[test]
fn using_a_potion_uses_it_up() {
    let mut game = game(
        vec![player(0, 0, 50)],
        vec![
            spawn_item(Item::Confuse, 0, 0),
            spawn_item(Item::Heal, 1, 1),
            spawn_item(Item::Fireball, 2, 2),
        ],
    );
    use_item(1, &mut game);
    assert_eq!(
        game.inventory,
        vec![spawn_item(Item::Confuse, 0, 0), spawn_item(Item::Fireball, 2, 2)]
    );
    assert_eq!(game.objects[0].stats.unwrap(), Stats { bladder: 70, ..stats(50) });
    assert!(game.log.is_empty());
    use_item(0, &mut game);
    use_item(0, &mut game);
    assert!(game.inventory.is_empty());
    assert_eq!(
        game.objects[0].stats.unwrap(),
        Stats { bladder: 70, social: 70, comfort: 70, ..stats(50) }
    );
}

#[test]
fn using_a_scroll_of_lightning_restores_energy() {
    let mut game = game(vec![player(0, 0, 10)], vec![spawn_item(Item::Lightning, 0, 0)]);
    use_item(0, &mut game);
    assert!(game.inventory.is_empty());
    assert_eq!(game.objects[0].stats.unwrap(), Stats { energy: 30, ..stats(10) });
}

#[test]
fn using_equipment_keeps_it() {
    let mut game = game(
        vec![player(0, 0, 50)],
        vec![spawn_item(Item::Sword, 0, 0), spawn_item(Item::Shield, 0, 0)],
    );
    use_item(0, &mut game);
    use_item(1, &mut game);
    assert_eq!(game.inventory.len(), 2);
    let mut sword = spawn_item(Item::Sword, 0, 0);
    sword.equipment.as_mut().unwrap().equipped = true;
    let mut shield = spawn_item(Item::Shield, 0, 0);
    shield.equipment.as_mut().unwrap().equipped = true;
    assert_eq!(game.inventory, vec![sword, shield]);
    assert_eq!(game.objects[0].stats.unwrap(), stats(50));
    assert_eq!(
        game.log,
        vec![
            (String::from("Equipped sword on right hand."), light_green()),
            (String::from("Equipped shield on left hand."), light_green()),
        ]
    );
    use_item(0, &mut game);
    assert_eq!(game.inventory[0], spawn_item(Item::Sword, 0, 0));
    assert_eq!(game.log[2], (String::from("unequipped sword from right hand."), light_yellow()));
}

#[test]
fn using_a_sword_that_is_no_equipment_is_cancelled() {
    let mut blunt = spawn_item(Item::Sword, 0, 0);
    blunt.equipment = None;
    let mut expected = spawn_item(Item::Sword, 0, 0);
    expected.equipment = None;
    let mut game = game(vec![player(0, 0, 50)], vec![blunt]);
    use_item(0, &mut game);
    assert_eq!(game.inventory, vec![expected]);
    assert_eq!(game.log, vec![(String::from("Cancelled"), white())]);
}

#[test]
fn using_what_is_no_item_only_logs() {
    let rock = Object::new(0, 0, '*', "rock", white(), false);
    let mut game = game(vec![player(0, 0, 50)], vec![rock]);
    use_item(0, &mut game);
    assert_eq!(game.inventory, vec![Object::new(0, 0, '*', "rock", white(), false)]);
    assert_eq!(game.log, vec![(String::from("The rock cannot be used."), white())]);
    assert_eq!(game.objects, vec![player(0, 0, 50)]);
}

#[test]
fn no_slot_ever_holds_two_things() {
    let mut game = game(
        vec![
            player(5, 5, 50),
            spawn_item(Item::Sword, 5, 5),
            spawn_item(Item::Shield, 5, 5),
            spawn_item(Item::Sword, 5, 5),
            spawn_item(Item::Heal, 5, 5),
            spawn_item(Item::Shield, 5, 5),
        ],
        vec![worn(Item::Sword, Slot::LeftHand, true, "dagger")],
    );
    assert!(game.is_valid());
    while game.objects.len() > 1 {
        let last = game.objects.len() - 1;
        pick_item_up(last, &mut game);
        assert_slots_exclusive(&game.inventory);
        assert!(game.is_valid());
    }
    assert_eq!(game.inventory.len(), 6);
    for round in 0..3 {
        for id in 0..game.inventory.len() {
            if game.inventory[id].equipment.is_some() {
                toggle_equipment(id, &mut game);
            }
            assert_slots_exclusive(&game.inventory);
            assert!(game.is_valid());
        }
        drop_item(round, &mut game);
        assert_slots_exclusive(&game.inventory);
        let last = game.objects.len() - 1;
        pick_item_up(last, &mut game);
        assert_slots_exclusive(&game.inventory);
        use_item(0, &mut game);
        assert_slots_exclusive(&game.inventory);
        assert!(game.is_valid());
    }
    assert!(!equipped_slots(&game.inventory).is_empty());
}
