use lardum::colors::{darker_orange, light_yellow, sky, violet};
use lardum::object::{Equipment, Item, Slot};
use lardum::tables::{from_dungeon_level, item_chances, max_items, spawn_item, Transition};

fn table(steps: &[(u32, u32)]) -> Vec<Transition> {
    steps.iter().map(|&(level, value)| Transition { level, value }).collect()
}

#[test]
fn from_dungeon_level_steps() {
    let steps = table(&[(1, 1), (4, 2)]);
    assert_eq!(from_dungeon_level(&steps, 0), 0);
    assert_eq!(from_dungeon_level(&steps, 1), 1);
    assert_eq!(from_dungeon_level(&steps, 3), 1);
    assert_eq!(from_dungeon_level(&steps, 4), 2);
    assert_eq!(from_dungeon_level(&steps, 100), 2);
}

#[test]
fn from_dungeon_level_of_an_empty_table_is_zero() {
    assert_eq!(from_dungeon_level(&[], 0), 0);
    assert_eq!(from_dungeon_level(&[], u32::MAX), 0);
}

#[test]
fn from_dungeon_level_takes_the_last_step_that_matches() {
    // the steps need not be in order: the last one at or below the level wins
    let steps = table(&[(5, 50), (2, 20), (9, 90)]);
    assert_eq!(from_dungeon_level(&steps, 1), 0);
    assert_eq!(from_dungeon_level(&steps, 2), 20);
    assert_eq!(from_dungeon_level(&steps, 5), 20);
    assert_eq!(from_dungeon_level(&steps, 9), 90);
    let twice = table(&[(3, 1), (3, 2)]);
    assert_eq!(from_dungeon_level(&twice, 3), 2);
}

#[test]
fn from_dungeon_level_never_falls_in_a_rising_table() {
    let steps = table(&[(1, 1), (4, 2), (4, 3), (7, 10), (20, 11)]);
    let mut previous = 0;
    for level in 0..30 {
        let value = from_dungeon_level(&steps, level);
        assert!(previous <= value);
        previous = value;
    }
    assert_eq!(previous, 11);
}

#[test]
fn max_items_by_level() {
    assert_eq!(max_items(0), 0);
    assert_eq!(max_items(1), 1);
    assert_eq!(max_items(3), 1);
    assert_eq!(max_items(4), 2);
    assert_eq!(max_items(u32::MAX), 2);
}

#[test]
fn item_chances_at_the_first_level() {
    assert_eq!(
        item_chances(1),
        vec![
            (Item::Heal, 35),
            (Item::Lightning, 0),
            (Item::Fireball, 0),
            (Item::Confuse, 0),
            (Item::Sword, 0),
            (Item::Shield, 0),
        ]
    );
}

#[test]
fn item_chances_rise_with_the_level() {
    assert_eq!(item_chances(2)[3], (Item::Confuse, 10));
    assert_eq!(item_chances(3)[1], (Item::Lightning, 0));
    assert_eq!(item_chances(4)[1], (Item::Lightning, 25));
    assert_eq!(item_chances(4)[4], (Item::Sword, 5));
    assert_eq!(item_chances(5)[2], (Item::Fireball, 0));
    assert_eq!(item_chances(6)[2], (Item::Fireball, 25));
    assert_eq!(item_chances(7)[5], (Item::Shield, 0));
    assert_eq!(
        item_chances(8),
        vec![
            (Item::Heal, 35),
            (Item::Lightning, 25),
            (Item::Fireball, 25),
            (Item::Confuse, 10),
            (Item::Sword, 5),
            (Item::Shield, 15),
        ]
    );
}

#[test]
fn spawn_item_makes_potions_and_scrolls() {
    let potion = spawn_item(Item::Heal, 3, 4);
    assert_eq!((potion.x, potion.y, potion.char), (3, 4, '!'));
    assert_eq!(potion.name, "healing potion");
    assert_eq!(potion.color, violet());
    assert_eq!(potion.item, Some(Item::Heal));
    assert_eq!(potion.equipment, None);
    assert!(potion.always_visible);
    assert!(!potion.blocks);
    assert!(!potion.alive);
    assert_eq!(potion.stats, None);
    assert_eq!(potion.ai, None);

    let lightning = spawn_item(Item::Lightning, 1, 1);
    assert_eq!(lightning.name, "scroll of lightning bolt");
    assert_eq!((lightning.char, lightning.color), ('#', light_yellow()));
    assert_eq!(lightning.item, Some(Item::Lightning));

    let fireball = spawn_item(Item::Fireball, 1, 1);
    assert_eq!(fireball.name, "scroll of fireball");
    assert_eq!((fireball.char, fireball.color), ('#', light_yellow()));
    assert_eq!(fireball.item, Some(Item::Fireball));

    let confuse = spawn_item(Item::Confuse, 1, 1);
    assert_eq!(confuse.name, "scroll of confusion");
    assert_eq!((confuse.char, confuse.color), ('#', light_yellow()));
    assert_eq!(confuse.item, Some(Item::Confuse));
    assert!(confuse.always_visible);
}

#[test]
fn spawn_item_makes_equipment_that_is_not_worn() {
    let sword = spawn_item(Item::Sword, 7, 8);
    assert_eq!((sword.x, sword.y, sword.char), (7, 8, '/'));
    assert_eq!(sword.name, "sword");
    assert_eq!(sword.color, sky());
    assert_eq!(sword.item, Some(Item::Sword));
    assert_eq!(
        sword.equipment,
        Some(Equipment {
            slot: Slot::RightHand,
            equipped: false,
            max_hp_bonus: 0,
            defense_bonus: 0,
            power_bonus: 3,
        })
    );
    assert!(sword.always_visible);

    let shield = spawn_item(Item::Shield, 7, 8);
    assert_eq!(shield.char, '[');
    assert_eq!(shield.name, "shield");
    assert_eq!(shield.color, darker_orange());
    assert_eq!(shield.item, Some(Item::Shield));
    assert_eq!(
        shield.equipment,
        Some(Equipment {
            slot: Slot::LeftHand,
            equipped: false,
            max_hp_bonus: 0,
            defense_bonus: 1,
            power_bonus: 0,
        })
    );
}
