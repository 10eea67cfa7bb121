use lardum::colors::{light_green, light_yellow, red, white, Color};
use lardum::object::{
    raised, Ai, DeathCallback, Equipment, Item, Object, Slot, Stats,
};

fn stats(max: i32) -> Stats {
    Stats {
        base_max_all_stats: max,
        hunger: max,
        comfort: max,
        hygiene: max,
        bladder: max,
        energy: max,
        fun: max,
        social: max,
        room: max,
        on_death: DeathCallback::NPC,
    }
}

fn sword(equipped: bool) -> Object {
    let mut object = Object::new(3, 4, '/', "sword", Color { r: 0, g: 191, b: 255 }, false);
    object.item = Some(Item::Sword);
    object.equipment = Some(Equipment {
        slot: Slot::RightHand,
        equipped,
        max_hp_bonus: 0,
        defense_bonus: 0,
        power_bonus: 3,
    });
    object
}

#[test]
fn object_new_has_no_capabilities() {
    let object = Object::new(1, 2, '@', "player", white(), true);
    assert_eq!(object.x, 1);
    assert_eq!(object.y, 2);
    assert_eq!(object.char, '@');
    assert_eq!(object.color, Color { r: 255, g: 255, b: 255 });
    assert_eq!(object.name, "player");
    assert!(object.blocks);
    assert!(!object.alive);
    assert_eq!(object.stats, None);
    assert_eq!(object.ai, None);
    assert_eq!(object.item, None);
    assert_eq!(object.equipment, None);
    assert!(!object.always_visible);
}

#[test]
fn object_pos_and_set_pos() {
    let mut object = Object::new(1, 2, 'x', "thing", white(), false);
    assert_eq!(object.pos(), (1, 2));
    object.set_pos(-5, 70);
    assert_eq!(object.pos(), (-5, 70));
    assert_eq!(object.name, "thing");
}

#[test]
fn distance_squared_is_exact() {
    let object = Object::new(1, 2, 'x', "thing", white(), false);
    assert_eq!(object.distance_squared(4, 6), 25);
    assert_eq!(object.distance_squared(1, 2), 0);
    let other = Object::new(-2, -2, 'y', "other", white(), false);
    assert_eq!(object.distance_squared_to(&other), 25);
    assert_eq!(((object.distance_squared(4, 6)) as f32).sqrt(), 5.0);
}

#[test]
fn distance_squared_holds_the_widest_span() {
    let object = Object::new(i32::MIN, i32::MIN, 'x', "thing", white(), false);
    let span: u128 = (1u128 << 32) - 1;
    assert_eq!(object.distance_squared(i32::MAX, i32::MAX), 2 * span * span);
}

#[test]
fn equip_puts_on_and_logs() {
    let mut object = sword(false);
    let mut log: Vec<(String, Color)> = Vec::new();
    object.equip(&mut log);
    assert!(object.equipment.unwrap().equipped);
    assert_eq!(object.equipment.unwrap().slot, Slot::RightHand);
    assert_eq!(object.equipment.unwrap().power_bonus, 3);
    assert_eq!(log, vec![(String::from("Equipped sword on right hand."), light_green())]);
}

#[test]
fn equip_twice_is_silent() {
    let mut object = sword(true);
    let mut log: Vec<(String, Color)> = Vec::new();
    object.equip(&mut log);
    assert!(object.equipment.unwrap().equipped);
    assert!(log.is_empty());
}

#[test]
fn unequip_takes_off_and_logs() {
    let mut object = sword(true);
    let mut log: Vec<(String, Color)> = Vec::new();
    object.unequip(&mut log);
    assert!(!object.equipment.unwrap().equipped);
    assert_eq!(log, vec![(String::from("unequipped sword from right hand."), light_yellow())]);
}

#[test]
fn unequip_what_is_not_worn_is_silent() {
    let mut object = sword(false);
    let mut log: Vec<(String, Color)> = Vec::new();
    object.unequip(&mut log);
    assert!(!object.equipment.unwrap().equipped);
    assert!(log.is_empty());
}

#[test]
fn equip_refuses_what_is_no_item() {
    let mut object = Object::new(1, 2, 'o', "orc", Color { r: 1, g: 2, b: 3 }, true);
    let mut log: Vec<(String, Color)> = Vec::new();
    object.equip(&mut log);
    assert_eq!(object, Object::new(1, 2, 'o', "orc", Color { r: 1, g: 2, b: 3 }, true));
    assert_eq!(log.len(), 1);
    assert_eq!(log[0].1, red());
    assert_eq!(
        log[0].0,
        "Can't equip Object { x: 1, y: 2, char: 'o', color: Color { r: 1, g: 2, b: 3 }, \
         name: \"orc\", blocks: true, alive: false, stats: None, ai: None, item: None, \
         equipment: None, always_visible: false } because it's not an Item."
    );
}

#[test]
fn equip_refuses_what_is_no_equipment() {
    let mut object = Object::new(0, 0, '!', "healing potion", white(), false);
    object.item = Some(Item::Heal);
    let mut log: Vec<(String, Color)> = Vec::new();
    object.equip(&mut log);
    assert_eq!(object.equipment, None);
    assert_eq!(log.len(), 1);
    assert_eq!(log[0].1, red());
    assert!(log[0].0.starts_with("Can't equip Object { x: 0, y: 0, char: '!'"));
    assert!(log[0].0.ends_with("because it's not an Equipment."));
    assert!(log[0].0.contains("item: Some(Heal)"));
}

#[test]
fn unequip_refuses_what_is_no_item_or_no_equipment() {
    let mut thing = Object::new(1, 2, 'o', "orc", white(), true);
    let mut log: Vec<(String, Color)> = Vec::new();
    thing.unequip(&mut log);
    assert_eq!(log.len(), 1);
    assert!(log[0].0.starts_with("Can't unequip Object { x: 1, y: 2"));
    assert!(log[0].0.ends_with("because it's not an Item."));
    assert_eq!(log[0].1, red());

    let mut potion = Object::new(0, 0, '!', "healing potion", white(), false);
    potion.item = Some(Item::Heal);
    potion.unequip(&mut log);
    assert_eq!(log.len(), 2);
    assert!(log[1].0.starts_with("Can't unequip Object {"));
    assert!(log[1].0.ends_with("because it's not an Equipment."));
    assert_eq!(log[1].1, red());
}

#[test]
fn max_gauges_come_from_the_stats() {
    let mut object = Object::new(0, 0, '@', "player", white(), true);
    assert_eq!(object.max_hunger(), 0);
    assert_eq!(object.max_room(), 0);
    object.stats = Some(stats(100));
    assert_eq!(object.max_hunger(), 100);
    assert_eq!(object.max_comfort(), 100);
    assert_eq!(object.max_hygiene(), 100);
    assert_eq!(object.max_bladder(), 100);
    assert_eq!(object.max_energy(), 100);
    assert_eq!(object.max_fun(), 100);
    assert_eq!(object.max_social(), 100);
    assert_eq!(object.max_room(), 100);
}

#[test]
fn slot_names() {
    assert_eq!(Slot::LeftHand.to_string(), "left hand");
    assert_eq!(Slot::RightHand.to_string(), "right hand");
    assert_eq!(Slot::Head.to_string(), "head");
    assert_eq!(Slot::Head.as_str(), "head");
}

#[test]
fn raised_stops_at_the_maximum() {
    assert_eq!(raised(50, 20, 100), 70);
    assert_eq!(raised(80, 20, 100), 100);
    assert_eq!(raised(90, 20, 100), 100);
    assert_eq!(raised(100, 20, 100), 100);
    assert_eq!(raised(0, 0, 100), 0);
    assert_eq!(raised(i32::MAX, 20, i32::MAX), i32::MAX);
    assert_eq!(raised(-30, 20, 100), -10);
}

#[test]
fn stats_validity() {
    assert!(stats(100).is_valid());
    assert!(stats(0).is_valid());
    let mut broken = stats(100);
    broken.energy = 101;
    assert!(!broken.is_valid());
    broken.energy = -1;
    assert!(!broken.is_valid());
}

#[test]
fn ai_clone_is_equal() {
    let ai = Ai::Confused {
        previous_ai: Box::new(Ai::Confused { previous_ai: Box::new(Ai::Basic), num_turns: 2 }),
        num_turns: 5,
    };
    assert_eq!(ai.clone(), ai);
    assert_eq!(Ai::Basic.clone(), Ai::Basic);
}
