use lardum::colors::{dark_red, orange, red, sky, white};
use lardum::game::{
    grid_is_valid, inventory_is_valid, new_game, next_level, npc_death, objects_are_valid,
    player_death, Game,
};
use lardum::object::{Ai, DeathCallback, Equipment, Item, Object, Slot, Stats};
use lardum::tables::{max_items, spawn_item};
use lardum::tile::{walled_grid, Tile, TileGrid, MAP_HEIGHT, MAP_WIDTH};

fn full_stats() -> Stats {
    Stats {
        base_max_all_stats: 100,
        hunger: 100,
        comfort: 100,
        hygiene: 100,
        bladder: 100,
        energy: 100,
        fun: 100,
        social: 100,
        room: 100,
        on_death: DeathCallback::Player,
    }
}

fn dagger() -> Object {
    let mut dagger = Object::new(0, 0, '-', "dagger", sky(), false);
    dagger.item = Some(Item::Sword);
    dagger.equipment = Some(Equipment {
        equipped: true,
        slot: Slot::LeftHand,
        max_hp_bonus: 0,
        defense_bonus: 0,
        power_bonus: 2,
    });
    dagger
}

fn walkable(map: &TileGrid, from: (i32, i32), to: (i32, i32)) -> bool {
    let mut seen = vec![vec![false; MAP_HEIGHT as usize]; MAP_WIDTH as usize];
    let mut stack = vec![from];
    while let Some((x, y)) = stack.pop() {
        if x < 0 || y < 0 || x >= MAP_WIDTH || y >= MAP_HEIGHT {
            continue;
        }
        if seen[x as usize][y as usize] || map[x as usize][y as usize].blocked {
            continue;
        }
        seen[x as usize][y as usize] = true;
        if (x, y) == to {
            return true;
        }
        stack.extend([(x + 1, y), (x - 1, y), (x, y + 1), (x, y - 1)]);
    }
    false
}

#[test]
fn new_game_starts_at_level_one_with_a_dagger() {
    let game = new_game();
    assert_eq!(game.dungeon_level, 1);
    assert_eq!(game.inventory, vec![dagger()]);
    assert_eq!(game.log, vec![(String::from("Welcome to your new home!"), red())]);
    assert!(game.is_valid());
}

#[test]
fn new_game_has_one_actor() {
    let game = new_game();
    let player = &game.objects[0];
    assert_eq!(player.name, "player");
    assert_eq!(player.char, '@');
    assert_eq!(player.color, white());
    assert!(player.blocks);
    assert!(player.alive);
    assert_eq!(player.stats, Some(full_stats()));
    assert_eq!(player.item, None);
    assert_eq!(player.equipment, None);
    assert_eq!(player.ai, None);
    assert!(!game.map[player.x as usize][player.y as usize].blocked);
    assert_eq!(game.objects.iter().filter(|object| object.stats.is_some()).count(), 1);
    assert_eq!(game.objects.iter().filter(|object| object.alive).count(), 1);
}

#[test]
fn new_game_places_stairs_that_can_be_reached() {
    let game = new_game();
    let stairs = game.objects.last().unwrap();
    assert_eq!(stairs.name, "stairs");
    assert_eq!(stairs.char, '<');
    assert!(stairs.always_visible);
    assert!(!stairs.blocks);
    assert!(walkable(&game.map, game.objects[0].pos(), stairs.pos()));
    assert_eq!(game.objects.iter().filter(|object| object.name == "stairs").count(), 1);
}

#[test]
fn new_game_holds_potions_only() {
    let game = new_game();
    for item in &game.objects[1..game.objects.len() - 1] {
        assert_eq!(*item, spawn_item(Item::Heal, item.x, item.y));
    }
}

#[test]
fn next_level_goes_down_by_one() {
    let mut game = new_game();
    game.objects[0].stats.as_mut().unwrap().hunger = 40;
    game.inventory.push(spawn_item(Item::Confuse, 0, 0));
    let inventory_before = vec![dagger(), spawn_item(Item::Confuse, 0, 0)];
    for expected in 2..10u32 {
        next_level(&mut game);
        assert_eq!(game.dungeon_level, expected);
        assert_eq!(game.inventory, inventory_before);
        assert_eq!(game.objects[0].stats, Some(Stats { hunger: 40, ..full_stats() }));
        assert_eq!(game.objects[0].name, "player");
        assert!(game.objects[0].alive);
        assert_eq!(game.log.len(), expected as usize);
        assert_eq!(
            game.log.last().unwrap(),
            &(
                String::from(
                    "After a rare moment of peace, you descend deeper into the heart of the \
                     dungeon..."
                ),
                red()
            )
        );
        assert!(game.is_valid());
        let stairs = game.objects.last().unwrap();
        assert_eq!(stairs.name, "stairs");
        assert!(walkable(&game.map, game.objects[0].pos(), stairs.pos()));
        for x in 0..MAP_WIDTH as usize {
            for y in 0..MAP_HEIGHT as usize {
                assert!(!game.map[x][y].explored);
            }
        }
    }
}

#[test]
fn next_level_items_follow_the_table() {
    let mut game = new_game();
    while game.dungeon_level < 9 {
        next_level(&mut game);
        let level = game.dungeon_level;
        let items = &game.objects[1..game.objects.len() - 1];
        // at most thirty rooms, each with no more items than the level allows
        assert!(items.len() <= 30 * max_items(level) as usize);
        for item in items {
            let kind = item.item.unwrap();
            let allowed = match kind {
                Item::Heal => true,
                Item::Confuse => level >= 2,
                Item::Lightning | Item::Sword => level >= 4,
                Item::Fireball => level >= 6,
                Item::Shield => level >= 8,
            };
            assert!(allowed);
            assert_eq!(*item, spawn_item(kind, item.x, item.y));
        }
    }
}

#[test]
fn validity_checks_tell_good_from_bad() {
    assert!(grid_is_valid(&walled_grid()));
    assert!(!grid_is_valid(&Vec::new()));
    let mut short = walled_grid();
    short[99].pop();
    assert!(!grid_is_valid(&short));
    let mut narrow = walled_grid();
    narrow.pop();
    assert!(!grid_is_valid(&narrow));

    assert!(inventory_is_valid(&[]));
    assert!(inventory_is_valid(&[dagger(), spawn_item(Item::Shield, 0, 0)]));
    assert!(!inventory_is_valid(&[dagger(), dagger()]));
    assert!(!inventory_is_valid(&[Object::new(0, 0, '*', "rock", white(), false)]));
    let many: Vec<Object> = (0..27).map(|_| spawn_item(Item::Heal, 0, 0)).collect();
    assert!(!inventory_is_valid(&many));
    assert!(inventory_is_valid(&many[..26]));

    let bare = Object::new(0, 0, '@', "player", white(), true);
    assert!(!objects_are_valid(&[]));
    assert!(!objects_are_valid(&[bare]));
    let mut good = Object::new(0, 0, '@', "player", white(), true);
    good.stats = Some(full_stats());
    assert!(objects_are_valid(&[good]));
    let mut over = Object::new(0, 0, '@', "player", white(), true);
    over.stats = Some(Stats { fun: 101, ..full_stats() });
    assert!(!objects_are_valid(&[over]));
    let mut player = Object::new(0, 0, '@', "player", white(), true);
    player.stats = Some(full_stats());
    // a dagger that lies on the level and is worn all the same
    assert!(!objects_are_valid(&[player, dagger()]));
    let mut player = Object::new(0, 0, '@', "player", white(), true);
    player.stats = Some(full_stats());
    assert!(objects_are_valid(&[player, spawn_item(Item::Sword, 1, 1)]));
    let mut potion = spawn_item(Item::Heal, 0, 0);
    potion.stats = Some(full_stats());
    // the player is no item
    assert!(!objects_are_valid(&[potion]));
}

#[test]
fn a_session_out_of_order_is_found_out() {
    let mut game = new_game();
    assert!(game.is_valid());
    game.inventory.push(dagger());
    assert!(!game.is_valid());
    game.inventory.pop();
    assert!(game.is_valid());
    game.map[0] = vec![Tile::wall(); 3];
    assert!(!game.is_valid());
}

#[test]
fn player_death_leaves_a_corpse() {
    let mut game = Game {
        map: walled_grid(),
        log: Vec::new(),
        inventory: vec![dagger()],
        dungeon_level: 3,
        objects: Vec::new(),
    };
    let mut player = Object::new(4, 5, '@', "player", white(), true);
    player.alive = true;
    player.stats = Some(full_stats());
    player_death(&mut player, &mut game);
    assert_eq!(player.char, '%');
    assert_eq!(player.color, dark_red());
    assert_eq!(player.name, "player");
    assert!(player.blocks);
    assert!(player.alive);
    assert_eq!(player.stats, Some(full_stats()));
    assert_eq!(game.log, vec![(String::from("You died!"), red())]);
    assert_eq!(game.inventory, vec![dagger()]);
    assert_eq!(game.dungeon_level, 3);
}

#[test]
fn npc_death_leaves_remains() {
    let mut game = Game {
        map: walled_grid(),
        log: Vec::new(),
        inventory: Vec::new(),
        dungeon_level: 1,
        objects: Vec::new(),
    };
    let mut orc = Object::new(4, 5, 'o', "orc", white(), true);
    orc.alive = true;
    orc.stats = Some(Stats { on_death: DeathCallback::NPC, ..full_stats() });
    orc.ai = Some(Ai::Basic);
    npc_death(&mut orc, &mut game);
    let mut remains = Object::new(4, 5, '%', "remains of orc", dark_red(), false);
    remains.alive = true;
    assert_eq!(orc, remains);
    assert_eq!(game.log, vec![(String::from("Oh no! orc is dead!"), orange())]);
}

#[test]
fn death_callback_picks_the_handler() {
    let mut game = Game {
        map: walled_grid(),
        log: Vec::new(),
        inventory: Vec::new(),
        dungeon_level: 1,
        objects: Vec::new(),
    };
    let mut first = Object::new(1, 1, 'o', "orc", white(), true);
    DeathCallback::NPC.callback(&mut first, &mut game);
    assert_eq!(first.name, "remains of orc");
    assert!(!first.blocks);
    let mut second = Object::new(1, 1, '@', "player", white(), true);
    DeathCallback::Player.callback(&mut second, &mut game);
    assert_eq!(second.name, "player");
    assert!(second.blocks);
    assert_eq!(second.char, '%');
    assert_eq!(
        game.log,
        vec![
            (String::from("Oh no! orc is dead!"), orange()),
            (String::from("You died!"), red()),
        ]
    );
}
