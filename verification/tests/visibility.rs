use lardum::colors::white;
use lardum::object::{Item, Object};
use lardum::tables::spawn_item;
use lardum::tile::{walled_grid, Tile, TileGrid, MAP_HEIGHT, MAP_WIDTH};
use lardum::visibility::{
    explore, get_names_under_mouse, objects_to_draw, position_changed, should_draw, Fov,
};

fn fov(cells: &[(usize, usize)]) -> Fov {
    let mut visible = vec![vec![false; MAP_HEIGHT as usize]; MAP_WIDTH as usize];
    for &(x, y) in cells {
        visible[x][y] = true;
    }
    Fov { visible }
}

fn explored_tiles(map: &TileGrid) -> Vec<(usize, usize)> {
    let mut seen = Vec::new();
    for x in 0..map.len() {
        for y in 0..map[x].len() {
            if map[x][y].explored {
                seen.push((x, y));
            }
        }
    }
    seen
}

#[test]
fn is_in_fov_is_false_outside() {
    let sight = fov(&[(0, 0), (99, 49), (5, 6)]);
    assert!(sight.is_in_fov(0, 0));
    assert!(sight.is_in_fov(99, 49));
    assert!(sight.is_in_fov(5, 6));
    assert!(!sight.is_in_fov(6, 5));
    assert!(!sight.is_in_fov(-1, 0));
    assert!(!sight.is_in_fov(0, -1));
    assert!(!sight.is_in_fov(100, 0));
    assert!(!sight.is_in_fov(0, 50));
    assert!(!Fov { visible: Vec::new() }.is_in_fov(0, 0));
}

#[test]
fn explore_marks_what_is_in_sight() {
    let mut map = walled_grid();
    map[3][4] = Tile::empty();
    explore(&mut map, &fov(&[(3, 4), (3, 5), (99, 49)]));
    assert_eq!(explored_tiles(&map), vec![(3, 4), (3, 5), (99, 49)]);
    assert_eq!(map[3][4], Tile { blocked: false, explored: true, block_sight: false });
    assert_eq!(map[3][5], Tile { blocked: true, explored: true, block_sight: true });
    assert_eq!(map[4][4], Tile::wall());
}

#[test]
fn explored_tiles_stay_explored() {
    let mut map = walled_grid();
    explore(&mut map, &fov(&[(1, 1), (2, 2)]));
    explore(&mut map, &fov(&[(2, 2), (3, 3)]));
    assert_eq!(explored_tiles(&map), vec![(1, 1), (2, 2), (3, 3)]);
    explore(&mut map, &fov(&[]));
    assert_eq!(explored_tiles(&map), vec![(1, 1), (2, 2), (3, 3)]);
    explore(&mut map, &Fov { visible: Vec::new() });
    assert_eq!(explored_tiles(&map), vec![(1, 1), (2, 2), (3, 3)]);
}

#[test]
fn explore_copes_with_a_field_of_view_of_another_size() {
    let mut map: TileGrid = vec![vec![Tile::empty(); 3]; 2];
    let sight = Fov { visible: vec![vec![true; 1], vec![true; 5], vec![true; 5]] };
    explore(&mut map, &sight);
    assert_eq!(explored_tiles(&map), vec![(0, 0), (1, 0), (1, 1), (1, 2)]);
}

#[test]
fn things_are_drawn_in_sight_or_remembered() {
    let mut map = walled_grid();
    map[2][2].explored = true;
    let sight = fov(&[(1, 1)]);
    let orc = Object::new(1, 1, 'o', "orc", white(), true);
    let hidden_orc = Object::new(2, 2, 'o', "orc", white(), true);
    let potion_seen_before = spawn_item(Item::Heal, 2, 2);
    let potion_never_seen = spawn_item(Item::Heal, 3, 3);
    let potion_off_grid = spawn_item(Item::Heal, -1, 3);
    assert!(should_draw(&orc, &map, &sight));
    assert!(!should_draw(&hidden_orc, &map, &sight));
    assert!(should_draw(&potion_seen_before, &map, &sight));
    assert!(!should_draw(&potion_never_seen, &map, &sight));
    assert!(!should_draw(&potion_off_grid, &map, &sight));
}

#[test]
fn what_blocks_is_drawn_last() {
    let mut map = walled_grid();
    map[2][2].explored = true;
    let sight = fov(&[(1, 1)]);
    let objects = vec![
        Object::new(1, 1, '@', "player", white(), true),
        spawn_item(Item::Heal, 1, 1),
        Object::new(5, 5, 'o', "orc out of sight", white(), true),
        Object::new(1, 1, 'o', "orc", white(), true),
        spawn_item(Item::Sword, 2, 2),
        spawn_item(Item::Sword, 9, 9),
        Object::new(1, 1, '<', "stairs", white(), false),
    ];
    assert_eq!(objects_to_draw(&objects, &map, &sight), vec![1, 4, 6, 0, 3]);
    assert_eq!(objects_to_draw(&[], &map, &sight), Vec::<usize>::new());
}

#[test]
fn names_under_the_mouse() {
    let sight = fov(&[(1, 1), (2, 2)]);
    let objects = vec![
        Object::new(1, 1, '@', "player", white(), true),
        spawn_item(Item::Heal, 1, 1),
        Object::new(5, 5, 'o', "orc", white(), true),
        Object::new(1, 1, '<', "stairs", white(), false),
    ];
    assert_eq!(get_names_under_mouse(1, 1, &objects, &sight), "player, healing potion, stairs");
    assert_eq!(get_names_under_mouse(2, 2, &objects, &sight), "");
    assert_eq!(get_names_under_mouse(5, 5, &objects, &sight), "");
    assert_eq!(get_names_under_mouse(-3, 5, &objects, &sight), "");
    let single = vec![Object::new(2, 2, 'o', "orc", white(), true)];
    assert_eq!(get_names_under_mouse(2, 2, &single, &sight), "orc");
}

#[test]
fn names_under_the_mouse_with_an_empty_name() {
    let sight = fov(&[(1, 1)]);
    let objects = vec![
        Object::new(1, 1, '?', "", white(), false),
        Object::new(1, 1, 'o', "orc", white(), true),
        Object::new(1, 1, '?', "", white(), false),
    ];
    assert_eq!(get_names_under_mouse(1, 1, &objects, &sight), ", orc, ");
}

#[test]
fn position_changed_compares_with_the_last_position() {
    let player = Object::new(4, 5, '@', "player", white(), true);
    assert!(position_changed((-1, -1), &player));
    assert!(position_changed((4, 6), &player));
    assert!(position_changed((5, 5), &player));
    assert!(!position_changed((4, 5), &player));
}

#[test]
fn nothing_is_in_sight_at_first() {
    let dark = Fov::nothing();
    assert_eq!(dark.visible.len(), MAP_WIDTH as usize);
    for column in &dark.visible {
        assert_eq!(column.len(), MAP_HEIGHT as usize);
        assert!(column.iter().all(|seen| !seen));
    }
    assert!(!dark.is_in_fov(0, 0));
    let mut map = walled_grid();
    explore(&mut map, &dark);
    assert_eq!(map, walled_grid());
}
