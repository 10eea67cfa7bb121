use lardum::colors::{dark_ground, dark_wall, light_ground, light_wall, tile_color, Color};
use lardum::messages::message_row;
use lardum::messages::MessageLog;
use lardum::tile::{walled_grid, Tile, MAP_HEIGHT, MAP_WIDTH};

#[test]
fn empty_tile_is_open_and_unseen() {
    let tile = Tile::empty();
    assert_eq!(tile, Tile { blocked: false, explored: false, block_sight: false });
}

#[test]
fn default_tile_is_open_floor() {
    assert_eq!(Tile::default(), Tile::empty());
    assert_eq!(Tile::default(), Tile { blocked: false, explored: false, block_sight: false });
}

#[test]
fn wall_tile_blocks_movement_and_sight() {
    let tile = Tile::wall();
    assert_eq!(tile, Tile { blocked: true, explored: false, block_sight: true });
}

#[test]
fn walled_grid_has_the_fixed_size_and_only_walls() {
    let grid = walled_grid();
    assert_eq!(grid.len(), MAP_WIDTH as usize);
    for column in &grid {
        assert_eq!(column.len(), MAP_HEIGHT as usize);
        for tile in column {
            assert_eq!(*tile, Tile::wall());
        }
    }
}

#[test]
fn tile_color_has_four_palette_entries() {
    assert_eq!(tile_color(false, true), Color { r: 0, g: 0, b: 100 });
    assert_eq!(tile_color(false, false), Color { r: 50, g: 50, b: 150 });
    assert_eq!(tile_color(true, true), Color { r: 130, g: 110, b: 50 });
    assert_eq!(tile_color(true, false), Color { r: 200, g: 180, b: 50 });
    assert_eq!(tile_color(false, true), dark_wall());
    assert_eq!(tile_color(false, false), dark_ground());
    assert_eq!(tile_color(true, true), light_wall());
    assert_eq!(tile_color(true, false), light_ground());
}

#[test]
fn log_add_appends_in_order() {
    let mut log: Vec<(String, Color)> = Vec::new();
    log.add(String::from("first"), Color { r: 1, g: 2, b: 3 });
    log.add(String::from("second"), Color { r: 4, g: 5, b: 6 });
    assert_eq!(
        log,
        vec![
            (String::from("first"), Color { r: 1, g: 2, b: 3 }),
            (String::from("second"), Color { r: 4, g: 5, b: 6 }),
        ]
    );
}

#[test]
fn message_row_counts_down_from_the_bottom() {
    assert_eq!(message_row(7, 1), Some(6));
    assert_eq!(message_row(6, 2), Some(4));
    assert_eq!(message_row(1, 1), Some(0));
    assert_eq!(message_row(0, 0), Some(0));
}

#[test]
fn message_row_stops_when_the_panel_is_full() {
    assert_eq!(message_row(0, 1), None);
    assert_eq!(message_row(2, 3), None);
}

#[test]
fn tiles_tell_the_field_of_view_what_they_are() {
    assert!(Tile::empty().is_transparent());
    assert!(Tile::empty().is_walkable());
    assert!(!Tile::wall().is_transparent());
    assert!(!Tile::wall().is_walkable());
    let window = Tile { blocked: true, explored: true, block_sight: false };
    assert!(window.is_transparent());
    assert!(!window.is_walkable());
}
