//! Tests of the level grid and its text-format loader.

use noctrl::game::{ControlType, ItemType, Pos, TileType};
use noctrl::level::{Level, LoadError, parse_control_line, LEVEL_HEIGHT, LEVEL_WIDTH};

fn lines(strs: &[&str]) -> Vec<String> {
    strs.iter().map(|s| String::from(*s)).collect()
}

#[test]
fn new_level_is_all_floor() {
    let level = Level::new();
    assert_eq!(level.number, 0);
    assert_eq!(level.width, LEVEL_WIDTH);
    assert_eq!(level.height, LEVEL_HEIGHT);
    assert_eq!(level.player_start, Pos { x: 0, y: 0 });
    for y in 0..level.height {
        for x in 0..level.width {
            assert_eq!(level.get(x, y).unwrap().tile_type, TileType::Floor);
            assert!(level.item_at(x, y).is_none());
        }
    }
    for slot in &level.controls_start {
        assert!(slot.is_none());
    }
}

#[test]
fn load_maps_terrain_characters() {
    let src = lines(&["#> ", ".@#"]);
    let level = Level::load(3, 3, 2, &src).unwrap();
    assert_eq!(level.number, 3);
    assert_eq!(level.get(0, 0).unwrap().tile_type, TileType::Wall);
    assert_eq!(level.get(1, 0).unwrap().tile_type, TileType::Exit);
    assert_eq!(level.get(2, 0).unwrap().tile_type, TileType::Floor);
    assert_eq!(level.get(0, 1).unwrap().tile_type, TileType::Floor);
    // the player start is floor terrain
    assert_eq!(level.get(1, 1).unwrap().tile_type, TileType::Floor);
    assert_eq!(level.get(2, 1).unwrap().tile_type, TileType::Wall);
    assert_eq!(level.player_start, Pos { x: 1, y: 1 });
}

#[test]
fn load_places_items_on_floor() {
    let src = lines(&["urdl"]);
    let level = Level::load(0, 4, 1, &src).unwrap();
    assert_eq!(level.item_at(0, 0).unwrap().item_type, ItemType::UpControl);
    assert_eq!(level.item_at(1, 0).unwrap().item_type, ItemType::RightControl);
    assert_eq!(level.item_at(2, 0).unwrap().item_type, ItemType::DownControl);
    assert_eq!(level.item_at(3, 0).unwrap().item_type, ItemType::LeftControl);
    for x in 0..4 {
        assert_eq!(level.get(x, 0).unwrap().tile_type, TileType::Floor);
    }
}

#[test]
fn load_defaults_missing_rows_and_columns_to_floor() {
    let src = lines(&["#"]);
    let level = Level::load(0, 3, 2, &src).unwrap();
    assert_eq!(level.get(0, 0).unwrap().tile_type, TileType::Wall);
    assert_eq!(level.get(1, 0).unwrap().tile_type, TileType::Floor);
    assert_eq!(level.get(2, 0).unwrap().tile_type, TileType::Floor);
    assert_eq!(level.get(0, 1).unwrap().tile_type, TileType::Floor);
    assert_eq!(level.get(2, 1).unwrap().tile_type, TileType::Floor);
    // no `@` leaves the start at the top-left corner
    assert_eq!(level.player_start, Pos { x: 0, y: 0 });
}

#[test]
fn load_last_player_start_wins() {
    let src = lines(&["@.@", "..."]);
    let level = Level::load(0, 3, 2, &src).unwrap();
    assert_eq!(level.player_start, Pos { x: 2, y: 0 });
}

#[test]
fn load_parses_starting_controls() {
    let src = lines(&["@..", "< 3", "", "^ 10", "v 0"]);
    let level = Level::load(0, 3, 1, &src).unwrap();
    let c0 = level.controls_start[0].unwrap();
    assert_eq!(c0.control_type, ControlType::Left);
    assert_eq!(c0.energy, 3);
    assert!(level.controls_start[1].is_none());
    let c2 = level.controls_start[2].unwrap();
    assert_eq!(c2.control_type, ControlType::Up);
    assert_eq!(c2.energy, 10);
    let c3 = level.controls_start[3].unwrap();
    assert_eq!(c3.control_type, ControlType::Down);
    assert_eq!(c3.energy, 0);
}

#[test]
fn load_ignores_lines_beyond_the_control_slots() {
    let src = lines(&["@", "> 1", "> 2", "> 3", "> 4", "this line is ignored"]);
    let level = Level::load(0, 1, 1, &src).unwrap();
    assert_eq!(level.controls_start[3].unwrap().energy, 4);
}

#[test]
fn load_of_an_empty_source_is_all_floor() {
    let src: Vec<String> = Vec::new();
    let level = Level::load(0, LEVEL_WIDTH, LEVEL_HEIGHT, &src).unwrap();
    assert_eq!(level.player_start, Pos { x: 0, y: 0 });
    for y in 0..LEVEL_HEIGHT {
        for x in 0..LEVEL_WIDTH {
            assert_eq!(level.get(x, y).unwrap().tile_type, TileType::Floor);
            assert!(level.item_at(x, y).is_none());
        }
    }
    for slot in &level.controls_start {
        assert!(slot.is_none());
    }
}

#[test]
fn load_rejects_overlong_terrain_row() {
    let src = lines(&["###"]);
    assert_eq!(Level::load(0, 2, 1, &src), Err(LoadError::LineTooLong));
}

#[test]
fn load_rejects_bad_control_symbol() {
    let src = lines(&["@", "x 3"]);
    assert_eq!(Level::load(0, 1, 1, &src), Err(LoadError::BadControlSymbol));
    let src = lines(&["@", "<3"]);
    assert_eq!(Level::load(0, 1, 1, &src), Err(LoadError::BadControlSymbol));
}

#[test]
fn load_rejects_bad_energy() {
    for bad in ["<", "< ", "< a", "< 4294967296"] {
        let src = lines(&["@", bad]);
        assert_eq!(Level::load(0, 1, 1, &src), Err(LoadError::BadEnergy));
    }
}

#[test]
fn load_reports_terrain_error_before_control_error() {
    let src = lines(&["##", "x 3"]);
    assert_eq!(Level::load(0, 1, 1, &src), Err(LoadError::LineTooLong));
}

#[test]
fn parse_control_line_accepts_all_symbols() {
    assert_eq!(
        parse_control_line("> 5").unwrap().unwrap().control_type,
        ControlType::Right
    );
    assert_eq!(
        parse_control_line("< 5").unwrap().unwrap().control_type,
        ControlType::Left
    );
    assert_eq!(
        parse_control_line("^ 5").unwrap().unwrap().control_type,
        ControlType::Up
    );
    assert_eq!(
        parse_control_line("v 5").unwrap().unwrap().control_type,
        ControlType::Down
    );
}

#[test]
fn parse_control_line_edge_cases() {
    assert_eq!(parse_control_line(""), Ok(None));
    // a second field after the energy is ignored
    assert_eq!(parse_control_line("> 5 9").unwrap().unwrap().energy, 5);
    // the largest energy that fits
    assert_eq!(
        parse_control_line("> 4294967295").unwrap().unwrap().energy,
        u32::MAX
    );
    assert_eq!(parse_control_line(">> 1"), Err(LoadError::BadControlSymbol));
    assert_eq!(parse_control_line("w 1"), Err(LoadError::BadControlSymbol));
    assert_eq!(parse_control_line("< 12x"), Err(LoadError::BadEnergy));
}
