//! Tests of the sprite-sheet bookkeeping and the HUD digit layout.

use noctrl::game::{ControlType, ItemType, TileType};
use noctrl::gfx::{
    control_sprite, digit_sprite_index, item_sprite, number_digits, sprite_cell, sprite_index,
    tile_sprite, SpriteType, NUM_SPRITES_X,
};

#[test]
fn sprite_indices_match_the_sheet_layout() {
    assert_eq!(sprite_index(SpriteType::Wall), 0);
    assert_eq!(sprite_index(SpriteType::Floor), 1);
    assert_eq!(sprite_index(SpriteType::Exit), 2);
    assert_eq!(sprite_index(SpriteType::Player), 8);
    assert_eq!(sprite_index(SpriteType::H), 16);
    assert_eq!(sprite_index(SpriteType::J), 17);
    assert_eq!(sprite_index(SpriteType::K), 18);
    assert_eq!(sprite_index(SpriteType::L), 19);
    assert_eq!(sprite_index(SpriteType::UpControl), 32);
    assert_eq!(sprite_index(SpriteType::RightControl), 33);
    assert_eq!(sprite_index(SpriteType::DownControl), 34);
    assert_eq!(sprite_index(SpriteType::LeftControl), 35);
    assert_eq!(sprite_index(SpriteType::Digit0), 54);
}

#[test]
fn digit_sprites_follow_digit_zero() {
    assert_eq!(digit_sprite_index(0), 54);
    assert_eq!(digit_sprite_index(9), 63);
}

#[test]
fn sprite_cell_walks_the_sheet_row_major() {
    assert_eq!(sprite_cell(0), (0, 0));
    assert_eq!(sprite_cell(NUM_SPRITES_X - 1), (0, NUM_SPRITES_X - 1));
    assert_eq!(sprite_cell(NUM_SPRITES_X), (1, 0));
    assert_eq!(sprite_cell(54), (6, 6));
    assert_eq!(sprite_cell(63), (7, 7));
}

#[test]
fn element_sprites_match_their_kind() {
    assert_eq!(tile_sprite(TileType::Wall), SpriteType::Wall);
    assert_eq!(tile_sprite(TileType::Floor), SpriteType::Floor);
    assert_eq!(tile_sprite(TileType::Exit), SpriteType::Exit);
    assert_eq!(item_sprite(ItemType::UpControl), SpriteType::UpControl);
    assert_eq!(item_sprite(ItemType::LeftControl), SpriteType::LeftControl);
    assert_eq!(control_sprite(ControlType::Right), SpriteType::RightControl);
    assert_eq!(control_sprite(ControlType::Down), SpriteType::DownControl);
}

#[test]
fn number_digits_suppresses_leading_zeros() {
    assert_eq!(number_digits(42, 3), vec![None, Some(4), Some(2)]);
    assert_eq!(number_digits(100, 3), vec![Some(1), Some(0), Some(0)]);
    assert_eq!(number_digits(7, 1), vec![Some(7)]);
    assert_eq!(number_digits(0, 2), vec![None, None]);
    assert_eq!(number_digits(99, 2), vec![Some(9), Some(9)]);
}
