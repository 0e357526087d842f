//! Sprite-sheet bookkeeping: which sheet slot each game element is drawn
//! from, and the digit layout of the energy counters on the HUD.  Only the
//! integer arithmetic lives here; turning a sheet slot into screen
//! coordinates is the presentation layer's business.

use vstd::prelude::*;

use crate::game::{ControlType, ItemType, TileType};

verus! {

/// Sprites per sheet row.
pub const NUM_SPRITES_X: usize = 8;

/// Sprite rows in the sheet.
pub const NUM_SPRITES_Y: usize = 8;

/// Sprite width in pixels.
pub const SPRITE_WIDTH: usize = 8;

/// Sprite height in pixels.
pub const SPRITE_HEIGHT: usize = 8;

/// Everything the game draws from the sprite sheet.
#[derive(Clone, Copy, PartialEq, Eq, Structural, Debug)]
pub enum SpriteType {
    Player,
    Wall,
    Floor,
    Exit,
    UpControl,
    RightControl,
    DownControl,
    LeftControl,
    H,
    J,
    K,
    L,
    Digit0,
    // The other digits follow Digit0 consecutively and are computed when
    // needed.
}

/// The sheet slot each sprite is stored in.
pub open spec fn spec_sprite_index(sprite_type: SpriteType) -> int {
    match sprite_type {
        SpriteType::Player => 8,
        SpriteType::Wall => 0,
        SpriteType::Floor => 1,
        SpriteType::Exit => 2,
        SpriteType::UpControl => 32,
        SpriteType::RightControl => 33,
        SpriteType::DownControl => 34,
        SpriteType::LeftControl => 35,
        SpriteType::H => 16,
        SpriteType::J => 17,
        SpriteType::K => 18,
        SpriteType::L => 19,
        SpriteType::Digit0 => 54,
    }
}

/// The sheet slot each sprite is stored in.
pub fn sprite_index(sprite_type: SpriteType) -> (r: usize)
    ensures
        r == spec_sprite_index(sprite_type),
        r < NUM_SPRITES_X * NUM_SPRITES_Y,
{
    match sprite_type {
        SpriteType::Player => 8,
        SpriteType::Wall => 0,
        SpriteType::Floor => 1,
        SpriteType::Exit => 2,
        SpriteType::UpControl => 32,
        SpriteType::RightControl => 33,
        SpriteType::DownControl => 34,
        SpriteType::LeftControl => 35,
        SpriteType::H => 16,
        SpriteType::J => 17,
        SpriteType::K => 18,
        SpriteType::L => 19,
        SpriteType::Digit0 => 54,
    }
}

/// The sheet slot of a decimal digit: the digits follow `Digit0`
/// consecutively.
pub fn digit_sprite_index(digit: usize) -> (r: usize)
    requires
        digit < 10,
    ensures
        r == spec_sprite_index(SpriteType::Digit0) + digit,
        r < NUM_SPRITES_X * NUM_SPRITES_Y,
{
    54 + digit
}

/// A sheet slot's position in the sheet, as (row, column).
pub fn sprite_cell(index: usize) -> (r: (usize, usize))
    requires
        index < NUM_SPRITES_X * NUM_SPRITES_Y,
    ensures
        r.0 == index / NUM_SPRITES_X,
        r.1 == index % NUM_SPRITES_X,
        r.0 < NUM_SPRITES_Y,
        r.1 < NUM_SPRITES_X,
{
    (index / NUM_SPRITES_X, index % NUM_SPRITES_X)
}

/// The sprite a tile is drawn with.
pub fn tile_sprite(tile_type: TileType) -> (r: SpriteType)
    ensures
        r == (match tile_type {
            TileType::Floor => SpriteType::Floor,
            TileType::Wall => SpriteType::Wall,
            TileType::Exit => SpriteType::Exit,
        }),
{
    match tile_type {
        TileType::Floor => SpriteType::Floor,
        TileType::Wall => SpriteType::Wall,
        TileType::Exit => SpriteType::Exit,
    }
}

/// The sprite an item is drawn with.
pub fn item_sprite(item_type: ItemType) -> (r: SpriteType)
    ensures
        r == (match item_type {
            ItemType::UpControl => SpriteType::UpControl,
            ItemType::RightControl => SpriteType::RightControl,
            ItemType::DownControl => SpriteType::DownControl,
            ItemType::LeftControl => SpriteType::LeftControl,
        }),
{
    match item_type {
        ItemType::UpControl => SpriteType::UpControl,
        ItemType::RightControl => SpriteType::RightControl,
        ItemType::DownControl => SpriteType::DownControl,
        ItemType::LeftControl => SpriteType::LeftControl,
    }
}

/// The sprite an inventory control is drawn with on the HUD.
pub fn control_sprite(control_type: ControlType) -> (r: SpriteType)
    ensures
        r == (match control_type {
            ControlType::Up => SpriteType::UpControl,
            ControlType::Right => SpriteType::RightControl,
            ControlType::Down => SpriteType::DownControl,
            ControlType::Left => SpriteType::LeftControl,
        }),
{
    match control_type {
        ControlType::Up => SpriteType::UpControl,
        ControlType::Right => SpriteType::RightControl,
        ControlType::Down => SpriteType::DownControl,
        ControlType::Left => SpriteType::LeftControl,
    }
}

/// Ten to the `n`th power.
pub open spec fn pow10(n: nat) -> nat
    decreases n,
{
    if n == 0 {
        1
    } else {
        10 * pow10((n - 1) as nat)
    }
}

/// Powers of ten are positive.
proof fn lemma_pow10_pos(n: nat)
    ensures
        pow10(n) >= 1,
    decreases n,
{
    if n > 0 {
        lemma_pow10_pos((n - 1) as nat);
    }
}

/// Powers of ten grow with the exponent.
proof fn lemma_pow10_mono(a: nat, b: nat)
    requires
        a <= b,
    ensures
        pow10(a) <= pow10(b),
    decreases b,
{
    if a < b {
        lemma_pow10_mono(a, (b - 1) as nat);
        lemma_pow10_pos((b - 1) as nat);
    }
}

/// The decimal digits a number is displayed with, left to right, in a
/// fixed-width field of `num_digits` positions: `None` where a leading
/// zero is suppressed, `Some` of the digit's value elsewhere.  Zero comes
/// out all blank.
pub fn number_digits(number: usize, num_digits: usize) -> (r: Vec<Option<usize>>)
    requires
        pow10(num_digits as nat) <= usize::MAX,
        number < pow10(num_digits as nat),
    ensures
        r@.len() == num_digits,
        forall|i: int|
            0 <= i < num_digits ==> #[trigger] r@[i] == (if number < pow10(
                (num_digits - 1 - i) as nat,
            ) {
                None::<usize>
            } else {
                Some(((number as int / pow10((num_digits - 1 - i) as nat) as int) % 10) as usize)
            }),
{
    let mut result: Vec<Option<usize>> = Vec::new();
    if num_digits == 0 {
        return result;
    }
    // The place value of the leftmost position.
    let mut p: usize = 1;
    let mut e: usize = 0;
    while e < num_digits - 1
        invariant
            num_digits >= 1,
            e <= num_digits - 1,
            p == pow10(e as nat),
            pow10(num_digits as nat) <= usize::MAX,
        decreases num_digits - 1 - e,
    {
        proof {
            lemma_pow10_mono((e + 1) as nat, num_digits as nat);
        }
        p = p * 10;
        e += 1;
    }
    let mut i: usize = 0;
    while i < num_digits
        invariant
            num_digits >= 1,
            i <= num_digits,
            result@.len() == i,
            i < num_digits ==> p == pow10((num_digits - 1 - i) as nat),
            forall|j: int|
                0 <= j < i ==> #[trigger] result@[j] == (if number < pow10(
                    (num_digits - 1 - j) as nat,
                ) {
                    None::<usize>
                } else {
                    Some(
                        ((number as int / pow10((num_digits - 1 - j) as nat) as int)
                            % 10) as usize,
                    )
                }),
        decreases num_digits - i,
    {
        proof {
            lemma_pow10_pos((num_digits - 1 - i) as nat);
        }
        let digit = (number / p) % 10;
        if number < p {
            result.push(None);
        } else {
            result.push(Some(digit));
        }
        if i + 1 < num_digits {
            p = p / 10;
        }
        i += 1;
    }
    result
}

} // verus!
