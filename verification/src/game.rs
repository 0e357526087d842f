//! Core game data: tiles, items, controls, the player, and the movement
//! resolver that applies one directional step against the level grid.

use vstd::prelude::*;

use crate::level::Level;

verus! {

/// A grid coordinate, `x` growing rightwards and `y` growing downwards.
#[derive(Clone, Copy, PartialEq, Eq, Structural, Debug)]
pub struct Pos {
    pub x: usize,
    pub y: usize,
}

/// The direction a control moves the player in when activated.
#[derive(Clone, Copy, PartialEq, Eq, Structural, Debug)]
pub enum ControlType {
    Right,
    Left,
    Up,
    Down,
}

impl ControlType {
    /// The axis-aligned unit step for this direction:
    /// right is (1, 0), left is (-1, 0), up is (0, -1), down is (0, 1).
    pub open spec fn spec_delta(self) -> (int, int) {
        match self {
            ControlType::Right => (1int, 0int),
            ControlType::Left => (-1int, 0int),
            ControlType::Up => (0int, -1int),
            ControlType::Down => (0int, 1int),
        }
    }

    /// The unit step of this direction as machine integers.
    pub fn delta(self) -> (r: (isize, isize))
        ensures
            (r.0 as int, r.1 as int) == self.spec_delta(),
    {
        match self {
            ControlType::Right => (1, 0),
            ControlType::Left => (-1, 0),
            ControlType::Up => (0, -1),
            ControlType::Down => (0, 1),
        }
    }
}

/// A limited-use directional move token held in the inventory.
#[derive(Clone, Copy, PartialEq, Eq, Structural, Debug)]
pub struct Control {
    /// Remaining use-count; a control whose energy reaches 0 is removed from
    /// the inventory by the post-activation sweep.
    pub energy: u32,
    pub control_type: ControlType,
}

impl Control {
    /// Whether this control can still be activated.
    pub fn has_energy(&self) -> (r: bool)
        ensures
            r == (self.energy > 0),
    {
        self.energy > 0
    }
}

/// A single grid cell's terrain classification.
#[derive(Clone, Copy, PartialEq, Eq, Structural, Debug)]
pub enum TileType {
    Wall,
    Floor,
    Exit,
}

/// A grid cell; carries its terrain classification.
#[derive(Clone, Copy, PartialEq, Eq, Structural, Debug)]
pub struct Tile {
    pub tile_type: TileType,
}

impl Tile {
    pub fn new(tile_type: TileType) -> (r: Tile)
        ensures
            r.tile_type == tile_type,
    {
        Tile { tile_type }
    }
}

/// The kind of collectible lying on the grid; collecting it yields a control
/// of the matching direction.
#[derive(Clone, Copy, PartialEq, Eq, Structural, Debug)]
pub enum ItemType {
    DownControl,
    LeftControl,
    UpControl,
    RightControl,
}

impl ItemType {
    /// The direction of the control this item turns into when collected.
    pub open spec fn spec_control_type(self) -> ControlType {
        match self {
            ItemType::UpControl => ControlType::Up,
            ItemType::RightControl => ControlType::Right,
            ItemType::DownControl => ControlType::Down,
            ItemType::LeftControl => ControlType::Left,
        }
    }

    pub fn control_type(self) -> (r: ControlType)
        ensures
            r == self.spec_control_type(),
    {
        match self {
            ItemType::UpControl => ControlType::Up,
            ItemType::RightControl => ControlType::Right,
            ItemType::DownControl => ControlType::Down,
            ItemType::LeftControl => ControlType::Left,
        }
    }
}

/// A collectible on the grid; exists only while unclaimed in the level's
/// item mapping.
#[derive(Clone, Copy, PartialEq, Eq, Structural, Debug)]
pub struct Item {
    pub item_type: ItemType,
}

impl Item {
    pub fn new(item_type: ItemType) -> (r: Item)
        ensures
            r.item_type == item_type,
    {
        Item { item_type }
    }
}

/// The player: a current grid position and the queue of item kinds collected
/// this tick but not yet converted into controls.
#[derive(PartialEq, Eq, Debug)]
pub struct Player {
    pub pos: Pos,
    pub pending_items: Vec<ItemType>,
}

/// Whether one step from `pos` in `direction` stays inside the grid.
pub open spec fn spec_step_in_bounds(lvl: Level, pos: Pos, direction: ControlType) -> bool {
    let (dx, dy) = direction.spec_delta();
    &&& 0 <= pos.x + dx < lvl.width
    &&& 0 <= pos.y + dy < lvl.height
}

/// Whether one step from `pos` in `direction` stays inside the grid.
pub fn step_in_bounds(level: &Level, pos: Pos, direction: ControlType) -> (r: bool)
    requires
        pos.x < level.width,
        pos.y < level.height,
    ensures
        r == spec_step_in_bounds(*level, pos, direction),
{
    match direction {
        ControlType::Right => pos.x + 1 < level.width,
        ControlType::Left => pos.x >= 1,
        ControlType::Up => pos.y >= 1,
        ControlType::Down => pos.y + 1 < level.height,
    }
}

/// Items lie only on floor tiles, one entry per grid cell.  This holds of a
/// level's own item grid whenever the level is well-formed, and it is kept by
/// every operation of the tick, which only ever removes items.
pub open spec fn items_wf(lvl: Level, items: Seq<Option<Item>>) -> bool {
    &&& items.len() == lvl.width * lvl.height
    &&& forall|i: int|
        0 <= i < items.len() && (#[trigger] items[i]) is Some
            ==> lvl.tiles@[i].tile_type == TileType::Floor
}

/// One resolved step of the movement resolver, over the mutable parts of the
/// game state: the player position, the pending-item queue, and the item
/// grid.  `lvl` supplies the terrain, which a step never changes; `items` is
/// passed separately because the item grid evolves over a tick.
///
/// The candidate cell is one step from `pos`; a wall absorbs the move and
/// any other terrain lets it through.  An item found at the candidate cell
/// is removed from the grid and appended to the pending queue, whether or
/// not the move itself was absorbed.
pub open spec fn walk_model(
    lvl: Level,
    pos: Pos,
    pending: Seq<ItemType>,
    items: Seq<Option<Item>>,
    direction: ControlType,
) -> (Pos, Seq<ItemType>, Seq<Option<Item>>) {
    let (dx, dy) = direction.spec_delta();
    let cx = pos.x + dx;
    let cy = pos.y + dy;
    let idx = cy * lvl.width + cx;
    let new_pos = if lvl.tiles@[idx].tile_type == TileType::Wall {
        pos
    } else {
        Pos { x: cx as usize, y: cy as usize }
    };
    match items[idx] {
        Some(item) => (new_pos, pending.push(item.item_type), items.update(idx, None)),
        None => (new_pos, pending, items),
    }
}

impl Player {
    /// Movement resolver: one step in `direction` against the level grid.
    /// A wall bumps the player back silently; floor and exit let the step
    /// through; an item at the candidate cell is collected into the pending
    /// queue and removed from the grid.  The caller pre-validates that the
    /// step stays on the grid.
    pub fn walk(&mut self, level: &mut Level, direction: ControlType)
        requires
            old(level).wf(),
            old(self).pos.x < old(level).width,
            old(self).pos.y < old(level).height,
            spec_step_in_bounds(*old(level), old(self).pos, direction),
        ensures
            (final(self).pos, final(self).pending_items@, final(level).items@) == walk_model(
                *old(level),
                old(self).pos,
                old(self).pending_items@,
                old(level).items@,
                direction,
            ),
            final(level).wf(),
            final(self).pos.x < final(level).width,
            final(self).pos.y < final(level).height,
            final(level).tiles == old(level).tiles,
            final(level).width == old(level).width,
            final(level).height == old(level).height,
            final(level).number == old(level).number,
            final(level).player_start == old(level).player_start,
            final(level).controls_start == old(level).controls_start,
            // Bump invariant: a step into a wall moves nothing and touches
            // neither the item grid nor the pending queue.
            old(level).spec_tile_at(
                old(self).pos.x + direction.spec_delta().0,
                old(self).pos.y + direction.spec_delta().1,
            ) == TileType::Wall ==> {
                &&& final(self).pos == old(self).pos
                &&& final(self).pending_items@ == old(self).pending_items@
                &&& final(level).items@ == old(level).items@
            },
    {
        let (x, y) = match direction {
            ControlType::Right => (self.pos.x + 1, self.pos.y),
            ControlType::Left => (self.pos.x - 1, self.pos.y),
            ControlType::Up => (self.pos.x, self.pos.y - 1),
            ControlType::Down => (self.pos.x, self.pos.y + 1),
        };
        proof {
            crate::level::lemma_grid_index_in_range(
                level.width as int,
                level.height as int,
                x as int,
                y as int,
            );
        }
        let idx = y * level.width + x;
        let tile = level.tiles[idx];
        if tile.tile_type != TileType::Wall {
            self.pos = Pos { x, y };
        }
        match level.items[idx] {
            Some(item) => {
                level.items.set(idx, None);
                self.pending_items.push(item.item_type);
            }
            None => {}
        }
    }
}

impl Control {
    /// Activating a control spends one unit of energy and asks the movement
    /// resolver to apply the control's direction.  Energy is spent whether
    /// or not the move itself is absorbed by a wall.
    pub fn activate(&mut self, player: &mut Player, level: &mut Level)
        requires
            old(self).energy > 0,
            old(level).wf(),
            old(player).pos.x < old(level).width,
            old(player).pos.y < old(level).height,
            spec_step_in_bounds(*old(level), old(player).pos, old(self).control_type),
        ensures
            final(self).energy == old(self).energy - 1,
            final(self).control_type == old(self).control_type,
            (final(player).pos, final(player).pending_items@, final(level).items@) == walk_model(
                *old(level),
                old(player).pos,
                old(player).pending_items@,
                old(level).items@,
                old(self).control_type,
            ),
            final(level).wf(),
            final(player).pos.x < final(level).width,
            final(player).pos.y < final(level).height,
            final(level).tiles == old(level).tiles,
            final(level).width == old(level).width,
            final(level).height == old(level).height,
            final(level).number == old(level).number,
            final(level).player_start == old(level).player_start,
            final(level).controls_start == old(level).controls_start,
    {
        self.energy = self.energy - 1;
        player.walk(level, self.control_type);
    }
}

/// Bump invariant: from any position one step away from a wall, walking into
/// the wall leaves the position unchanged and touches neither the item grid
/// nor the pending queue.
pub proof fn lemma_wall_bump(
    lvl: Level,
    pos: Pos,
    pending: Seq<ItemType>,
    items: Seq<Option<Item>>,
    direction: ControlType,
)
    requires
        lvl.wf(),
        items_wf(lvl, items),
        pos.x < lvl.width,
        pos.y < lvl.height,
        spec_step_in_bounds(lvl, pos, direction),
        lvl.spec_tile_at(
            pos.x + direction.spec_delta().0,
            pos.y + direction.spec_delta().1,
        ) == TileType::Wall,
    ensures
        walk_model(lvl, pos, pending, items, direction) == (pos, pending, items),
{
    let (dx, dy) = direction.spec_delta();
    let cx = pos.x + dx;
    let cy = pos.y + dy;
    crate::level::lemma_grid_index_in_range(lvl.width as int, lvl.height as int, cx, cy);
    let idx = cy * lvl.width + cx;
    assert(items[idx] is None);
}

/// Item pickup removes from the grid exactly once: a walk whose candidate
/// cell holds an item appends that item's kind to the pending queue exactly
/// once and removes it from the item grid, and any later walk that arrives
/// at the same cell finds nothing there, adding nothing to the queue and
/// changing no item.
pub proof fn lemma_item_pickup_once(
    lvl: Level,
    pos: Pos,
    pending: Seq<ItemType>,
    items: Seq<Option<Item>>,
    direction: ControlType,
    later_pos: Pos,
    later_direction: ControlType,
)
    requires
        lvl.wf(),
        items_wf(lvl, items),
        pos.x < lvl.width,
        pos.y < lvl.height,
        spec_step_in_bounds(lvl, pos, direction),
        items[(pos.y + direction.spec_delta().1) * lvl.width + (pos.x
            + direction.spec_delta().0)] is Some,
        // the later walk targets the same cell
        later_pos.x < lvl.width,
        later_pos.y < lvl.height,
        spec_step_in_bounds(lvl, later_pos, later_direction),
        later_pos.x + later_direction.spec_delta().0 == pos.x + direction.spec_delta().0,
        later_pos.y + later_direction.spec_delta().1 == pos.y + direction.spec_delta().1,
    ensures
        ({
            let (p1, pending1, items1) = walk_model(lvl, pos, pending, items, direction);
            let idx = (pos.y + direction.spec_delta().1) * lvl.width + (pos.x
                + direction.spec_delta().0);
            &&& pending1 == pending.push(items[idx].unwrap().item_type)
            &&& items1[idx] is None
            &&& forall|j: int| 0 <= j < items.len() && j != idx ==> items1[j] == items[j]
            &&& ({
                let (p2, pending2, items2) = walk_model(
                    lvl,
                    later_pos,
                    pending1,
                    items1,
                    later_direction,
                );
                pending2 == pending1 && items2 == items1
            })
        }),
{
    let (dx, dy) = direction.spec_delta();
    let cx = pos.x + dx;
    let cy = pos.y + dy;
    crate::level::lemma_grid_index_in_range(lvl.width as int, lvl.height as int, cx, cy);
}

} // verus!
