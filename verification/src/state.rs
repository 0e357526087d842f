//! The per-tick orchestrator: feeds one tick's buffered input into the
//! control inventory, sweeps out spent controls, converts collected items
//! into new controls, and reports whether the player stands on the exit.

use vstd::prelude::*;

use crate::game::{
    spec_step_in_bounds, step_in_bounds, walk_model, Control, Item, ItemType, Player, Pos, TileType,
};
use crate::level::{
    char_at, is_parse_of, load_err, Level, LoadError, NUM_CONTROL_SLOTS,
};

verus! {

/// The energy a control starts with when created from a collected item.
pub const INITIAL_CONTROL_ENERGY: u32 = 5;

/// The parts of the game state one tick may change: the inventory slots,
/// the player position, the pending-item queue, and the item grid.  The
/// terrain never changes within a tick.
#[verifier::ext_equal]
pub ghost struct TickState {
    pub controls: Seq<Option<Control>>,
    pub pos: Pos,
    pub pending: Seq<ItemType>,
    pub items: Seq<Option<Item>>,
}

/// One buffered slot press: an empty or spent slot is a no-op; otherwise
/// the control loses one energy and, if the step stays on the grid, the
/// movement resolver applies its direction.  A step that would leave the
/// grid spends the energy but moves nothing, like a bump.
pub open spec fn press_step(lvl: Level, t: TickState, slot: int) -> TickState {
    match t.controls[slot] {
        Some(c) => {
            if c.energy > 0 {
                let spent = Control { energy: (c.energy - 1) as u32, control_type: c.control_type };
                let controls = t.controls.update(slot, Some(spent));
                if spec_step_in_bounds(lvl, t.pos, c.control_type) {
                    let (pos, pending, items) = walk_model(
                        lvl,
                        t.pos,
                        t.pending,
                        t.items,
                        c.control_type,
                    );
                    TickState { controls, pos, pending, items }
                } else {
                    TickState { controls, ..t }
                }
            } else {
                t
            }
        },
        None => t,
    }
}

/// A whole tick's presses, applied in buffer order.
pub open spec fn run_presses(lvl: Level, t: TickState, presses: Seq<usize>) -> TickState
    decreases presses.len(),
{
    if presses.len() == 0 {
        t
    } else {
        run_presses(lvl, press_step(lvl, t, presses[0] as int), presses.drop_first())
    }
}

/// The post-activation sweep: every control whose energy reached zero is
/// removed; every other slot is untouched.
pub open spec fn sweep_model(controls: Seq<Option<Control>>) -> Seq<Option<Control>> {
    Seq::new(
        controls.len(),
        |i: int|
            match controls[i] {
                Some(c) => if c.energy > 0 {
                    Some(c)
                } else {
                    None
                },
                None => None,
            },
    )
}

/// The first empty slot, or the slot count if every slot is occupied.
pub open spec fn first_empty(controls: Seq<Option<Control>>) -> int
    decreases controls.len(),
{
    if controls.len() == 0 {
        0
    } else if controls[0] is None {
        0
    } else {
        1 + first_empty(controls.drop_first())
    }
}

/// The control a collected item turns into.
pub open spec fn new_control(item_type: ItemType) -> Control {
    Control { energy: INITIAL_CONTROL_ENERGY, control_type: item_type.spec_control_type() }
}

/// Converting one collected item: the new control fills the first empty
/// slot; with no slot empty it is silently discarded.
pub open spec fn add_control_model(
    controls: Seq<Option<Control>>,
    item_type: ItemType,
) -> Seq<Option<Control>> {
    if first_empty(controls) < controls.len() {
        controls.update(first_empty(controls), Some(new_control(item_type)))
    } else {
        controls
    }
}

/// Draining the pending-item queue in collection order.
pub open spec fn drain_model(
    controls: Seq<Option<Control>>,
    pending: Seq<ItemType>,
) -> Seq<Option<Control>>
    decreases pending.len(),
{
    if pending.len() == 0 {
        controls
    } else {
        drain_model(add_control_model(controls, pending[0]), pending.drop_first())
    }
}

/// The loss condition: every inventory slot is empty.
pub open spec fn exhausted_model(controls: Seq<Option<Control>>) -> bool {
    forall|i: int| 0 <= i < controls.len() ==> (#[trigger] controls[i]) is None
}

/// `first_empty` names the first empty slot: every slot before it is
/// occupied, and it points at an empty slot unless every slot is occupied.
proof fn lemma_first_empty(controls: Seq<Option<Control>>)
    ensures
        0 <= first_empty(controls) <= controls.len(),
        forall|j: int| 0 <= j < first_empty(controls) ==> (#[trigger] controls[j]) is Some,
        first_empty(controls) < controls.len() ==> controls[first_empty(controls)] is None,
    decreases controls.len(),
{
    if controls.len() > 0 && !(controls[0] is None) {
        lemma_first_empty(controls.drop_first());
        assert forall|j: int|
            0 <= j < first_empty(controls) implies (#[trigger] controls[j]) is Some by {
            if j > 0 {
                assert(controls.drop_first()[j - 1] is Some);
            }
        }
    }
}

/// Converts a collected item into a new control with the fixed initial
/// energy and inserts it into the first empty slot in ascending index
/// order; with no slot empty the new control is silently discarded.
pub fn add_control(controls: &mut Vec<Option<Control>>, item_type: ItemType)
    ensures
        final(controls)@ == add_control_model(old(controls)@, item_type),
        final(controls)@.len() == old(controls)@.len(),
{
    proof {
        lemma_first_empty(controls@);
    }
    let control = Control {
        energy: INITIAL_CONTROL_ENERGY,
        control_type: item_type.control_type(),
    };
    let mut i: usize = 0;
    while i < controls.len()
        invariant
            i <= controls@.len(),
            controls@ == old(controls)@,
            control == new_control(item_type),
            forall|j: int| 0 <= j < i ==> (#[trigger] controls@[j]) is Some,
        decreases controls@.len() - i,
    {
        let occupied = match &controls[i] {
            Some(_) => true,
            None => false,
        };
        if !occupied {
            proof {
                lemma_first_empty(controls@);
                assert(first_empty(controls@) == i) by {
                    lemma_first_empty_at(controls@, i as int);
                }
            }
            controls.set(i, Some(control));
            return;
        }
        i += 1;
    }
    proof {
        lemma_first_empty_full(controls@);
    }
}

/// If every slot before `i` is occupied and slot `i` is empty, `i` is the
/// first empty slot.
proof fn lemma_first_empty_at(controls: Seq<Option<Control>>, i: int)
    requires
        0 <= i < controls.len(),
        forall|j: int| 0 <= j < i ==> (#[trigger] controls[j]) is Some,
        controls[i] is None,
    ensures
        first_empty(controls) == i,
    decreases i,
{
    if i > 0 {
        assert forall|j: int| 0 <= j < i - 1 implies (#[trigger] controls.drop_first()[j]) is Some by {
            assert(controls[j + 1] is Some);
        }
        lemma_first_empty_at(controls.drop_first(), i - 1);
    }
}

/// With every slot occupied there is no first empty slot.
proof fn lemma_first_empty_full(controls: Seq<Option<Control>>)
    requires
        forall|j: int| 0 <= j < controls.len() ==> (#[trigger] controls[j]) is Some,
    ensures
        first_empty(controls) == controls.len(),
    decreases controls.len(),
{
    if controls.len() > 0 {
        assert forall|j: int|
            0 <= j < controls.drop_first().len() implies (#[trigger] controls.drop_first()[j]) is Some by {
            assert(controls[j + 1] is Some);
        }
        lemma_first_empty_full(controls.drop_first());
    }
}

/// What one tick reports back: whether the player now stands on the exit,
/// in which case the caller advances to the next level.
#[derive(Clone, Copy, PartialEq, Eq, Structural, Debug)]
pub enum TickOutcome {
    Continue,
    ReachedExit,
}

/// The whole game state the orchestrator owns: the current level, the
/// player, the four inventory slots, and the loss flag.
pub struct GameState {
    pub player: Player,
    pub level: Level,
    pub controls: Vec<Option<Control>>,
    pub lost: bool,
}

impl GameState {
    /// Well-formedness: the level is well-formed, there are exactly four
    /// inventory slots, and the player stands inside the grid.
    pub open spec fn wf(self) -> bool {
        &&& self.level.wf()
        &&& self.controls@.len() == NUM_CONTROL_SLOTS
        &&& self.player.pos.x < self.level.width
        &&& self.player.pos.y < self.level.height
    }

    /// The tick-mutable parts of this state.
    pub open spec fn tick_view(self) -> TickState {
        TickState {
            controls: self.controls@,
            pos: self.player.pos,
            pending: self.player.pending_items@,
            items: self.level.items@,
        }
    }

    /// The state before any level is loaded: the standard-size all-floor
    /// level, the player at its start, an empty inventory, nothing lost.
    pub fn new() -> (r: GameState)
        ensures
            r.wf(),
            r.level.number == 0,
            r.player.pos == r.level.player_start,
            r.player.pending_items@ == Seq::<ItemType>::empty(),
            forall|i: int| 0 <= i < NUM_CONTROL_SLOTS ==> (#[trigger] r.controls@[i]) is None,
            !r.lost,
    {
        let level = Level::new();
        let mut controls: Vec<Option<Control>> = Vec::new();
        controls.push(None);
        controls.push(None);
        controls.push(None);
        controls.push(None);
        GameState {
            player: Player { pos: level.player_start, pending_items: Vec::new() },
            level,
            controls,
            lost: false,
        }
    }

    /// Loads the numbered level from its textual description and replaces
    /// the whole state with it: the player moves to the new start with an
    /// empty pending queue, the inventory becomes the level's starting
    /// controls, and the loss flag is recomputed.  On a load error nothing
    /// changes.
    pub fn load_level(
        &mut self,
        number: usize,
        width: usize,
        height: usize,
        lines: &Vec<String>,
    ) -> (r: Result<(), LoadError>)
        requires
            0 < width,
            0 < height,
            width * height <= usize::MAX,
        ensures
            r is Ok <==> load_err(lines@, width as int, height as int) is None,
            r matches Err(e) ==> load_err(lines@, width as int, height as int) == Some(e)
                && *final(self) == *old(self),
            r is Ok ==> {
                &&& final(self).wf()
                &&& is_parse_of(
                    final(self).level,
                    number as int,
                    width as int,
                    height as int,
                    lines@,
                )
                &&& final(self).player.pos == final(self).level.player_start
                &&& final(self).player.pending_items@ == Seq::<ItemType>::empty()
                &&& final(self).controls@ == final(self).level.controls_start@
                &&& final(self).lost == exhausted_model(final(self).controls@)
            },
    {
        match Level::load(number, width, height, lines) {
            Ok(level) => {
                self.player.pos = level.player_start;
                self.player.pending_items = Vec::new();
                let mut controls: Vec<Option<Control>> = Vec::new();
                let mut i: usize = 0;
                while i < level.controls_start.len()
                    invariant
                        i <= level.controls_start@.len(),
                        controls@.len() == i,
                        forall|j: int|
                            0 <= j < i ==> #[trigger] controls@[j] == level.controls_start@[j],
                    decreases level.controls_start@.len() - i,
                {
                    controls.push(level.controls_start[i]);
                    i += 1;
                }
                proof {
                    assert(controls@ =~= level.controls_start@);
                }
                self.controls = controls;
                self.lost = is_exhausted(&self.controls);
                self.level = level;
                Ok(())
            },
            Err(e) => Err(e),
        }
    }

    /// Advances to the next numbered level, handing its description over.
    pub fn next_level(&mut self, width: usize, height: usize, lines: &Vec<String>) -> (r: Result<
        (),
        LoadError,
    >)
        requires
            old(self).level.number < usize::MAX,
            0 < width,
            0 < height,
            width * height <= usize::MAX,
        ensures
            r is Ok <==> load_err(lines@, width as int, height as int) is None,
            r matches Err(e) ==> load_err(lines@, width as int, height as int) == Some(e)
                && *final(self) == *old(self),
            r is Ok ==> {
                &&& final(self).wf()
                &&& is_parse_of(
                    final(self).level,
                    old(self).level.number + 1,
                    width as int,
                    height as int,
                    lines@,
                )
                &&& final(self).player.pos == final(self).level.player_start
                &&& final(self).player.pending_items@ == Seq::<ItemType>::empty()
                &&& final(self).controls@ == final(self).level.controls_start@
                &&& final(self).lost == exhausted_model(final(self).controls@)
            },
    {
        let number = self.level.number + 1;
        self.load_level(number, width, height, lines)
    }

    /// Reloads the current level from its description, resetting the grid,
    /// the player, and the inventory to the level's initial state.
    pub fn reload_level(&mut self, width: usize, height: usize, lines: &Vec<String>) -> (r: Result<
        (),
        LoadError,
    >)
        requires
            0 < width,
            0 < height,
            width * height <= usize::MAX,
        ensures
            r is Ok <==> load_err(lines@, width as int, height as int) is None,
            r matches Err(e) ==> load_err(lines@, width as int, height as int) == Some(e)
                && *final(self) == *old(self),
            r is Ok ==> {
                &&& final(self).wf()
                &&& is_parse_of(
                    final(self).level,
                    old(self).level.number as int,
                    width as int,
                    height as int,
                    lines@,
                )
                &&& final(self).player.pos == final(self).level.player_start
                &&& final(self).player.pending_items@ == Seq::<ItemType>::empty()
                &&& final(self).controls@ == final(self).level.controls_start@
                &&& final(self).lost == exhausted_model(final(self).controls@)
            },
    {
        let number = self.level.number;
        self.load_level(number, width, height, lines)
    }

    /// One tick: activates the pressed slots in buffer order (an empty or
    /// spent slot is a no-op, and a step that would leave the grid spends
    /// energy without moving), sweeps out controls whose energy reached
    /// zero, converts the items collected this tick into new controls in
    /// collection order, recomputes the loss flag from the swept and
    /// refilled inventory, and reports whether the player now stands on
    /// the exit, in which case the caller advances to the next level.
    pub fn update(&mut self, presses: &Vec<usize>) -> (r: TickOutcome)
        requires
            old(self).wf(),
            forall|i: int|
                0 <= i < presses@.len() ==> #[trigger] presses@[i] < NUM_CONTROL_SLOTS,
        ensures
            final(self).wf(),
            final(self).level.tiles == old(self).level.tiles,
            final(self).level.width == old(self).level.width,
            final(self).level.height == old(self).level.height,
            final(self).level.number == old(self).level.number,
            final(self).level.player_start == old(self).level.player_start,
            final(self).level.controls_start == old(self).level.controls_start,
            ({
                let t1 = run_presses(old(self).level, old(self).tick_view(), presses@);
                let slots = drain_model(sweep_model(t1.controls), t1.pending);
                &&& final(self).controls@ == slots
                &&& final(self).player.pos == t1.pos
                &&& final(self).player.pending_items@ == Seq::<ItemType>::empty()
                &&& final(self).level.items@ == t1.items
                &&& final(self).lost == exhausted_model(slots)
                &&& (r == TickOutcome::ReachedExit <==> final(self).level.spec_tile_at(
                    t1.pos.x as int,
                    t1.pos.y as int,
                ) == TileType::Exit)
            }),
    {
        let ghost lvl0 = self.level;
        let ghost t0 = self.tick_view();
        proof {
            assert(presses@.skip(0) =~= presses@);
        }
        // Activate the pressed slots in buffer order.
        let mut pi: usize = 0;
        while pi < presses.len()
            invariant
                pi <= presses@.len(),
                forall|i: int|
                    0 <= i < presses@.len() ==> #[trigger] presses@[i] < NUM_CONTROL_SLOTS,
                self.wf(),
                self.level.tiles == lvl0.tiles,
                self.level.width == lvl0.width,
                self.level.height == lvl0.height,
                self.level.number == lvl0.number,
                self.level.player_start == lvl0.player_start,
                self.level.controls_start == lvl0.controls_start,
                run_presses(lvl0, t0, presses@) == run_presses(
                    lvl0,
                    self.tick_view(),
                    presses@.skip(pi as int),
                ),
            decreases presses@.len() - pi,
        {
            let ghost tv = self.tick_view();
            let slot = presses[pi];
            match self.controls[slot] {
                Some(c) => {
                    if c.has_energy() {
                        let mut spent = c;
                        if step_in_bounds(&self.level, self.player.pos, c.control_type) {
                            spent.activate(&mut self.player, &mut self.level);
                        } else {
                            spent.energy = spent.energy - 1;
                        }
                        self.controls.set(slot, Some(spent));
                    }
                },
                None => {},
            }
            proof {
                assert(self.tick_view() =~= press_step(lvl0, tv, slot as int));
                assert(presses@.skip(pi as int).drop_first() =~= presses@.skip(pi as int + 1));
                assert(presses@.skip(pi as int)[0] == presses@[pi as int]);
            }
            pi += 1;
        }
        proof {
            assert(presses@.skip(presses@.len() as int) =~= Seq::<usize>::empty());
        }
        let ghost t1 = self.tick_view();
        let ghost lvl1 = self.level;
        let ghost pos1 = self.player.pos;
        // Sweep out every control whose energy reached zero.
        let mut si: usize = 0;
        while si < NUM_CONTROL_SLOTS
            invariant
                si <= NUM_CONTROL_SLOTS,
                self.wf(),
                self.level == lvl1,
                self.player.pos == pos1,
                self.player.pending_items@ == t1.pending,
                t1.controls.len() == NUM_CONTROL_SLOTS,
                forall|j: int|
                    0 <= j < si ==> #[trigger] self.controls@[j] == sweep_model(t1.controls)[j],
                forall|j: int|
                    si <= j < NUM_CONTROL_SLOTS ==> #[trigger] self.controls@[j] == t1.controls[j],
            decreases NUM_CONTROL_SLOTS - si,
        {
            match self.controls[si] {
                Some(c) => {
                    if !c.has_energy() {
                        self.controls.set(si, None);
                    }
                },
                None => {},
            }
            si += 1;
        }
        proof {
            assert(self.controls@ =~= sweep_model(t1.controls));
        }
        // Convert the items collected this tick into new controls.
        let ghost swept = self.controls@;
        let ghost pend = self.player.pending_items@;
        proof {
            assert(pend.skip(0) =~= pend);
        }
        let mut k: usize = 0;
        while k < self.player.pending_items.len()
            invariant
                k <= self.player.pending_items@.len(),
                self.wf(),
                self.level == lvl1,
                self.player.pos == pos1,
                self.player.pending_items@ == pend,
                drain_model(swept, pend) == drain_model(
                    self.controls@,
                    pend.skip(k as int),
                ),
            decreases self.player.pending_items@.len() - k,
        {
            let it = self.player.pending_items[k];
            add_control(&mut self.controls, it);
            proof {
                assert(pend.skip(k as int).drop_first() =~= pend.skip(k as int + 1));
                assert(pend.skip(k as int)[0] == pend[k as int]);
            }
            k += 1;
        }
        self.player.pending_items = Vec::new();
        proof {
            assert(pend.skip(pend.len() as int) =~= Seq::<ItemType>::empty());
        }
        // Recompute the loss flag, then poll the terrain under the player.
        let lost_now = is_exhausted(&self.controls);
        self.lost = lost_now;
        let tile = self.level.get(self.player.pos.x, self.player.pos.y);
        match tile {
            Some(t) => {
                if t.tile_type == TileType::Exit {
                    TickOutcome::ReachedExit
                } else {
                    TickOutcome::Continue
                }
            },
            None => TickOutcome::Continue,
        }
    }

    /// The loss condition on this state's inventory: every slot empty.
    pub fn out_of_control(&self) -> (r: bool)
        ensures
            r == exhausted_model(self.controls@),
    {
        is_exhausted(&self.controls)
    }
}

/// Energy monotonicity, sweep half: the post-activation sweep removes
/// exactly the controls whose energy reached zero and keeps every other
/// slot untouched, so no control with zero energy survives it.  (The other
/// half is `Control::activate`'s contract: each activation decrements the
/// target control's energy by exactly one, and a `u32` is never negative.)
pub proof fn lemma_sweep_removes_exhausted(controls: Seq<Option<Control>>)
    ensures
        sweep_model(controls).len() == controls.len(),
        forall|i: int|
            0 <= i < controls.len() ==> #[trigger] sweep_model(controls)[i] == (match controls[i] {
                Some(c) => if c.energy > 0 {
                    Some(c)
                } else {
                    None
                },
                None => None,
            }),
        forall|i: int|
            0 <= i < controls.len() ==> ((#[trigger] sweep_model(controls)[i]) matches Some(c)
                ==> c.energy > 0),
{
}

/// Adding a collected item never empties a slot: every occupied slot is
/// kept as it was, so the loss condition can never arise from `add_control`
/// — only the sweep empties slots.
pub proof fn lemma_add_preserves_occupied(controls: Seq<Option<Control>>, item_type: ItemType)
    ensures
        add_control_model(controls, item_type).len() == controls.len(),
        forall|i: int|
            0 <= i < controls.len() && (#[trigger] controls[i]) is Some ==> add_control_model(
                controls,
                item_type,
            )[i] == controls[i],
        !exhausted_model(controls) ==> !exhausted_model(add_control_model(controls, item_type)),
{
    lemma_first_empty(controls);
    if !exhausted_model(controls) {
        let w = choose|i: int| 0 <= i < controls.len() && !((#[trigger] controls[i]) is None);
        assert(add_control_model(controls, item_type)[w] is Some);
    }
}

/// Draining the whole pending queue never empties a slot either: every
/// slot occupied before the drain is unchanged by it, so an inventory that
/// is exhausted after the drain was already exhausted before it.
pub proof fn lemma_drain_preserves_occupied(controls: Seq<Option<Control>>, pending: Seq<ItemType>)
    ensures
        drain_model(controls, pending).len() == controls.len(),
        forall|i: int|
            0 <= i < controls.len() && (#[trigger] controls[i]) is Some ==> drain_model(
                controls,
                pending,
            )[i] == controls[i],
        exhausted_model(drain_model(controls, pending)) ==> exhausted_model(controls),
    decreases pending.len(),
{
    if pending.len() > 0 {
        lemma_add_preserves_occupied(controls, pending[0]);
        lemma_drain_preserves_occupied(add_control_model(controls, pending[0]), pending.drop_first());
    }
    if exhausted_model(drain_model(controls, pending)) && !exhausted_model(controls) {
        let w = choose|i: int| 0 <= i < controls.len() && !((#[trigger] controls[i]) is None);
        assert(drain_model(controls, pending)[w] is Some);
    }
}

/// Activations never vacate or fill a slot: after any sequence of presses
/// a slot is occupied exactly when it was occupied before.  Together with
/// the two lemmas above, the loss condition can only ever become true as a
/// result of the post-activation sweep.
pub proof fn lemma_presses_preserve_occupancy(lvl: Level, t: TickState, presses: Seq<usize>)
    requires
        forall|j: int| 0 <= j < presses.len() ==> (#[trigger] presses[j]) < t.controls.len(),
    ensures
        run_presses(lvl, t, presses).controls.len() == t.controls.len(),
        forall|i: int|
            0 <= i < t.controls.len() ==> ((#[trigger] run_presses(
                lvl,
                t,
                presses,
            ).controls[i]) is Some <==> t.controls[i] is Some),
    decreases presses.len(),
{
    if presses.len() > 0 {
        let t2 = press_step(lvl, t, presses[0] as int);
        assert(t2.controls.len() == t.controls.len());
        assert forall|j: int|
            0 <= j < presses.drop_first().len() implies (#[trigger] presses.drop_first()[j])
                < t2.controls.len() by {
            assert(presses[j + 1] < t.controls.len());
        }
        lemma_presses_preserve_occupancy(lvl, t2, presses.drop_first());
    }
}

/// Exit triggers exactly one level advance per entry: a level change puts
/// the player on the new level's start with the old level's items and
/// inventory fully discarded (the contract of `load_level`), and when the
/// description marks that start with `@` its tile is floor, so a following
/// tick without input polls a non-exit tile and reports no further exit.
pub proof fn lemma_single_advance_per_entry(s: GameState, lines: Seq<String>)
    requires
        s.wf(),
        is_parse_of(s.level, s.level.number as int, s.level.width as int, s.level.height as int, lines),
        s.player.pos == s.level.player_start,
        exists|x: int, y: int|
            0 <= x < s.level.width && 0 <= y < s.level.height && #[trigger] char_at(lines, x, y)
                == '@',
    ensures
        ({
            let t1 = run_presses(s.level, s.tick_view(), Seq::<usize>::empty());
            &&& t1.pos == s.player.pos
            &&& s.level.spec_tile_at(t1.pos.x as int, t1.pos.y as int) != TileType::Exit
        }),
{
    crate::level::lemma_loaded_start_is_floor(
        s.level,
        s.level.number as int,
        s.level.width as int,
        s.level.height as int,
        lines,
    );
}

/// The loss condition: true exactly when every inventory slot is empty.
pub fn is_exhausted(controls: &Vec<Option<Control>>) -> (r: bool)
    ensures
        r == exhausted_model(controls@),
{
    let mut i: usize = 0;
    while i < controls.len()
        invariant
            i <= controls@.len(),
            forall|j: int| 0 <= j < i ==> (#[trigger] controls@[j]) is None,
        decreases controls@.len() - i,
    {
        let occupied = match &controls[i] {
            Some(_) => true,
            None => false,
        };
        if occupied {
            return false;
        }
        i += 1;
    }
    true
}

} // verus!
