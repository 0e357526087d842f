//! Tests of the inventory lifecycle and the per-tick orchestrator.

use noctrl::game::{Control, ControlType, ItemType, Pos};
use noctrl::state::{
    add_control, is_exhausted, GameState, TickOutcome, INITIAL_CONTROL_ENERGY,
};

fn lines(strs: &[&str]) -> Vec<String> {
    strs.iter().map(|s| String::from(*s)).collect()
}

fn slots(
    a: Option<Control>,
    b: Option<Control>,
    c: Option<Control>,
    d: Option<Control>,
) -> Vec<Option<Control>> {
    vec![a, b, c, d]
}

fn ctl(control_type: ControlType, energy: u32) -> Control {
    Control { energy, control_type }
}

#[test]
fn add_control_fills_the_first_empty_slot() {
    let mut inv = slots(Some(ctl(ControlType::Up, 2)), None, Some(ctl(ControlType::Left, 1)), None);
    add_control(&mut inv, ItemType::RightControl);
    let added = inv[1].unwrap();
    assert_eq!(added.control_type, ControlType::Right);
    assert_eq!(added.energy, INITIAL_CONTROL_ENERGY);
    // the occupied slots are untouched
    assert_eq!(inv[0].unwrap().energy, 2);
    assert_eq!(inv[2].unwrap().energy, 1);
    assert!(inv[3].is_none());
}

#[test]
fn add_control_discards_when_full() {
    let full = slots(
        Some(ctl(ControlType::Up, 1)),
        Some(ctl(ControlType::Down, 1)),
        Some(ctl(ControlType::Left, 1)),
        Some(ctl(ControlType::Right, 1)),
    );
    let mut inv = full.clone();
    add_control(&mut inv, ItemType::UpControl);
    for (kept, before) in inv.iter().zip(full.iter()) {
        assert_eq!(kept.unwrap().control_type, before.unwrap().control_type);
        assert_eq!(kept.unwrap().energy, 1);
    }
}

#[test]
fn is_exhausted_iff_every_slot_is_empty() {
    assert!(is_exhausted(&slots(None, None, None, None)));
    assert!(!is_exhausted(&slots(None, None, Some(ctl(ControlType::Up, 1)), None)));
}

#[test]
fn fresh_state_awaits_a_level() {
    let gs = GameState::new();
    assert_eq!(gs.level.number, 0);
    assert_eq!(gs.player.pos, gs.level.player_start);
    assert!(gs.player.pending_items.is_empty());
    assert!(gs.controls.iter().all(|c| c.is_none()));
    assert!(!gs.lost);
}

#[test]
fn load_level_resets_the_whole_state() {
    let mut gs = GameState::new();
    gs.load_level(7, 3, 1, &lines(&[".@.", "> 2"])).unwrap();
    assert_eq!(gs.level.number, 7);
    assert_eq!(gs.player.pos, Pos { x: 1, y: 0 });
    assert!(gs.player.pending_items.is_empty());
    assert_eq!(gs.controls[0].unwrap().energy, 2);
    assert!(gs.controls[1].is_none());
    assert!(!gs.lost);
}

#[test]
fn load_level_failure_changes_nothing() {
    let mut gs = GameState::new();
    gs.load_level(1, 2, 1, &lines(&["@.", "> 4"])).unwrap();
    let err = gs.load_level(2, 2, 1, &lines(&["@.", "bad line"]));
    assert!(err.is_err());
    // the previous level stays active
    assert_eq!(gs.level.number, 1);
    assert_eq!(gs.controls[0].unwrap().energy, 4);
}

#[test]
fn reaching_the_exit_reports_one_advance() {
    // a level of width 3, height 1: player start at column 0, exit at
    // column 1, wall at column 2; slot 0 holds a right control of energy 1
    let mut gs = GameState::new();
    gs.load_level(0, 3, 1, &lines(&["@>#", "> 1"])).unwrap();
    let outcome = gs.update(&vec![0usize]);
    assert_eq!(gs.player.pos, Pos { x: 1, y: 0 });
    assert!(matches!(outcome, TickOutcome::ReachedExit));
    // the spent control was swept out
    assert!(gs.controls[0].is_none());
    // a second activation attempt on the now-empty slot is a no-op
    let outcome = gs.update(&vec![0usize]);
    assert_eq!(gs.player.pos, Pos { x: 1, y: 0 });
    assert!(matches!(outcome, TickOutcome::ReachedExit));
    // the caller advances: the old level's state is fully discarded
    gs.next_level(3, 1, &lines(&[".@r", "< 9"])).unwrap();
    assert_eq!(gs.level.number, 1);
    assert_eq!(gs.player.pos, Pos { x: 1, y: 0 });
    assert_eq!(gs.controls[0].unwrap().control_type, ControlType::Left);
    assert!(gs.level.item_at(2, 0).is_some());
    let outcome = gs.update(&vec![]);
    assert!(matches!(outcome, TickOutcome::Continue));
}

#[test]
fn energy_drains_even_against_a_wall() {
    // level content `@#`, slot 0 holds a right control of energy 3:
    // three activations keep the player in place and then the sweep
    // removes the spent control, even though the player never moved
    let mut gs = GameState::new();
    gs.load_level(0, 2, 1, &lines(&["@#", "> 3"])).unwrap();
    let outcome = gs.update(&vec![0usize]);
    assert_eq!(gs.player.pos, Pos { x: 0, y: 0 });
    assert_eq!(gs.controls[0].unwrap().energy, 2);
    assert!(matches!(outcome, TickOutcome::Continue));
    assert!(!gs.lost);
    gs.update(&vec![0usize]);
    assert_eq!(gs.player.pos, Pos { x: 0, y: 0 });
    assert_eq!(gs.controls[0].unwrap().energy, 1);
    gs.update(&vec![0usize]);
    assert_eq!(gs.player.pos, Pos { x: 0, y: 0 });
    assert!(gs.controls[0].is_none());
    assert!(gs.lost);
    assert!(gs.out_of_control());
}

#[test]
fn a_step_off_the_grid_spends_energy_without_moving() {
    let mut gs = GameState::new();
    gs.load_level(0, 2, 1, &lines(&["@.", "< 2"])).unwrap();
    gs.update(&vec![0usize]);
    assert_eq!(gs.player.pos, Pos { x: 0, y: 0 });
    assert_eq!(gs.controls[0].unwrap().energy, 1);
}

#[test]
fn collected_items_become_controls_in_order() {
    let mut gs = GameState::new();
    gs.load_level(0, 3, 1, &lines(&["@rl", "> 2"])).unwrap();
    let outcome = gs.update(&vec![0usize, 0usize]);
    assert!(matches!(outcome, TickOutcome::Continue));
    assert_eq!(gs.player.pos, Pos { x: 2, y: 0 });
    // both items were picked up and the grid is empty
    assert!(gs.level.item_at(1, 0).is_none());
    assert!(gs.level.item_at(2, 0).is_none());
    assert!(gs.player.pending_items.is_empty());
    // the spent starting control was swept before the drain, so the new
    // controls fill the slots from the front, in collection order
    let first = gs.controls[0].unwrap();
    assert_eq!(first.control_type, ControlType::Right);
    assert_eq!(first.energy, INITIAL_CONTROL_ENERGY);
    let second = gs.controls[1].unwrap();
    assert_eq!(second.control_type, ControlType::Left);
    assert_eq!(second.energy, INITIAL_CONTROL_ENERGY);
    assert!(!gs.lost);
}

#[test]
fn an_item_is_picked_up_only_on_first_entry() {
    let mut gs = GameState::new();
    gs.load_level(0, 3, 1, &lines(&["@l.", "> 9"])).unwrap();
    gs.update(&vec![0usize]);
    assert_eq!(gs.controls[1].map(|c| c.control_type), Some(ControlType::Left));
    // leave the cell and come back: nothing further appears
    gs.update(&vec![0usize]);
    gs.update(&vec![1usize]);
    assert_eq!(gs.player.pos, Pos { x: 1, y: 0 });
    assert!(gs.level.item_at(1, 0).is_none());
    assert!(gs.controls[2].is_none());
    assert!(gs.controls[3].is_none());
}

#[test]
fn empty_and_spent_slots_are_no_ops() {
    let mut gs = GameState::new();
    gs.load_level(0, 3, 1, &lines(&["@..", "> 1"])).unwrap();
    // slot 3 is empty: pressing it does nothing
    let outcome = gs.update(&vec![3usize]);
    assert!(matches!(outcome, TickOutcome::Continue));
    assert_eq!(gs.player.pos, Pos { x: 0, y: 0 });
    // two presses of slot 0 in one tick: the second finds the control
    // spent and is a no-op, so the player moves only once
    gs.update(&vec![0usize, 0usize]);
    assert_eq!(gs.player.pos, Pos { x: 1, y: 0 });
    assert!(gs.controls[0].is_none());
    assert!(gs.lost);
}

#[test]
fn reload_level_restores_the_initial_state() {
    let mut gs = GameState::new();
    let src = lines(&["@r.", "> 2"]);
    gs.load_level(5, 3, 1, &src).unwrap();
    gs.update(&vec![0usize]);
    assert!(gs.level.item_at(1, 0).is_none());
    gs.reload_level(3, 1, &src).unwrap();
    assert_eq!(gs.level.number, 5);
    assert_eq!(gs.player.pos, Pos { x: 0, y: 0 });
    assert!(gs.level.item_at(1, 0).is_some());
    assert_eq!(gs.controls[0].unwrap().energy, 2);
    assert!(gs.controls[1].is_none());
}
