use movable_tiles::clock::{GridClock, ACTION_NANOS, WALK_NANOS};
use movable_tiles::game::Game;
use movable_tiles::motion::world_position_transform_delta;
use movable_tiles::player::{KeyInput, PlayerState, RightHand};
use movable_tiles::world::{
    AddItemToWorldEvent, EntityId, OldPosition, Owner, Position, RemoveItemFromWorldEvent,
    WorldEvent,
};

const PLAYER: EntityId = EntityId(1);
const ITEM_A: EntityId = EntityId(10);
const ITEM_B: EntityId = EntityId(11);

fn no_keys() -> KeyInput {
    KeyInput { left: false, right: false, up: false, down: false, interact: false }
}

fn interact() -> KeyInput {
    KeyInput { interact: true, ..no_keys() }
}

fn left() -> KeyInput {
    KeyInput { left: true, ..no_keys() }
}

fn cell(x: i32, y: i32) -> Position {
    Position { x, y }
}

#[test]
fn pick_from_own_cell() {
    let mut g = Game::new(PLAYER, cell(0, 0));
    assert!(g.spawn_item(ITEM_A, cell(0, 0)));
    let ev = g.tick(0, interact());
    assert_eq!(g.player.state, PlayerState::Pick(ITEM_A));
    assert_eq!(ev, vec![WorldEvent::Remove(RemoveItemFromWorldEvent(ITEM_A, cell(0, 0)))]);
    assert_eq!(g.item_at(cell(0, 0)), None);
    assert_eq!(g.player.right_hand, RightHand(Some(ITEM_A)));
    let ev = g.tick(ACTION_NANOS, no_keys());
    assert!(ev.is_empty());
    assert_eq!(g.player.state, PlayerState::Idle);
    assert_eq!(g.player.right_hand, RightHand(Some(ITEM_A)));
    assert_eq!(g.item_at(cell(0, 0)), None);
    assert_eq!(g.owner_of(ITEM_A), Some(Owner(PLAYER)));
}

#[test]
fn swap_carried_for_ground_item() {
    let mut g = Game::new(PLAYER, cell(2, 2));
    assert!(g.spawn_item(ITEM_A, cell(2, 2)));
    g.tick(0, interact());
    g.tick(ACTION_NANOS, no_keys());
    assert_eq!(g.player.right_hand, RightHand(Some(ITEM_A)));
    assert!(g.spawn_item(ITEM_B, cell(2, 2)));

    let ev = g.tick(0, interact());
    assert_eq!(g.player.state, PlayerState::PickAndDrop(ITEM_B));
    assert_eq!(ev, vec![WorldEvent::Remove(RemoveItemFromWorldEvent(ITEM_B, cell(2, 2)))]);
    assert_eq!(g.item_at(cell(2, 2)), None);
    assert_eq!(g.player.right_hand, RightHand(Some(ITEM_A)));
    assert_eq!(g.owner_of(ITEM_B), Some(Owner(PLAYER)));

    let ev = g.tick(ACTION_NANOS, no_keys());
    assert_eq!(ev, vec![WorldEvent::Add(AddItemToWorldEvent(ITEM_A, cell(2, 2)))]);
    assert_eq!(g.item_at(cell(2, 2)), Some(ITEM_A));
    assert_eq!(g.player.right_hand, RightHand(Some(ITEM_B)));
    assert_eq!(g.player.state, PlayerState::Idle);
    assert_eq!(g.owner_of(ITEM_A), None);
}

#[test]
fn walk_left_and_interpolate() {
    let mut g = Game::new(PLAYER, cell(1, 1));
    g.tick(0, left());
    assert_eq!(g.player.state, PlayerState::Walk(-1, 0));
    assert_eq!(g.player.pos, cell(0, 1));
    assert_eq!(g.player.old_pos, OldPosition { x: 1, y: 1 });

    g.tick(WALK_NANOS / 2, no_keys());
    assert_eq!(g.player.state, PlayerState::Walk(-1, 0));
    assert_eq!(g.player.pos, cell(0, 1));
    assert_eq!(g.player.old_pos, OldPosition { x: 1, y: 1 });
    let p = world_position_transform_delta(g.player.pos, g.player.old_pos, &g.player.action_timer);
    assert_eq!(p.den, WALK_NANOS);
    assert_eq!(p.x_num, 16 * WALK_NANOS as i128);
    assert_eq!(p.y_num, 32 * WALK_NANOS as i128);

    g.tick(WALK_NANOS / 2, no_keys());
    assert_eq!(g.player.state, PlayerState::Idle);
    assert_eq!(g.player.pos, cell(0, 1));
}

#[test]
fn pick_then_drop_restores_index() {
    let mut g = Game::new(PLAYER, cell(4, -3));
    assert!(g.spawn_item(ITEM_A, cell(4, -3)));
    assert!(g.spawn_item(ITEM_B, cell(5, -3)));
    g.tick(0, interact());
    assert_eq!(g.item_at(cell(4, -3)), None);
    g.tick(ACTION_NANOS, interact());
    assert_eq!(g.player.state, PlayerState::Drop);
    let ev = g.tick(ACTION_NANOS, no_keys());
    assert_eq!(ev, vec![WorldEvent::Add(AddItemToWorldEvent(ITEM_A, cell(4, -3)))]);
    assert_eq!(g.item_at(cell(4, -3)), Some(ITEM_A));
    assert_eq!(g.item_at(cell(5, -3)), Some(ITEM_B));
    assert_eq!(g.player.right_hand, RightHand(None));
    assert_eq!(g.owner_of(ITEM_A), None);
}

#[test]
fn each_item_in_one_place_over_many_ticks() {
    let mut g = Game::new(PLAYER, cell(0, 0));
    assert!(g.spawn_item(ITEM_A, cell(0, 0)));
    assert!(g.spawn_item(ITEM_B, cell(1, 0)));
    let script = [
        (0, interact()),
        (ACTION_NANOS, KeyInput { right: true, ..no_keys() }),
        (WALK_NANOS, interact()),
        (ACTION_NANOS / 2, no_keys()),
        (ACTION_NANOS, interact()),
        (ACTION_NANOS, KeyInput { left: true, ..no_keys() }),
        (WALK_NANOS, interact()),
        (ACTION_NANOS, no_keys()),
    ];
    for (delta, keys) in script.iter() {
        g.tick(*delta, *keys);
        for item in [ITEM_A, ITEM_B] {
            let on_ground = [cell(0, 0), cell(1, 0)]
                .iter()
                .filter(|c| g.item_at(**c) == Some(item))
                .count();
            let in_hand = (g.player.right_hand == RightHand(Some(item))) as usize;
            let lifting = (g.player.state == PlayerState::PickAndDrop(item)) as usize;
            assert_eq!(on_ground + in_hand + lifting, 1);
        }
    }
}

#[test]
fn action_changes_only_through_idle() {
    let mut g = Game::new(PLAYER, cell(0, 0));
    assert!(g.spawn_item(ITEM_A, cell(0, 0)));
    g.tick(0, interact());
    let before = g.player.state;
    // A held key while the pick runs changes nothing.
    g.tick(ACTION_NANOS / 5, left());
    assert_eq!(g.player.state, before);
    assert_eq!(g.player.pos, cell(0, 0));
}

#[test]
fn interact_beats_movement() {
    let mut g = Game::new(PLAYER, cell(0, 0));
    assert!(g.spawn_item(ITEM_A, cell(0, 0)));
    g.tick(0, KeyInput { left: true, up: true, interact: true, ..no_keys() });
    assert_eq!(g.player.state, PlayerState::Pick(ITEM_A));
    assert_eq!(g.player.pos, cell(0, 0));
}

#[test]
fn interact_on_empty_cell_empty_handed_walks_or_idles() {
    let mut g = Game::new(PLAYER, cell(0, 0));
    g.tick(0, interact());
    assert_eq!(g.player.state, PlayerState::Idle);
    g.tick(0, KeyInput { right: true, up: true, interact: true, ..no_keys() });
    assert_eq!(g.player.state, PlayerState::Walk(1, 1));
    assert_eq!(g.player.pos, cell(1, 1));
}

#[test]
fn opposite_keys_cancel() {
    let mut g = Game::new(PLAYER, cell(0, 0));
    g.tick(0, KeyInput { left: true, right: true, ..no_keys() });
    assert_eq!(g.player.state, PlayerState::Idle);
    assert_eq!(g.player.pos, cell(0, 0));
}

#[test]
fn no_step_off_the_grid() {
    let mut g = Game::new(PLAYER, cell(i32::MAX, i32::MIN));
    g.tick(0, KeyInput { right: true, down: true, ..no_keys() });
    assert_eq!(g.player.state, PlayerState::Idle);
    g.tick(0, KeyInput { left: true, down: true, ..no_keys() });
    assert_eq!(g.player.state, PlayerState::Walk(-1, 0));
    assert_eq!(g.player.pos, cell(i32::MAX - 1, i32::MIN));
}

#[test]
fn spawn_refusals() {
    let mut g = Game::new(PLAYER, cell(0, 0));
    assert!(g.spawn_item(ITEM_A, cell(3, 3)));
    assert!(!g.spawn_item(ITEM_B, cell(3, 3)));
    assert!(!g.spawn_item(ITEM_A, cell(4, 4)));
    assert_eq!(g.item_at(cell(4, 4)), None);
    assert!(g.spawn_item(ITEM_B, cell(0, 0)));
    g.tick(0, interact());
    g.tick(ACTION_NANOS, interact());
    // Carrying B, the agent is now dropping it on its own free cell.
    assert_eq!(g.player.state, PlayerState::Drop);
    assert!(!g.spawn_item(EntityId(12), cell(0, 0)));
    assert!(!g.spawn_item(ITEM_B, cell(5, 5)));
}

#[test]
fn drop_onto_cell_refilled_by_swap_picks_again() {
    // After a swap completes, the cell holds the dropped item; with interact
    // still held the agent swaps again instead of dropping onto it.
    let mut g = Game::new(PLAYER, cell(0, 0));
    assert!(g.spawn_item(ITEM_A, cell(0, 0)));
    g.tick(0, interact());
    g.tick(ACTION_NANOS, no_keys());
    assert!(g.spawn_item(ITEM_B, cell(0, 0)));
    g.tick(0, interact());
    let ev = g.tick(ACTION_NANOS, interact());
    assert_eq!(g.player.state, PlayerState::PickAndDrop(ITEM_A));
    assert_eq!(
        ev,
        vec![
            WorldEvent::Add(AddItemToWorldEvent(ITEM_A, cell(0, 0))),
            WorldEvent::Remove(RemoveItemFromWorldEvent(ITEM_A, cell(0, 0))),
        ]
    );
    assert_eq!(g.item_at(cell(0, 0)), None);
    assert_eq!(g.player.right_hand, RightHand(Some(ITEM_B)));
    g.tick(ACTION_NANOS, no_keys());
    assert_eq!(g.item_at(cell(0, 0)), Some(ITEM_B));
    assert_eq!(g.player.right_hand, RightHand(Some(ITEM_A)));
}

#[test]
fn fresh_game_clock_is_finished() {
    let g = Game::new(PLAYER, cell(7, 8));
    assert!(g.player.action_timer.is_finished());
    assert_eq!(g.player.action_timer, GridClock { duration: 0, elapsed: 0 });
    assert_eq!(g.player.old_pos, OldPosition { x: 7, y: 8 });
}
