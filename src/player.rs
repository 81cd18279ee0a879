use vstd::prelude::*;
use crate::clock::{GridClock, WALK_NANOS, ACTION_NANOS};
use crate::world::{
    AddItemToWorldEvent, EntityId, GameWorld, OldPosition, Position, RemoveItemFromWorldEvent,
    WorldEvent, apply_events, item_at,
};

verus! {

/// Grid cells covered by one walk step along an axis.
pub const SPEED: i32 = 1;

/// What the agent is doing right now.
#[derive(Clone, Copy, Debug, PartialEq, Eq, Structural)]
pub enum PlayerState {
    Idle,
    Walk(i32, i32),
    Pick(EntityId),
    Drop,
    PickAndDrop(EntityId),
}

/// The item the agent carries, if any.
#[derive(Clone, Copy, Debug, PartialEq, Eq, Structural)]
pub struct RightHand(pub Option<EntityId>);

/// Everything an agent owns: its action, carry slot, cells and action clock.
#[derive(Clone, Copy, Debug, PartialEq, Eq, Structural)]
pub struct PlayerBundle {
    pub state: PlayerState,
    pub right_hand: RightHand,
    pub pos: Position,
    pub old_pos: OldPosition,
    pub action_timer: GridClock,
}

/// Which logical inputs are held this tick.
#[derive(Clone, Copy, Debug, PartialEq, Eq, Structural)]
pub struct KeyInput {
    pub left: bool,
    pub right: bool,
    pub up: bool,
    pub down: bool,
    pub interact: bool,
}

/// Actions change only from `Idle` or back to `Idle`, never between two busy actions.
pub open spec fn legal_change(a: PlayerState, b: PlayerState) -> bool {
    a == b || a is Idle || b is Idle
}

pub open spec fn with_state(p: PlayerBundle, s: PlayerState) -> PlayerBundle {
    PlayerBundle { state: s, ..p }
}

pub open spec fn with_timer(p: PlayerBundle, t: GridClock) -> PlayerBundle {
    PlayerBundle { action_timer: t, ..p }
}

/// The step along one axis from the two opposite keys, dropped where the
/// target would leave the representable grid.
pub open spec fn axis_step_spec(v: i32, back: bool, forth: bool) -> i32 {
    let d: int = (if forth { SPEED as int } else { 0 }) - (if back { SPEED as int } else { 0 });
    if i32::MIN <= v + d <= i32::MAX {
        d as i32
    } else {
        0
    }
}

/// Completion phase, on a clock that has already been advanced.
pub open spec fn end_spec(p: PlayerBundle) -> (PlayerBundle, Seq<WorldEvent>) {
    if !p.action_timer.finished_spec() {
        (p, Seq::empty())
    } else {
        match p.state {
            PlayerState::Walk(_, _) => (
                PlayerBundle {
                    state: PlayerState::Idle,
                    old_pos: OldPosition { x: p.pos.x, y: p.pos.y },
                    ..p
                },
                Seq::empty(),
            ),
            PlayerState::Drop => match p.right_hand.0 {
                Some(h) => (
                    PlayerBundle { state: PlayerState::Idle, right_hand: RightHand(None), ..p },
                    seq![WorldEvent::Add(AddItemToWorldEvent(h, p.pos))],
                ),
                None => (with_state(p, PlayerState::Idle), Seq::empty()),
            },
            PlayerState::PickAndDrop(g) => match p.right_hand.0 {
                Some(h) => (
                    PlayerBundle { state: PlayerState::Idle, right_hand: RightHand(Some(g)), ..p },
                    seq![WorldEvent::Add(AddItemToWorldEvent(h, p.pos))],
                ),
                None => (with_state(p, PlayerState::Idle), Seq::empty()),
            },
            _ => (with_state(p, PlayerState::Idle), Seq::empty()),
        }
    }
}

/// Decision phase: the new action from the held inputs and the item at the agent's cell.
/// Only an idle agent whose clock has finished decides; interact wins over movement.
pub open spec fn decide(p: PlayerBundle, ground: Option<EntityId>, keys: KeyInput) -> PlayerState {
    if !(p.action_timer.finished_spec() && p.state is Idle) {
        p.state
    } else {
        let carrying = p.right_hand.0 is Some;
        let by_interact = if keys.interact {
            match ground {
                Some(g) => if carrying {
                    PlayerState::PickAndDrop(g)
                } else {
                    PlayerState::Pick(g)
                },
                None => if carrying {
                    PlayerState::Drop
                } else {
                    PlayerState::Idle
                },
            }
        } else {
            PlayerState::Idle
        };
        let dx = axis_step_spec(p.pos.x, keys.left, keys.right);
        let dy = axis_step_spec(p.pos.y, keys.down, keys.up);
        if !(by_interact is Idle) {
            by_interact
        } else if dx != 0 || dy != 0 {
            PlayerState::Walk(dx, dy)
        } else {
            PlayerState::Idle
        }
    }
}

/// The walk of a `Walk` action stays inside the representable grid.
pub open spec fn walk_fits(p: PlayerBundle) -> bool {
    match p.state {
        PlayerState::Walk(dx, dy) => i32::MIN <= p.pos.x + dx <= i32::MAX && i32::MIN <= p.pos.y
            + dy <= i32::MAX,
        _ => true,
    }
}

/// Start phase: begins the decided action when the clock has finished.
pub open spec fn start_spec(p: PlayerBundle) -> (PlayerBundle, Seq<WorldEvent>) {
    if !p.action_timer.finished_spec() {
        (p, Seq::empty())
    } else {
        match p.state {
            PlayerState::Idle => (with_timer(p, GridClock { duration: 0, elapsed: 0 }), Seq::empty()),
            PlayerState::Walk(dx, dy) => (
                PlayerBundle {
                    pos: Position { x: (p.pos.x + dx) as i32, y: (p.pos.y + dy) as i32 },
                    old_pos: OldPosition { x: p.pos.x, y: p.pos.y },
                    action_timer: GridClock { duration: WALK_NANOS, elapsed: 0 },
                    ..p
                },
                Seq::empty(),
            ),
            PlayerState::Pick(it) => (
                PlayerBundle {
                    right_hand: RightHand(Some(it)),
                    action_timer: GridClock { duration: ACTION_NANOS, elapsed: 0 },
                    ..p
                },
                seq![WorldEvent::Remove(RemoveItemFromWorldEvent(it, p.pos))],
            ),
            PlayerState::Drop => (
                with_timer(p, GridClock { duration: ACTION_NANOS, elapsed: 0 }),
                Seq::empty(),
            ),
            PlayerState::PickAndDrop(g) => (
                with_timer(p, GridClock { duration: ACTION_NANOS, elapsed: 0 }),
                seq![WorldEvent::Remove(RemoveItemFromWorldEvent(g, p.pos))],
            ),
        }
    }
}

impl PlayerBundle {
    pub open spec fn new_spec(pos: Position) -> PlayerBundle {
        PlayerBundle {
            state: PlayerState::Idle,
            right_hand: RightHand(None),
            pos,
            old_pos: OldPosition { x: pos.x, y: pos.y },
            action_timer: GridClock { duration: 0, elapsed: 0 },
        }
    }

    /// A fresh agent at `pos`: idle, empty-handed, its clock finished.
    pub fn new(pos: Position) -> (r: PlayerBundle)
        ensures
            r == PlayerBundle::new_spec(pos),
    {
        PlayerBundle {
            state: PlayerState::Idle,
            right_hand: RightHand(None),
            pos,
            old_pos: OldPosition { x: pos.x, y: pos.y },
            action_timer: GridClock::new(0),
        }
    }
}

/// Advances the agent's clock by `delta` nanoseconds, then, if the clock has
/// finished, completes the action in flight and returns the agent to `Idle`.
/// A finished drop queues the placement of the carried item at the agent's cell.
pub fn end_action_process(player: &mut PlayerBundle, delta: u64, events: &mut Vec<WorldEvent>)
    requires
        old(player).action_timer.wf(),
    ensures
        final(player).action_timer.wf(),
        *final(player) == end_spec(with_timer(*old(player), old(player).action_timer.advanced(delta))).0,
        final(events)@ == old(events)@ + end_spec(
            with_timer(*old(player), old(player).action_timer.advanced(delta)),
        ).1,
        legal_change(old(player).state, final(player).state),
{
    player.action_timer.advance(delta);
    if !player.action_timer.is_finished() {
        assert(old(events)@ + Seq::<WorldEvent>::empty() =~= old(events)@);
        return;
    }
    match player.state {
        PlayerState::Idle => {},
        PlayerState::Walk(_, _) => {
            player.old_pos = OldPosition { x: player.pos.x, y: player.pos.y };
        },
        PlayerState::Pick(_) => {},
        PlayerState::Drop => {
            if let Some(h) = player.right_hand.0 {
                events.push(WorldEvent::Add(AddItemToWorldEvent(h, player.pos)));
                player.right_hand = RightHand(None);
            }
        },
        PlayerState::PickAndDrop(g) => {
            if let Some(h) = player.right_hand.0 {
                events.push(WorldEvent::Add(AddItemToWorldEvent(h, player.pos)));
                player.right_hand = RightHand(Some(g));
            }
        },
    }
    player.state = PlayerState::Idle;
    assert(final(events)@ =~= old(events)@ + end_spec(
        with_timer(*old(player), old(player).action_timer.advanced(delta)),
    ).1);
}

/// Decision phase. `queued` are the events already emitted this tick: the
/// lookup at the agent's cell sees them, so a cell just filled by a finished
/// drop reads as occupied.
pub fn input(player: &mut PlayerBundle, keys: &KeyInput, world: &GameWorld, queued: &Vec<WorldEvent>)
    requires
        world.wf(),
    ensures
        *final(player) == with_state(
            *old(player),
            decide(*old(player), item_at(apply_events(world@, queued@), old(player).pos), *keys),
        ),
        legal_change(old(player).state, final(player).state),
        old(player).state is Idle ==> walk_fits(*final(player)),
{
    if !(player.action_timer.is_finished() && player.state == PlayerState::Idle) {
        return;
    }
    let ground = world.get_queued(player.pos, queued);
    let carrying = player.right_hand.0.is_some();
    if keys.interact {
        match ground {
            Some(g) => {
                if carrying {
                    player.state = PlayerState::PickAndDrop(g);
                } else {
                    player.state = PlayerState::Pick(g);
                }
            },
            None => {
                if carrying {
                    player.state = PlayerState::Drop;
                }
            },
        }
    }
    if player.state == PlayerState::Idle {
        let dx = axis_step(player.pos.x, keys.left, keys.right);
        let dy = axis_step(player.pos.y, keys.down, keys.up);
        if dx != 0 || dy != 0 {
            player.state = PlayerState::Walk(dx, dy);
        }
    }
}

/// The step along one axis: `forth` adds `SPEED`, `back` takes it away; a
/// step that would leave the representable grid is not taken.
pub fn axis_step(v: i32, back: bool, forth: bool) -> (r: i32)
    ensures
        r == axis_step_spec(v, back, forth),
{
    let mut d: i32 = 0;
    if forth {
        d = d + SPEED;
    }
    if back {
        d = d - SPEED;
    }
    if (d > 0 && v > i32::MAX - d) || (d < 0 && v < i32::MIN - d) {
        0
    } else {
        d
    }
}

/// Start phase: when the clock has finished, begins the decided action and
/// restarts the clock to its length. A walk moves the agent at once; a pick
/// fills the carry slot at once; both pick kinds queue the ground item's removal.
pub fn start_action_process(player: &mut PlayerBundle, events: &mut Vec<WorldEvent>)
    requires
        old(player).action_timer.finished_spec() ==> walk_fits(*old(player)),
        old(player).action_timer.wf(),
    ensures
        *final(player) == start_spec(*old(player)).0,
        final(events)@ == old(events)@ + start_spec(*old(player)).1,
        final(player).action_timer.wf(),
        legal_change(old(player).state, final(player).state),
{
    if !player.action_timer.is_finished() {
        assert(old(events)@ + Seq::<WorldEvent>::empty() =~= old(events)@);
        return;
    }
    match player.state {
        PlayerState::Idle => {
            player.action_timer.restart(0);
        },
        PlayerState::Walk(dx, dy) => {
            player.old_pos = OldPosition { x: player.pos.x, y: player.pos.y };
            player.pos = Position { x: player.pos.x + dx, y: player.pos.y + dy };
            player.action_timer.restart(WALK_NANOS);
        },
        PlayerState::Pick(it) => {
            player.action_timer.restart(ACTION_NANOS);
            player.right_hand = RightHand(Some(it));
            events.push(WorldEvent::Remove(RemoveItemFromWorldEvent(it, player.pos)));
        },
        PlayerState::Drop => {
            player.action_timer.restart(ACTION_NANOS);
        },
        PlayerState::PickAndDrop(g) => {
            player.action_timer.restart(ACTION_NANOS);
            events.push(WorldEvent::Remove(RemoveItemFromWorldEvent(g, player.pos)));
        },
    }
    assert(final(events)@ =~= old(events)@ + start_spec(*old(player)).1);
}

} // verus!
