use vstd::prelude::*;
use crate::clock::ACTION_NANOS;
use crate::player::{
    KeyInput, PlayerBundle, PlayerState, RightHand, decide, end_action_process, end_spec, input,
    start_action_process, start_spec, with_state, with_timer,
};
use crate::world::{
    AddItemToWorldEvent, EntityId, GameWorld, Owner, Position, RemoveItemFromWorldEvent,
    WorldEvent, apply_event, apply_events, item_at,
};

verus! {

/// The item lies on some cell of the index.
pub open spec fn on_ground(m: Map<Position, EntityId>, e: EntityId) -> bool {
    m.values().contains(e)
}

/// The agent carries the item.
pub open spec fn in_hand(p: PlayerBundle, e: EntityId) -> bool {
    p.right_hand.0 == Some(e)
}

/// The agent is swapping and has already lifted the item off the ground.
pub open spec fn pending(p: PlayerBundle, e: EntityId) -> bool {
    p.state == PlayerState::PickAndDrop(e)
}

/// The item is accounted for by the index or by the agent.
pub open spec fn holds_item(p: PlayerBundle, m: Map<Position, EntityId>, e: EntityId) -> bool {
    on_ground(m, e) || in_hand(p, e) || pending(p, e)
}

/// Agent and index agree: no item on two cells, the carried item is not on
/// the ground, and a drop in flight has a free cell to land on.
pub open spec fn consistent(p: PlayerBundle, m: Map<Position, EntityId>) -> bool {
    &&& forall|c1: Position, c2: Position|
        m.contains_key(c1) && m.contains_key(c2) && c1 != c2 ==> #[trigger] m[c1] != #[trigger] m[c2]
    &&& forall|c: Position| #[trigger] m.contains_key(c) ==> p.right_hand.0 != Some(m[c])
    &&& p.state is Drop ==> !m.contains_key(p.pos)
    &&& match p.state {
        PlayerState::PickAndDrop(g) => {
            &&& !m.contains_key(p.pos)
            &&& !on_ground(m, g)
            &&& p.right_hand.0 is Some
            &&& p.right_hand.0 != Some(g)
        },
        _ => true,
    }
}

/// One whole tick: clock, completion, decision, start, then the index drains
/// the events of the tick in order. Returns the agent, the index and the events.
pub open spec fn tick_spec(
    p: PlayerBundle,
    m: Map<Position, EntityId>,
    delta: u64,
    keys: KeyInput,
) -> (PlayerBundle, Map<Position, EntityId>, Seq<WorldEvent>) {
    let (p1, e1) = end_spec(with_timer(p, p.action_timer.advanced(delta)));
    let p2 = with_state(p1, decide(p1, item_at(apply_events(m, e1), p1.pos), keys));
    let (p3, e2) = start_spec(p2);
    (p3, apply_events(m, e1 + e2), e1 + e2)
}

pub proof fn lemma_apply_events_one(m: Map<Position, EntityId>, ev: WorldEvent)
    ensures
        apply_events(m, seq![ev]) == apply_event(m, ev),
{
    assert(seq![ev].drop_last() =~= Seq::<WorldEvent>::empty());
    assert(apply_events(m, Seq::<WorldEvent>::empty()) == m);
    assert(seq![ev].last() == ev);
}

pub proof fn lemma_apply_events_concat(
    m: Map<Position, EntityId>,
    a: Seq<WorldEvent>,
    b: Seq<WorldEvent>,
)
    ensures
        apply_events(m, a + b) == apply_events(apply_events(m, a), b),
    decreases b.len(),
{
    if b.len() == 0 {
        assert(a + b =~= a);
    } else {
        lemma_apply_events_concat(m, a, b.drop_last());
        assert((a + b).drop_last() =~= a + b.drop_last());
        assert((a + b).last() == b.last());
    }
}

proof fn lemma_end_keeps_items(p: PlayerBundle, m: Map<Position, EntityId>)
    requires
        consistent(p, m),
    ensures
        consistent(end_spec(p).0, apply_events(m, end_spec(p).1)),
        forall|e: EntityId|
            holds_item(end_spec(p).0, apply_events(m, end_spec(p).1), e) == holds_item(p, m, e),
        end_spec(p).0.action_timer.finished_spec() ==> end_spec(p).0.state is Idle,
{
    let (p1, e1) = end_spec(p);
    if !p.action_timer.finished_spec() {
        return;
    }
    match p.state {
        PlayerState::Drop | PlayerState::PickAndDrop(_) => {
            if let Some(h) = p.right_hand.0 {
                let ev = WorldEvent::Add(AddItemToWorldEvent(h, p.pos));
                lemma_apply_events_one(m, ev);
                let m1 = m.insert(p.pos, h);
                assert(apply_events(m, e1) == m1);
                assert forall|e: EntityId| holds_item(p1, m1, e) == holds_item(p, m, e) by {
                    if on_ground(m1, e) && e != h {
                        let c = choose|c: Position| m1.contains_key(c) && m1[c] == e;
                        assert(m.contains_key(c) && m[c] == e);
                    }
                    if on_ground(m, e) {
                        let c = choose|c: Position| m.contains_key(c) && m[c] == e;
                        assert(m1.contains_key(c) && m1[c] == e);
                    }
                    assert(m1.contains_key(p.pos) && m1[p.pos] == h);
                }
                assert forall|c: Position| #[trigger] m1.contains_key(c) implies p1.right_hand.0
                    != Some(m1[c]) by {
                    if let PlayerState::PickAndDrop(g) = p.state {
                        if c != p.pos && m1[c] == g {
                            assert(m.contains_key(c) && m[c] == g);
                        }
                    }
                }
            } else {
                assert(e1 =~= Seq::<WorldEvent>::empty());
            }
        },
        _ => {},
    }
}

proof fn lemma_start_keeps_items(p: PlayerBundle, m: Map<Position, EntityId>, keys: KeyInput)
    requires
        consistent(p, m),
        p.action_timer.finished_spec() ==> p.state is Idle,
    ensures
        ({
            let p2 = with_state(p, decide(p, item_at(m, p.pos), keys));
            let (p3, e2) = start_spec(p2);
            &&& consistent(p3, apply_events(m, e2))
            &&& forall|e: EntityId| holds_item(p3, apply_events(m, e2), e) == holds_item(p, m, e)
        }),
{
    let p2 = with_state(p, decide(p, item_at(m, p.pos), keys));
    let (p3, e2) = start_spec(p2);
    if !p.action_timer.finished_spec() {
        return;
    }
    match p2.state {
        PlayerState::Pick(g) | PlayerState::PickAndDrop(g) => {
            let ev = WorldEvent::Remove(RemoveItemFromWorldEvent(g, p.pos));
            lemma_apply_events_one(m, ev);
            let m2 = m.remove(p.pos);
            assert(m.contains_key(p.pos) && m[p.pos] == g);
            assert(apply_events(m, e2) == m2);
            assert forall|e: EntityId| holds_item(p3, m2, e) == holds_item(p, m, e) by {
                if on_ground(m2, e) {
                    let c = choose|c: Position| m2.contains_key(c) && m2[c] == e;
                    assert(m.contains_key(c) && m[c] == e);
                }
                if on_ground(m, e) && e != g {
                    let c = choose|c: Position| m.contains_key(c) && m[c] == e;
                    assert(m2.contains_key(c) && m2[c] == e);
                }
            }
            assert(!on_ground(m2, g)) by {
                if on_ground(m2, g) {
                    let c = choose|c: Position| m2.contains_key(c) && m2[c] == g;
                    assert(m.contains_key(c) && m[c] == g && c != p.pos);
                }
            }
        },
        _ => {},
    }
}

/// Each tick keeps agent and index consistent, and keeps the same items
/// accounted for: none appears and none vanishes.
pub proof fn lemma_tick_conserves_items(
    p: PlayerBundle,
    m: Map<Position, EntityId>,
    delta: u64,
    keys: KeyInput,
)
    requires
        consistent(p, m),
    ensures
        consistent(tick_spec(p, m, delta, keys).0, tick_spec(p, m, delta, keys).1),
        forall|e: EntityId|
            holds_item(tick_spec(p, m, delta, keys).0, tick_spec(p, m, delta, keys).1, e)
                == holds_item(p, m, e),
{
    let pa = with_timer(p, p.action_timer.advanced(delta));
    let (p1, e1) = end_spec(pa);
    let m1 = apply_events(m, e1);
    lemma_end_keeps_items(pa, m);
    lemma_start_keeps_items(p1, m1, keys);
    let p2 = with_state(p1, decide(p1, item_at(m1, p1.pos), keys));
    let (p3, e2) = start_spec(p2);
    lemma_apply_events_concat(m, e1, e2);
    assert forall|e: EntityId| holds_item(pa, m, e) == holds_item(p, m, e) by {}
}

/// Of the items accounted for, each is in exactly one place: on the ground
/// (at a single cell), in the agent's hand, or being lifted by a swap.
pub proof fn lemma_item_in_one_place(p: PlayerBundle, m: Map<Position, EntityId>, e: EntityId)
    requires
        consistent(p, m),
        holds_item(p, m, e),
    ensures
        (if on_ground(m, e) { 1int } else { 0 }) + (if in_hand(p, e) { 1int } else { 0 }) + (
        if pending(p, e) { 1int } else { 0 }) == 1,
        forall|c1: Position, c2: Position|
            m.contains_key(c1) && m.contains_key(c2) && m[c1] == e && m[c2] == e ==> c1 == c2,
{
    if on_ground(m, e) {
        let c = choose|c: Position| m.contains_key(c) && m[c] == e;
        assert(p.right_hand.0 != Some(m[c]));
    }
}

/// A walk moves the agent's current cell at its start and never later. While
/// its clock runs the cells stay put, the old cell being the one the step began
/// from; completing it leaves the current cell where it is.
pub proof fn lemma_walk_moves_only_at_start(
    p: PlayerBundle,
    m: Map<Position, EntityId>,
    delta: u64,
    keys: KeyInput,
)
    ensures
        ({
            let pa = with_timer(p, p.action_timer.advanced(delta));
            let p1 = end_spec(pa).0;
            let p2 = with_state(p1, decide(p1, item_at(apply_events(m, end_spec(pa).1), p1.pos), keys));
            let p3 = tick_spec(p, m, delta, keys).0;
            &&& (p.state is Walk && !pa.action_timer.finished_spec()) ==> p3.pos == p.pos
                && p3.old_pos == p.old_pos
            &&& (p.state is Walk && pa.action_timer.finished_spec()) ==> p1.pos == p.pos
            &&& match p2.state {
                PlayerState::Walk(dx, dy) => p1.action_timer.finished_spec() ==> p3.pos.x == p1.pos.x
                    + dx && p3.pos.y == p1.pos.y + dy && p3.old_pos.x == p1.pos.x && p3.old_pos.y
                    == p1.pos.y,
                _ => true,
            }
        }),
{
}

/// Picking up the item at the agent's cell and then dropping it there again
/// restores the index exactly: the same item at the same cell.
pub proof fn lemma_pick_then_drop_restores_index(
    p0: PlayerBundle,
    m0: Map<Position, EntityId>,
    d1: u64,
    k1: KeyInput,
    d2: u64,
    k2: KeyInput,
    d3: u64,
    k3: KeyInput,
)
    requires
        p0.state == PlayerState::Idle,
        p0.action_timer.finished_spec(),
        p0.right_hand == RightHand(None),
        m0.contains_key(p0.pos),
        k1.interact,
        k2.interact,
        d2 >= ACTION_NANOS,
        d3 >= ACTION_NANOS,
        !k3.interact,
    ensures
        ({
            let (p1, m1, _e1) = tick_spec(p0, m0, d1, k1);
            let (p2, m2, _e2) = tick_spec(p1, m1, d2, k2);
            let (p3, m3, _e3) = tick_spec(p2, m2, d3, k3);
            &&& p1.state == PlayerState::Pick(m0[p0.pos])
            &&& m1 == m0.remove(p0.pos)
            &&& p2.state == PlayerState::Drop
            &&& p2.right_hand == RightHand(Some(m0[p0.pos]))
            &&& m3 == m0
            &&& p3.right_hand == RightHand(None)
        }),
{
    let e = m0[p0.pos];
    let c = p0.pos;
    let pa = with_timer(p0, p0.action_timer.advanced(d1));
    assert(end_spec(pa).1 =~= Seq::<WorldEvent>::empty());
    let (p1, m1, e1) = tick_spec(p0, m0, d1, k1);
    lemma_apply_events_one(m0, WorldEvent::Remove(RemoveItemFromWorldEvent(e, c)));
    assert(Seq::<WorldEvent>::empty() + seq![
        WorldEvent::Remove(RemoveItemFromWorldEvent(e, c)),
    ] =~= seq![WorldEvent::Remove(RemoveItemFromWorldEvent(e, c))]);
    assert(m1 == m0.remove(c));
    assert(p1.pos == c);
    let pb = with_timer(p1, p1.action_timer.advanced(d2));
    assert(end_spec(pb).1 =~= Seq::<WorldEvent>::empty());
    let (p2, m2, e2) = tick_spec(p1, m1, d2, k2);
    assert(Seq::<WorldEvent>::empty() + Seq::<WorldEvent>::empty() =~= Seq::<WorldEvent>::empty());
    assert(m2 == m1);
    assert(p2.state == PlayerState::Drop);
    let pc = with_timer(p2, p2.action_timer.advanced(d3));
    let ev = WorldEvent::Add(AddItemToWorldEvent(e, c));
    assert(end_spec(pc).1 == seq![ev]);
    let (p3, m3, e3) = tick_spec(p2, m2, d3, k3);
    let q1 = end_spec(pc).0;
    let q2 = with_state(q1, decide(q1, item_at(apply_events(m2, end_spec(pc).1), q1.pos), k3));
    assert(start_spec(q2).1 =~= Seq::<WorldEvent>::empty());
    assert(seq![ev] + Seq::<WorldEvent>::empty() =~= seq![ev]);
    lemma_apply_events_one(m2, ev);
    assert(m3 =~= m0);
}

/// The game state: one agent and the world item index.
pub struct Game {
    pub player_id: EntityId,
    pub player: PlayerBundle,
    pub world: GameWorld,
}

impl Game {
    pub open spec fn wf(&self) -> bool {
        &&& self.world.wf()
        &&& self.player.action_timer.wf()
        &&& consistent(self.player, self.world@)
    }

    /// A game with an empty index and a fresh agent at `pos`.
    pub fn new(player_id: EntityId, pos: Position) -> (r: Game)
        ensures
            r.wf(),
            r.player_id == player_id,
            r.player == PlayerBundle::new_spec(pos),
            r.world@ == Map::<Position, EntityId>::empty(),
    {
        Game { player_id, player: PlayerBundle::new(pos), world: GameWorld::new() }
    }

    /// Seeds an item on the ground at `cell` through the index's placement event.
    /// Refused (returns `false`, nothing changes) when the item is already
    /// accounted for, the cell is occupied, or the cell is where the agent's
    /// drop in flight will land.
    pub fn spawn_item(&mut self, item: EntityId, cell: Position) -> (r: bool)
        requires
            old(self).wf(),
        ensures
            final(self).wf(),
            final(self).player == old(self).player,
            final(self).player_id == old(self).player_id,
            r == (!holds_item(old(self).player, old(self).world@, item) && !old(
                self,
            ).world@.contains_key(cell) && !((old(self).player.state is Drop || old(
                self,
            ).player.state is PickAndDrop) && old(self).player.pos == cell)),
            r ==> final(self).world@ == old(self).world@.insert(cell, item),
            !r ==> final(self).world@ == old(self).world@,
    {
        let busy = match self.player.state {
            PlayerState::Drop | PlayerState::PickAndDrop(_) => true,
            _ => false,
        };
        let held = match self.player.right_hand.0 {
            Some(h) => h == item,
            None => false,
        } || self.player.state == PlayerState::PickAndDrop(item);
        if held || self.world.position_of(item).is_some() || self.world.get(cell).is_some() || (
        busy && self.player.pos == cell) {
            return false;
        }
        let ghost m = self.world@;
        let ghost p = self.player;
        self.world.add_item(AddItemToWorldEvent(item, cell));
        let ghost m1 = self.world@;
        assert forall|c: Position| #[trigger] m1.contains_key(c) implies p.right_hand.0 != Some(
            m1[c],
        ) by {}
        assert forall|c1: Position, c2: Position|
            m1.contains_key(c1) && m1.contains_key(c2) && c1 != c2 implies #[trigger] m1[c1]
            != #[trigger] m1[c2] by {
            if c1 == cell {
                assert(m.contains_key(c2) && m[c2] == m1[c2]);
            } else if c2 == cell {
                assert(m.contains_key(c1) && m[c1] == m1[c1]);
            }
        }
        proof {
            if let PlayerState::PickAndDrop(g) = p.state {
                if on_ground(m1, g) {
                    let c = choose|c: Position| m1.contains_key(c) && m1[c] == g;
                    assert(m.contains_key(c) && m[c] == g);
                }
            }
        }
        true
    }

    /// The item lying at `cell`, if any.
    pub fn item_at(&self, cell: Position) -> (r: Option<EntityId>)
        requires
            self.wf(),
        ensures
            r == item_at(self.world@, cell),
    {
        self.world.get(cell)
    }

    /// The agent that owns `item`: set from the moment a pick lifts it until
    /// the drop that lets it go completes.
    pub fn owner_of(&self, item: EntityId) -> (r: Option<Owner>)
        ensures
            r == (if in_hand(self.player, item) || pending(self.player, item) {
                Some(Owner(self.player_id))
            } else {
                None
            }),
    {
        let held = match self.player.right_hand.0 {
            Some(h) => h == item,
            None => false,
        };
        if held || self.player.state == PlayerState::PickAndDrop(item) {
            Some(Owner(self.player_id))
        } else {
            None
        }
    }

    /// Runs one tick of `delta` nanoseconds with the given inputs and returns
    /// the events that the index applied, in order.
    pub fn tick(&mut self, delta: u64, keys: KeyInput) -> (r: Vec<WorldEvent>)
        requires
            old(self).wf(),
        ensures
            final(self).wf(),
            final(self).player_id == old(self).player_id,
            (final(self).player, final(self).world@, r@) == tick_spec(
                old(self).player,
                old(self).world@,
                delta,
                keys,
            ),
            forall|e: EntityId|
                holds_item(final(self).player, final(self).world@, e) == holds_item(
                    old(self).player,
                    old(self).world@,
                    e,
                ),
    {
        proof {
            lemma_tick_conserves_items(self.player, self.world@, delta, keys);
            let pa = with_timer(self.player, self.player.action_timer.advanced(delta));
            lemma_end_keeps_items(pa, self.world@);
        }
        let mut events: Vec<WorldEvent> = Vec::new();
        end_action_process(&mut self.player, delta, &mut events);
        assert(events@ =~= Seq::<WorldEvent>::empty() + events@);
        input(&mut self.player, &keys, &self.world, &events);
        start_action_process(&mut self.player, &mut events);
        self.world.apply(&events);
        events
    }
}

} // verus!
