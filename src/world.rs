use vstd::prelude::*;

verus! {

/// A cell of the tile grid, in grid units.
#[derive(Clone, Copy, Debug, PartialEq, Eq, Hash, Structural)]
pub struct Position {
    pub x: i32,
    pub y: i32,
}

/// The cell where the agent's current motion began.
#[derive(Clone, Copy, Debug, PartialEq, Eq, Hash, Structural)]
pub struct OldPosition {
    pub x: i32,
    pub y: i32,
}

/// An integer handle naming one entity (an agent or an item).
#[derive(Clone, Copy, Debug, PartialEq, Eq, Hash, Structural)]
pub struct EntityId(pub u64);

/// Back-reference from a carried item to the agent that holds it.
#[derive(Clone, Copy, Debug, PartialEq, Eq, Structural)]
pub struct Owner(pub EntityId);

/// An item is placed on the ground at a cell.
#[derive(Clone, Copy, Debug, PartialEq, Eq, Structural)]
pub struct AddItemToWorldEvent(pub EntityId, pub Position);

/// An item leaves the ground at a cell.
#[derive(Clone, Copy, Debug, PartialEq, Eq, Structural)]
pub struct RemoveItemFromWorldEvent(pub EntityId, pub Position);

/// One entry of the ordered event queue that feeds the item index.
#[derive(Clone, Copy, Debug, PartialEq, Eq, Structural)]
pub enum WorldEvent {
    Add(AddItemToWorldEvent),
    Remove(RemoveItemFromWorldEvent),
}

/// The index after one event: a placement overwrites the cell, a removal clears it.
pub open spec fn apply_event(m: Map<Position, EntityId>, ev: WorldEvent) -> Map<Position, EntityId> {
    match ev {
        WorldEvent::Add(a) => m.insert(a.1, a.0),
        WorldEvent::Remove(r) => m.remove(r.1),
    }
}

/// The index after a queue of events, applied in emission order.
pub open spec fn apply_events(m: Map<Position, EntityId>, evs: Seq<WorldEvent>) -> Map<
    Position,
    EntityId,
>
    decreases evs.len(),
{
    if evs.len() == 0 {
        m
    } else {
        apply_event(apply_events(m, evs.drop_last()), evs.last())
    }
}

/// What the index holds at a cell.
pub open spec fn item_at(m: Map<Position, EntityId>, p: Position) -> Option<EntityId> {
    if m.contains_key(p) {
        Some(m[p])
    } else {
        None
    }
}

/// The world item index: which item lies on which cell, at most one per cell.
pub struct GameWorld {
    item_map: Vec<(Position, EntityId)>,
    model: Ghost<Map<Position, EntityId>>,
}

impl View for GameWorld {
    type V = Map<Position, EntityId>;

    closed spec fn view(&self) -> Map<Position, EntityId> {
        self.model@
    }
}

impl GameWorld {
    /// The entries have distinct cells and list exactly the index's pairs.
    pub closed spec fn wf(&self) -> bool {
        &&& forall|i: int, j: int|
            0 <= i < j < self.item_map@.len() ==> self.item_map@[i].0 != self.item_map@[j].0
        &&& forall|i: int|
            0 <= i < self.item_map@.len() ==> #[trigger] self.model@.contains_key(
                self.item_map@[i].0,
            ) && self.model@[self.item_map@[i].0] == self.item_map@[i].1
        &&& forall|p: Position|
            #[trigger] self.model@.contains_key(p) ==> exists|i: int|
                0 <= i < self.item_map@.len() && self.item_map@[i].0 == p
    }

    pub fn new() -> (r: GameWorld)
        ensures
            r.wf(),
            r@ == Map::<Position, EntityId>::empty(),
    {
        GameWorld { item_map: Vec::new(), model: Ghost(Map::empty()) }
    }

    fn find(&self, p: Position) -> (r: Option<usize>)
        requires
            self.wf(),
        ensures
            match r {
                Some(i) => i < self.item_map@.len() && self.item_map@[i as int].0 == p,
                None => !self@.contains_key(p),
            },
    {
        let mut i: usize = 0;
        while i < self.item_map.len()
            invariant
                self.wf(),
                i <= self.item_map@.len(),
                forall|k: int| 0 <= k < i ==> self.item_map@[k].0 != p,
            decreases self.item_map@.len() - i,
        {
            if self.item_map[i].0 == p {
                return Some(i);
            }
            i = i + 1;
        }
        None
    }

    /// The item lying at `p`, if any.
    pub fn get(&self, p: Position) -> (r: Option<EntityId>)
        requires
            self.wf(),
        ensures
            r == item_at(self@, p),
    {
        match self.find(p) {
            Some(i) => {
                assert(self.model@.contains_key(self.item_map@[i as int].0));
                Some(self.item_map[i].1)
            },
            None => None,
        }
    }

    /// The cell where `item` lies, if it lies anywhere.
    pub fn position_of(&self, item: EntityId) -> (r: Option<Position>)
        requires
            self.wf(),
        ensures
            match r {
                Some(c) => self@.contains_key(c) && self@[c] == item,
                None => !self@.values().contains(item),
            },
    {
        let mut i: usize = 0;
        while i < self.item_map.len()
            invariant
                self.wf(),
                i <= self.item_map@.len(),
                forall|k: int| 0 <= k < i ==> self.item_map@[k].1 != item,
            decreases self.item_map@.len() - i,
        {
            if self.item_map[i].1 == item {
                assert(self.model@.contains_key(self.item_map@[i as int].0));
                return Some(self.item_map[i].0);
            }
            i = i + 1;
        }
        assert forall|c: Position| #[trigger] self@.contains_key(c) implies self@[c] != item by {
            let k = choose|k: int| 0 <= k < self.item_map@.len() && self.item_map@[k].0 == c;
            assert(self.model@.contains_key(self.item_map@[k].0));
        }
        None
    }

    /// The item at `p` once the events already queued are applied, without applying them.
    pub fn get_queued(&self, p: Position, queued: &Vec<WorldEvent>) -> (r: Option<EntityId>)
        requires
            self.wf(),
        ensures
            r == item_at(apply_events(self@, queued@), p),
    {
        let mut i: usize = queued.len();
        assert(queued@.subrange(0, i as int) =~= queued@);
        while i > 0
            invariant
                self.wf(),
                i <= queued@.len(),
                item_at(apply_events(self@, queued@), p) == item_at(
                    apply_events(self@, queued@.subrange(0, i as int)),
                    p,
                ),
            decreases i,
        {
            i = i - 1;
            assert(queued@.subrange(0, i + 1).drop_last() =~= queued@.subrange(0, i as int));
            match queued[i] {
                WorldEvent::Add(a) => {
                    if a.1 == p {
                        return Some(a.0);
                    }
                },
                WorldEvent::Remove(r) => {
                    if r.1 == p {
                        return None;
                    }
                },
            }
        }
        assert(queued@.subrange(0, 0) =~= Seq::<WorldEvent>::empty());
        self.get(p)
    }

    /// Applies a placement: the item now lies at the event's cell.
    pub fn add_item(&mut self, ev: AddItemToWorldEvent)
        requires
            old(self).wf(),
        ensures
            final(self).wf(),
            final(self)@ == old(self)@.insert(ev.1, ev.0),
    {
        let ghost m0 = self.model@;
        let ghost s0 = self.item_map@;
        let ghost w: int;
        match self.find(ev.1) {
            Some(i) => {
                self.item_map.set(i, (ev.1, ev.0));
                proof {
                    w = i as int;
                }
            },
            None => {
                self.item_map.push((ev.1, ev.0));
                proof {
                    w = s0.len() as int;
                }
            },
        }
        self.model = Ghost(m0.insert(ev.1, ev.0));
        assert(self.item_map@[w].0 == ev.1);
        assert forall|p: Position| #[trigger] self.model@.contains_key(p) implies exists|i: int|
            0 <= i < self.item_map@.len() && self.item_map@[i].0 == p by {
            if p != ev.1 {
                assert(m0.contains_key(p));
                let k = choose|k: int| 0 <= k < s0.len() && s0[k].0 == p;
                assert(self.item_map@[k].0 == p);
            }
        }
    }

    /// Applies a removal: the event's cell is now empty.
    pub fn remove_item(&mut self, ev: RemoveItemFromWorldEvent)
        requires
            old(self).wf(),
        ensures
            final(self).wf(),
            final(self)@ == old(self)@.remove(ev.1),
    {
        let ghost m0 = self.model@;
        let ghost s0 = self.item_map@;
        match self.find(ev.1) {
            Some(i) => {
                self.item_map.remove(i);
                self.model = Ghost(m0.remove(ev.1));
                assert forall|p: Position| #[trigger] self.model@.contains_key(p) implies exists|
                    j: int,
                |
                    0 <= j < self.item_map@.len() && self.item_map@[j].0 == p by {
                    assert(m0.contains_key(p));
                    let k = choose|k: int| 0 <= k < s0.len() && s0[k].0 == p;
                    if k < i {
                        assert(self.item_map@[k].0 == p);
                    } else {
                        assert(self.item_map@[k - 1].0 == p);
                    }
                }
            },
            None => {
                self.model = Ghost(m0.remove(ev.1));
                assert(self.model@ =~= m0);
            },
        }
    }

    /// Drains an event queue into the index, in order.
    pub fn apply(&mut self, events: &Vec<WorldEvent>)
        requires
            old(self).wf(),
        ensures
            final(self).wf(),
            final(self)@ == apply_events(old(self)@, events@),
    {
        let mut i: usize = 0;
        while i < events.len()
            invariant
                self.wf(),
                i <= events@.len(),
                self@ == apply_events(old(self)@, events@.subrange(0, i as int)),
            decreases events@.len() - i,
        {
            assert(events@.subrange(0, i + 1).drop_last() =~= events@.subrange(0, i as int));
            match events[i] {
                WorldEvent::Add(a) => self.add_item(a),
                WorldEvent::Remove(r) => self.remove_item(r),
            }
            i = i + 1;
        }
        assert(events@.subrange(0, events@.len() as int) =~= events@);
    }
}

} // verus!
