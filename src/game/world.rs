use vstd::prelude::*;

use std::collections::{HashMap, HashSet};
use std::rc::Rc;

use vstd::std_specs::hash::spec_hash_keys_iter;
use vstd::std_specs::iter::IteratorSpec;

use crate::gfx::image::ImageDelegate;
use crate::gfx::screen::Screen;
use crate::input::InputState;

verus! {

broadcast use vstd::std_specs::hash::group_hash_axioms;

/// The handle of an entity.
pub type EntityID = u32;

/// Per-entity behavior: an update step run once per frame, and a draw step
/// run in place of the default sprite composite. Each gets the world (and the
/// screen) to act on, and communicates only by changing them.
pub trait Behavior<V>: Sized {
    /// What the update step of this behavior does: the world `after` follows
    /// from `before` when run for `entity` with `input`. An implementation
    /// that does not state it promises nothing.
    open spec fn thought(
        &self,
        before: WorldModel<V, Self>,
        entity: EntityID,
        input: InputState,
        after: WorldModel<V, Self>,
    ) -> bool {
        true
    }

    /// What the draw step of this behavior does to the world and the screen.
    /// An implementation that does not state it promises nothing.
    open spec fn drew(
        &self,
        before: WorldModel<V, Self>,
        screen_before: Screen,
        entity: EntityID,
        after: WorldModel<V, Self>,
        screen_after: Screen,
    ) -> bool {
        true
    }

    fn think(&self, world: &mut World<V, Self>, entity: EntityID, input: InputState)
        ensures
            self.thought(old(world)@, entity, input, final(world)@),
    ;

    fn draw(&self, world: &mut World<V, Self>, screen: &mut Screen, entity: EntityID)
        ensures
            self.drew(old(world)@, *old(screen), entity, final(world)@, *final(screen)),
    ;
}

/// The mathematical value of a world.
pub struct WorldModel<V, B> {
    pub live: Set<EntityID>,
    pub counter: EntityID,
    pub positions: Map<EntityID, V>,
    pub velocities: Map<EntityID, V>,
    pub thinkers: Map<EntityID, Rc<B>>,
    pub drawers: Map<EntityID, Rc<B>>,
    pub sprites: Map<EntityID, ImageDelegate>,
}

impl<V, B> WorldModel<V, B> {
    /// Every component belongs to a live entity.
    pub open spec fn wf(self) -> bool {
        &&& self.positions.dom().subset_of(self.live)
        &&& self.velocities.dom().subset_of(self.live)
        &&& self.thinkers.dom().subset_of(self.live)
        &&& self.drawers.dom().subset_of(self.live)
        &&& self.sprites.dom().subset_of(self.live)
    }
}

/// How many steps of the wrapping search lead from `from` to `to`.
pub open spec fn wrap_dist(from: u32, to: u32) -> nat {
    if to >= from {
        (to - from) as nat
    } else {
        (to + 0x1_0000_0000 - from) as nat
    }
}

/// The next value of the counter after `id`, wrapping at the top.
pub open spec fn next_id(id: u32) -> u32 {
    if id == u32::MAX {
        0
    } else {
        (id + 1) as u32
    }
}

/// `id` is the first identifier at or after `counter`, in wrapping order, that
/// is not in `live`.
pub open spec fn first_free(live: Set<EntityID>, counter: EntityID, id: EntityID) -> bool {
    &&& !live.contains(id)
    &&& forall|other: EntityID| #[trigger]
        wrap_dist(counter, other) < wrap_dist(counter, id) ==> live.contains(other)
}

/// The identifiers below `n`.
pub open spec fn ids_below(n: nat) -> Set<EntityID> {
    Set::new(|id: EntityID| id < n)
}

/// A sparse store of entities and their components.
pub struct World<V, B> {
    entities: HashSet<EntityID>,
    positions: HashMap<EntityID, V>,
    velocities: HashMap<EntityID, V>,
    thinkers: HashMap<EntityID, Rc<B>>,
    drawers: HashMap<EntityID, Rc<B>>,
    sprites: HashMap<EntityID, ImageDelegate>,
    entity_counter: EntityID,
}

impl<V, B> View for World<V, B> {
    type V = WorldModel<V, B>;

    closed spec fn view(&self) -> WorldModel<V, B> {
        WorldModel {
            live: self.entities@,
            counter: self.entity_counter,
            positions: self.positions@,
            velocities: self.velocities@,
            thinkers: self.thinkers@,
            drawers: self.drawers@,
            sprites: self.sprites@,
        }
    }
}

impl<V, B> World<V, B> {
    /// An empty world whose counter starts at 0.
    pub fn new() -> (r: Self)
        ensures
            r@.live == Set::<EntityID>::empty(),
            r@.counter == 0,
            r@.positions == Map::<EntityID, V>::empty(),
            r@.velocities == Map::<EntityID, V>::empty(),
            r@.thinkers == Map::<EntityID, Rc<B>>::empty(),
            r@.drawers == Map::<EntityID, Rc<B>>::empty(),
            r@.sprites == Map::<EntityID, ImageDelegate>::empty(),
            r@.wf(),
    {
        World {
            entities: HashSet::with_capacity(512),
            positions: HashMap::new(),
            velocities: HashMap::new(),
            thinkers: HashMap::new(),
            drawers: HashMap::new(),
            sprites: HashMap::new(),
            entity_counter: 0,
        }
    }

    /// Allocate the first identifier at or after the counter (wrapping) that no
    /// live entity has, mark it live, and move the counter past it. No
    /// component is set.
    pub fn create_entity(&mut self) -> (r: EntityID)
        requires
            exists|id: EntityID| !old(self)@.live.contains(id),
        ensures
            first_free(old(self)@.live, old(self)@.counter, r),
            final(self)@ == (WorldModel {
                live: old(self)@.live.insert(r),
                counter: next_id(r),
                ..old(self)@
            }),
            old(self)@.wf() ==> final(self)@.wf(),
            old(self)@.live == ids_below(old(self)@.counter as nat) && old(self)@.counter
                < u32::MAX ==> r == old(self)@.counter && final(self)@.live == ids_below(
                final(self)@.counter as nat,
            ),
    {
        let ghost start = self.entity_counter;
        let ghost free = choose|id: EntityID| !self@.live.contains(id);
        let mut i = self.entity_counter;
        while self.entities.contains(&i)
            invariant
                self@ == old(self)@,
                !self@.live.contains(free),
                wrap_dist(start, i) <= wrap_dist(start, free),
                forall|other: EntityID| #[trigger]
                    wrap_dist(start, other) < wrap_dist(start, i) ==> self@.live.contains(other),
            decreases wrap_dist(start, free) - wrap_dist(start, i),
        {
            assert(wrap_dist(start, i) < wrap_dist(start, free));
            let ghost prev = i;
            i = i.wrapping_add(1);
            assert(wrap_dist(start, i) == wrap_dist(start, prev) + 1);
            assert forall|other: EntityID| #[trigger]
                wrap_dist(start, other) < wrap_dist(start, i) implies self@.live.contains(other) by {
                if wrap_dist(start, other) == wrap_dist(start, prev) {
                    assert(other == prev);
                }
            }
        }
        self.entities.insert(i);
        self.entity_counter = i.wrapping_add(1);
        proof {
            if old(self)@.live == ids_below(start as nat) && start < u32::MAX {
                lemma_allocates_next(old(self)@.live, start, i);
            }
        }
        i
    }
}

impl<V: Copy, B> World<V, B> {
    /// A copy of the live set, to iterate over while behaviors may change the world.
    pub fn clone_entities(&self) -> (r: Vec<EntityID>)
        ensures
            r@.to_set() == self@.live,
            r@.no_duplicates(),
    {
        let mut out: Vec<EntityID> = Vec::new();
        let ghost keys = spec_hash_keys_iter(&self.entities).remaining();
        for id in it: self.entities.iter()
            invariant
                it.seq() == keys,
                out@ == keys.take(it.index() as int).map_values(|x: &EntityID| *x),
        {
            out.push(*id);
            proof {
                assert(out@ =~= keys.take(it.index() + 1).map_values(|x: &EntityID| *x));
            }
        }
        proof {
            assert(out@ =~= keys.map_values(|x: &EntityID| *x));
            assert(keys.map_values(|x: &EntityID| *x) == keys.unref());
        }
        out
    }

    /// The position of `entity`, if it has one.
    pub fn position(&self, entity: EntityID) -> (r: Option<V>)
        ensures
            r == if self@.positions.contains_key(entity) {
                Some(self@.positions[entity])
            } else {
                None
            },
    {
        match self.positions.get(&entity) {
            Some(p) => Some(*p),
            None => None,
        }
    }

    /// Give `entity` a position, in place of any it had.
    pub fn set_position(&mut self, entity: EntityID, value: V)
        requires
            old(self)@.live.contains(entity),
        ensures
            final(self)@ == (WorldModel {
                positions: old(self)@.positions.insert(entity, value),
                ..old(self)@
            }),
            old(self)@.wf() ==> final(self)@.wf(),
    {
        self.positions.insert(entity, value);
    }

    /// The velocity of `entity`, if it has one.
    pub fn velocity(&self, entity: EntityID) -> (r: Option<V>)
        ensures
            r == if self@.velocities.contains_key(entity) {
                Some(self@.velocities[entity])
            } else {
                None
            },
    {
        match self.velocities.get(&entity) {
            Some(c) => Some(*c),
            None => None,
        }
    }

    /// Give `entity` a velocity, in place of any it had.
    pub fn set_velocity(&mut self, entity: EntityID, value: V)
        requires
            old(self)@.live.contains(entity),
        ensures
            final(self)@ == (WorldModel {
                velocities: old(self)@.velocities.insert(entity, value),
                ..old(self)@
            }),
            old(self)@.wf() ==> final(self)@.wf(),
    {
        self.velocities.insert(entity, value);
    }

    /// The thinker (update behavior) of `entity`, if it has one.
    pub fn thinker(&self, entity: EntityID) -> (r: Option<Rc<B>>)
        ensures
            r == if self@.thinkers.contains_key(entity) {
                Some(self@.thinkers[entity])
            } else {
                None
            },
    {
        match self.thinkers.get(&entity) {
            Some(c) => Some(c.clone()),
            None => None,
        }
    }

    /// Give `entity` a thinker (update behavior), in place of any it had.
    pub fn set_thinker(&mut self, entity: EntityID, value: Rc<B>)
        requires
            old(self)@.live.contains(entity),
        ensures
            final(self)@ == (WorldModel {
                thinkers: old(self)@.thinkers.insert(entity, value),
                ..old(self)@
            }),
            old(self)@.wf() ==> final(self)@.wf(),
    {
        self.thinkers.insert(entity, value);
    }

    /// The drawer (draw behavior) of `entity`, if it has one.
    pub fn drawer(&self, entity: EntityID) -> (r: Option<Rc<B>>)
        ensures
            r == if self@.drawers.contains_key(entity) {
                Some(self@.drawers[entity])
            } else {
                None
            },
    {
        match self.drawers.get(&entity) {
            Some(c) => Some(c.clone()),
            None => None,
        }
    }

    /// Give `entity` a drawer (draw behavior), in place of any it had.
    pub fn set_drawer(&mut self, entity: EntityID, value: Rc<B>)
        requires
            old(self)@.live.contains(entity),
        ensures
            final(self)@ == (WorldModel {
                drawers: old(self)@.drawers.insert(entity, value),
                ..old(self)@
            }),
            old(self)@.wf() ==> final(self)@.wf(),
    {
        self.drawers.insert(entity, value);
    }

    /// The sprite of `entity`, if it has one.
    pub fn sprite(&self, entity: EntityID) -> (r: Option<ImageDelegate>)
        ensures
            r == if self@.sprites.contains_key(entity) {
                Some(self@.sprites[entity])
            } else {
                None
            },
    {
        match self.sprites.get(&entity) {
            Some(c) => Some((*c).clone()),
            None => None,
        }
    }

    /// Give `entity` a sprite, in place of any it had.
    pub fn set_sprite(&mut self, entity: EntityID, value: ImageDelegate)
        requires
            old(self)@.live.contains(entity),
        ensures
            final(self)@ == (WorldModel {
                sprites: old(self)@.sprites.insert(entity, value),
                ..old(self)@
            }),
            old(self)@.wf() ==> final(self)@.wf(),
    {
        self.sprites.insert(entity, value);
    }

}

/// Starting from the counter, with exactly the identifiers below it live, the
/// next entity gets the counter's value, and afterwards the identifiers below
/// the new counter are live.
pub proof fn lemma_allocates_next(live: Set<EntityID>, counter: EntityID, r: EntityID)
    requires
        live == ids_below(counter as nat),
        counter < u32::MAX,
        first_free(live, counter, r),
    ensures
        r == counter,
        live.insert(r) == ids_below(next_id(r) as nat),
{
    if r != counter {
        assert(wrap_dist(counter, counter) == 0);
    }
    assert(live.insert(r) =~= ids_below(next_id(r) as nat));
}

/// Creating entities one after another in a new world, without removing any,
/// yields the identifiers `0, 1, 2, ...` in order: after `n` of them the live
/// set is the identifiers below `n`.
pub proof fn lemma_ids_in_sequence(lives: Seq<Set<EntityID>>, counters: Seq<EntityID>, ids: Seq<EntityID>)
    requires
        ids.len() < u32::MAX,
        lives.len() == ids.len() + 1,
        counters.len() == ids.len() + 1,
        lives[0] == Set::<EntityID>::empty(),
        counters[0] == 0,
        forall|k: int|
            0 <= k < ids.len() ==> #[trigger] first_free(lives[k], counters[k], ids[k]) && lives[k
                + 1] == lives[k].insert(ids[k]) && counters[k + 1] == next_id(ids[k]),
    ensures
        forall|k: int| 0 <= k < ids.len() ==> #[trigger] ids[k] == k,
        lives[ids.len() as int] == ids_below(ids.len()),
    decreases ids.len(),
{
    if ids.len() == 0 {
        assert(lives[0] =~= ids_below(0));
    } else {
        let n = ids.len() - 1;
        lemma_ids_in_sequence(lives.take(n + 1), counters.take(n + 1), ids.take(n));
        assert(first_free(lives[n], counters[n], ids[n]));
        assert(counters[n] == n) by {
            if n > 0 {
                assert(first_free(lives[n - 1], counters[n - 1], ids[n - 1]));
                assert(ids.take(n)[n - 1] == n - 1);
            }
        }
        lemma_allocates_next(lives[n], counters[n], ids[n]);
        assert forall|k: int| 0 <= k < ids.len() implies #[trigger] ids[k] == k by {
            if k < n {
                assert(ids.take(n)[k] == ids[k]);
            }
        }
    }
}

} // verus!
