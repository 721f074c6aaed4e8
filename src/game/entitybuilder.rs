use vstd::prelude::*;

use std::rc::Rc;

use super::world::{first_free, next_id, EntityID, World, WorldModel};
use crate::gfx::image::ImageDelegate;

verus! {

/// Creates an entity and sets its components one call after another.
pub struct EntityBuilder<'a, V, B> {
    pub i: EntityID,
    pub w: &'a mut World<V, B>,
}

impl<'a, V: Copy, B> EntityBuilder<'a, V, B> {
    /// Create an entity in `world` (see `World::create_entity`).
    pub fn new(world: &'a mut World<V, B>) -> (r: EntityBuilder<'a, V, B>)
        requires
            exists|id: EntityID| !old(world)@.live.contains(id),
        ensures
            first_free(old(world)@.live, old(world)@.counter, r.i),
            r.w@ == (WorldModel {
                live: old(world)@.live.insert(r.i),
                counter: next_id(r.i),
                ..old(world)@
            }),
            r.w@.live.contains(r.i),
            final(world)@ == final(r.w)@,
    {
        EntityBuilder { i: world.create_entity(), w: world }
    }

    /// The entity's identifier.
    pub fn finish(&self) -> (r: EntityID)
        ensures
            r == self.i,
    {
        self.i
    }

    /// Set the entity's position.
    pub fn position(&mut self, v: V) -> (r: &mut Self)
        requires
            old(self).w@.live.contains(old(self).i),
        ensures
            r.i == old(self).i,
            r.w@ == (WorldModel {
                positions: old(self).w@.positions.insert(old(self).i, v),
                ..old(self).w@
            }),
            final(old(self).w)@ == final(r.w)@,
            *final(self) == *final(r),
    {
        self.w.set_position(self.i, v);
        self
    }

    /// Set the entity's velocity.
    pub fn velocity(&mut self, v: V) -> (r: &mut Self)
        requires
            old(self).w@.live.contains(old(self).i),
        ensures
            r.i == old(self).i,
            r.w@ == (WorldModel {
                velocities: old(self).w@.velocities.insert(old(self).i, v),
                ..old(self).w@
            }),
            final(old(self).w)@ == final(r.w)@,
            *final(self) == *final(r),
    {
        self.w.set_velocity(self.i, v);
        self
    }

    /// Set the entity's thinker.
    pub fn thinker(&mut self, v: Rc<B>) -> (r: &mut Self)
        requires
            old(self).w@.live.contains(old(self).i),
        ensures
            r.i == old(self).i,
            r.w@ == (WorldModel {
                thinkers: old(self).w@.thinkers.insert(old(self).i, v),
                ..old(self).w@
            }),
            final(old(self).w)@ == final(r.w)@,
            *final(self) == *final(r),
    {
        self.w.set_thinker(self.i, v);
        self
    }

    /// Set the entity's drawer.
    pub fn drawer(&mut self, v: Rc<B>) -> (r: &mut Self)
        requires
            old(self).w@.live.contains(old(self).i),
        ensures
            r.i == old(self).i,
            r.w@ == (WorldModel {
                drawers: old(self).w@.drawers.insert(old(self).i, v),
                ..old(self).w@
            }),
            final(old(self).w)@ == final(r.w)@,
            *final(self) == *final(r),
    {
        self.w.set_drawer(self.i, v);
        self
    }

    /// Set the entity's sprite.
    pub fn sprite(&mut self, v: ImageDelegate) -> (r: &mut Self)
        requires
            old(self).w@.live.contains(old(self).i),
        ensures
            r.i == old(self).i,
            r.w@ == (WorldModel {
                sprites: old(self).w@.sprites.insert(old(self).i, v),
                ..old(self).w@
            }),
            final(old(self).w)@ == final(r.w)@,
            *final(self) == *final(r),
    {
        self.w.set_sprite(self.i, v);
        self
    }
}

} // verus!
