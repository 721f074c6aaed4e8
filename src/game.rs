//! The entity world and the per-frame update and compose logic.

pub mod entitybuilder;
pub mod world;

use vstd::prelude::*;

use crate::gfx::blit::Blit;
use crate::gfx::image::{lemma_whole_blit_fits, ImageDelegate, ImageView};
use crate::gfx::screen::Screen;
use crate::input::{Button, InputState, PressedState};
use world::{Behavior, EntityID, World, WorldModel};

verus! {

/// A raw input event from the host platform, already mapped to a logical button.
#[derive(Copy, Clone, PartialEq, Eq, Debug, Structural)]
pub enum Event {
    Quit,
    KeyDown(Button),
    KeyUp(Button),
}

/// The state of button `b`, starting from `start`, after `events` in order.
pub open spec fn button_after(start: PressedState, events: Seq<Event>, b: Button) -> PressedState
    decreases events.len(),
{
    if events.len() == 0 {
        start
    } else {
        let prev = button_after(start, events.drop_last(), b);
        match events.last() {
            Event::KeyDown(k) => if k == b {
                prev.after_key_down()
            } else {
                prev
            },
            Event::KeyUp(k) => if k == b {
                prev.after_key_up()
            } else {
                prev
            },
            Event::Quit => prev,
        }
    }
}

/// `img` after compositing, entity by entity in `order`, the sprite of each
/// entity that has one, whole onto whole.
pub open spec fn sprites_drawn(
    sprites: Map<EntityID, ImageDelegate>,
    order: Seq<EntityID>,
    img: ImageView,
) -> ImageView
    decreases order.len(),
{
    if order.len() == 0 {
        img
    } else {
        let prev = sprites_drawn(sprites, order.drop_last(), img);
        if sprites.contains_key(order.last()) {
            sprites[order.last()].blitted(None, prev, None)
        } else {
            prev
        }
    }
}

/// One entity's turn in the update step: the thinker the world holds for it
/// runs, or, where it has none, the world stays as it is.
pub open spec fn think_step<V, B: Behavior<V>>(
    before: WorldModel<V, B>,
    entity: EntityID,
    input: InputState,
    after: WorldModel<V, B>,
) -> bool {
    if before.thinkers.contains_key(entity) {
        before.thinkers[entity].thought(before, entity, input, after)
    } else {
        after == before
    }
}

/// The update step went through the entities in `order`, one turn each, with
/// the worlds `ws` between the turns.
pub open spec fn update_run<V, B: Behavior<V>>(
    before: WorldModel<V, B>,
    input: InputState,
    order: Seq<EntityID>,
    ws: Seq<WorldModel<V, B>>,
    after: WorldModel<V, B>,
) -> bool {
    &&& order.to_set() == before.live
    &&& order.no_duplicates()
    &&& ws.len() == order.len() + 1
    &&& ws[0] == before
    &&& ws.last() == after
    &&& forall|k: int| 0 <= k < order.len() ==> #[trigger] think_step(ws[k], order[k], input, ws[k + 1])
}

/// `after` is the world after the update step from `before`: every entity
/// live at its start takes one turn, in some order; entities created during
/// the step take none.
pub open spec fn updated<V, B: Behavior<V>>(
    before: WorldModel<V, B>,
    input: InputState,
    after: WorldModel<V, B>,
) -> bool {
    exists|order: Seq<EntityID>, ws: Seq<WorldModel<V, B>>| #[trigger]
        update_run(before, input, order, ws, after)
}

/// One entity's turn in the draw step: the drawer the world holds for it
/// runs; where it has none, its sprite is composited whole onto the whole
/// screen image; where it has neither, nothing changes.
pub open spec fn draw_step<V, B: Behavior<V>>(
    before: WorldModel<V, B>,
    screen_before: Screen,
    entity: EntityID,
    after: WorldModel<V, B>,
    screen_after: Screen,
) -> bool {
    if before.drawers.contains_key(entity) {
        before.drawers[entity].drew(before, screen_before, entity, after, screen_after)
    } else if before.sprites.contains_key(entity) {
        &&& after == before
        &&& screen_after.colors == screen_before.colors
        &&& screen_after.image@ == before.sprites[entity].blitted(None, screen_before.image@, None)
    } else {
        after == before && screen_after == screen_before
    }
}

/// The draw step went through the entities in `order`, one turn each, with
/// the worlds `ws` and screens `ss` between the turns.
pub open spec fn draw_run<V, B: Behavior<V>>(
    before: WorldModel<V, B>,
    screen_before: Screen,
    order: Seq<EntityID>,
    ws: Seq<WorldModel<V, B>>,
    ss: Seq<Screen>,
    after: WorldModel<V, B>,
    screen_after: Screen,
) -> bool {
    &&& order.to_set() == before.live
    &&& order.no_duplicates()
    &&& ws.len() == order.len() + 1
    &&& ss.len() == order.len() + 1
    &&& ws[0] == before
    &&& ss[0] == screen_before
    &&& ws.last() == after
    &&& ss.last() == screen_after
    &&& forall|k: int|
        0 <= k < order.len() ==> #[trigger] draw_step(ws[k], ss[k], order[k], ws[k + 1], ss[k + 1])
}

/// `after` and `screen_after` follow from the draw step: every entity live at
/// its start takes one turn, in some order.
pub open spec fn drawn<V, B: Behavior<V>>(
    before: WorldModel<V, B>,
    screen_before: Screen,
    after: WorldModel<V, B>,
    screen_after: Screen,
) -> bool {
    exists|order: Seq<EntityID>, ws: Seq<WorldModel<V, B>>, ss: Seq<Screen>| #[trigger]
        draw_run(before, screen_before, order, ws, ss, after, screen_after)
}

/// The frame loop's state: buttons, whether it still runs, the screen and the world.
pub struct Game<V, B> {
    pub input_state: InputState,
    pub running: bool,
    pub screen: Screen,
    pub world: World<V, B>,
}

impl<V: Copy, B: Behavior<V>> Game<V, B> {
    /// A running game with every button up, a new screen and an empty world.
    pub fn new() -> (r: Self)
        ensures
            forall|b: Button| #[trigger] r.input_state.get(b) == PressedState::Up,
            r.running,
            r.screen.image@.size == (crate::math::size::Size {
                width: crate::gfx::SCREEN_WIDTH,
                height: crate::gfx::SCREEN_HEIGHT,
            }),
            r.screen.image@.pixels == Seq::new(r.screen.image@.size.area(), |_i: int| 0u8),
            r.screen.colors@ == seq![[0u8, 0, 0, 0], [0u8, 0, 0, 0], [0u8, 0, 0, 0], [0u8, 0, 0, 0]],
            r.world@.live.is_empty(),
            r.world@.counter == 0,
            r.world@.wf(),
    {
        Game {
            input_state: InputState::new(),
            running: true,
            screen: Screen::new(),
            world: World::new(),
        }
    }

    /// A key-up event: the button becomes `Up`.
    pub fn handle_key_up(&mut self, button: Button)
        ensures
            forall|b: Button| #[trigger]
                final(self).input_state.get(b) == if b == button {
                    old(self).input_state.get(b).after_key_up()
                } else {
                    old(self).input_state.get(b)
                },
            final(self).running == old(self).running,
            final(self).screen == old(self).screen,
            final(self).world == old(self).world,
    {
        self.input_state.key_up(button);
    }

    /// A key-down event: the button becomes `Pressed`, unless it is `Held`.
    pub fn handle_key_down(&mut self, button: Button)
        ensures
            forall|b: Button| #[trigger]
                final(self).input_state.get(b) == if b == button {
                    old(self).input_state.get(b).after_key_down()
                } else {
                    old(self).input_state.get(b)
                },
            final(self).running == old(self).running,
            final(self).screen == old(self).screen,
            final(self).world == old(self).world,
    {
        self.input_state.key_down(button);
    }

    /// Apply the pending events in order; a `Quit` stops the game.
    pub fn handle_events(&mut self, events: &Vec<Event>)
        ensures
            forall|b: Button| #[trigger]
                final(self).input_state.get(b) == button_after(old(self).input_state.get(b), events@, b),
            final(self).running == (old(self).running && !events@.contains(Event::Quit)),
            final(self).screen == old(self).screen,
            final(self).world == old(self).world,
    {
        let ghost start = self.input_state;
        let mut k: usize = 0;
        while k < events.len()
            invariant
                k <= events@.len(),
                forall|b: Button| #[trigger]
                    self.input_state.get(b) == button_after(start.get(b), events@.take(k as int), b),
                self.running == (old(self).running && !events@.take(k as int).contains(Event::Quit)),
                self.screen == old(self).screen,
                self.world == old(self).world,
            decreases events@.len() - k,
        {
            let ghost before = self.input_state;
            let e = events[k];
            match e {
                Event::Quit => {
                    self.running = false;
                },
                Event::KeyDown(button) => {
                    self.input_state.key_down(button);
                },
                Event::KeyUp(button) => {
                    self.input_state.key_up(button);
                },
            }
            proof {
                let done = events@.take(k + 1);
                assert(done.drop_last() =~= events@.take(k as int));
                assert(done.last() == e);
                assert(done.contains(Event::Quit) == (events@.take(k as int).contains(Event::Quit)
                    || e == Event::Quit)) by {
                    if e == Event::Quit {
                        assert(done[k as int] == e);
                    }
                    if done.contains(Event::Quit) && e != Event::Quit {
                        let j = choose|j: int| 0 <= j < done.len() && done[j] == Event::Quit;
                        assert(events@.take(k as int)[j] == Event::Quit);
                    }
                }
            }
            k = k + 1;
        }
        assert(events@.take(events@.len() as int) =~= events@);
    }

    /// Run the thinker of every live entity that has one, over a snapshot of
    /// the live set taken first: entities created meanwhile wait for the next frame.
    pub fn update_entities(&mut self)
        ensures
            final(self).input_state == old(self).input_state,
            final(self).running == old(self).running,
            final(self).screen == old(self).screen,
            updated(old(self).world@, old(self).input_state, final(self).world@),
            old(self).world@.thinkers.is_empty() ==> final(self).world@ == old(self).world@,
    {
        let entities = self.world.clone_entities();
        let ghost order = entities@;
        let ghost mut ws: Seq<WorldModel<V, B>> = seq![self.world@];
        let mut k: usize = 0;
        while k < entities.len()
            invariant
                entities@ == order,
                order.to_set() == old(self).world@.live,
                order.no_duplicates(),
                k <= entities@.len(),
                ws.len() == k + 1,
                ws[0] == old(self).world@,
                ws.last() == self.world@,
                forall|j: int|
                    0 <= j < k ==> #[trigger] think_step(ws[j], order[j], old(self).input_state, ws[j + 1]),
                self.input_state == old(self).input_state,
                self.running == old(self).running,
                self.screen == old(self).screen,
                old(self).world@.thinkers.is_empty() ==> self.world@ == old(self).world@,
            decreases entities@.len() - k,
        {
            let id = entities[k];
            if let Some(thinker) = self.world.thinker(id) {
                thinker.think(&mut self.world, id, self.input_state);
            }
            proof {
                let prev = ws;
                ws = ws.push(self.world@);
                assert forall|j: int| 0 <= j < k + 1 implies #[trigger] think_step(
                    ws[j],
                    order[j],
                    old(self).input_state,
                    ws[j + 1],
                ) by {
                    if j < k {
                        assert(ws[j] == prev[j] && ws[j + 1] == prev[j + 1]);
                    }
                }
            }
            k = k + 1;
        }
        assert(update_run(old(self).world@, old(self).input_state, order, ws, self.world@));
    }

    /// For every live entity, over a snapshot of the live set: run its drawer,
    /// or, where it has none, composite its sprite whole onto the whole screen.
    /// Entities with neither are skipped.
    pub fn draw_entities(&mut self)
        ensures
            final(self).input_state == old(self).input_state,
            final(self).running == old(self).running,
            drawn(old(self).world@, old(self).screen, final(self).world@, final(self).screen),
            old(self).world@.drawers.is_empty() ==> {
                &&& final(self).world@ == old(self).world@
                &&& final(self).screen.colors == old(self).screen.colors
                &&& exists|order: Seq<EntityID>|
                    {
                        &&& order.to_set() == old(self).world@.live
                        &&& order.no_duplicates()
                        &&& final(self).screen.image@ == sprites_drawn(
                            old(self).world@.sprites,
                            order,
                            old(self).screen.image@,
                        )
                    }
            },
    {
        let entities = self.world.clone_entities();
        let ghost order = entities@;
        let ghost mut ws: Seq<WorldModel<V, B>> = seq![self.world@];
        let ghost mut ss: Seq<Screen> = seq![self.screen];
        proof {
            use_type_invariant(&self.screen.image);
        }
        let mut k: usize = 0;
        while k < entities.len()
            invariant
                ws.len() == k + 1,
                ss.len() == k + 1,
                ws[0] == old(self).world@,
                ss[0] == old(self).screen,
                ws.last() == self.world@,
                ss.last() == self.screen,
                forall|j: int|
                    0 <= j < k ==> #[trigger] draw_step(ws[j], ss[j], order[j], ws[j + 1], ss[j + 1]),
                entities@ == order,
                order.to_set() == old(self).world@.live,
                order.no_duplicates(),
                k <= entities@.len(),
                self.input_state == old(self).input_state,
                self.running == old(self).running,
                old(self).world@.drawers.is_empty() ==> {
                    &&& self.world@ == old(self).world@
                    &&& self.screen.colors == old(self).screen.colors
                    &&& self.screen.image@ == sprites_drawn(
                        old(self).world@.sprites,
                        order.take(k as int),
                        old(self).screen.image@,
                    )
                },
            decreases entities@.len() - k,
        {
            let id = entities[k];
            let ghost prev = self.screen.image@;
            proof {
                use_type_invariant(&self.screen.image);
                assert(order.take(k + 1).drop_last() =~= order.take(k as int));
            }
            if let Some(drawer) = self.world.drawer(id) {
                drawer.draw(&mut self.world, &mut self.screen, id);
            } else if let Some(sprite) = self.world.sprite(id) {
                let img = sprite.source_image();
                proof {
                    use_type_invariant(img);
                }
                if let ImageDelegate::ImageRef(view) = &sprite {
                    proof {
                        use_type_invariant(view);
                    }
                }
                proof {
                    lemma_whole_blit_fits(sprite, self.screen.image@);
                }
                sprite.blit_to(None, &mut self.screen.image, None);
            }
            proof {
                let (pw, ps) = (ws, ss);
                ws = ws.push(self.world@);
                ss = ss.push(self.screen);
                assert forall|j: int| 0 <= j < k + 1 implies #[trigger] draw_step(
                    ws[j],
                    ss[j],
                    order[j],
                    ws[j + 1],
                    ss[j + 1],
                ) by {
                    if j < k {
                        assert(ws[j] == pw[j] && ws[j + 1] == pw[j + 1]);
                        assert(ss[j] == ps[j] && ss[j + 1] == ps[j + 1]);
                    }
                }
            }
            k = k + 1;
        }
        assert(order.take(entities@.len() as int) =~= order);
        assert(draw_run(old(self).world@, old(self).screen, order, ws, ss, self.world@, self.screen));
    }

    /// One frame: advance every button, apply the pending events, run the
    /// thinkers, draw, and resolve the screen through its palette into a packed
    /// frame (see `Screen::resolve`). `None` where the screen then holds a
    /// pixel that is no color index.
    pub fn frame(&mut self, events: &Vec<Event>) -> (r: Option<Vec<u8>>)
        ensures
            forall|b: Button| #[trigger]
                final(self).input_state.get(b) == button_after(
                    old(self).input_state.get(b).advanced(),
                    events@,
                    b,
                ),
            final(self).running == (old(self).running && !events@.contains(Event::Quit)),
            r is Some <==> final(self).screen.resolvable(),
            r matches Some(f) ==> final(self).screen.is_frame(f@),
            exists|w: WorldModel<V, B>|
                {
                    &&& #[trigger] updated(old(self).world@, final(self).input_state, w)
                    &&& drawn(w, old(self).screen, final(self).world@, final(self).screen)
                },
            old(self).world@.thinkers.is_empty() && old(self).world@.drawers.is_empty() ==> {
                &&& final(self).world@ == old(self).world@
                &&& final(self).screen.colors == old(self).screen.colors
                &&& exists|order: Seq<EntityID>|
                    {
                        &&& order.to_set() == old(self).world@.live
                        &&& order.no_duplicates()
                        &&& final(self).screen.image@ == sprites_drawn(
                            old(self).world@.sprites,
                            order,
                            old(self).screen.image@,
                        )
                    }
            },
    {
        self.input_state.update();
        self.handle_events(events);
        self.update_entities();
        let ghost w = self.world@;
        self.draw_entities();
        assert(updated(old(self).world@, self.input_state, w));
        if self.screen.is_resolvable() {
            Some(self.screen.resolve())
        } else {
            None
        }
    }
}

} // verus!
