use std::rc::Rc;

use gbjam4::game::entitybuilder::EntityBuilder;
use gbjam4::game::world::{Behavior, EntityID, World};
use gbjam4::game::{Event, Game};
use gbjam4::gfx::image::{Image, ImageDelegate, SubImage};
use gbjam4::math::rect::Rect;
use gbjam4::gfx::palettes::default_colors;
use gbjam4::gfx::screen::Screen;
use gbjam4::input::{Button, InputState, PressedState};

type Vec2 = (f32, f32);

/// Behaviors used to exercise the frame logic.
enum Act {
    /// Moves its entity and spawns a new entity once.
    Spawn,
    /// Paints the top-left pixel of the screen with index 3.
    Paint,
    /// Records the state of button A as the entity's position.
    ReadA,
}

impl Behavior<Vec2> for Act {
    fn think(&self, world: &mut World<Vec2, Act>, entity: EntityID, input: InputState) {
        match self {
            Act::Spawn => {
                world.set_position(entity, (1.0, 2.0));
                let id = world.create_entity();
                world.set_velocity(id, (3.0, 4.0));
            }
            Act::Paint => {}
            Act::ReadA => {
                let v = if input.a == PressedState::Pressed { 1.0 } else { 0.0 };
                world.set_position(entity, (v, v));
            }
        }
    }

    fn draw(&self, _world: &mut World<Vec2, Act>, screen: &mut Screen, _entity: EntityID) {
        if let Act::Paint = self {
            screen.image.set_pixel((0, 0), 3).unwrap();
        }
    }
}

fn small_game() -> Game<Vec2, Act> {
    let mut game: Game<Vec2, Act> = Game::new();
    game.screen.image = Image::new((16u32, 16u32), 0u8);
    game.screen.colors = default_colors();
    game
}

#[test]
fn ids_are_sequential_from_zero() {
    let mut world: World<Vec2, Act> = World::new();
    let ids: Vec<EntityID> = (0..5).map(|_| world.create_entity()).collect();
    assert_eq!(ids, vec![0, 1, 2, 3, 4]);
    let mut live = world.clone_entities();
    live.sort();
    assert_eq!(live, vec![0, 1, 2, 3, 4]);
}

#[test]
fn components_are_absent_until_set() {
    let mut world: World<Vec2, Act> = World::new();
    let id = world.create_entity();
    assert_eq!(world.position(id), None);
    assert_eq!(world.velocity(id), None);
    assert!(world.thinker(id).is_none());
    assert!(world.drawer(id).is_none());
    assert!(world.sprite(id).is_none());
    world.set_position(id, (1.5, -2.0));
    world.set_velocity(id, (0.25, 0.0));
    world.set_position(id, (3.0, 4.0));
    assert_eq!(world.position(id), Some((3.0, 4.0)));
    assert_eq!(world.velocity(id), Some((0.25, 0.0)));
    world.set_thinker(id, Rc::new(Act::Spawn));
    world.set_sprite(id, ImageDelegate::ImageBuf(Rc::new(Image::new((1u32, 1u32), 1u8))));
    assert!(world.thinker(id).is_some());
    assert!(world.sprite(id).is_some());
}

#[test]
fn builder_sets_components() {
    let mut world: World<Vec2, Act> = World::new();
    let first = world.create_entity();
    let id = EntityBuilder::new(&mut world)
        .position((0.0, 0.0))
        .velocity((1.0, 1.0))
        .drawer(Rc::new(Act::Paint))
        .finish();
    assert_eq!(first, 0);
    assert_eq!(id, 1);
    assert_eq!(world.position(id), Some((0.0, 0.0)));
    assert_eq!(world.velocity(id), Some((1.0, 1.0)));
    assert!(world.drawer(id).is_some());
    assert_eq!(world.position(first), None);
}

#[test]
fn frame_draws_default_sprite() {
    let mut game = small_game();
    let id = game.world.create_entity();
    game.world.set_sprite(id, ImageDelegate::ImageBuf(Rc::new(Image::new((8u32, 8u32), 1u8))));
    let frame = game.frame(&vec![]).unwrap();
    let buf = game.screen.image.buffer();
    for y in 0..16 {
        for x in 0..16 {
            let expected = if x < 8 && y < 8 { 1 } else { 0 };
            assert_eq!(buf[y * 16 + x], expected);
        }
    }
    assert_eq!(frame.len(), 16 * 16 * 4);
    assert_eq!(&frame[0..4], &[48, 98, 48, 255]);
    assert_eq!(&frame[8 * 4..9 * 4], &[15, 56, 15, 255]);
}

#[test]
fn frame_advances_input_then_applies_events() {
    let mut game = small_game();
    game.frame(&vec![Event::KeyDown(Button::A), Event::KeyDown(Button::Start)]).unwrap();
    assert_eq!(game.input_state.a, PressedState::Pressed);
    assert_eq!(game.input_state.start, PressedState::Pressed);
    game.frame(&vec![Event::KeyUp(Button::Start)]).unwrap();
    assert_eq!(game.input_state.a, PressedState::Held);
    assert_eq!(game.input_state.start, PressedState::Up);
    game.frame(&vec![Event::KeyDown(Button::A)]).unwrap();
    assert_eq!(game.input_state.a, PressedState::Held);
    assert!(game.running);
    game.frame(&vec![Event::Quit]).unwrap();
    assert!(!game.running);
}

#[test]
fn key_handlers_set_button_states() {
    let mut game = small_game();
    game.handle_key_down(Button::Down);
    assert_eq!(game.input_state.down, PressedState::Pressed);
    game.handle_key_up(Button::Down);
    assert_eq!(game.input_state.down, PressedState::Up);
    game.handle_events(&vec![Event::KeyDown(Button::B), Event::KeyUp(Button::B), Event::KeyDown(Button::Right)]);
    assert_eq!(game.input_state.b, PressedState::Up);
    assert_eq!(game.input_state.right, PressedState::Pressed);
    assert!(game.running);
}

#[test]
fn thinker_sees_input_and_new_entities_wait() {
    let mut game = small_game();
    let reader = game.world.create_entity();
    game.world.set_thinker(reader, Rc::new(Act::ReadA));
    let spawner = game.world.create_entity();
    game.world.set_thinker(spawner, Rc::new(Act::Spawn));
    game.frame(&vec![Event::KeyDown(Button::A)]).unwrap();
    assert_eq!(game.world.position(reader), Some((1.0, 1.0)));
    assert_eq!(game.world.position(spawner), Some((1.0, 2.0)));
    assert_eq!(game.world.velocity(2), Some((3.0, 4.0)));
    assert_eq!(game.world.clone_entities().len(), 3);
    game.frame(&vec![]).unwrap();
    assert_eq!(game.world.position(reader), Some((0.0, 0.0)));
    assert_eq!(game.world.clone_entities().len(), 4);
}

#[test]
fn drawer_replaces_default_sprite() {
    let mut game = small_game();
    let id = game.world.create_entity();
    game.world.set_sprite(id, ImageDelegate::ImageBuf(Rc::new(Image::new((8u32, 8u32), 1u8))));
    game.world.set_drawer(id, Rc::new(Act::Paint));
    game.frame(&vec![]).unwrap();
    let buf = game.screen.image.buffer();
    assert_eq!(buf[0], 3);
    assert!(buf[1..].iter().all(|p| *p == 0));
}

#[test]
fn frame_without_entities_keeps_screen() {
    let mut game = small_game();
    let frame = game.frame(&vec![]).unwrap();
    assert!(game.screen.image.buffer().iter().all(|p| *p == 0));
    for px in frame.chunks(4) {
        assert_eq!(px, &[15, 56, 15, 255]);
    }
}

#[test]
fn frame_with_unresolvable_screen_is_none() {
    let mut game = small_game();
    game.screen.image.set_pixel((3, 3), 9).unwrap();
    assert!(game.frame(&vec![]).is_none());
}

#[test]
fn new_game_state() {
    let game: Game<Vec2, Act> = Game::new();
    assert!(game.running);
    assert_eq!(game.input_state, InputState::new());
    assert_eq!(game.screen.image.buffer().len(), 160 * 144);
    assert!(game.world.clone_entities().is_empty());
    assert_eq!(game.screen.colors, [[0u8; 4]; 4]);
}

#[test]
fn frame_draws_sprite_of_entity_without_drawer_beside_drawer() {
    let mut game = small_game();
    let painter = game.world.create_entity();
    game.world.set_drawer(painter, Rc::new(Act::Paint));
    let shared = Rc::new(Image::new((4u32, 4u32), 2u8));
    let plain = game.world.create_entity();
    let view = SubImage::new(shared, Rect::new(2, 2, 2, 2)).unwrap();
    game.world.set_sprite(plain, ImageDelegate::ImageRef(view));
    game.frame(&vec![]).unwrap();
    let buf = game.screen.image.buffer();
    for y in 0..16 {
        for x in 0..16 {
            let expected = if x == 0 && y == 0 {
                3
            } else if (2..4).contains(&x) && (2..4).contains(&y) {
                2
            } else {
                0
            };
            assert_eq!(buf[y * 16 + x], expected);
        }
    }
}
