use dodger::avatar::{
    centered, confine, shot, steer, touches, Input, Playfield, AVATAR_SIZE, AVATAR_SPEED,
    PROJECTILE_SIZE,
};
use dodger::entity::{Entity, ShapeKind, Tint};
use dodger::session::{GameState, Session, Signal};
use dodger::simulation::Burst;
use dodger::world::World;

const FIELD: Playfield = Playfield { width: 800_000, height: 600_000 };

const NOTHING: Input = Input {
    left: false,
    right: false,
    up: false,
    down: false,
    fire: false,
    pause: false,
    confirm: false,
    quit: false,
};

fn obstacle(x: i32, y: i32, size: u32) -> Entity {
    Entity { kind: ShapeKind::Rectangle, x, y, size, speed: 100_000, tint: Tint::Magenta, collided: false }
}

fn projectile(x: i32, y: i32) -> Entity {
    Entity { kind: ShapeKind::Circle, x, y, size: 32_000, speed: 600_000, tint: Tint::Red, collided: false }
}

fn in_state(state: GameState) -> World {
    let mut world = World::new(100, FIELD);
    world.session.state = state;
    world
}

fn same(a: &World, b: &World) -> bool {
    a.session == b.session
        && a.avatar == b.avatar
        && a.obstacles == b.obstacles
        && a.projectiles == b.projectiles
}

#[test]
fn a_new_world_waits_in_the_menu() {
    let world = World::new(77, FIELD);
    assert_eq!(world.session, Session { state: GameState::MainMenu, score: 0, high_score: 77 });
    assert_eq!(world.avatar, Entity {
        kind: ShapeKind::Circle,
        x: 400_000,
        y: 300_000,
        size: 16_000,
        speed: 300_000,
        tint: Tint::Yellow,
        collided: false,
    });
    assert!(world.obstacles.is_empty());
    assert!(world.projectiles.is_empty());
    assert_eq!(Session::new(77), world.session);
    assert_eq!(centered(FIELD), world.avatar);
    assert_eq!(AVATAR_SIZE, 16_000);
    assert_eq!(AVATAR_SPEED, 300_000);
    assert_eq!(PROJECTILE_SIZE, 32_000);
}

#[test]
fn the_state_machine_has_five_transitions() {
    assert_eq!(GameState::MainMenu.after(Signal::Confirm), GameState::Playing);
    assert_eq!(GameState::Playing.after(Signal::Pause), GameState::Paused);
    assert_eq!(GameState::Paused.after(Signal::Confirm), GameState::Playing);
    assert_eq!(GameState::Playing.after(Signal::TerminalCollision), GameState::GameOver);
    assert_eq!(GameState::GameOver.after(Signal::Confirm), GameState::MainMenu);
}

#[test]
fn other_signals_are_ignored() {
    assert_eq!(GameState::MainMenu.after(Signal::Pause), GameState::MainMenu);
    assert_eq!(GameState::MainMenu.after(Signal::TerminalCollision), GameState::MainMenu);
    assert_eq!(GameState::Playing.after(Signal::Confirm), GameState::Playing);
    assert_eq!(GameState::Paused.after(Signal::Pause), GameState::Paused);
    assert_eq!(GameState::Paused.after(Signal::TerminalCollision), GameState::Paused);
    assert_eq!(GameState::GameOver.after(Signal::Pause), GameState::GameOver);
    assert_eq!(GameState::GameOver.after(Signal::TerminalCollision), GameState::GameOver);
}

#[test]
fn confirm_in_the_menu_starts_a_game() {
    let mut world = in_state(GameState::MainMenu);
    world.session.score = 40;
    world.avatar.x = 1;
    world.avatar.y = 2;
    world.obstacles.push(obstacle(5, 5, 20_000));
    world.projectiles.push(projectile(5, 5));
    let outcome = world.step(Input { confirm: true, ..NOTHING }, 16_667, FIELD, None);
    assert_eq!(world.session, Session { state: GameState::Playing, score: 0, high_score: 100 });
    assert_eq!(world.avatar, centered(FIELD));
    assert!(world.obstacles.is_empty());
    assert!(world.projectiles.is_empty());
    assert!(outcome.bursts.is_empty());
    assert_eq!(outcome.persist, None);
    assert!(!outcome.quit);
}

#[test]
fn quit_in_the_menu_ends_the_process() {
    let mut world = in_state(GameState::MainMenu);
    let before = world.clone();
    let outcome = world.step(Input { quit: true, confirm: true, ..NOTHING }, 16_667, FIELD, None);
    assert!(outcome.quit);
    assert!(same(&world, &before));
}

#[test]
fn quit_means_nothing_outside_the_menu() {
    for state in [GameState::Playing, GameState::Paused, GameState::GameOver] {
        let mut world = in_state(state);
        let outcome = world.step(Input { quit: true, ..NOTHING }, 0, FIELD, None);
        assert!(!outcome.quit);
        assert_eq!(world.session.state, state);
    }
}

#[test]
fn the_menu_ignores_everything_else() {
    let mut world = in_state(GameState::MainMenu);
    world.obstacles.push(obstacle(5, 5, 20_000));
    let before = world.clone();
    let pressed = Input { left: true, up: true, fire: true, pause: true, ..NOTHING };
    let outcome = world.step(pressed, 16_667, FIELD, Some(obstacle(1, 1, 20_000)));
    assert!(same(&world, &before));
    assert!(!outcome.quit);
}

#[test]
fn pause_freezes_the_simulation() {
    let mut world = in_state(GameState::Paused);
    world.obstacles.push(obstacle(400_000, 300_000, 20_000));
    world.projectiles.push(projectile(400_000, 300_000));
    let before = world.clone();
    let held = Input { left: true, right: false, up: true, down: false, fire: true, pause: true, ..NOTHING };
    let outcome = world.step(held, 1_000_000, FIELD, Some(obstacle(1, 1, 20_000)));
    assert!(same(&world, &before));
    assert_eq!(world.avatar.x, 400_000);
    assert_eq!(world.avatar.y, 300_000);
    assert!(outcome.bursts.is_empty());
    assert_eq!(outcome.persist, None);
}

#[test]
fn confirm_resumes_a_paused_game() {
    let mut world = in_state(GameState::Paused);
    world.session.score = 30;
    world.obstacles.push(obstacle(5, 5, 20_000));
    let outcome = world.step(Input { confirm: true, down: true, ..NOTHING }, 16_667, FIELD, None);
    assert_eq!(world.session, Session { state: GameState::Playing, score: 30, high_score: 100 });
    assert_eq!(world.obstacles, vec![obstacle(5, 5, 20_000)]);
    assert_eq!(world.avatar, centered(FIELD));
    assert!(!outcome.quit);
}

#[test]
fn confirm_after_game_over_returns_to_the_menu() {
    let mut world = in_state(GameState::GameOver);
    world.session.score = 30;
    world.obstacles.push(obstacle(5, 5, 20_000));
    world.step(Input { confirm: true, ..NOTHING }, 16_667, FIELD, None);
    assert_eq!(world.session, Session { state: GameState::MainMenu, score: 30, high_score: 100 });
    assert_eq!(world.obstacles, vec![obstacle(5, 5, 20_000)]);
}

#[test]
fn game_over_freezes_the_simulation() {
    let mut world = in_state(GameState::GameOver);
    world.obstacles.push(obstacle(400_000, 300_000, 20_000));
    let before = world.clone();
    world.step(Input { right: true, fire: true, pause: true, ..NOTHING }, 16_667, FIELD, None);
    assert!(same(&world, &before));
}

#[test]
fn pause_in_play_pauses_after_the_frame() {
    let mut world = in_state(GameState::Playing);
    world.obstacles.push(obstacle(10_000, 0, 20_000));
    world.step(Input { pause: true, ..NOTHING }, 10_000, FIELD, None);
    assert_eq!(world.session.state, GameState::Paused);
    assert_eq!(world.obstacles, vec![obstacle(10_000, 1_000, 20_000)]);
}

#[test]
fn touching_an_obstacle_ends_the_game_and_scores_nothing() {
    let mut world = in_state(GameState::Playing);
    world.session.score = 30;
    world.obstacles.push(Entity { speed: 0, ..obstacle(400_000, 300_000, 20_000) });
    let outcome = world.step(NOTHING, 16_667, FIELD, None);
    assert_eq!(world.session, Session { state: GameState::GameOver, score: 30, high_score: 100 });
    assert!(!world.avatar.collided);
    assert_eq!(world.obstacles.len(), 1);
    assert!(!world.obstacles[0].collided);
    assert_eq!(outcome.persist, None);
    assert!(outcome.bursts.is_empty());
}

#[test]
fn a_newcomer_on_the_avatar_ends_the_game_in_its_first_frame() {
    let mut world = in_state(GameState::Playing);
    let newcomer = Entity { speed: 0, ..obstacle(400_000, 300_000, 20_000) };
    let outcome = world.step(NOTHING, 16_667, FIELD, Some(newcomer));
    assert_eq!(world.session, Session { state: GameState::GameOver, score: 0, high_score: 100 });
    assert_eq!(world.obstacles, vec![newcomer]);
    assert_eq!(outcome.persist, None);
}

#[test]
fn a_terminal_collision_wins_over_pause() {
    let mut world = in_state(GameState::Playing);
    world.obstacles.push(Entity { speed: 0, ..obstacle(400_000, 300_000, 20_000) });
    world.step(Input { pause: true, ..NOTHING }, 16_667, FIELD, None);
    assert_eq!(world.session.state, GameState::GameOver);
}

#[test]
fn a_record_is_persisted_when_the_life_ends() {
    let mut world = in_state(GameState::Playing);
    world.session.score = 100;
    world.obstacles.push(Entity { speed: 0, ..obstacle(400_000, 300_000, 20_000) });
    let outcome = world.step(NOTHING, 16_667, FIELD, None);
    assert_eq!(world.session.state, GameState::GameOver);
    assert_eq!(outcome.persist, Some(100));
}

#[test]
fn a_record_set_in_the_frame_of_death_is_persisted() {
    let mut world = in_state(GameState::Playing);
    world.session.score = 90;
    world.obstacles.push(Entity { speed: 0, ..obstacle(400_000, 300_000, 20_000) });
    world.obstacles.push(Entity { speed: 0, ..obstacle(100_000, 100_000, 20_000) });
    world.projectiles.push(Entity { speed: 0, ..projectile(100_000, 100_000) });
    let outcome = world.step(NOTHING, 16_667, FIELD, None);
    assert_eq!(world.session, Session { state: GameState::GameOver, score: 110, high_score: 110 });
    assert_eq!(outcome.persist, Some(110));
    assert_eq!(outcome.bursts, vec![Burst { x: 100_000, y: 100_000, particles: 40 }]);
}

#[test]
fn no_record_is_persisted_while_the_game_goes_on() {
    let mut world = in_state(GameState::Playing);
    world.session.score = 100;
    world.obstacles.push(Entity { speed: 0, ..obstacle(100_000, 100_000, 20_000) });
    world.projectiles.push(Entity { speed: 0, ..projectile(100_000, 100_000) });
    let outcome = world.step(NOTHING, 16_667, FIELD, None);
    assert_eq!(world.session, Session { state: GameState::Playing, score: 120, high_score: 120 });
    assert_eq!(outcome.persist, None);
}

#[test]
fn a_projectile_destroys_an_obstacle_and_scores_its_size() {
    let mut world = in_state(GameState::Playing);
    world.session.score = 1;
    world.obstacles.push(Entity { speed: 0, ..obstacle(100_000, 100_000, 20_000) });
    world.projectiles.push(Entity {
        kind: ShapeKind::Circle,
        x: 100_000,
        y: 100_000,
        size: 5_000,
        speed: 0,
        tint: Tint::Red,
        collided: false,
    });
    let outcome = world.step(NOTHING, 16_667, FIELD, None);
    assert!(world.obstacles.is_empty());
    assert!(world.projectiles.is_empty());
    assert_eq!(world.session, Session { state: GameState::Playing, score: 21, high_score: 100 });
    assert_eq!(outcome.bursts, vec![Burst { x: 100_000, y: 100_000, particles: 40 }]);
}

#[test]
fn entities_move_before_hits_are_tested() {
    let mut world = in_state(GameState::Playing);
    world.obstacles.push(obstacle(100_000, 0, 20_000));
    world.projectiles.push(projectile(100_000, 112_000));
    let outcome = world.step(NOTHING, 100_000, FIELD, None);
    assert!(world.obstacles.is_empty());
    assert!(world.projectiles.is_empty());
    assert_eq!(world.session.score, 20);
    assert_eq!(outcome.bursts, vec![Burst { x: 100_000, y: 10_000, particles: 40 }]);
}

#[test]
fn an_obstacle_beyond_the_bottom_is_gone_after_the_frame() {
    let mut world = in_state(GameState::Playing);
    world.obstacles.push(Entity { speed: 0, ..obstacle(100_000, 600_000 + 20_000 + 1, 20_000) });
    world.obstacles.push(Entity { speed: 0, ..obstacle(200_000, 600_000 + 20_000, 20_000) });
    world.step(NOTHING, 16_667, FIELD, None);
    assert_eq!(world.obstacles, vec![Entity { speed: 0, ..obstacle(200_000, 620_000, 20_000) }]);
}

#[test]
fn a_newcomer_joins_and_falls_in_its_first_frame() {
    let mut world = in_state(GameState::Playing);
    world.obstacles.push(obstacle(100_000, 50_000, 20_000));
    world.step(NOTHING, 10_000, FIELD, Some(obstacle(300_000, -20_000, 20_000)));
    assert_eq!(world.obstacles, vec![
        obstacle(100_000, 51_000, 20_000),
        obstacle(300_000, -19_000, 20_000),
    ]);
}

#[test]
fn held_directions_move_the_avatar() {
    let mut world = in_state(GameState::Playing);
    world.step(Input { right: true, down: true, ..NOTHING }, 10_000, FIELD, None);
    assert_eq!((world.avatar.x, world.avatar.y), (403_000, 303_000));
    world.step(Input { left: true, up: true, ..NOTHING }, 20_000, FIELD, None);
    assert_eq!((world.avatar.x, world.avatar.y), (397_000, 297_000));
    world.step(Input { left: true, right: true, ..NOTHING }, 20_000, FIELD, None);
    assert_eq!((world.avatar.x, world.avatar.y), (397_000, 297_000));
}

#[test]
fn steering_by_hand() {
    let mut avatar = centered(FIELD);
    steer(&mut avatar, Input { up: true, ..NOTHING }, 1_000_000);
    assert_eq!((avatar.x, avatar.y), (400_000, 0));
    steer(&mut avatar, Input { up: true, left: true, ..NOTHING }, 2_000_000);
    assert_eq!((avatar.x, avatar.y), (-200_000, -600_000));
    steer(&mut avatar, NOTHING, 2_000_000);
    assert_eq!((avatar.x, avatar.y), (-200_000, -600_000));
}

#[test]
fn the_avatar_is_held_on_the_field() {
    let mut world = in_state(GameState::Playing);
    world.avatar.x = 10_000;
    world.avatar.y = 595_000;
    world.step(Input { left: true, down: true, ..NOTHING }, 100_000, FIELD, None);
    assert_eq!((world.avatar.x, world.avatar.y), (8_000, 592_000));
    world.avatar.x = 795_000;
    world.avatar.y = 3_000;
    world.step(Input { right: true, up: true, ..NOTHING }, 100_000, FIELD, None);
    assert_eq!((world.avatar.x, world.avatar.y), (792_000, 8_000));
}

#[test]
fn confining_by_hand() {
    let mut avatar = Entity { x: -5, y: 7, size: 5, ..centered(FIELD) };
    confine(&mut avatar, Playfield { width: 100, height: 100 });
    assert_eq!((avatar.x, avatar.y), (3, 7));
    avatar.x = 98;
    avatar.y = 97;
    confine(&mut avatar, Playfield { width: 100, height: 100 });
    assert_eq!((avatar.x, avatar.y), (97, 97));
    confine(&mut avatar, Playfield { width: 4, height: 0 });
    assert_eq!((avatar.x, avatar.y), (1, -3));
    avatar.x = -9;
    confine(&mut avatar, Playfield { width: 4, height: 0 });
    assert_eq!((avatar.x, avatar.y), (3, 3));
    avatar.x = 2;
    avatar.y = 50;
    avatar.size = u32::MAX;
    confine(&mut avatar, Playfield { width: u32::MAX, height: u32::MAX });
    assert_eq!((avatar.x, avatar.y), (i32::MAX, i32::MAX));
}

#[test]
fn the_terminal_test_sees_the_avatar_before_the_clamp() {
    let mut world = in_state(GameState::Playing);
    world.avatar.x = 8_000;
    world.obstacles.push(Entity { speed: 0, ..obstacle(-30_000, 300_000, 20_000) });
    world.step(Input { left: true, ..NOTHING }, 100_000, FIELD, None);
    assert_eq!(world.avatar.x, 8_000);
    assert_eq!(world.session.state, GameState::GameOver);
}

#[test]
fn fire_appends_a_projectile_at_the_avatar() {
    let mut world = in_state(GameState::Playing);
    world.projectiles.push(projectile(10_000, 500_000));
    world.step(Input { fire: true, right: true, ..NOTHING }, 10_000, FIELD, None);
    assert_eq!(world.projectiles, vec![
        projectile(10_000, 494_000),
        Entity {
            kind: ShapeKind::Circle,
            x: 403_000,
            y: 300_000,
            size: 32_000,
            speed: 600_000,
            tint: Tint::Red,
            collided: false,
        },
    ]);
}

#[test]
fn a_shot_is_twice_as_fast_as_the_avatar() {
    let avatar = centered(FIELD);
    assert_eq!(shot(&avatar).speed, 600_000);
    assert_eq!(shot(&Entity { speed: i32::MAX, ..avatar }).speed, i32::MAX);
    assert_eq!(shot(&Entity { speed: i32::MIN, ..avatar }).speed, i32::MIN);
    assert_eq!(shot(&Entity { speed: -7, ..avatar }).speed, -14);
}

#[test]
fn a_new_shot_is_not_tested_in_its_first_frame() {
    let mut world = in_state(GameState::Playing);
    world.obstacles.push(Entity { speed: 0, ..obstacle(400_000, 270_000, 20_000) });
    world.step(Input { fire: true, ..NOTHING }, 0, FIELD, None);
    assert_eq!(world.session.score, 0);
    assert_eq!(world.obstacles.len(), 1);
    assert_eq!(world.projectiles.len(), 1);
    world.step(NOTHING, 0, FIELD, None);
    assert_eq!(world.session.score, 20);
    assert!(world.obstacles.is_empty());
    assert!(world.projectiles.is_empty());
}

#[test]
fn touches_finds_any_overlapping_obstacle() {
    let avatar = centered(FIELD);
    let far = obstacle(0, 0, 20_000);
    let near = obstacle(400_000 + 26_000, 300_000, 20_000);
    let off = obstacle(400_000 + 26_001, 300_000, 20_000);
    assert!(!touches(&avatar, &Vec::new()));
    assert!(!touches(&avatar, &vec![far, off]));
    assert!(touches(&avatar, &vec![far, near]));
    assert!(touches(&avatar, &vec![near, far]));
    assert!(touches(&avatar, &vec![far, off, far, near]));
}

#[test]
fn the_score_never_falls_and_the_high_score_stays_above_while_playing() {
    macroquad::rand::srand(7);
    let mut world = World::new(25, FIELD);
    world.step(Input { confirm: true, ..NOTHING }, 16_667, FIELD, None);
    assert_eq!(world.session.state, GameState::Playing);
    let mut last_score: u32 = 0;
    let mut last_high: u32 = 25;
    let mut frames: u32 = 0;
    while frames < 20_000 && world.session.state == GameState::Playing {
        let input = Input { fire: frames % 7 == 0, left: frames % 200 < 100, right: frames % 200 >= 100, ..NOTHING };
        let outcome = world.tick(input, 16_667, FIELD);
        assert!(world.session.score >= last_score);
        assert!(world.session.high_score >= last_high);
        assert!(world.session.high_score >= world.session.score);
        assert!(world.obstacles.iter().all(|o| !o.collided && o.size > 0));
        assert!(world.projectiles.iter().all(|p| !p.collided && p.size > 0));
        assert!(world.avatar.x >= 8_000 && world.avatar.x <= 792_000);
        assert!(world.avatar.y >= 8_000 && world.avatar.y <= 592_000);
        if world.session.state == GameState::Playing {
            assert_eq!(outcome.persist, None);
        }
        assert!(!outcome.quit);
        last_score = world.session.score;
        last_high = world.session.high_score;
        frames += 1;
    }
    assert!(frames > 0);
}

#[test]
fn tick_rolls_no_dice_outside_play() {
    macroquad::rand::srand(11);
    for state in [GameState::MainMenu, GameState::Paused, GameState::GameOver] {
        let mut world = in_state(state);
        let mut frames: u32 = 0;
        while frames < 2_000 {
            world.tick(NOTHING, 16_667, FIELD);
            frames += 1;
        }
        assert!(world.obstacles.is_empty());
        assert_eq!(world.session.state, state);
    }
}

#[test]
fn tick_spawns_obstacles_in_play() {
    macroquad::rand::srand(3);
    let mut world = in_state(GameState::Playing);
    world.avatar.x = 8_000;
    world.avatar.y = 592_000;
    let mut seen: usize = 0;
    let mut frames: u32 = 0;
    while frames < 2_000 && world.session.state == GameState::Playing {
        world.tick(NOTHING, 1_000, FIELD);
        seen = seen.max(world.obstacles.len());
        frames += 1;
    }
    assert!(seen > 0);
    assert!(world.obstacles.iter().all(|o| o.kind == ShapeKind::Rectangle));
}
