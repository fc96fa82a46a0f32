use ball_game::effects::{Effect, GameOver, Sound};
use ball_game::enemy::{
    confine_enemy_movement, enemy_hit_player, enemy_movement, spawn_enemies,
    spawn_enemies_over_time, tick_enemy_spawn_timer, update_enemy_direction, Enemy,
    EnemySpawnTimer, ENEMY_HALF, ENEMY_SIZE, ENEMY_SPAWN_TIME, ENEMY_SPEED, HIT_REACH,
    NUMBER_OF_ENEMIES,
};
use ball_game::geometry::{Direction, Point, Viewport, MICRO};
use ball_game::input::Input;
use ball_game::player::{
    confine_player_movement, player_movement, spawn_player, Player, PLAYER_HALF, PLAYER_SIZE,
    PLAYER_SPEED,
};
use ball_game::scene::exit_game;
use ball_game::score::{update_score, Score};
use ball_game::star::{
    player_hit_star, spawn_stars, spawn_stars_over_time, tick_star_spawn_timer, Star,
    StarSpawnTimer, NUMBER_OF_STARS, PICKUP_REACH, STAR_SIZE, STAR_SPAWN_TIME,
};
use ball_game::timer::SpawnTimer;

fn px(x: i64, y: i64) -> Point {
    Point { x: x * MICRO, y: y * MICRO }
}

fn field() -> Viewport {
    Viewport { width: 1000 * MICRO as u64, height: 800 * MICRO as u64 }
}

fn heading(a: i32, b: i32) -> Direction {
    Direction::normalized(a, b).unwrap()
}

#[test]
fn constants_have_their_values() {
    assert_eq!(PLAYER_SPEED, 500);
    assert_eq!(PLAYER_SIZE, 64 * MICRO);
    assert_eq!(PLAYER_HALF * 2, PLAYER_SIZE);
    assert_eq!(ENEMY_SPEED, 200);
    assert_eq!(ENEMY_SIZE, 64 * MICRO);
    assert_eq!(ENEMY_HALF * 2, ENEMY_SIZE);
    assert_eq!(NUMBER_OF_ENEMIES, 4);
    assert_eq!(ENEMY_SPAWN_TIME, 5_000_000);
    assert_eq!(STAR_SIZE, 30 * MICRO);
    assert_eq!(NUMBER_OF_STARS, 10);
    assert_eq!(STAR_SPAWN_TIME, 2_000_000);
    assert_eq!(PICKUP_REACH as i64, (PLAYER_SIZE + STAR_SIZE) / 2);
    assert_eq!(HIT_REACH as i64, PLAYER_SIZE);
}

#[test]
fn player_starts_in_the_middle() {
    assert_eq!(spawn_player(&field()), Player { position: px(500, 400) });
}

#[test]
fn player_moves_along_an_axis_at_full_speed() {
    let mut input = Input::idle();
    input.right = true;
    let mut player = Some(Player { position: px(100, 100) });
    player_movement(&mut player, &input, 1_000_000);
    assert_eq!(player, Some(Player { position: px(600, 100) }));
    let mut input = Input::idle();
    input.s = true;
    player_movement(&mut player, &input, 16_000);
    assert_eq!(player, Some(Player { position: Point { x: 600 * MICRO, y: 92 * MICRO } }));
}

#[test]
fn player_moves_along_a_diagonal_at_full_speed() {
    let mut input = Input::idle();
    input.up = true;
    input.a = true;
    let mut player = Some(Player { position: px(500, 400) });
    player_movement(&mut player, &input, 1_000_000);
    assert_eq!(
        player,
        Some(Player {
            position: Point { x: 500 * MICRO - 353_553_000, y: 400 * MICRO + 353_553_000 }
        })
    );
}

#[test]
fn opposite_keys_cancel() {
    let mut input = Input::idle();
    input.up = true;
    input.down = true;
    input.left = true;
    input.d = true;
    assert_eq!(input.horizontal(), 0);
    assert_eq!(input.vertical(), 0);
    let mut player = Some(Player { position: px(500, 400) });
    player_movement(&mut player, &input, 1_000_000);
    assert_eq!(player, Some(Player { position: px(500, 400) }));
    input.down = false;
    assert_eq!(input.vertical(), 1);
    player_movement(&mut player, &input, 1_000_000);
    assert_eq!(player, Some(Player { position: px(500, 900) }));
}

#[test]
fn both_keys_of_a_pair_count_once() {
    let mut input = Input::idle();
    input.right = true;
    input.d = true;
    assert_eq!(input.horizontal(), 1);
    input.left = true;
    assert_eq!(input.horizontal(), 0);
    let mut input = Input::idle();
    input.down = true;
    input.s = true;
    assert_eq!(input.vertical(), -1);
}

#[test]
fn missing_player_is_left_alone() {
    let mut input = Input::idle();
    input.right = true;
    let mut player: Option<Player> = None;
    player_movement(&mut player, &input, 1_000_000);
    assert_eq!(player, None);
    confine_player_movement(&mut player, &field());
    assert_eq!(player, None);
}

#[test]
fn player_is_brought_back_inside() {
    let mut player = Some(Player { position: px(-5, 900) });
    confine_player_movement(&mut player, &field());
    assert_eq!(player, Some(Player { position: px(32, 768) }));
    confine_player_movement(&mut player, &field());
    assert_eq!(player, Some(Player { position: px(32, 768) }));
    let mut player = Some(Player { position: px(1000, 0) });
    confine_player_movement(&mut player, &field());
    assert_eq!(player, Some(Player { position: px(968, 32) }));
}

#[test]
fn player_far_out_stops_at_the_end_of_the_range() {
    let mut input = Input::idle();
    input.right = true;
    let mut player = Some(Player { position: Point { x: i64::MAX - 10, y: 0 } });
    player_movement(&mut player, &input, 1_000_000);
    assert_eq!(player, Some(Player { position: Point { x: i64::MAX, y: 0 } }));
    player_movement(&mut player, &input, u64::MAX);
    assert_eq!(player, Some(Player { position: Point { x: i64::MAX, y: 0 } }));
}

#[test]
fn enemies_move_along_their_direction() {
    let mut enemies = vec![
        Enemy { position: px(100, 100), direction: heading(3, 4) },
        Enemy { position: px(500, 400), direction: heading(-1, 0) },
        Enemy { position: px(0, 0), direction: heading(1, -1) },
    ];
    enemy_movement(&mut enemies, 1_000_000);
    assert_eq!(enemies[0].position, px(220, 260));
    assert_eq!(enemies[1].position, px(300, 400));
    assert_eq!(enemies[2].position, Point { x: 141_421_200, y: -141_421_200 });
    assert_eq!(enemies[0].direction, heading(3, 4));
    enemy_movement(&mut enemies, 0);
    assert_eq!(enemies[0].position, px(220, 260));
    enemy_movement(&mut enemies, 7);
    assert_eq!(enemies[0].position, Point { x: 220 * MICRO + 840, y: 260 * MICRO + 1_120 });
    assert_eq!(enemies[2].position, Point { x: 141_421_200 + 989, y: -141_421_200 - 989 });
}

#[test]
fn enemies_beyond_a_wall_turn_round() {
    let mut enemies = vec![
        Enemy { position: px(31, 400), direction: heading(-3, 4) },
        Enemy { position: px(32, 400), direction: heading(-3, 4) },
        Enemy { position: px(969, 769), direction: heading(3, 4) },
        Enemy { position: px(500, 31), direction: heading(3, -4) },
        Enemy { position: px(968, 768), direction: heading(3, 4) },
    ];
    let mut effects = Vec::new();
    update_enemy_direction(&mut enemies, &field(), &mut effects);
    assert_eq!(enemies[0].direction, heading(3, 4));
    assert_eq!(enemies[1].direction, heading(-3, 4));
    assert_eq!(enemies[2].direction, heading(-3, -4));
    assert_eq!(enemies[3].direction, heading(3, 4));
    assert_eq!(enemies[4].direction, heading(3, 4));
    assert_eq!(enemies[0].position, px(31, 400));
    assert_eq!(effects.len(), 3);
    for effect in effects.iter() {
        assert!(
            *effect == Effect::Play(Sound::BounceOne) || *effect == Effect::Play(Sound::BounceTwo)
        );
    }
    update_enemy_direction(&mut enemies, &field(), &mut effects);
    assert_eq!(enemies[0].direction, heading(-3, 4));
    assert_eq!(enemies[2].direction, heading(3, 4));
    assert_eq!(effects.len(), 6);
}

#[test]
fn enemy_on_the_wall_does_not_turn_until_it_is_past() {
    let mut enemies = vec![Enemy { position: px(32, 400), direction: heading(-1, 0) }];
    let mut effects = Vec::new();
    update_enemy_direction(&mut enemies, &field(), &mut effects);
    assert_eq!(enemies[0].direction, heading(-1, 0));
    assert!(effects.is_empty());
    enemy_movement(&mut enemies, 5_000);
    assert_eq!(enemies[0].position, px(31, 400));
    update_enemy_direction(&mut enemies, &field(), &mut effects);
    assert_eq!(enemies[0].direction, heading(1, 0));
    assert_eq!(effects.len(), 1);
}

#[test]
fn enemies_are_brought_back_inside() {
    let mut enemies = vec![
        Enemy { position: px(-10, 400), direction: heading(3, 4) },
        Enemy { position: px(2000, -2000), direction: heading(3, 4) },
        Enemy { position: px(500, 400), direction: heading(3, 4) },
    ];
    confine_enemy_movement(&mut enemies, &field());
    assert_eq!(enemies[0].position, px(32, 400));
    assert_eq!(enemies[1].position, px(968, 32));
    assert_eq!(enemies[2].position, px(500, 400));
    assert_eq!(enemies[0].direction, heading(3, 4));
    let once = enemies.clone();
    confine_enemy_movement(&mut enemies, &field());
    assert_eq!(enemies, once);
}

#[test]
fn first_enemies_are_spawned_inside_the_viewport() {
    let mut enemies = vec![Enemy { position: px(1, 2), direction: heading(0, 1) }];
    spawn_enemies(&mut enemies, &field());
    assert_eq!(enemies.len(), 5);
    assert_eq!(enemies[0], Enemy { position: px(1, 2), direction: heading(0, 1) });
    for enemy in enemies.iter().skip(1) {
        assert!(0 <= enemy.position.x && enemy.position.x < 1000 * MICRO);
        assert!(0 <= enemy.position.y && enemy.position.y < 800 * MICRO);
        assert!(enemy.direction.dx() >= 0 && enemy.direction.dy() >= 0);
    }
}

#[test]
fn enemy_timer_releases_one_enemy() {
    let mut timer = EnemySpawnTimer::default();
    let mut enemies: Vec<Enemy> = Vec::new();
    tick_enemy_spawn_timer(&mut timer, 4_999_999);
    spawn_enemies_over_time(&mut enemies, &field(), &timer);
    assert!(enemies.is_empty());
    assert_eq!(timer.timer.remaining, 1);
    tick_enemy_spawn_timer(&mut timer, 1);
    assert!(timer.timer.finished);
    spawn_enemies_over_time(&mut enemies, &field(), &timer);
    assert_eq!(enemies.len(), 1);
    assert!(-10 * MICRO <= enemies[0].position.x && enemies[0].position.x < 990 * MICRO);
    assert!(-10 * MICRO <= enemies[0].position.y && enemies[0].position.y < 790 * MICRO);
    tick_enemy_spawn_timer(&mut timer, 0);
    spawn_enemies_over_time(&mut enemies, &field(), &timer);
    assert_eq!(enemies.len(), 1);
}

#[test]
fn every_enemy_in_reach_ends_the_game() {
    let enemies = vec![
        Enemy { position: px(163, 100), direction: heading(1, 0) },
        Enemy { position: px(164, 100), direction: heading(1, 0) },
        Enemy { position: px(100, 37), direction: heading(1, 0) },
    ];
    let mut player = Some(Player { position: px(100, 100) });
    let score = Score { value: 5, changed: false };
    let mut effects = vec![Effect::Exit];
    let mut events = Vec::new();
    enemy_hit_player(&mut player, &enemies, &score, &mut effects, &mut events);
    assert_eq!(player, None);
    assert_eq!(events, vec![GameOver { score: 5 }, GameOver { score: 5 }]);
    assert_eq!(
        effects,
        vec![
            Effect::Exit,
            Effect::Log("Enemy hit player!! Game Over!!".to_string()),
            Effect::Play(Sound::Explosion),
            Effect::Log("Enemy hit player!! Game Over!!".to_string()),
            Effect::Play(Sound::Explosion),
        ]
    );
    enemy_hit_player(&mut player, &enemies, &score, &mut effects, &mut events);
    assert_eq!(events.len(), 2);
    assert_eq!(effects.len(), 5);
}

#[test]
fn enemy_at_the_reach_does_not_hit() {
    let enemies = vec![Enemy { position: px(164, 100), direction: heading(1, 0) }];
    let mut player = Some(Player { position: px(100, 100) });
    let score = Score { value: 5, changed: false };
    let mut effects = Vec::new();
    let mut events = Vec::new();
    enemy_hit_player(&mut player, &enemies, &score, &mut effects, &mut events);
    assert_eq!(player, Some(Player { position: px(100, 100) }));
    assert!(events.is_empty());
    assert!(effects.is_empty());
}

#[test]
fn first_stars_are_spawned_with_the_inset() {
    let mut stars: Vec<Star> = Vec::new();
    spawn_stars(&mut stars, &field());
    assert_eq!(stars.len(), 10);
    for star in stars.iter() {
        assert!(-10 * MICRO <= star.position.x && star.position.x < 990 * MICRO);
        assert!(-10 * MICRO <= star.position.y && star.position.y < 790 * MICRO);
    }
}

#[test]
fn stars_in_reach_are_collected_one_by_one() {
    let mut stars = vec![
        Star { position: px(520, 400) },
        Star { position: px(600, 400) },
        Star { position: px(500, 440) },
        Star { position: px(547, 400) },
        Star { position: px(500, 400) },
    ];
    let player = Some(Player { position: px(500, 400) });
    let mut score = Score { value: 7, changed: false };
    let mut effects = Vec::new();
    player_hit_star(&mut stars, &player, &mut score, &mut effects);
    assert_eq!(stars, vec![Star { position: px(600, 400) }, Star { position: px(547, 400) }]);
    assert_eq!(score, Score { value: 10, changed: true });
    assert_eq!(
        effects,
        vec![
            Effect::Play(Sound::Pickup),
            Effect::Play(Sound::Pickup),
            Effect::Play(Sound::Pickup),
        ]
    );
    score.changed = false;
    player_hit_star(&mut stars, &player, &mut score, &mut effects);
    assert_eq!(stars.len(), 2);
    assert_eq!(score, Score { value: 10, changed: false });
    assert_eq!(effects.len(), 3);
}

#[test]
fn star_at_the_reach_is_left() {
    let mut stars = vec![Star { position: px(547, 400) }, Star { position: px(500, 353) }];
    let player = Some(Player { position: px(500, 400) });
    let mut score = Score::default();
    let mut effects = Vec::new();
    player_hit_star(&mut stars, &player, &mut score, &mut effects);
    assert_eq!(stars.len(), 2);
    assert_eq!(score.value, 0);
    assert!(effects.is_empty());
}

#[test]
fn no_player_collects_nothing() {
    let mut stars = vec![Star { position: px(500, 400) }];
    let mut score = Score { value: 1, changed: false };
    let mut effects = Vec::new();
    player_hit_star(&mut stars, &None, &mut score, &mut effects);
    assert_eq!(stars.len(), 1);
    assert_eq!(score, Score { value: 1, changed: false });
    assert!(effects.is_empty());
}

#[test]
fn star_timer_releases_one_star() {
    let mut timer = StarSpawnTimer::default();
    let mut stars: Vec<Star> = Vec::new();
    tick_star_spawn_timer(&mut timer, 1_500_000);
    spawn_stars_over_time(&mut stars, &field(), &timer);
    assert!(stars.is_empty());
    tick_star_spawn_timer(&mut timer, 700_000);
    spawn_stars_over_time(&mut stars, &field(), &timer);
    assert_eq!(stars.len(), 1);
    assert_eq!(
        timer.timer,
        SpawnTimer { period: 2_000_000, remaining: 2_000_000, finished: true }
    );
}

#[test]
fn timer_counts_down_and_starts_again() {
    let mut timer = SpawnTimer::repeating(10);
    assert_eq!(timer, SpawnTimer { period: 10, remaining: 10, finished: false });
    assert!(!timer.finished());
    timer.tick(0);
    assert_eq!(timer, SpawnTimer { period: 10, remaining: 10, finished: false });
    timer.tick(9);
    assert_eq!(timer, SpawnTimer { period: 10, remaining: 1, finished: false });
    timer.tick(1);
    assert_eq!(timer, SpawnTimer { period: 10, remaining: 10, finished: true });
    assert!(timer.finished());
    timer.tick(3);
    assert_eq!(timer, SpawnTimer { period: 10, remaining: 7, finished: false });
    timer.tick(u64::MAX);
    assert_eq!(timer, SpawnTimer { period: 10, remaining: 10, finished: true });
}

#[test]
fn score_is_broadcast_when_it_changed() {
    let mut score = Score::default();
    assert_eq!(score, Score { value: 0, changed: true });
    let mut effects = Vec::new();
    update_score(&mut score, &mut effects);
    assert_eq!(effects, vec![Effect::Log("Score: 0".to_string())]);
    assert_eq!(score, Score { value: 0, changed: false });
    update_score(&mut score, &mut effects);
    assert_eq!(effects.len(), 1);
    score.increment();
    assert_eq!(score, Score { value: 1, changed: true });
    update_score(&mut score, &mut effects);
    assert_eq!(
        effects,
        vec![Effect::Log("Score: 0".to_string()), Effect::Log("Score: 1".to_string())]
    );
    let mut score = Score { value: 4_294_967_295, changed: true };
    let mut effects = Vec::new();
    update_score(&mut score, &mut effects);
    assert_eq!(effects, vec![Effect::Log("Score: 4294967295".to_string())]);
}

#[test]
fn escape_queues_the_exit() {
    let mut effects = Vec::new();
    exit_game(&Input::idle(), &mut effects);
    assert!(effects.is_empty());
    let mut input = Input::idle();
    input.escape_just_pressed = true;
    exit_game(&input, &mut effects);
    assert_eq!(effects, vec![Effect::Exit]);
}
