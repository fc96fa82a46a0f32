//! Enemies: they move in a straight line, bounce off the walls, and end the
//! game when they touch the player.

use crate::effects::{
    emit, game_over_line, render_game_over, views, Effect, EffectView, GameOver, Sound,
};
use crate::geometry::{
    displaced, is_outside, lemma_travel_symmetric, outside, saturate, travel, travel_of,
    Direction, Point, Viewport,
};
use crate::player::Player;
use crate::random::{
    bounce_sound, draw_direction, draw_position, draw_unit, is_drawn_direction, is_placed,
    SPAWN_INSET,
};
use crate::score::Score;
use crate::timer::SpawnTimer;
use vstd::prelude::*;

verus! {

/// How many enemies a game starts with.
pub const NUMBER_OF_ENEMIES: usize = 4;

/// An enemy's speed, in pixels per second.
pub const ENEMY_SPEED: i64 = 200;

/// An enemy's diameter, in micro-pixels.
pub const ENEMY_SIZE: i64 = 64_000_000;

/// An enemy's radius, in micro-pixels.
pub const ENEMY_HALF: i64 = 32_000_000;

/// The time between two enemies spawned during a game, in microseconds.
pub const ENEMY_SPAWN_TIME: u64 = 5_000_000;

/// An enemy nearer to the player than this ends the game: the player's
/// diameter, in micro-pixels.
pub const HIT_REACH: u32 = 64_000_000;

/// A hostile ball and the direction it moves in.
#[derive(Clone, Copy, Debug, PartialEq, Eq, Structural)]
pub struct Enemy {
    pub position: Point,
    pub direction: Direction,
}

/// The countdown to the next enemy.
#[derive(Clone, Copy, Debug, PartialEq, Eq, Structural)]
pub struct EnemySpawnTimer {
    pub timer: SpawnTimer,
}

impl Default for EnemySpawnTimer {
    fn default() -> (r: EnemySpawnTimer)
        ensures
            r.timer == (SpawnTimer {
                period: ENEMY_SPAWN_TIME,
                remaining: ENEMY_SPAWN_TIME,
                finished: false,
            }),
    {
        EnemySpawnTimer { timer: SpawnTimer::repeating(ENEMY_SPAWN_TIME) }
    }
}

impl Enemy {
    /// This enemy after moving for `dt` microseconds.
    pub open spec fn advanced(self, dt: u64) -> Enemy {
        Enemy {
            position: displaced(
                self.position,
                travel(self.direction.x(), ENEMY_SPEED as int, dt as int),
                travel(self.direction.y(), ENEMY_SPEED as int, dt as int),
            ),
            direction: self.direction,
        }
    }

    /// Whether this enemy is beyond a wall that bounds the first axis.
    pub open spec fn bounces_x(self, viewport: Viewport) -> bool {
        outside(self.position.x, viewport.width, ENEMY_HALF)
    }

    /// Whether this enemy is beyond a wall that bounds the second axis.
    pub open spec fn bounces_y(self, viewport: Viewport) -> bool {
        outside(self.position.y, viewport.height, ENEMY_HALF)
    }

    /// Whether this enemy is beyond any wall.
    pub open spec fn bounces(self, viewport: Viewport) -> bool {
        self.bounces_x(viewport) || self.bounces_y(viewport)
    }

    /// This enemy with its direction mirrored at each wall that it is beyond.
    pub open spec fn reflected(self, viewport: Viewport) -> Enemy {
        let first = if self.bounces_x(viewport) {
            self.direction.flipped_x()
        } else {
            self.direction
        };
        let second = if self.bounces_y(viewport) {
            first.flipped_y()
        } else {
            first
        };
        Enemy { position: self.position, direction: second }
    }

    /// This enemy brought back inside the playfield.
    pub open spec fn confined(self, viewport: Viewport) -> Enemy {
        Enemy {
            position: self.position.confined(viewport, ENEMY_HALF),
            direction: self.direction,
        }
    }

    /// This enemy after one frame: moved, mirrored, brought back inside.
    pub open spec fn stepped(self, dt: u64, viewport: Viewport) -> Enemy {
        self.advanced(dt).reflected(viewport).confined(viewport)
    }

    /// Whether this enemy can have been spawned in the given viewport.
    pub open spec fn is_spawn(self, viewport: Viewport, inset: i64) -> bool {
        is_placed(self.position, viewport, inset) && is_drawn_direction(self.direction)
    }

    /// Moving, bouncing and being brought back inside all keep the direction
    /// at unit length.
    pub proof fn lemma_stepped_is_unit(self, dt: u64, viewport: Viewport)
        requires
            self.direction.is_unit(),
        ensures
            self.advanced(dt).direction.is_unit(),
            self.reflected(viewport).direction.is_unit(),
            self.confined(viewport).direction.is_unit(),
            self.stepped(dt, viewport).direction.is_unit(),
    {
        self.direction.lemma_flipped_is_unit();
        self.direction.flipped_x().lemma_flipped_is_unit();
        self.advanced(dt).direction.lemma_flipped_is_unit();
        self.advanced(dt).direction.flipped_x().lemma_flipped_is_unit();
    }

    /// In no time an enemy does not move.
    pub proof fn lemma_no_time_no_move(self)
        ensures
            self.advanced(0) == self,
    {
        lemma_travel_symmetric(self.direction.x(), ENEMY_SPEED as int, 0);
        lemma_travel_symmetric(self.direction.y(), ENEMY_SPEED as int, 0);
    }

    /// Mirroring an enemy twice where it stands restores its direction.
    pub proof fn lemma_reflected_twice(self, viewport: Viewport)
        requires
            self.direction.is_unit(),
        ensures
            self.reflected(viewport).reflected(viewport) == self,
    {
        let d = self.direction;
        d.lemma_flipped_is_unit();
        d.lemma_flip_involution();
        d.flipped_x().lemma_flipped_is_unit();
        d.flipped_x().lemma_flip_involution();
        d.flipped_y().lemma_flip_involution();
        d.lemma_flipped_components();
        d.flipped_x().lemma_flipped_components();
        d.flipped_y().lemma_flipped_components();
        d.flipped_x().flipped_y().lemma_flipped_components();
        if self.bounces_x(viewport) && self.bounces_y(viewport) {
            d.flipped_x().flipped_y().flipped_x().lemma_flipped_components();
            d.flipped_x().flipped_y().flipped_x().flipped_y().lemma_same_components(d);
        }
    }

    /// An enemy that touches a wall without being beyond it does not bounce,
    /// whichever way it is heading.
    pub proof fn lemma_on_wall_stays(self, viewport: Viewport)
        requires
            viewport.fits(ENEMY_HALF),
            self.position.x == ENEMY_HALF || self.position.x == viewport.width - ENEMY_HALF,
            !self.bounces_y(viewport),
        ensures
            !self.bounces(viewport),
            self.reflected(viewport) == self,
    {
    }

    /// An enemy that is beyond a wall of the first axis, however little,
    /// bounces, and leaves with its first component mirrored.
    pub proof fn lemma_beyond_wall_bounces(self, viewport: Viewport)
        requires
            self.position.x < ENEMY_HALF || self.position.x > viewport.width - ENEMY_HALF,
            !self.bounces_y(viewport),
        ensures
            self.bounces(viewport),
            self.reflected(viewport).direction == self.direction.flipped_x(),
    {
    }

    /// Bringing an enemy inside twice is the same as doing it once, and the
    /// enemy then is inside, wherever the viewport has room for it.
    pub proof fn lemma_confined_idempotent(self, viewport: Viewport)
        requires
            viewport.fits(ENEMY_HALF),
        ensures
            self.confined(viewport).confined(viewport) == self.confined(viewport),
            self.confined(viewport).position.inside(viewport, ENEMY_HALF),
    {
        self.position.lemma_confined_idempotent(viewport, ENEMY_HALF);
    }

    /// Computes `advanced`.
    pub fn advance(&self, dt: u64) -> (r: Enemy)
        ensures
            r == self.advanced(dt),
    {
        let along_x: i128 = travel_of(self.direction.dx(), ENEMY_SPEED, dt);
        let along_y: i128 = travel_of(self.direction.dy(), ENEMY_SPEED, dt);
        Enemy {
            position: Point {
                x: saturate(self.position.x as i128 + along_x),
                y: saturate(self.position.y as i128 + along_y),
            },
            direction: self.direction,
        }
    }

    /// Computes `bounces`.
    pub fn is_beyond_wall(&self, viewport: &Viewport) -> (r: bool)
        ensures
            r == self.bounces(*viewport),
    {
        is_outside(self.position.x, viewport.width, ENEMY_HALF) || is_outside(
            self.position.y,
            viewport.height,
            ENEMY_HALF,
        )
    }

    /// Computes `reflected`.
    pub fn reflect(&self, viewport: &Viewport) -> (r: Enemy)
        ensures
            r == self.reflected(*viewport),
    {
        let mut direction = self.direction;
        if is_outside(self.position.x, viewport.width, ENEMY_HALF) {
            direction = direction.flip_x();
        }
        if is_outside(self.position.y, viewport.height, ENEMY_HALF) {
            direction = direction.flip_y();
        }
        Enemy { position: self.position, direction }
    }

    /// Computes `confined`.
    pub fn confine(&self, viewport: &Viewport) -> (r: Enemy)
        ensures
            r == self.confined(*viewport),
    {
        Enemy {
            position: self.position.confine(viewport, ENEMY_HALF),
            direction: self.direction,
        }
    }
}

/// Every enemy of a population moved for `dt` microseconds.
pub open spec fn all_advanced(enemies: Seq<Enemy>, dt: u64) -> Seq<Enemy> {
    enemies.map_values(|e: Enemy| e.advanced(dt))
}

/// Every enemy of a population mirrored at the walls that it is beyond.
pub open spec fn all_reflected(enemies: Seq<Enemy>, viewport: Viewport) -> Seq<Enemy> {
    enemies.map_values(|e: Enemy| e.reflected(viewport))
}

/// Every enemy of a population brought back inside the playfield.
pub open spec fn all_confined(enemies: Seq<Enemy>, viewport: Viewport) -> Seq<Enemy> {
    enemies.map_values(|e: Enemy| e.confined(viewport))
}

/// The test for being beyond a wall of the given viewport.
pub open spec fn beyond_wall(viewport: Viewport) -> spec_fn(Enemy) -> bool {
    |e: Enemy| e.bounces(viewport)
}

/// How many enemies of a population are beyond a wall.
pub open spec fn bounce_count(enemies: Seq<Enemy>, viewport: Viewport) -> nat {
    enemies.filter(beyond_wall(viewport)).len()
}

/// Whether `after` is `before` with `count` bounce sounds queued behind it.
pub open spec fn bounces_queued(
    before: Seq<EffectView>,
    after: Seq<EffectView>,
    count: nat,
) -> bool {
    &&& after.len() == before.len() + count
    &&& after.take(before.len() as int) == before
    &&& forall|k: int|
        before.len() <= k < after.len() ==> (#[trigger] after[k] matches EffectView::Play(sound)
            && sound.is_bounce())
}

/// The test for touching the given player.
pub open spec fn touching(player: Player) -> spec_fn(Enemy) -> bool {
    |e: Enemy| player.position.within(e.position, HIT_REACH)
}

/// How many enemies of a population touch the player, if there is one.
pub open spec fn hit_count(player: Option<Player>, enemies: Seq<Enemy>) -> nat {
    match player {
        Some(p) => enemies.filter(touching(p)).len(),
        None => 0,
    }
}

/// What `count` hits queue: for each the line that reports it, then the
/// explosion.
pub open spec fn hit_effects(count: nat) -> Seq<EffectView>
    decreases count,
{
    if count == 0 {
        seq![]
    } else {
        hit_effects((count - 1) as nat) + seq![
            EffectView::Log(game_over_line()),
            EffectView::Play(Sound::Explosion),
        ]
    }
}

/// The events that `count` hits publish at the given score.
pub open spec fn hit_events(count: nat, score: u32) -> Seq<GameOver> {
    Seq::new(count, |k: int| GameOver { score })
}

/// Bringing all enemies inside twice is the same as doing it once, wherever
/// the viewport has room for an enemy.
pub proof fn lemma_all_confined_idempotent(enemies: Seq<Enemy>, viewport: Viewport)
    requires
        viewport.fits(ENEMY_HALF),
    ensures
        all_confined(all_confined(enemies, viewport), viewport) == all_confined(enemies, viewport),
{
    assert forall|i: int| 0 <= i < enemies.len() implies all_confined(
        all_confined(enemies, viewport),
        viewport,
    )[i] == all_confined(enemies, viewport)[i] by {
        enemies[i].lemma_confined_idempotent(viewport);
    }
    assert(all_confined(all_confined(enemies, viewport), viewport) =~= all_confined(
        enemies,
        viewport,
    ));
}

/// Adds the enemies that a game starts with, each at a random point of the
/// viewport with a random direction.
pub fn spawn_enemies(enemies: &mut Vec<Enemy>, viewport: &Viewport)
    ensures
        final(enemies)@.len() == old(enemies)@.len() + NUMBER_OF_ENEMIES,
        final(enemies)@.take(old(enemies)@.len() as int) == old(enemies)@,
        forall|i: int|
            old(enemies)@.len() <= i < final(enemies)@.len() ==> (#[trigger] final(enemies)@[i])
                .is_spawn(*viewport, 0),
{
    let mut made: usize = 0;
    while made < NUMBER_OF_ENEMIES
        invariant
            made <= NUMBER_OF_ENEMIES,
            enemies@.len() == old(enemies)@.len() + made,
            enemies@.take(old(enemies)@.len() as int) == old(enemies)@,
            forall|i: int|
                old(enemies)@.len() <= i < enemies@.len() ==> (#[trigger] enemies@[i]).is_spawn(
                    *viewport,
                    0,
                ),
        decreases NUMBER_OF_ENEMIES - made,
    {
        let position = draw_position(viewport, 0);
        let direction = draw_direction();
        enemies.push(Enemy { position, direction });
        made = made + 1;
    }
}

/// Moves every enemy for `dt` microseconds along its direction.
pub fn enemy_movement(enemies: &mut Vec<Enemy>, dt: u64)
    ensures
        final(enemies)@ == all_advanced(old(enemies)@, dt),
{
    let count = enemies.len();
    let mut i: usize = 0;
    while i < count
        invariant
            i <= count,
            enemies@.len() == count,
            old(enemies)@.len() == count,
            forall|k: int| 0 <= k < i ==> enemies@[k] == old(enemies)@[k].advanced(dt),
            forall|k: int| i <= k < count ==> enemies@[k] == old(enemies)@[k],
        decreases count - i,
    {
        let moved = enemies[i].advance(dt);
        enemies.set(i, moved);
        i = i + 1;
    }
}

/// Mirrors the direction of every enemy that is beyond a wall, and queues
/// one bounce sound, picked at random from the two, for each such enemy.
pub fn update_enemy_direction(
    enemies: &mut Vec<Enemy>,
    viewport: &Viewport,
    effects: &mut Vec<Effect>,
)
    ensures
        final(enemies)@ == all_reflected(old(enemies)@, *viewport),
        bounces_queued(
            views(old(effects)@),
            views(final(effects)@),
            bounce_count(old(enemies)@, *viewport),
        ),
{
    let count = enemies.len();
    let mut i: usize = 0;
    let ghost mut bounced: nat = 0;
    proof {
        assert(views(effects@).take(views(old(effects)@).len() as int) =~= views(old(effects)@));
    }
    while i < count
        invariant
            i <= count,
            enemies@.len() == count,
            old(enemies)@.len() == count,
            forall|k: int| 0 <= k < i ==> enemies@[k] == old(enemies)@[k].reflected(*viewport),
            forall|k: int| i <= k < count ==> enemies@[k] == old(enemies)@[k],
            bounced == bounce_count(old(enemies)@.take(i as int), *viewport),
            bounces_queued(views(old(effects)@), views(effects@), bounced),
        decreases count - i,
    {
        let enemy = enemies[i];
        proof {
            let seen = old(enemies)@.take(i as int);
            assert(old(enemies)@.take(i + 1) =~= seen.push(enemy));
            seen.lemma_filter_push(enemy, beyond_wall(*viewport));
        }
        if enemy.is_beyond_wall(viewport) {
            enemies.set(i, enemy.reflect(viewport));
            let ghost queue = views(effects@);
            emit(effects, Effect::Play(bounce_sound(draw_unit())));
            proof {
                bounced = bounced + 1;
                assert(views(effects@).take(views(old(effects)@).len() as int) =~= queue.take(
                    views(old(effects)@).len() as int,
                ));
            }
        }
        i = i + 1;
    }
    assert(old(enemies)@.take(count as int) =~= old(enemies)@);
}

/// Brings every enemy back inside the playfield.
pub fn confine_enemy_movement(enemies: &mut Vec<Enemy>, viewport: &Viewport)
    ensures
        final(enemies)@ == all_confined(old(enemies)@, *viewport),
        viewport.fits(ENEMY_HALF) ==> forall|k: int|
            0 <= k < final(enemies)@.len() ==> (#[trigger] final(enemies)@[k]).position.inside(
                *viewport,
                ENEMY_HALF,
            ),
{
    let count = enemies.len();
    let mut i: usize = 0;
    while i < count
        invariant
            i <= count,
            enemies@.len() == count,
            old(enemies)@.len() == count,
            forall|k: int| 0 <= k < i ==> enemies@[k] == old(enemies)@[k].confined(*viewport),
            forall|k: int| i <= k < count ==> enemies@[k] == old(enemies)@[k],
        decreases count - i,
    {
        let kept = enemies[i].confine(viewport);
        enemies.set(i, kept);
        i = i + 1;
    }
}

/// Advances the countdown to the next enemy.
pub fn tick_enemy_spawn_timer(enemy_spawn_timer: &mut EnemySpawnTimer, dt: u64)
    ensures
        final(enemy_spawn_timer).timer == old(enemy_spawn_timer).timer.ticked(dt),
{
    enemy_spawn_timer.timer.tick(dt);
}

/// Adds one enemy if the countdown ended with its last tick: at a random
/// point of the viewport, moved towards the origin by `SPAWN_INSET`, with a
/// random direction.
pub fn spawn_enemies_over_time(
    enemies: &mut Vec<Enemy>,
    viewport: &Viewport,
    enemy_spawn_timer: &EnemySpawnTimer,
)
    ensures
        !enemy_spawn_timer.timer.finished ==> final(enemies)@ == old(enemies)@,
        enemy_spawn_timer.timer.finished ==> final(enemies)@.len() == old(enemies)@.len() + 1,
        enemy_spawn_timer.timer.finished ==> final(enemies)@.drop_last() == old(enemies)@,
        enemy_spawn_timer.timer.finished ==> final(enemies)@.last().is_spawn(
            *viewport,
            SPAWN_INSET,
        ),
{
    if enemy_spawn_timer.timer.finished() {
        let position = draw_position(viewport, SPAWN_INSET);
        let direction = draw_direction();
        enemies.push(Enemy { position, direction });
    }
}

/// Ends the game for each enemy that touches the player: queues the line
/// that reports the hit and the explosion, publishes the score, and takes the
/// player out of the game. Without a player nothing happens.
pub fn enemy_hit_player(
    player: &mut Option<Player>,
    enemies: &Vec<Enemy>,
    score: &Score,
    effects: &mut Vec<Effect>,
    events: &mut Vec<GameOver>,
)
    ensures
        *final(player) == if hit_count(*old(player), enemies@) > 0 {
            None
        } else {
            *old(player)
        },
        views(final(effects)@) == views(old(effects)@) + hit_effects(
            hit_count(*old(player), enemies@),
        ),
        final(events)@ == old(events)@ + hit_events(
            hit_count(*old(player), enemies@),
            score.value,
        ),
{
    match *player {
        None => {},
        Some(p) => {
            let count = enemies.len();
            let mut i: usize = 0;
            let mut hits: usize = 0;
            while i < count
                invariant
                    i <= count,
                    count == enemies@.len(),
                    hits <= i,
                    hits == enemies@.take(i as int).filter(touching(p)).len(),
                    views(effects@) == views(old(effects)@) + hit_effects(hits as nat),
                    events@ == old(events)@ + hit_events(hits as nat, score.value),
                decreases count - i,
            {
                let enemy = enemies[i];
                proof {
                    let seen = enemies@.take(i as int);
                    assert(enemies@.take(i + 1) =~= seen.push(enemy));
                    seen.lemma_filter_push(enemy, touching(p));
                }
                if p.position.is_within(&enemy.position, HIT_REACH) {
                    emit(effects, Effect::Log(render_game_over()));
                    emit(effects, Effect::Play(Sound::Explosion));
                    events.push(GameOver { score: score.value });
                    hits = hits + 1;
                }
                i = i + 1;
            }
            assert(enemies@.take(count as int) =~= enemies@);
            if hits > 0 {
                *player = None;
            }
        },
    }
}

} // verus!
