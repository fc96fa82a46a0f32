//! The world of one game and the frame that advances it.
//!
//! A frame runs its systems in a fixed order: the player moves and is brought
//! back inside the playfield; the enemies move, bounce and are brought back
//! inside; the player picks up stars and is hit by enemies; the countdowns
//! advance and what they release is spawned; the score and the finished games
//! are reported; the request to leave is passed on.

use crate::effects::{repeated, views, Effect, EffectView, GameOver, Sound};
use crate::enemy::{
    all_advanced, all_confined, all_reflected, bounce_count, confine_enemy_movement,
    enemy_hit_player, enemy_movement, hit_count, hit_effects, hit_events, spawn_enemies,
    spawn_enemies_over_time, tick_enemy_spawn_timer, update_enemy_direction, Enemy,
    EnemySpawnTimer, ENEMY_HALF, ENEMY_SPAWN_TIME, NUMBER_OF_ENEMIES,
};
use crate::geometry::Viewport;
use crate::high_scores::{
    is_descending, lemma_recorded_all_sorted, record_lines, recorded_all, update_high_scores,
    Entry, HighScores,
};
use crate::input::Input;
use crate::player::{
    confine_player_movement, player_movement, spawn_player, Player, PLAYER_HALF,
};
use crate::random::{lemma_drawn_is_unit, SPAWN_INSET};
use crate::scene::{exit_effects, exit_game};
use crate::score::{score_broadcast, update_score, Score};
use crate::star::{
    in_reach, left_over, lemma_pickup_partition, pickup_count, player_hit_star, spawn_stars,
    spawn_stars_over_time, tick_star_spawn_timer, Star, StarSpawnTimer, NUMBER_OF_STARS,
    STAR_SPAWN_TIME,
};
use crate::timer::SpawnTimer;
use vstd::prelude::*;

verus! {

/// Everything that a game consists of.
#[derive(Debug)]
pub struct World {
    /// The player, until an enemy hits it.
    pub player: Option<Player>,
    pub enemies: Vec<Enemy>,
    pub stars: Vec<Star>,
    pub enemy_spawn_timer: EnemySpawnTimer,
    pub star_spawn_timer: StarSpawnTimer,
    pub score: Score,
    pub high_scores: HighScores,
}

/// A world as contracts see it.
pub struct WorldView {
    pub player: Option<Player>,
    pub enemies: Seq<Enemy>,
    pub stars: Seq<Star>,
    pub enemy_spawn_timer: EnemySpawnTimer,
    pub star_spawn_timer: StarSpawnTimer,
    pub score: Score,
    pub high_scores: Seq<Entry>,
}

impl View for World {
    type V = WorldView;

    open spec fn view(&self) -> WorldView {
        WorldView {
            player: self.player,
            enemies: self.enemies@,
            stars: self.stars@,
            enemy_spawn_timer: self.enemy_spawn_timer,
            star_spawn_timer: self.star_spawn_timer,
            score: self.score,
            high_scores: self.high_scores@,
        }
    }
}

/// Whether `after` is `before` with, if `released` holds, one more item at
/// its end that meets `fresh`.
pub open spec fn grown<T>(
    before: Seq<T>,
    after: Seq<T>,
    released: bool,
    fresh: spec_fn(T) -> bool,
) -> bool {
    if released {
        after.len() == before.len() + 1 && after.drop_last() == before && fresh(after.last())
    } else {
        after == before
    }
}

/// Whether a queue of effects is `bounces` bounce sounds followed by `rest`.
pub open spec fn is_frame_queue(
    queue: Seq<EffectView>,
    bounces: nat,
    rest: Seq<EffectView>,
) -> bool {
    &&& queue.len() == bounces + rest.len()
    &&& queue.skip(bounces as int) == rest
    &&& forall|k: int|
        0 <= k < bounces ==> (#[trigger] queue[k] matches EffectView::Play(sound)
            && sound.is_bounce())
}

impl WorldView {
    /// The player after moving by the keys and being brought back inside.
    pub open spec fn steered(self, dt: u64, input: Input, viewport: Viewport) -> Option<Player> {
        match self.player {
            Some(p) => Some(p.moved(input, dt).confined(viewport)),
            None => None,
        }
    }

    /// The enemies after moving, bouncing and being brought back inside.
    pub open spec fn patrol(self, dt: u64, viewport: Viewport) -> Seq<Enemy> {
        all_confined(all_reflected(all_advanced(self.enemies, dt), viewport), viewport)
    }

    /// How many enemies bounce in a frame.
    pub open spec fn bounces(self, dt: u64, viewport: Viewport) -> nat {
        bounce_count(all_advanced(self.enemies, dt), viewport)
    }

    /// How many stars the player picks up in a frame.
    pub open spec fn picked(self, dt: u64, input: Input, viewport: Viewport) -> nat {
        pickup_count(self.steered(dt, input, viewport), self.stars)
    }

    /// How many enemies hit the player in a frame.
    pub open spec fn hits(self, dt: u64, input: Input, viewport: Viewport) -> nat {
        hit_count(self.steered(dt, input, viewport), self.patrol(dt, viewport))
    }

    /// The events that a frame publishes: one for each hit, with the score
    /// as the stars picked up in that frame leave it.
    pub open spec fn events(self, dt: u64, input: Input, viewport: Viewport) -> Seq<GameOver> {
        hit_events(
            self.hits(dt, input, viewport),
            self.score.raised(self.picked(dt, input, viewport)).value,
        )
    }

    /// This world after a frame of `dt` microseconds, before what the
    /// countdowns released is spawned.
    pub open spec fn settled(self, dt: u64, input: Input, viewport: Viewport) -> WorldView {
        WorldView {
            player: if self.hits(dt, input, viewport) > 0 {
                None
            } else {
                self.steered(dt, input, viewport)
            },
            enemies: self.patrol(dt, viewport),
            stars: left_over(self.steered(dt, input, viewport), self.stars),
            enemy_spawn_timer: EnemySpawnTimer { timer: self.enemy_spawn_timer.timer.ticked(dt) },
            star_spawn_timer: StarSpawnTimer { timer: self.star_spawn_timer.timer.ticked(dt) },
            score: Score {
                value: self.score.raised(self.picked(dt, input, viewport)).value,
                changed: false,
            },
            high_scores: recorded_all(self.high_scores, self.events(dt, input, viewport)),
        }
    }

    /// Whether this world is `base` with what its countdowns released
    /// spawned: behind the enemies one more if the countdown to the next
    /// enemy has just ended, and the same for the stars.
    pub open spec fn spawned_from(self, base: WorldView, viewport: Viewport) -> bool {
        &&& self.player == base.player
        &&& self.enemy_spawn_timer == base.enemy_spawn_timer
        &&& self.star_spawn_timer == base.star_spawn_timer
        &&& self.score == base.score
        &&& self.high_scores == base.high_scores
        &&& grown(
            base.enemies,
            self.enemies,
            base.enemy_spawn_timer.timer.finished,
            |e: Enemy| e.is_spawn(viewport, SPAWN_INSET),
        )
        &&& grown(
            base.stars,
            self.stars,
            base.star_spawn_timer.timer.finished,
            |s: Star| s.is_spawn(viewport),
        )
    }

    /// What a frame queues behind the bounce sounds: a pickup sound for each
    /// star, the report and the explosion for each hit, the score if it
    /// changed, the list of the best games after each game that ended, and
    /// the request to leave.
    pub open spec fn report(self, dt: u64, input: Input, viewport: Viewport) -> Seq<EffectView> {
        repeated(EffectView::Play(Sound::Pickup), self.picked(dt, input, viewport)) + hit_effects(
            self.hits(dt, input, viewport),
        ) + score_broadcast(self.score.raised(self.picked(dt, input, viewport))) + record_lines(
            self.high_scores,
            self.events(dt, input, viewport),
        ) + exit_effects(input)
    }

    /// Whether the score has room for every star in the world.
    pub open spec fn has_room(self) -> bool {
        self.score.value + self.stars.len() <= u32::MAX
    }

    /// Whether the world of a new game looks like this one.
    pub open spec fn is_initial(self, viewport: Viewport) -> bool {
        &&& self.player == Some(Player { position: viewport.center() })
        &&& self.enemies.len() == NUMBER_OF_ENEMIES
        &&& forall|i: int|
            0 <= i < self.enemies.len() ==> (#[trigger] self.enemies[i]).is_spawn(viewport, 0)
        &&& self.stars.len() == NUMBER_OF_STARS
        &&& forall|i: int|
            0 <= i < self.stars.len() ==> (#[trigger] self.stars[i]).is_spawn(viewport)
        &&& self.enemy_spawn_timer.timer == SpawnTimer {
            period: ENEMY_SPAWN_TIME,
            remaining: ENEMY_SPAWN_TIME,
            finished: false,
        }
        &&& self.star_spawn_timer.timer == SpawnTimer {
            period: STAR_SPAWN_TIME,
            remaining: STAR_SPAWN_TIME,
            finished: false,
        }
        &&& self.score == Score { value: 0, changed: true }
        &&& self.high_scores == Seq::<Entry>::empty()
    }
}

/// `a / b` rounded up.
pub open spec fn ceil_div(a: int, b: int) -> int {
    (a + b - 1) / b
}

impl WorldView {
    /// Whether every enemy's direction has unit length.
    pub open spec fn directions_unit(self) -> bool {
        forall|i: int|
            0 <= i < self.enemies.len() ==> (#[trigger] self.enemies[i]).direction.is_unit()
    }

    /// Whether the populations are what `clock` microseconds of play allow,
    /// at one enemy and one star for each period that the countdowns have
    /// completed: the time that the spawned enemies took, with what has run
    /// of the current countdown, is no more than the clock shows; and the
    /// same holds of the stars, picked up or not.
    pub open spec fn accounted(self, clock: int) -> bool {
        &&& self.enemy_spawn_timer.timer.period == ENEMY_SPAWN_TIME
        &&& self.star_spawn_timer.timer.period == STAR_SPAWN_TIME
        &&& self.enemy_spawn_timer.timer.elapsed() >= 0
        &&& self.star_spawn_timer.timer.elapsed() >= 0
        &&& self.enemies.len() >= NUMBER_OF_ENEMIES
        &&& ENEMY_SPAWN_TIME * (self.enemies.len() - NUMBER_OF_ENEMIES)
            + self.enemy_spawn_timer.timer.elapsed() <= clock
        &&& STAR_SPAWN_TIME * (self.stars.len() + self.score.value - NUMBER_OF_STARS)
            + self.star_spawn_timer.timer.elapsed() <= clock
    }

    /// In a new world every enemy's direction has unit length.
    pub proof fn lemma_initial_directions_unit(self, viewport: Viewport)
        requires
            self.is_initial(viewport),
        ensures
            self.directions_unit(),
    {
        assert forall|i: int| 0 <= i < self.enemies.len() implies (#[trigger] self.enemies[i])
            .direction.is_unit() by {
            lemma_drawn_is_unit(self.enemies[i].direction);
        }
    }

    /// A frame keeps every enemy's direction at unit length.
    pub proof fn lemma_frame_keeps_directions_unit(
        self,
        after: WorldView,
        dt: u64,
        input: Input,
        viewport: Viewport,
    )
        requires
            self.directions_unit(),
            after.spawned_from(self.settled(dt, input, viewport), viewport),
        ensures
            after.directions_unit(),
    {
        let base = self.settled(dt, input, viewport);
        assert forall|i: int| 0 <= i < after.enemies.len() implies (#[trigger] after.enemies[i])
            .direction.is_unit() by {
            if i < base.enemies.len() {
                if base.enemy_spawn_timer.timer.finished {
                    assert(after.enemies.drop_last()[i] == base.enemies[i]);
                }
                self.enemies[i].lemma_stepped_is_unit(dt, viewport);
            } else {
                lemma_drawn_is_unit(after.enemies[i].direction);
            }
        }
    }

    /// After a frame the player, if still there, and every enemy that entered
    /// the frame are inside the playfield, wherever the viewport has room for
    /// them. What the frame spawned has not been brought inside yet.
    pub proof fn lemma_frame_confines(
        self,
        after: WorldView,
        dt: u64,
        input: Input,
        viewport: Viewport,
    )
        requires
            after.spawned_from(self.settled(dt, input, viewport), viewport),
        ensures
            viewport.fits(PLAYER_HALF) ==> (after.player matches Some(p) ==> p.position.inside(
                viewport,
                PLAYER_HALF,
            )),
            viewport.fits(ENEMY_HALF) ==> forall|i: int|
                0 <= i < self.enemies.len() ==> (#[trigger] after.enemies[i]).position.inside(
                    viewport,
                    ENEMY_HALF,
                ),
    {
        let base = self.settled(dt, input, viewport);
        if viewport.fits(PLAYER_HALF) {
            if let Some(p) = self.player {
                p.moved(input, dt).lemma_confined_idempotent(viewport);
            }
        }
        assert forall|i: int|
            viewport.fits(ENEMY_HALF) && 0 <= i < self.enemies.len() implies (#[trigger] after
                .enemies[i]).position.inside(viewport, ENEMY_HALF) by {
            if base.enemy_spawn_timer.timer.finished {
                assert(after.enemies.drop_last()[i] == base.enemies[i]);
            }
            self.enemies[i].advanced(dt).reflected(viewport).lemma_confined_idempotent(viewport);
        }
    }

    /// A frame never lowers the score, and raises it by the number of stars
    /// that leave the world.
    pub proof fn lemma_frame_score(self, dt: u64, input: Input, viewport: Viewport)
        requires
            self.has_room(),
        ensures
            self.settled(dt, input, viewport).score.value >= self.score.value,
            self.settled(dt, input, viewport).score.value + self.settled(
                dt,
                input,
                viewport,
            ).stars.len() == self.score.value + self.stars.len(),
    {
        lemma_pickup_partition(self.steered(dt, input, viewport), self.stars);
    }

    /// A frame keeps the list of the best games sorted.
    pub proof fn lemma_frame_keeps_sorted(self, dt: u64, input: Input, viewport: Viewport)
        requires
            is_descending(self.high_scores),
        ensures
            is_descending(self.settled(dt, input, viewport).high_scores),
    {
        lemma_recorded_all_sorted(self.high_scores, self.events(dt, input, viewport));
    }

    /// A new world accounts for a clock at zero.
    pub proof fn lemma_initial_accounted(self, viewport: Viewport)
        requires
            self.is_initial(viewport),
        ensures
            self.accounted(0),
    {
    }

    /// A frame of `dt` microseconds keeps the world accounted for, on a clock
    /// that has advanced by `dt`.
    pub proof fn lemma_frame_accounted(
        self,
        after: WorldView,
        clock: int,
        dt: u64,
        input: Input,
        viewport: Viewport,
    )
        requires
            self.accounted(clock),
            self.has_room(),
            after.spawned_from(self.settled(dt, input, viewport), viewport),
        ensures
            after.accounted(clock + dt),
    {
        let base = self.settled(dt, input, viewport);
        self.lemma_frame_score(dt, input, viewport);
        self.enemy_spawn_timer.timer.lemma_tick_accounts(dt);
        self.star_spawn_timer.timer.lemma_tick_accounts(dt);
    }

    /// In a world that accounts for `clock` microseconds there are at least
    /// the enemies that a game starts with and at most one more for each
    /// period of their countdown, begun or complete; and at most the stars
    /// that a game starts with and one more for each period of theirs, less
    /// those picked up.
    pub proof fn lemma_accounted_bounds(self, clock: int)
        requires
            self.accounted(clock),
        ensures
            NUMBER_OF_ENEMIES <= self.enemies.len() <= NUMBER_OF_ENEMIES + ceil_div(
                clock,
                ENEMY_SPAWN_TIME as int,
            ),
            self.stars.len() <= NUMBER_OF_STARS + ceil_div(clock, STAR_SPAWN_TIME as int)
                - self.score.value,
    {
    }
}

impl World {
    /// The world of a new game: the player in the middle of the playfield,
    /// enemies and stars at random, the countdowns at their start, no score.
    pub fn initialize(viewport: &Viewport) -> (world: World)
        ensures
            world@.is_initial(*viewport),
            world@.directions_unit(),
            world@.accounted(0),
    {
        let mut enemies: Vec<Enemy> = Vec::new();
        spawn_enemies(&mut enemies, viewport);
        let mut stars: Vec<Star> = Vec::new();
        spawn_stars(&mut stars, viewport);
        let world = World {
            player: Some(spawn_player(viewport)),
            enemies,
            stars,
            enemy_spawn_timer: EnemySpawnTimer::default(),
            star_spawn_timer: StarSpawnTimer::default(),
            score: Score::default(),
            high_scores: HighScores::default(),
        };
        proof {
            world@.lemma_initial_directions_unit(*viewport);
        }
        world
    }

    /// Whether the score has room for every star in the world, as `tick`
    /// requires.
    pub fn has_room(&self) -> (r: bool)
        ensures
            r == self@.has_room(),
    {
        self.stars.len() as u64 <= (u32::MAX - self.score.value) as u64
    }

    /// Advances the world by one frame of `dt` microseconds and returns what
    /// the frame asks of the outside world, in the order in which it came up.
    /// The score must have room for every star in the world.
    pub fn tick(&mut self, dt: u64, input: &Input, viewport: &Viewport) -> (effects: Vec<Effect>)
        requires
            old(self)@.has_room(),
        ensures
            final(self)@.spawned_from(old(self)@.settled(dt, *input, *viewport), *viewport),
            is_frame_queue(
                views(effects@),
                old(self)@.bounces(dt, *viewport),
                old(self)@.report(dt, *input, *viewport),
            ),
            final(self).score.value >= old(self).score.value,
            is_descending(final(self).high_scores@),
            old(self)@.directions_unit() ==> final(self)@.directions_unit(),
            forall|clock: int| #[trigger]
                old(self)@.accounted(clock) ==> final(self)@.accounted(clock + dt),
            viewport.fits(PLAYER_HALF) ==> (final(self).player matches Some(p)
                ==> p.position.inside(*viewport, PLAYER_HALF)),
            viewport.fits(ENEMY_HALF) ==> forall|i: int|
                0 <= i < old(self).enemies@.len() ==> (#[trigger] final(self).enemies@[i])
                    .position.inside(*viewport, ENEMY_HALF),
    {
        let mut effects: Vec<Effect> = Vec::new();
        let mut events: Vec<GameOver> = Vec::new();
        let ghost before = self@;
        player_movement(&mut self.player, input, dt);
        confine_player_movement(&mut self.player, viewport);
        enemy_movement(&mut self.enemies, dt);
        update_enemy_direction(&mut self.enemies, viewport, &mut effects);
        confine_enemy_movement(&mut self.enemies, viewport);
        let ghost bounced = views(effects@);
        proof {
            assert(self.player == before.steered(dt, *input, *viewport));
            if let Some(p) = self.player {
                before.stars.lemma_filter_len(in_reach(p));
            }
        }
        let ghost patrolled = self.enemies@;
        player_hit_star(&mut self.stars, &self.player, &mut self.score, &mut effects);
        enemy_hit_player(&mut self.player, &self.enemies, &self.score, &mut effects, &mut events);
        tick_enemy_spawn_timer(&mut self.enemy_spawn_timer, dt);
        tick_star_spawn_timer(&mut self.star_spawn_timer, dt);
        spawn_enemies_over_time(&mut self.enemies, viewport, &self.enemy_spawn_timer);
        spawn_stars_over_time(&mut self.stars, viewport, &self.star_spawn_timer);
        update_score(&mut self.score, &mut effects);
        update_high_scores(&events, &mut self.high_scores, &mut effects);
        exit_game(input, &mut effects);
        proof {
            assert(views(effects@).skip(bounced.len() as int) =~= before.report(
                dt,
                *input,
                *viewport,
            ));
            if before.directions_unit() {
                before.lemma_frame_keeps_directions_unit(self@, dt, *input, *viewport);
            }
            assert forall|clock: int| #[trigger] before.accounted(clock) implies self@.accounted(
                clock + dt,
            ) by {
                before.lemma_frame_accounted(self@, clock, dt, *input, *viewport);
            }
            assert forall|i: int|
                viewport.fits(ENEMY_HALF) && 0 <= i < before.enemies.len() implies (#[trigger] self
                    .enemies@[i]).position.inside(*viewport, ENEMY_HALF) by {
                assert(patrolled[i].position.inside(*viewport, ENEMY_HALF));
            }
        }
        effects
    }
}

} // verus!
