//! Stars: they lie still until the player picks them up.

use crate::effects::{emit, repeated, views, Effect, EffectView, Sound};
use crate::geometry::{Point, Viewport};
use crate::player::Player;
use crate::random::{draw_position, is_placed, SPAWN_INSET};
use crate::score::Score;
use crate::timer::SpawnTimer;
use vstd::prelude::*;

verus! {

/// How many stars a game starts with.
pub const NUMBER_OF_STARS: usize = 10;

/// A star's diameter, in micro-pixels.
pub const STAR_SIZE: i64 = 30_000_000;

/// The time between two stars spawned during a game, in microseconds.
pub const STAR_SPAWN_TIME: u64 = 2_000_000;

/// A star nearer to the player than this is picked up: the radius of the
/// player plus that of a star, in micro-pixels.
pub const PICKUP_REACH: u32 = 47_000_000;

/// A collectible.
#[derive(Clone, Copy, Debug, PartialEq, Eq, Structural)]
pub struct Star {
    pub position: Point,
}

/// The countdown to the next star.
#[derive(Clone, Copy, Debug, PartialEq, Eq, Structural)]
pub struct StarSpawnTimer {
    pub timer: SpawnTimer,
}

impl Default for StarSpawnTimer {
    fn default() -> (r: StarSpawnTimer)
        ensures
            r.timer == (SpawnTimer {
                period: STAR_SPAWN_TIME,
                remaining: STAR_SPAWN_TIME,
                finished: false,
            }),
    {
        StarSpawnTimer { timer: SpawnTimer::repeating(STAR_SPAWN_TIME) }
    }
}

impl Star {
    /// Whether this star can have been spawned in the given viewport.
    pub open spec fn is_spawn(self, viewport: Viewport) -> bool {
        is_placed(self.position, viewport, SPAWN_INSET)
    }
}

/// The test for being within the given player's reach.
pub open spec fn in_reach(player: Player) -> spec_fn(Star) -> bool {
    |s: Star| player.position.within(s.position, PICKUP_REACH)
}

/// The test for being beyond the given player's reach.
pub open spec fn out_of_reach(player: Player) -> spec_fn(Star) -> bool {
    |s: Star| !player.position.within(s.position, PICKUP_REACH)
}

/// How many stars the player, if there is one, picks up.
pub open spec fn pickup_count(player: Option<Player>, stars: Seq<Star>) -> nat {
    match player {
        Some(p) => stars.filter(in_reach(p)).len(),
        None => 0,
    }
}

/// The stars that the player, if there is one, leaves behind, in their order.
pub open spec fn left_over(player: Option<Player>, stars: Seq<Star>) -> Seq<Star> {
    match player {
        Some(p) => stars.filter(out_of_reach(p)),
        None => stars,
    }
}

/// Every star is either picked up or left behind.
pub proof fn lemma_pickup_partition(player: Option<Player>, stars: Seq<Star>)
    ensures
        pickup_count(player, stars) + left_over(player, stars).len() == stars.len(),
    decreases stars.len(),
{
    match player {
        None => {},
        Some(p) => {
            if stars.len() == 0 {
                stars.lemma_filter_len(in_reach(p));
                stars.lemma_filter_len(out_of_reach(p));
            } else {
                let front = stars.drop_last();
                lemma_pickup_partition(player, front);
                front.lemma_filter_push(stars.last(), in_reach(p));
                front.lemma_filter_push(stars.last(), out_of_reach(p));
                assert(front.push(stars.last()) =~= stars);
            }
        },
    }
}

/// A star at exactly the reach of the player is left behind.
pub proof fn lemma_reach_is_strict(player: Player, star: Star)
    requires
        player.position.distance_squared(star.position) == PICKUP_REACH * PICKUP_REACH,
    ensures
        pickup_count(Some(player), seq![star]) == 0,
        left_over(Some(player), seq![star]) == seq![star],
{
    let none = Seq::<Star>::empty();
    none.lemma_filter_len(in_reach(player));
    none.lemma_filter_len(out_of_reach(player));
    none.lemma_filter_push(star, in_reach(player));
    none.lemma_filter_push(star, out_of_reach(player));
}

/// Adds the stars that a game starts with, each at a random point of the
/// viewport, moved towards the origin by `SPAWN_INSET`.
pub fn spawn_stars(stars: &mut Vec<Star>, viewport: &Viewport)
    ensures
        final(stars)@.len() == old(stars)@.len() + NUMBER_OF_STARS,
        final(stars)@.take(old(stars)@.len() as int) == old(stars)@,
        forall|i: int|
            old(stars)@.len() <= i < final(stars)@.len() ==> (#[trigger] final(stars)@[i]).is_spawn(
                *viewport,
            ),
{
    let mut made: usize = 0;
    while made < NUMBER_OF_STARS
        invariant
            made <= NUMBER_OF_STARS,
            stars@.len() == old(stars)@.len() + made,
            stars@.take(old(stars)@.len() as int) == old(stars)@,
            forall|i: int|
                old(stars)@.len() <= i < stars@.len() ==> (#[trigger] stars@[i]).is_spawn(
                    *viewport,
                ),
        decreases NUMBER_OF_STARS - made,
    {
        let position = draw_position(viewport, SPAWN_INSET);
        stars.push(Star { position });
        made = made + 1;
    }
}

/// Lets the player, if there is one, pick up every star within reach: the
/// star leaves the game, the score counts it, and a pickup sound is queued.
/// The score must have room for the stars picked up.
pub fn player_hit_star(
    stars: &mut Vec<Star>,
    player: &Option<Player>,
    score: &mut Score,
    effects: &mut Vec<Effect>,
)
    requires
        old(score).value + pickup_count(*player, old(stars)@) <= u32::MAX,
    ensures
        final(stars)@ == left_over(*player, old(stars)@),
        *final(score) == old(score).raised(pickup_count(*player, old(stars)@)),
        final(score).value == old(score).value + pickup_count(*player, old(stars)@),
        views(final(effects)@) == views(old(effects)@) + repeated(
            EffectView::Play(Sound::Pickup),
            pickup_count(*player, old(stars)@),
        ),
{
    match *player {
        None => {
            assert(views(effects@) =~= views(old(effects)@) + repeated(
                EffectView::Play(Sound::Pickup),
                0,
            ));
        },
        Some(p) => {
            let count = stars.len();
            let mut kept: Vec<Star> = Vec::new();
            let mut i: usize = 0;
            let ghost mut picked: nat = 0;
            proof {
                stars@.take(0).lemma_filter_len(in_reach(p));
                stars@.take(0).lemma_filter_len(out_of_reach(p));
                assert(views(effects@) =~= views(old(effects)@) + repeated(
                    EffectView::Play(Sound::Pickup),
                    0,
                ));
            }
            while i < count
                invariant
                    i <= count,
                    count == stars@.len(),
                    stars@ == old(stars)@,
                    old(score).value + stars@.filter(in_reach(p)).len() <= u32::MAX,
                    picked == stars@.take(i as int).filter(in_reach(p)).len(),
                    kept@ == stars@.take(i as int).filter(out_of_reach(p)),
                    *score == old(score).raised(picked),
                    views(effects@) == views(old(effects)@) + repeated(
                        EffectView::Play(Sound::Pickup),
                        picked,
                    ),
                decreases count - i,
            {
                let star = stars[i];
                proof {
                    let seen = stars@.take(i as int);
                    assert(stars@.take(i + 1) =~= seen.push(star));
                    seen.lemma_filter_push(star, in_reach(p));
                    seen.lemma_filter_push(star, out_of_reach(p));
                    stars@.lemma_filter_take_len(in_reach(p), i + 1);
                }
                if p.position.is_within(&star.position, PICKUP_REACH) {
                    score.increment();
                    emit(effects, Effect::Play(Sound::Pickup));
                    proof {
                        picked = picked + 1;
                        assert(views(effects@) =~= views(old(effects)@) + repeated(
                            EffectView::Play(Sound::Pickup),
                            picked,
                        ));
                    }
                } else {
                    kept.push(star);
                }
                i = i + 1;
            }
            assert(stars@.take(count as int) =~= stars@);
            *stars = kept;
        },
    }
}

/// Advances the countdown to the next star.
pub fn tick_star_spawn_timer(star_spawn_timer: &mut StarSpawnTimer, dt: u64)
    ensures
        final(star_spawn_timer).timer == old(star_spawn_timer).timer.ticked(dt),
{
    star_spawn_timer.timer.tick(dt);
}

/// Adds one star if the countdown ended with its last tick: at a random
/// point of the viewport, moved towards the origin by `SPAWN_INSET`.
pub fn spawn_stars_over_time(
    stars: &mut Vec<Star>,
    viewport: &Viewport,
    star_spawn_timer: &StarSpawnTimer,
)
    ensures
        !star_spawn_timer.timer.finished ==> final(stars)@ == old(stars)@,
        star_spawn_timer.timer.finished ==> final(stars)@.len() == old(stars)@.len() + 1,
        star_spawn_timer.timer.finished ==> final(stars)@.drop_last() == old(stars)@,
        star_spawn_timer.timer.finished ==> final(stars)@.last().is_spawn(*viewport),
{
    if star_spawn_timer.timer.finished() {
        let position = draw_position(viewport, SPAWN_INSET);
        stars.push(Star { position });
    }
}

} // verus!
