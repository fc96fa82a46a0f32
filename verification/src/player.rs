//! The player: moved by the keys, kept inside the playfield.

use crate::geometry::{
    displaced, lemma_travel_symmetric, saturate, travel, travel_of, Direction, Point, Viewport,
};
use crate::input::Input;
use vstd::prelude::*;

verus! {

/// The player's speed, in pixels per second.
pub const PLAYER_SPEED: i64 = 500;

/// The player's diameter, in micro-pixels.
pub const PLAYER_SIZE: i64 = 64_000_000;

/// The player's radius, in micro-pixels.
pub const PLAYER_HALF: i64 = 32_000_000;

/// The avatar that the keys move.
#[derive(Clone, Copy, Debug, PartialEq, Eq, Structural)]
pub struct Player {
    pub position: Point,
}

impl Player {
    /// This player after `dt` microseconds under the given keys: at rest if
    /// the pulls cancel, else moved at full speed in their direction.
    pub open spec fn moved(self, input: Input, dt: u64) -> Player {
        if input.axis_x() == 0 && input.axis_y() == 0 {
            self
        } else {
            let heading = Direction::towards(input.axis_x(), input.axis_y());
            Player {
                position: displaced(
                    self.position,
                    travel(heading.x(), PLAYER_SPEED as int, dt as int),
                    travel(heading.y(), PLAYER_SPEED as int, dt as int),
                ),
            }
        }
    }

    /// This player brought back inside the playfield.
    pub open spec fn confined(self, viewport: Viewport) -> Player {
        Player { position: self.position.confined(viewport, PLAYER_HALF) }
    }

    /// In no time the player does not move, whatever keys are held down.
    pub proof fn lemma_no_time_no_move(self, input: Input)
        ensures
            self.moved(input, 0) == self,
    {
        let heading = Direction::towards(input.axis_x(), input.axis_y());
        lemma_travel_symmetric(heading.x(), PLAYER_SPEED as int, 0);
        lemma_travel_symmetric(heading.y(), PLAYER_SPEED as int, 0);
    }

    /// Bringing the player inside twice is the same as doing it once, and
    /// the player then is inside, wherever the viewport has room for it.
    pub proof fn lemma_confined_idempotent(self, viewport: Viewport)
        requires
            viewport.fits(PLAYER_HALF),
        ensures
            self.confined(viewport).confined(viewport) == self.confined(viewport),
            self.confined(viewport).position.inside(viewport, PLAYER_HALF),
    {
        self.position.lemma_confined_idempotent(viewport, PLAYER_HALF);
    }

    /// Computes `moved`.
    pub fn step(&self, input: &Input, dt: u64) -> (r: Player)
        ensures
            r == self.moved(*input, dt),
    {
        match Direction::normalized(input.horizontal(), input.vertical()) {
            None => *self,
            Some(heading) => {
                let along_x: i128 = travel_of(heading.dx(), PLAYER_SPEED, dt);
                let along_y: i128 = travel_of(heading.dy(), PLAYER_SPEED, dt);
                Player {
                    position: Point {
                        x: saturate(self.position.x as i128 + along_x),
                        y: saturate(self.position.y as i128 + along_y),
                    },
                }
            },
        }
    }

    /// Computes `confined`.
    pub fn confine(&self, viewport: &Viewport) -> (r: Player)
        ensures
            r == self.confined(*viewport),
    {
        Player { position: self.position.confine(viewport, PLAYER_HALF) }
    }
}

/// The player at the start of a game: in the middle of the playfield.
pub fn spawn_player(viewport: &Viewport) -> (r: Player)
    ensures
        r.position == viewport.center(),
{
    Player { position: viewport.middle() }
}

/// Moves the player, if there is one, by the keys held down.
pub fn player_movement(player: &mut Option<Player>, input: &Input, dt: u64)
    ensures
        *final(player) == match *old(player) {
            Some(p) => Some(p.moved(*input, dt)),
            None => None,
        },
{
    match *player {
        Some(p) => {
            *player = Some(p.step(input, dt));
        },
        None => {},
    }
}

/// Brings the player, if there is one, back inside the playfield.
pub fn confine_player_movement(player: &mut Option<Player>, viewport: &Viewport)
    ensures
        *final(player) == match *old(player) {
            Some(p) => Some(p.confined(*viewport)),
            None => None,
        },
        viewport.fits(PLAYER_HALF) ==> (*final(player) matches Some(p) ==> p.position.inside(
            *viewport,
            PLAYER_HALF,
        )),
{
    match *player {
        Some(p) => {
            *player = Some(p.confine(viewport));
        },
        None => {},
    }
}

} // verus!
