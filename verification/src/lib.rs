//! Simulation core of a small arcade game.
//!
//! A player moves on a rectangular playfield, picks up stars for score and
//! has to keep away from enemies that bounce between the walls. This crate is
//! the game without its window: the world, the systems that advance it frame
//! by frame, and what each frame asks of the outside world (sounds to play,
//! lines to log, the request to leave).
//!
//! Everything is counted in whole numbers. A coordinate is a number of
//! micro-pixels and a time step a number of microseconds (`geometry::MICRO`
//! of either make one pixel or one second); a direction is a pair of
//! components scaled to `geometry::DIRECTION_SCALE`; a random draw from the
//! unit interval is its numerator over `random::DRAW_RANGE`.
//!
//! `world::World::initialize` makes the world of a new game and
//! `world::World::tick` advances it by one frame. The systems that a frame is
//! made of are public too, each in the module of what it acts on.

pub mod effects;
pub mod enemy;
pub mod geometry;
pub mod high_scores;
pub mod input;
pub mod player;
pub mod random;
pub mod scene;
pub mod score;
pub mod sprites;
pub mod star;
pub mod timer;
pub mod world;
