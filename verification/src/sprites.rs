//! How the things of the game are shown: the image of each kind and the
//! layer it is drawn on.

use vstd::prelude::*;

verus! {

/// The kinds of thing that are drawn.
#[derive(Clone, Copy, Debug, PartialEq, Eq, Structural)]
pub enum SpriteKind {
    Player,
    Enemy,
    Star,
}

impl SpriteKind {
    /// Where the sprite's image lives.
    pub open spec fn path(self) -> Seq<char> {
        match self {
            SpriteKind::Player => "sprites/ball_blue_large.png"@,
            SpriteKind::Enemy => "sprites/ball_red_large.png"@,
            SpriteKind::Star => "sprites/star.png"@,
        }
    }

    /// The layer that the sprite is drawn on. Higher layers cover lower
    /// ones, so the stars lie behind the player and the enemies.
    pub open spec fn depth(self) -> int {
        match self {
            SpriteKind::Player => 0,
            SpriteKind::Enemy => 0,
            SpriteKind::Star => -1,
        }
    }

    /// Computes `path`.
    pub fn asset_path(&self) -> (r: &'static str)
        ensures
            r@ == self.path(),
    {
        match self {
            SpriteKind::Player => "sprites/ball_blue_large.png",
            SpriteKind::Enemy => "sprites/ball_red_large.png",
            SpriteKind::Star => "sprites/star.png",
        }
    }

    /// Computes `depth`.
    pub fn layer(&self) -> (r: i32)
        ensures
            r == self.depth(),
    {
        match self {
            SpriteKind::Player => 0,
            SpriteKind::Enemy => 0,
            SpriteKind::Star => -1,
        }
    }
}

} // verus!
