//! Random draws. A draw from the unit interval is held as its numerator over
//! `DRAW_RANGE`: a whole number `n` below `DRAW_RANGE` stands for `n / DRAW_RANGE`.

use crate::effects::Sound;
use crate::geometry::{lemma_scaled_is_unit, saturate, saturated, Direction, Point, Viewport};
use vstd::prelude::*;

verus! {

/// The number of values that a unit draw can take.
pub const DRAW_RANGE: u32 = 16_777_216;

/// How far what spawns during a game is moved towards the origin, in
/// micro-pixels.
pub const SPAWN_INSET: i64 = 10_000_000;

/// How often a direction is drawn again after a zero vector before the
/// diagonal is taken in its place.
pub const DIRECTION_DRAWS: u32 = 8;

/// Calls `rand::random::<u32>()`, which takes 32 bits from the thread's
/// generator. The result depends on chance, so nothing is claimed of it.
#[verifier::external_body]
fn random_bits() -> u32 {
    rand::random::<u32>()
}

/// A uniform draw from the unit interval: the upper 24 of 32 random bits,
/// which is how a single-precision draw from `[0, 1)` is made.
pub fn draw_unit() -> (r: u32)
    ensures
        r < DRAW_RANGE,
{
    unit_from_bits(random_bits())
}

/// The unit draw that 32 random bits stand for: their upper 24.
pub open spec fn unit_of(bits: u32) -> u32 {
    (bits / 256) as u32
}

/// Computes `unit_of`.
pub fn unit_from_bits(bits: u32) -> (r: u32)
    ensures
        r == unit_of(bits),
        r < DRAW_RANGE,
{
    assert(bits >> 8 == bits / 256 && bits >> 8 < 16_777_216) by (bit_vector);
    bits >> 8
}

/// The part of `extent` that a draw stands for, less `inset`: the coordinate
/// of something placed at random along a wall of that length.
pub open spec fn placed(draw: u32, extent: u64, inset: i64) -> i64 {
    saturated((draw * extent) / 16_777_216 - inset)
}

/// A draw from the unit interval stands for a part of the extent that is
/// less than the whole.
pub proof fn lemma_placed_range(draw: u32, extent: u64, inset: i64)
    requires
        draw < DRAW_RANGE,
        extent > 0,
    ensures
        -inset <= (draw * extent) / 16_777_216 - inset < extent - inset,
{
    assert(0 <= draw * extent <= 16_777_215 * extent) by (nonlinear_arith)
        requires
            0 <= draw <= 16_777_215,
            0 <= extent,
    ;
}

/// Computes `placed`.
pub fn place(draw: u32, extent: u64, inset: i64) -> (r: i64)
    ensures
        r == placed(draw, extent, inset),
{
    assert(0 <= draw * extent <= 0xffff_ffff * 0xffff_ffff_ffff_ffff) by (nonlinear_arith)
        requires
            0 <= draw <= 0xffff_ffff,
            0 <= extent <= 0xffff_ffff_ffff_ffff,
    ;
    let product: u128 = (draw as u128) * (extent as u128);
    let part: u128 = product / 16_777_216;
    saturate(part as i128 - inset as i128)
}

/// The point that two draws stand for in a viewport, moved by `inset`
/// towards the origin along both axes.
pub open spec fn placement(viewport: Viewport, draw_x: u32, draw_y: u32, inset: i64) -> Point {
    Point { x: placed(draw_x, viewport.width, inset), y: placed(draw_y, viewport.height, inset) }
}

/// Computes `placement`.
pub fn place_point(viewport: &Viewport, draw_x: u32, draw_y: u32, inset: i64) -> (r: Point)
    ensures
        r == placement(*viewport, draw_x, draw_y, inset),
{
    Point { x: place(draw_x, viewport.width, inset), y: place(draw_y, viewport.height, inset) }
}

/// Whether a point can come out of `draw_position`: it is the placement of
/// some pair of unit draws.
pub open spec fn is_placed(position: Point, viewport: Viewport, inset: i64) -> bool {
    exists|draw_x: u32, draw_y: u32|
        draw_x < DRAW_RANGE && draw_y < DRAW_RANGE && position == #[trigger] placement(
            viewport,
            draw_x,
            draw_y,
            inset,
        )
}

/// A random point of the viewport, moved by `inset` towards the origin.
pub fn draw_position(viewport: &Viewport, inset: i64) -> (r: Point)
    ensures
        is_placed(r, *viewport, inset),
{
    let draw_x: u32 = draw_unit();
    let draw_y: u32 = draw_unit();
    place_point(viewport, draw_x, draw_y, inset)
}

/// The bounce sound that a draw selects: the first for a draw above one
/// half, the second otherwise.
pub open spec fn bounce_for(draw: u32) -> Sound {
    if draw > 8_388_608 {
        Sound::BounceOne
    } else {
        Sound::BounceTwo
    }
}

/// Computes `bounce_for`.
pub fn bounce_sound(draw: u32) -> (r: Sound)
    ensures
        r == bounce_for(draw),
        r.is_bounce(),
{
    if draw > 8_388_608 {
        Sound::BounceOne
    } else {
        Sound::BounceTwo
    }
}

/// Whether a direction can come out of `draw_direction`: it is some pair of
/// unit draws, not both zero, scaled to unit length.
pub open spec fn is_drawn_direction(d: Direction) -> bool {
    exists|a: int, b: int|
        0 <= a < DRAW_RANGE && 0 <= b < DRAW_RANGE && (a != 0 || b != 0) && #[trigger] d.is_scaled(
            a,
            b,
        )
}

/// Whatever direction is drawn has unit length.
pub proof fn lemma_drawn_is_unit(d: Direction)
    requires
        is_drawn_direction(d),
    ensures
        d.is_unit(),
{
    let (a, b) = choose|a: int, b: int|
        0 <= a < DRAW_RANGE && 0 <= b < DRAW_RANGE && (a != 0 || b != 0) && #[trigger] d.is_scaled(
            a,
            b,
        );
    lemma_scaled_is_unit(d.x(), d.y(), a, b);
}

/// A random direction: a pair of unit draws scaled to unit length, drawn
/// again while both are zero. After `DIRECTION_DRAWS` zero pairs in a row the
/// diagonal is returned.
pub fn draw_direction() -> (d: Direction)
    ensures
        is_drawn_direction(d),
        d.is_unit(),
{
    let mut attempt: u32 = 0;
    while attempt < DIRECTION_DRAWS
        invariant
            attempt <= DIRECTION_DRAWS,
        decreases DIRECTION_DRAWS - attempt,
    {
        let a: u32 = draw_unit();
        let b: u32 = draw_unit();
        if let Some(d) = Direction::normalized(a as i32, b as i32) {
            return d;
        }
        attempt = attempt + 1;
    }
    Direction::diagonal()
}

} // verus!
