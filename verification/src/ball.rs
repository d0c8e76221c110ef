//! Balls and their shapes.
//!
//! Each player owns one ball; its shape is drawn at random when the level is
//! loaded, except in the novelty mode, which forces one particular shape.

use vstd::prelude::*;

verus! {

/// A player's ball: who owns it and how often it has been struck.
pub struct Ball {
    pub player_id: u32,
    pub hits: u32,
}

impl Ball {
    /// A fresh ball for the given player, not yet struck.
    pub fn new(player_id: u32) -> (r: Ball)
        ensures
            r.player_id == player_id,
            r.hits == 0,
    {
        Ball { player_id, hits: 0 }
    }
}

/// The model a ball is rendered and collided as.
#[derive(Clone, Copy, Debug, PartialEq, Eq, Structural)]
pub enum BallShape {
    Sphere,
    Cube,
    Cone,
    BiggusDickus,
}

impl BallShape {
    /// The shape that a random draw in `0..=2` selects; any larger draw
    /// falls back to the cone, as the catch-all arm of the selection does.
    pub fn from_roll(roll: u32) -> (r: BallShape)
        ensures
            roll == 0 ==> r is Sphere,
            roll == 1 ==> r is Cube,
            roll >= 2 ==> r is Cone,
    {
        match roll {
            0 => BallShape::Sphere,
            1 => BallShape::Cube,
            _ => BallShape::Cone,
        }
    }

    /// Draw a shape for a newly spawned ball. In the novelty mode the
    /// draw is overridden and every ball gets the novelty shape; otherwise
    /// the result is one of the three ordinary shapes, chosen at random.
    pub fn random(use_biggus: bool) -> (r: BallShape)
        ensures
            use_biggus ==> r is BiggusDickus,
            !use_biggus ==> !(r is BiggusDickus),
    {
        if use_biggus {
            BallShape::BiggusDickus
        } else {
            BallShape::from_roll(shape_roll())
        }
    }

    /// The base name of the model file this shape is loaded from.
    pub fn model_file(&self) -> (r: &'static str)
        ensures
            self is Sphere ==> r@ == "sphere"@,
            self is Cube ==> r@ == "cube"@,
            self is Cone ==> r@ == "cone"@,
            self is BiggusDickus ==> r@ == "biggus_dickus"@,
    {
        match self {
            BallShape::Sphere => "sphere",
            BallShape::Cube => "cube",
            BallShape::Cone => "cone",
            BallShape::BiggusDickus => "biggus_dickus",
        }
    }
}

/// Relies on `rand::Rng::gen_range` on the thread-local generator: a draw
/// over the non-empty range `0..=2` lies in that range.
#[verifier::external_body]
fn shape_roll() -> (r: u32)
    ensures
        r <= 2,
{
    rand::Rng::gen_range(&mut rand::thread_rng(), 0..=2)
}

} // verus!
