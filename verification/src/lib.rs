//! Gameplay core of a small 3D mini-golf game.
//!
//! The engine-facing shell (rendering, physics, asset loading) lives outside
//! this crate; what is gathered here is the game's own logic: building the
//! tiled lane layout, keeping the turn and score state, and driving the
//! per-turn shot state machine from key events.

mod ball;
mod game;
mod lane;
mod shot;

pub use ball::Ball;
pub use ball::BallShape;
pub use lane::Direction;
pub use lane::LaneConfig;
pub use lane::LaneModel;
pub use lane::LanePart;
pub use lane::Lanes;
pub use lane::Tile;
pub use game::GameState;
pub use game::PlayerData;
pub use shot::BallSpin;
pub use shot::ShootSettings;
pub use shot::ShotAction;
pub use shot::ShotKeys;
pub use shot::player_turn;
pub use shot::ANGLE_STEPS;
pub use shot::MAX_POWER;
