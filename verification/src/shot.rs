//! The per-turn shot state machine.
//!
//! While the current player's ball stands still, held keys grow or shrink
//! the shot's power and turn its direction, and single key presses toggle
//! side spin, reset the aim, or release the shot. The engine shell reads
//! keys, measures the ball's speed, and applies the resulting impulse; the
//! decisions in between are made here, on exact fixed-point values:
//! power is counted in tenths of an impulse unit (one step per frame, at
//! most [`MAX_POWER`]), and the angle in counterclockwise half-degree
//! steps around the vertical axis (wrapping at [`ANGLE_STEPS`], one full
//! turn).

use vstd::prelude::*;

use crate::ball::Ball;

verus! {

/// Greatest shot power, in tenths of an impulse unit.
pub const MAX_POWER: u32 = 100;

/// Number of half-degree angle steps in a full turn.
pub const ANGLE_STEPS: u32 = 720;

/// Side spin given to the ball when it is shot.
#[derive(Clone, Copy, Debug, PartialEq, Eq, Structural)]
pub enum BallSpin {
    Left,
    Right,
}

/// The shot being aimed: power in tenths of an impulse unit, direction in
/// half-degree steps counterclockwise from the base direction, and the
/// side spin chosen, if any.
#[derive(Clone, Copy, Debug, PartialEq, Eq)]
pub struct ShootSettings {
    pub power: u32,
    pub angle: u32,
    pub spin: Option<BallSpin>,
}

impl ShootSettings {
    /// Power and angle stay on the dial: power at most [`MAX_POWER`],
    /// angle strictly below one full turn.
    pub open spec fn wf(self) -> bool {
        &&& self.power <= MAX_POWER
        &&& self.angle < ANGLE_STEPS
    }

    /// The untouched aim: no power, the base direction, no spin.
    pub open spec fn default_spec() -> ShootSettings {
        ShootSettings { power: 0, angle: 0, spin: None }
    }

    /// Whether this is the untouched aim; only a non-default aim can be
    /// released as a shot.
    pub fn is_default(&self) -> (r: bool)
        ensures
            r <==> *self == ShootSettings::default_spec(),
    {
        self.power == 0 && self.angle == 0 && matches!(self.spin, None)
    }
}

impl Default for ShootSettings {
    /// The untouched aim.
    fn default() -> (r: ShootSettings)
        ensures
            r == ShootSettings::default_spec(),
    {
        ShootSettings { power: 0, angle: 0, spin: None }
    }
}

/// The key events of one frame that concern the current player's shot.
/// The four adjustment keys count as long as they are held; the other
/// four only on the frame they are first pressed.
#[derive(Clone, Copy, Debug)]
pub struct ShotKeys {
    /// Power-up key held.
    pub power_up: bool,
    /// Power-down key held.
    pub power_down: bool,
    /// Turn-left key held.
    pub turn_left: bool,
    /// Turn-right key held.
    pub turn_right: bool,
    /// Left-spin toggle just pressed.
    pub spin_left: bool,
    /// Right-spin toggle just pressed.
    pub spin_right: bool,
    /// Reset key just pressed.
    pub reset: bool,
    /// Release key just pressed.
    pub release: bool,
}

/// What the engine shell must do after a frame of shot input.
#[derive(Clone, Copy, Debug, PartialEq, Eq)]
pub enum ShotAction {
    /// Nothing to apply this frame.
    Rest,
    /// Strike the ball with the given aim.
    Launch { power: u32, angle: u32, spin: Option<BallSpin> },
    /// The release key was pressed while the ball could not be shot but
    /// sat near the ground: hop it straight up.
    Jump,
}

/// One press of the left-spin toggle: left spin if it was anything else,
/// off if it already was left.
pub open spec fn toggle_left(spin: Option<BallSpin>) -> Option<BallSpin> {
    if spin == Some(BallSpin::Left) {
        None
    } else {
        Some(BallSpin::Left)
    }
}

/// One press of the right-spin toggle.
pub open spec fn toggle_right(spin: Option<BallSpin>) -> Option<BallSpin> {
    if spin == Some(BallSpin::Right) {
        None
    } else {
        Some(BallSpin::Right)
    }
}

/// The power dial after one frame: one step up while the power-up key is
/// held, one step down while the power-down key is held, clamped to the
/// dial's range.
pub open spec fn stepped_power(power: u32, up: bool, down: bool) -> u32 {
    let raw = power + (if up { 1int } else { 0int }) - (if down { 1int } else { 0int });
    if raw < 0 {
        0u32
    } else if raw > MAX_POWER {
        MAX_POWER
    } else {
        raw as u32
    }
}

/// The angle dial after one frame: one half-degree step counterclockwise
/// or clockwise per held key, wrapped into a single full turn.
pub open spec fn stepped_angle(angle: u32, left: bool, right: bool) -> u32 {
    let raw = angle + (if left { 1int } else { 0int }) - (if right { 1int } else { 0int });
    if raw < 0 {
        (raw + ANGLE_STEPS) as u32
    } else if raw >= ANGLE_STEPS {
        (raw - ANGLE_STEPS) as u32
    } else {
        raw as u32
    }
}

/// The aim after one frame of adjustment input: the held keys move the
/// two dials, the spin toggles flip the spin, and a reset press discards
/// everything and returns the untouched aim.
pub open spec fn adjusted(s: ShootSettings, keys: ShotKeys) -> ShootSettings {
    if keys.reset {
        ShootSettings::default_spec()
    } else {
        ShootSettings {
            power: stepped_power(s.power, keys.power_up, keys.power_down),
            angle: stepped_angle(s.angle, keys.turn_left, keys.turn_right),
            spin: ({
                let after_left = if keys.spin_left {
                    toggle_left(s.spin)
                } else {
                    s.spin
                };
                if keys.spin_right {
                    toggle_right(after_left)
                } else {
                    after_left
                }
            }),
        }
    }
}

/// Drive one frame of the current player's turn.
///
/// While the ball stands still (`stationary`), the frame's key events
/// first adjust the aim as [`adjusted`] describes. A release press then
/// strikes the ball if it stands still and the aim is not the untouched
/// one: the shot carries the adjusted aim, the ball's stroke count goes
/// up by one, and the aim is returned to the untouched state for the next
/// stroke. A release press that cannot strike, while the ball sits near
/// the ground (`vertical_slow`), hops the ball instead. Any other frame
/// changes nothing beyond the aim.
pub fn player_turn(
    shoot: &mut ShootSettings,
    ball: &mut Ball,
    keys: &ShotKeys,
    stationary: bool,
    vertical_slow: bool,
) -> (action: ShotAction)
    requires
        old(shoot).wf(),
        old(ball).hits < u32::MAX,
    ensures
        final(shoot).wf(),
        final(ball).player_id == old(ball).player_id,
        ({
            let adj = if stationary {
                adjusted(*old(shoot), *keys)
            } else {
                *old(shoot)
            };
            if keys.release && stationary && adj != ShootSettings::default_spec() {
                &&& action == (ShotAction::Launch {
                    power: adj.power,
                    angle: adj.angle,
                    spin: adj.spin,
                })
                &&& *final(shoot) == ShootSettings::default_spec()
                &&& final(ball).hits == old(ball).hits + 1
            } else if keys.release && vertical_slow {
                &&& action is Jump
                &&& *final(shoot) == adj
                &&& final(ball).hits == old(ball).hits
            } else {
                &&& action is Rest
                &&& *final(shoot) == adj
                &&& final(ball).hits == old(ball).hits
            }
        }),
{
    if stationary {
        if keys.power_up {
            shoot.power = shoot.power + 1;
        }
        if keys.power_down {
            if shoot.power > 0 {
                shoot.power = shoot.power - 1;
            } else {
                shoot.power = 0;
            }
        }
        if keys.turn_left {
            shoot.angle = shoot.angle + 1;
        }
        if keys.turn_right {
            if shoot.angle > 0 {
                shoot.angle = shoot.angle - 1;
            } else {
                shoot.angle = ANGLE_STEPS - 1;
            }
        }
        if keys.spin_left {
            shoot.spin = match shoot.spin {
                Some(BallSpin::Left) => None,
                _ => Some(BallSpin::Left),
            };
        }
        if keys.spin_right {
            shoot.spin = match shoot.spin {
                Some(BallSpin::Right) => None,
                _ => Some(BallSpin::Right),
            };
        }
        if keys.reset {
            *shoot = ShootSettings::default();
        }

        if shoot.power > MAX_POWER {
            shoot.power = MAX_POWER;
        }
        if shoot.angle >= ANGLE_STEPS {
            shoot.angle = shoot.angle - ANGLE_STEPS;
        }
    }

    if keys.release {
        if stationary && !shoot.is_default() {
            let action = ShotAction::Launch {
                power: shoot.power,
                angle: shoot.angle,
                spin: shoot.spin,
            };
            ball.hits = ball.hits + 1;
            *shoot = ShootSettings::default();
            action
        } else if vertical_slow {
            ShotAction::Jump
        } else {
            ShotAction::Rest
        }
    } else {
        ShotAction::Rest
    }
}

} // verus!
