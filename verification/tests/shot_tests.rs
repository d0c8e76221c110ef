use minigolf::player_turn;
use minigolf::Ball;
use minigolf::BallSpin;
use minigolf::ShootSettings;
use minigolf::ShotAction;
use minigolf::ShotKeys;
use minigolf::ANGLE_STEPS;
use minigolf::MAX_POWER;

fn no_keys() -> ShotKeys {
    ShotKeys {
        power_up: false,
        power_down: false,
        turn_left: false,
        turn_right: false,
        spin_left: false,
        spin_right: false,
        reset: false,
        release: false,
    }
}

fn aim(power: u32, angle: u32, spin: Option<BallSpin>) -> ShootSettings {
    ShootSettings { power, angle, spin }
}

#[test]
fn holding_power_up_raises_power_one_step() {
    let mut shoot = ShootSettings::default();
    let mut ball = Ball::new(0);
    let keys = ShotKeys { power_up: true, ..no_keys() };
    let action = player_turn(&mut shoot, &mut ball, &keys, true, false);
    assert_eq!(action, ShotAction::Rest);
    assert_eq!(shoot, aim(1, 0, None));
    assert_eq!(ball.hits, 0);
}

#[test]
fn power_is_clamped_at_the_top() {
    let mut shoot = aim(MAX_POWER, 0, None);
    let mut ball = Ball::new(0);
    let keys = ShotKeys { power_up: true, ..no_keys() };
    player_turn(&mut shoot, &mut ball, &keys, true, false);
    assert_eq!(shoot.power, MAX_POWER);
}

#[test]
fn power_is_clamped_at_zero() {
    let mut shoot = ShootSettings::default();
    let mut ball = Ball::new(0);
    let keys = ShotKeys { power_down: true, ..no_keys() };
    player_turn(&mut shoot, &mut ball, &keys, true, false);
    assert_eq!(shoot.power, 0);
}

#[test]
fn opposite_power_keys_cancel_out() {
    let mut shoot = aim(5, 0, None);
    let mut ball = Ball::new(0);
    let keys = ShotKeys { power_up: true, power_down: true, ..no_keys() };
    player_turn(&mut shoot, &mut ball, &keys, true, false);
    assert_eq!(shoot.power, 5);
}

#[test]
fn angle_wraps_past_a_full_turn() {
    let mut shoot = aim(0, ANGLE_STEPS - 1, None);
    let mut ball = Ball::new(0);
    let keys = ShotKeys { turn_left: true, ..no_keys() };
    player_turn(&mut shoot, &mut ball, &keys, true, false);
    assert_eq!(shoot.angle, 0);
}

#[test]
fn angle_wraps_below_zero() {
    let mut shoot = ShootSettings::default();
    let mut ball = Ball::new(0);
    let keys = ShotKeys { turn_right: true, ..no_keys() };
    player_turn(&mut shoot, &mut ball, &keys, true, false);
    assert_eq!(shoot.angle, ANGLE_STEPS - 1);
}

#[test]
fn spin_left_toggles_on_and_off() {
    let mut shoot = ShootSettings::default();
    let mut ball = Ball::new(0);
    let keys = ShotKeys { spin_left: true, ..no_keys() };
    player_turn(&mut shoot, &mut ball, &keys, true, false);
    assert_eq!(shoot.spin, Some(BallSpin::Left));
    player_turn(&mut shoot, &mut ball, &keys, true, false);
    assert_eq!(shoot.spin, None);
}

#[test]
fn spin_right_replaces_spin_left() {
    let mut shoot = aim(0, 0, Some(BallSpin::Left));
    let mut ball = Ball::new(0);
    let keys = ShotKeys { spin_right: true, ..no_keys() };
    player_turn(&mut shoot, &mut ball, &keys, true, false);
    assert_eq!(shoot.spin, Some(BallSpin::Right));
}

#[test]
fn both_spin_toggles_in_one_frame_leave_right_spin() {
    let mut shoot = ShootSettings::default();
    let mut ball = Ball::new(0);
    let keys = ShotKeys { spin_left: true, spin_right: true, ..no_keys() };
    player_turn(&mut shoot, &mut ball, &keys, true, false);
    assert_eq!(shoot.spin, Some(BallSpin::Right));
}

#[test]
fn reset_discards_the_whole_aim() {
    let mut shoot = aim(42, 100, Some(BallSpin::Right));
    let mut ball = Ball::new(0);
    let keys = ShotKeys { power_up: true, reset: true, ..no_keys() };
    player_turn(&mut shoot, &mut ball, &keys, true, false);
    assert_eq!(shoot, ShootSettings::default());
}

#[test]
fn release_launches_the_aimed_shot_and_counts_the_stroke() {
    let mut shoot = aim(3, 10, Some(BallSpin::Right));
    let mut ball = Ball::new(2);
    let keys = ShotKeys { release: true, ..no_keys() };
    let action = player_turn(&mut shoot, &mut ball, &keys, true, false);
    assert_eq!(
        action,
        ShotAction::Launch { power: 3, angle: 10, spin: Some(BallSpin::Right) }
    );
    assert_eq!(ball.hits, 1);
    assert_eq!(ball.player_id, 2);
    assert_eq!(shoot, ShootSettings::default());
}

#[test]
fn adjustment_and_release_in_one_frame_launch_the_adjusted_aim() {
    let mut shoot = ShootSettings::default();
    let mut ball = Ball::new(0);
    let keys = ShotKeys { power_up: true, release: true, ..no_keys() };
    let action = player_turn(&mut shoot, &mut ball, &keys, true, false);
    assert_eq!(action, ShotAction::Launch { power: 1, angle: 0, spin: None });
    assert_eq!(ball.hits, 1);
}

#[test]
fn release_with_untouched_aim_hops_the_ball() {
    let mut shoot = ShootSettings::default();
    let mut ball = Ball::new(0);
    let keys = ShotKeys { release: true, ..no_keys() };
    let action = player_turn(&mut shoot, &mut ball, &keys, true, true);
    assert_eq!(action, ShotAction::Jump);
    assert_eq!(ball.hits, 0);
    assert_eq!(shoot, ShootSettings::default());
}

#[test]
fn release_while_rolling_near_the_ground_hops_the_ball() {
    let mut shoot = aim(3, 10, None);
    let mut ball = Ball::new(0);
    let keys = ShotKeys { release: true, ..no_keys() };
    let action = player_turn(&mut shoot, &mut ball, &keys, false, true);
    assert_eq!(action, ShotAction::Jump);
    assert_eq!(shoot, aim(3, 10, None));
    assert_eq!(ball.hits, 0);
}

#[test]
fn release_while_rolling_high_does_nothing() {
    let mut shoot = aim(3, 10, None);
    let mut ball = Ball::new(0);
    let keys = ShotKeys { release: true, ..no_keys() };
    let action = player_turn(&mut shoot, &mut ball, &keys, false, false);
    assert_eq!(action, ShotAction::Rest);
    assert_eq!(shoot, aim(3, 10, None));
}

#[test]
fn no_adjustment_while_the_ball_is_rolling() {
    let mut shoot = aim(3, 10, None);
    let mut ball = Ball::new(0);
    let keys = ShotKeys { power_up: true, turn_left: true, spin_left: true, ..no_keys() };
    let action = player_turn(&mut shoot, &mut ball, &keys, false, false);
    assert_eq!(action, ShotAction::Rest);
    assert_eq!(shoot, aim(3, 10, None));
}

#[test]
fn idle_frame_changes_nothing() {
    let mut shoot = aim(7, 20, Some(BallSpin::Left));
    let mut ball = Ball::new(1);
    let keys = no_keys();
    let action = player_turn(&mut shoot, &mut ball, &keys, true, true);
    assert_eq!(action, ShotAction::Rest);
    assert_eq!(shoot, aim(7, 20, Some(BallSpin::Left)));
    assert_eq!(ball.hits, 0);
}
