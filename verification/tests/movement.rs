use platformer_core::animation::{
    change_player_animation, standard_catalog, AnimationRuntimeState, AnimationState,
    InputSnapshot, SlidePhase,
};
use platformer_core::movement::{
    collider_bundle_for, player_movement, ColliderBundle, EntityKind, Velocity,
    BASE_RUN_SPEED_MILLI, DASH_IMPULSE_MILLI, GRAVITY_SCALE_NORMAL_MILLI, JUMP_SPEED_MILLI,
};

fn tick(input: &InputSnapshot, grounded: bool, velocity: &mut Velocity) -> i64 {
    let mut gravity: i64 = GRAVITY_SCALE_NORMAL_MILLI;
    player_movement(input, grounded, velocity, &mut gravity);
    gravity
}

#[test]
fn holding_right_runs_at_base_speed_and_selects_run() {
    let mut input = InputSnapshot::default();
    input.right = true;
    let mut velocity = Velocity { x: 0, y: 0 };
    let gravity = tick(&input, true, &mut velocity);
    assert_eq!(velocity.x, 200_000);
    assert_eq!(velocity.y, 0);
    assert_eq!(gravity, GRAVITY_SCALE_NORMAL_MILLI);

    let catalog = standard_catalog(&(100..122).collect());
    let mut state = AnimationRuntimeState::new(
        100,
        platformer_core::animation::AnimationClip { frames: 9, frame_time: 4 },
    );
    let selected = change_player_animation(
        &mut state, &input, velocity.x, velocity.y, true, SlidePhase::Inactive, &catalog,
    );
    assert_eq!(selected, Ok(AnimationState::Run));
    assert!(!state.flip_x);
}

#[test]
fn held_attack_freezes_horizontal_movement() {
    let mut input = InputSnapshot::default();
    input.right = true;
    input.attack_primary = true;
    let mut velocity = Velocity { x: 0, y: 0 };
    tick(&input, true, &mut velocity);
    assert_eq!(velocity.x, 0);

    input.attack_primary = false;
    input.attack_secondary = true;
    tick(&input, true, &mut velocity);
    assert_eq!(velocity.x, 0);
}

#[test]
fn crouching_slows_movement_to_three_tenths() {
    let mut input = InputSnapshot::default();
    input.left = true;
    input.crouch = true;
    let mut velocity = Velocity { x: 0, y: 0 };
    tick(&input, true, &mut velocity);
    assert_eq!(velocity.x, -60_000);
    assert_eq!(velocity.x, -(BASE_RUN_SPEED_MILLI / 10) * 3);
}

#[test]
fn jump_fires_only_on_a_grounded_edge() {
    let mut input = InputSnapshot::default();
    input.jump_just_pressed = true;
    let mut velocity = Velocity { x: 0, y: -100 };
    tick(&input, false, &mut velocity);
    assert_eq!(velocity.y, -100);
    tick(&input, true, &mut velocity);
    assert_eq!(velocity.y, JUMP_SPEED_MILLI);

    input.jump_just_pressed = false;
    velocity.y = -100;
    tick(&input, true, &mut velocity);
    assert_eq!(velocity.y, -100);
}

#[test]
fn airborne_dash_zeroes_gravity_and_vertical_velocity() {
    let mut input = InputSnapshot::default();
    input.dash = true;
    let mut velocity = Velocity { x: 0, y: -300_000 };
    let gravity = tick(&input, false, &mut velocity);
    assert_eq!(gravity, 0);
    assert_eq!(velocity.y, 0);

    let mut velocity = Velocity { x: 0, y: -300_000 };
    let gravity = tick(&input, true, &mut velocity);
    assert_eq!(gravity, GRAVITY_SCALE_NORMAL_MILLI);
    assert_eq!(velocity.y, -300_000);
}

#[test]
fn dash_impulse_fires_once_per_activation_edge() {
    let mut input = InputSnapshot::default();
    input.right = true;
    input.dash = true;
    input.dash_just_pressed = true;
    let mut velocity = Velocity { x: 0, y: 0 };
    tick(&input, true, &mut velocity);
    assert_eq!(velocity.x, 200_000 + DASH_IMPULSE_MILLI);

    // Holding dash without a fresh press adds no further impulse.
    input.dash_just_pressed = false;
    tick(&input, true, &mut velocity);
    assert_eq!(velocity.x, 200_000);
}

#[test]
fn dash_impulse_follows_the_facing_direction() {
    let mut input = InputSnapshot::default();
    input.left = true;
    input.dash_just_pressed = true;
    let mut velocity = Velocity { x: 0, y: 0 };
    tick(&input, true, &mut velocity);
    assert_eq!(velocity.x, -200_000 - DASH_IMPULSE_MILLI);

    // At rest the character faces right.
    let input2 = InputSnapshot { dash_just_pressed: true, ..InputSnapshot::default() };
    let mut velocity = Velocity { x: 0, y: 0 };
    tick(&input2, true, &mut velocity);
    assert_eq!(velocity.x, DASH_IMPULSE_MILLI);
}

#[test]
fn player_body_is_a_locked_dynamic_box() {
    let b = collider_bundle_for(EntityKind::Player);
    assert_eq!(
        b,
        ColliderBundle {
            half_extent_x_milli: 6000,
            half_extent_y_milli: 40000,
            friction_milli: 0,
            dynamic: true,
            rotation_locked: true,
            gravity_scale_milli: GRAVITY_SCALE_NORMAL_MILLI,
            velocity: Velocity { x: 0, y: 0 },
        }
    );
    let other = collider_bundle_for(EntityKind::Other);
    assert!(!other.dynamic);
    assert_eq!(other.half_extent_x_milli, 0);
}
