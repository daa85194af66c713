//! Player movement: input to velocity and gravity scale.
//!
//! Per character per tick, the horizontal velocity is the held
//! direction times the base run speed, scaled down to nothing while an
//! attack is held and to three tenths while crouching. A jump impulse
//! fires on the rising edge of the jump input, only while grounded.
//! Holding dash in the air zeroes the gravity scale and the vertical
//! velocity for the tick; the dash impulse itself is applied exactly
//! once per activation edge, in the current facing direction, on top of
//! the normal horizontal velocity.
//!
//! Velocities are in thousandths of a world unit per second; the
//! gravity scale is in thousandths of the normal gravity.

use vstd::prelude::*;
use crate::animation::InputSnapshot;

verus! {

/// The base run speed: two hundred units per second.
pub const BASE_RUN_SPEED_MILLI: i64 = 200_000;

/// The upward velocity a jump sets: five hundred units per second.
pub const JUMP_SPEED_MILLI: i64 = 500_000;

/// The lateral velocity a dash adds: two hundred units per second.
pub const DASH_IMPULSE_MILLI: i64 = 200_000;

/// The normal gravity scale, in thousandths.
pub const GRAVITY_SCALE_NORMAL_MILLI: i64 = 1000;

/// The linear velocity of a physics body, in thousandths of a world
/// unit per second.
#[derive(Clone, Copy, Debug, PartialEq, Eq, Structural, Default)]
pub struct Velocity {
    pub x: i64,
    pub y: i64,
}

/// The speed multiplier of the tick, in tenths: nothing while an attack
/// is held, three tenths while crouching, full speed otherwise.
pub open spec fn spec_speed_multiplier_tenths(input: InputSnapshot) -> i64 {
    if input.attack_primary || input.attack_secondary {
        0
    } else if input.crouch {
        3
    } else {
        10
    }
}

/// The horizontal velocity the held directions produce, before any dash
/// impulse: direction times base speed times the speed multiplier.
pub open spec fn spec_walk_velocity(input: InputSnapshot) -> int {
    let dir: int = (if input.right { 1int } else { 0int })
        - (if input.left { 1int } else { 0int });
    dir * (BASE_RUN_SPEED_MILLI / 10) * spec_speed_multiplier_tenths(input)
}

/// The horizontal velocity after the dash rule: on the dash activation
/// edge, one dash impulse is added in the current facing direction
/// (taken from the sign of the walk velocity, facing right at rest).
pub open spec fn spec_horizontal_velocity(input: InputSnapshot) -> int {
    let walk = spec_walk_velocity(input);
    if input.dash_just_pressed {
        if walk >= 0 {
            walk + DASH_IMPULSE_MILLI
        } else {
            walk - DASH_IMPULSE_MILLI
        }
    } else {
        walk
    }
}

/// The vertical velocity after the tick: zeroed while dashing in the
/// air, set to the jump speed on a grounded jump edge, kept otherwise.
pub open spec fn spec_vertical_velocity(input: InputSnapshot, grounded: bool, vy: i64) -> i64 {
    if input.dash && !grounded {
        0
    } else if input.jump_just_pressed && grounded {
        JUMP_SPEED_MILLI
    } else {
        vy
    }
}

/// The gravity scale of the tick, in thousandths: zero while dashing in
/// the air, normal otherwise.
pub open spec fn spec_gravity_scale_milli(input: InputSnapshot, grounded: bool) -> i64 {
    if input.dash && !grounded {
        0
    } else {
        GRAVITY_SCALE_NORMAL_MILLI
    }
}

/// One tick of the movement rules: writes the character's new velocity
/// and gravity scale from the input snapshot and the grounded flag.
/// There is no air jump: the jump edge only fires while grounded. The
/// dash impulse is applied exactly once per activation edge.
pub fn player_movement(
    input: &InputSnapshot,
    grounded: bool,
    velocity: &mut Velocity,
    gravity_scale_milli: &mut i64,
)
    ensures
        final(velocity).x == spec_horizontal_velocity(*input),
        final(velocity).y == spec_vertical_velocity(*input, grounded, old(velocity).y),
        *final(gravity_scale_milli) == spec_gravity_scale_milli(*input, grounded),
{
    let dir: i64 = (if input.right { 1i64 } else { 0i64 }) - (if input.left { 1i64 } else { 0i64 });
    let multiplier: i64 = if input.attack_primary || input.attack_secondary {
        0
    } else if input.crouch {
        3
    } else {
        10
    };
    if input.dash && !grounded {
        *gravity_scale_milli = 0;
        velocity.y = 0;
    } else {
        *gravity_scale_milli = GRAVITY_SCALE_NORMAL_MILLI;
        if input.jump_just_pressed && grounded {
            velocity.y = JUMP_SPEED_MILLI;
        }
    }
    let walk: i64 = dir * (BASE_RUN_SPEED_MILLI / 10) * multiplier;
    velocity.x = walk;
    if input.dash_just_pressed {
        if velocity.x >= 0 {
            velocity.x = velocity.x + DASH_IMPULSE_MILLI;
        } else {
            velocity.x = velocity.x - DASH_IMPULSE_MILLI;
        }
    }
}


/// What kind of entity a level instance describes, read off its
/// identifier by the level loader.
#[derive(Clone, Copy, Debug, PartialEq, Eq, Structural)]
pub enum EntityKind {
    Player,
    Other,
}

/// The physics body configuration of a spawned entity: collider
/// half-extents in thousandths of a world unit, friction in
/// thousandths, and the body flags the physics engine is set up with.
#[derive(Clone, Copy, Debug, PartialEq, Eq, Structural)]
pub struct ColliderBundle {
    pub half_extent_x_milli: i64,
    pub half_extent_y_milli: i64,
    pub friction_milli: i64,
    pub dynamic: bool,
    pub rotation_locked: bool,
    pub gravity_scale_milli: i64,
    pub velocity: Velocity,
}

/// The physics body an entity of the given kind is spawned with: the
/// player gets a six-by-forty dynamic box with rotation locked and no
/// friction; anything else gets an inert empty body.
pub fn collider_bundle_for(kind: EntityKind) -> (b: ColliderBundle)
    ensures
        kind == EntityKind::Player ==> b == (ColliderBundle {
            half_extent_x_milli: 6000,
            half_extent_y_milli: 40000,
            friction_milli: 0,
            dynamic: true,
            rotation_locked: true,
            gravity_scale_milli: GRAVITY_SCALE_NORMAL_MILLI,
            velocity: Velocity { x: 0, y: 0 },
        }),
        kind == EntityKind::Other ==> b == (ColliderBundle {
            half_extent_x_milli: 0,
            half_extent_y_milli: 0,
            friction_milli: 0,
            dynamic: false,
            rotation_locked: true,
            gravity_scale_milli: GRAVITY_SCALE_NORMAL_MILLI,
            velocity: Velocity { x: 0, y: 0 },
        }),
{
    match kind {
        EntityKind::Player => ColliderBundle {
            half_extent_x_milli: 6000,
            half_extent_y_milli: 40000,
            friction_milli: 0,
            dynamic: true,
            rotation_locked: true,
            gravity_scale_milli: GRAVITY_SCALE_NORMAL_MILLI,
            velocity: Velocity { x: 0, y: 0 },
        },
        EntityKind::Other => ColliderBundle {
            half_extent_x_milli: 0,
            half_extent_y_milli: 0,
            friction_milli: 0,
            dynamic: false,
            rotation_locked: true,
            gravity_scale_milli: GRAVITY_SCALE_NORMAL_MILLI,
            velocity: Velocity { x: 0, y: 0 },
        },
    }
}

} // verus!
