use platformer_core::animation::{
    append_animation_for_player, change_player_animation, select_state, standard_catalog,
    standard_clip, AnimationCatalog, AnimationClip, AnimationError, AnimationRuntimeState,
    AnimationState, InputSnapshot, SlidePhase, SlideTracker, SLIDE_ENTRY_TIME, SLIDE_EXIT_TIME,
    SLIDE_LOOP_TIME, TIME_UNITS_PER_SECOND,
};

fn idle_input() -> InputSnapshot {
    InputSnapshot::default()
}

fn test_atlases() -> Vec<u64> {
    (100..122).collect()
}

fn select(input: InputSnapshot, vx: i64, vy: i64, grounded: bool) -> AnimationState {
    select_state(&input, vx, vy, grounded, SlidePhase::Inactive)
}

#[test]
fn frame_advance_catches_up_and_keeps_remainder() {
    // A clip at twelve frames per second has a frame time of four time
    // units; half a second is 24 units, so one tick advances six frames
    // exactly, leaving no remainder.
    assert_eq!(TIME_UNITS_PER_SECOND, 48);
    let clip = AnimationClip::new(9, 12);
    assert_eq!(clip.frame_time, 4);
    let mut state = AnimationRuntimeState::new(0, clip);
    state.animate_sprite(24, false);
    assert_eq!(state.frame, 6);
    assert_eq!(state.elapsed, 0);
}

#[test]
fn frame_advance_wraps_modulo_frame_count() {
    let clip = AnimationClip::new(9, 12);
    let mut state = AnimationRuntimeState::new(0, clip);
    state.animate_sprite(24, false);
    assert_eq!(state.frame, 6);
    state.animate_sprite(16, false);
    assert_eq!(state.frame, 1);
    assert_eq!(state.elapsed, 0);
}

#[test]
fn accumulated_time_below_frame_time_does_not_advance() {
    let clip = AnimationClip::new(9, 12);
    let mut state = AnimationRuntimeState::new(0, clip);
    state.animate_sprite(3, false);
    assert_eq!(state.frame, 0);
    assert_eq!(state.elapsed, 3);
    state.animate_sprite(3, false);
    assert_eq!(state.frame, 1);
    assert_eq!(state.elapsed, 2);
}

#[test]
fn crouch_timer_accumulates_and_resets() {
    let clip = AnimationClip::new(9, 12);
    let mut state = AnimationRuntimeState::new(0, clip);
    state.animate_sprite(5, true);
    state.animate_sprite(7, true);
    assert_eq!(state.crouch_held_time, 12);
    state.animate_sprite(1, false);
    assert_eq!(state.crouch_held_time, 0);
}

#[test]
fn ascending_selects_jump_over_everything() {
    let input = InputSnapshot {
        left: true,
        right: true,
        jump_just_pressed: true,
        crouch: true,
        crouch_just_pressed: true,
        attack_primary: true,
        attack_secondary: true,
        dash: true,
        dash_just_pressed: true,
        death: true,
    };
    assert_eq!(select(input, 99_000, 4000, true), AnimationState::Jump);
    assert_eq!(select(input, 0, 11, false), AnimationState::Jump);
}

#[test]
fn descending_selects_fall() {
    let mut input = idle_input();
    input.crouch = true;
    assert_eq!(select(input, 0, -4000, false), AnimationState::Fall);
}

#[test]
fn crouch_family_priorities() {
    let mut input = idle_input();
    input.crouch = true;
    input.attack_primary = true;
    assert_eq!(select(input, 0, 0, true), AnimationState::CrouchAttack);

    let mut input = idle_input();
    input.crouch = true;
    input.right = true;
    assert_eq!(select(input, 0, 0, true), AnimationState::CrouchWalk);

    let mut input = idle_input();
    input.crouch = true;
    input.crouch_just_pressed = true;
    assert_eq!(select(input, 0, 0, true), AnimationState::CrouchTransition);

    let mut input = idle_input();
    input.crouch = true;
    assert_eq!(select(input, 0, 0, true), AnimationState::Crouch);
}

#[test]
fn dash_and_slide_family_priorities() {
    let mut input = idle_input();
    input.dash = true;
    assert_eq!(select(input, 0, 0, false), AnimationState::Dash);
    assert_eq!(select(input, 0, 0, true), AnimationState::Roll);

    input.right = true;
    assert_eq!(
        select_state(&input, 0, 0, true, SlidePhase::Entry),
        AnimationState::SlideStart
    );
    assert_eq!(
        select_state(&input, 0, 0, true, SlidePhase::Loop),
        AnimationState::Slide
    );
    assert_eq!(
        select_state(&input, 0, 0, true, SlidePhase::Exit),
        AnimationState::SlideEnd
    );
}

#[test]
fn attack_family_priorities() {
    let mut input = idle_input();
    input.right = true;
    input.attack_primary = true;
    input.attack_secondary = true;
    assert_eq!(select(input, 0, 0, true), AnimationState::ComboSlide);

    let mut input = idle_input();
    input.attack_primary = true;
    input.attack_secondary = true;
    assert_eq!(select(input, 0, 0, true), AnimationState::Combo);

    let mut input = idle_input();
    input.left = true;
    input.attack_primary = true;
    assert_eq!(select(input, 0, 0, true), AnimationState::AttackSlide);

    let mut input = idle_input();
    input.attack_primary = true;
    assert_eq!(select(input, 0, 0, true), AnimationState::Attack);

    let mut input = idle_input();
    input.right = true;
    input.attack_secondary = true;
    assert_eq!(select(input, 0, 0, true), AnimationState::Attack2Slide);

    let mut input = idle_input();
    input.attack_secondary = true;
    assert_eq!(select(input, 0, 0, true), AnimationState::Attack2);
}

#[test]
fn running_outranks_attacks_and_idle_is_last() {
    let mut input = idle_input();
    input.attack_primary = true;
    assert_eq!(select(input, 200_000, 0, true), AnimationState::Run);

    let mut input = idle_input();
    input.death = true;
    assert_eq!(select(input, 0, 0, true), AnimationState::Death);

    assert_eq!(select(idle_input(), 0, 0, true), AnimationState::Idle);
}

#[test]
fn slide_machine_walks_entry_loop_exit() {
    let mut t = SlideTracker::new();
    assert_eq!(t.phase, SlidePhase::Inactive);
    t.tick(true, 1);
    assert_eq!(t.phase, SlidePhase::Entry);
    assert_eq!(t.elapsed, 0);
    t.tick(true, SLIDE_ENTRY_TIME);
    assert_eq!(t.phase, SlidePhase::Loop);
    t.tick(true, SLIDE_LOOP_TIME - 1);
    assert_eq!(t.phase, SlidePhase::Loop);
    assert_eq!(t.elapsed, SLIDE_LOOP_TIME - 1);
    t.tick(true, 1);
    assert_eq!(t.phase, SlidePhase::Exit);
    t.tick(true, SLIDE_EXIT_TIME);
    assert_eq!(t.phase, SlidePhase::Inactive);
}

#[test]
fn releasing_slide_inputs_jumps_to_exit_which_plays_out() {
    let mut t = SlideTracker::new();
    t.tick(true, 1);
    t.tick(true, 1);
    assert_eq!(t.phase, SlidePhase::Entry);
    t.tick(false, 1);
    assert_eq!(t.phase, SlidePhase::Exit);
    assert_eq!(t.elapsed, 0);
    t.tick(false, 1);
    assert_eq!(t.phase, SlidePhase::Exit);
    t.tick(true, SLIDE_EXIT_TIME);
    assert_eq!(t.phase, SlidePhase::Inactive);
}

#[test]
fn standard_clips_match_the_loaded_metadata() {
    assert_eq!(
        standard_clip(AnimationState::Idle),
        Some(AnimationClip { frames: 9, frame_time: 4 })
    );
    assert_eq!(
        standard_clip(AnimationState::Fall),
        Some(AnimationClip { frames: 2, frame_time: 48 })
    );
    assert_eq!(
        standard_clip(AnimationState::Attack),
        Some(AnimationClip { frames: 3, frame_time: 3 })
    );
    assert_eq!(
        standard_clip(AnimationState::Slide),
        Some(AnimationClip { frames: 3, frame_time: 8 })
    );
    assert_eq!(standard_clip(AnimationState::WallSlide), None);
    assert_eq!(standard_clip(AnimationState::DeathNoMovement), None);
}

#[test]
fn standard_catalog_maps_states_to_their_atlases() {
    let catalog = standard_catalog(&test_atlases());
    assert_eq!(
        catalog.get(AnimationState::Idle),
        Some((100, AnimationClip { frames: 9, frame_time: 4 }))
    );
    assert_eq!(
        catalog.get(AnimationState::Death),
        Some((121, AnimationClip { frames: 9, frame_time: 4 }))
    );
    assert_eq!(catalog.get(AnimationState::WallSlide), None);
}

#[test]
fn player_starts_on_the_idle_clip() {
    let catalog = standard_catalog(&test_atlases());
    let state = append_animation_for_player(&catalog).unwrap();
    assert_eq!(state.atlas, 100);
    assert_eq!(state.clip, AnimationClip { frames: 9, frame_time: 4 });
    assert_eq!(state.frame, 0);
    assert!(!state.flip_x);
}

#[test]
fn missing_idle_clip_reports_missing_asset() {
    let catalog = AnimationCatalog::new();
    assert_eq!(
        append_animation_for_player(&catalog),
        Err(AnimationError::MissingAnimationAsset)
    );
}

#[test]
fn clip_change_keeps_frame_index_modulo_new_length() {
    let catalog = standard_catalog(&test_atlases());
    let mut state = append_animation_for_player(&catalog).unwrap();
    state.animate_sprite(24, false);
    assert_eq!(state.frame, 6);
    // Ascending switches to the two-frame jump clip: frame 6 wraps to 0.
    let mut input = idle_input();
    input.jump_just_pressed = true;
    let selected =
        change_player_animation(&mut state, &input, 0, 4000, false, SlidePhase::Inactive, &catalog);
    assert_eq!(selected, Ok(AnimationState::Jump));
    assert_eq!(state.atlas, 102);
    assert_eq!(state.clip, AnimationClip { frames: 2, frame_time: 4 });
    assert_eq!(state.frame, 0);
}

#[test]
fn missing_clip_keeps_previous_clip_but_updates_facing() {
    let mut catalog = AnimationCatalog::new();
    catalog.add(AnimationState::Idle, 100, AnimationClip { frames: 9, frame_time: 4 });
    let mut state = append_animation_for_player(&catalog).unwrap();
    let mut input = idle_input();
    input.death = true;
    let r =
        change_player_animation(&mut state, &input, -200, 0, true, SlidePhase::Inactive, &catalog);
    assert_eq!(r, Err(AnimationError::MissingAnimationAsset));
    assert_eq!(state.atlas, 100);
    assert_eq!(state.clip, AnimationClip { frames: 9, frame_time: 4 });
    assert!(state.flip_x);
}

#[test]
fn facing_has_a_dead_zone() {
    let catalog = standard_catalog(&test_atlases());
    let mut state = append_animation_for_player(&catalog).unwrap();
    let input = idle_input();
    change_player_animation(&mut state, &input, -200, 0, true, SlidePhase::Inactive, &catalog)
        .unwrap();
    assert!(state.flip_x);
    change_player_animation(&mut state, &input, 50, 0, true, SlidePhase::Inactive, &catalog)
        .unwrap();
    assert!(state.flip_x);
    change_player_animation(&mut state, &input, 200, 0, true, SlidePhase::Inactive, &catalog)
        .unwrap();
    assert!(!state.flip_x);
}

#[test]
fn catalog_add_replaces_an_existing_entry() {
    let mut catalog = AnimationCatalog::new();
    catalog.add(AnimationState::Idle, 100, AnimationClip { frames: 9, frame_time: 4 });
    catalog.add(AnimationState::Idle, 200, AnimationClip { frames: 5, frame_time: 3 });
    assert_eq!(
        catalog.get(AnimationState::Idle),
        Some((200, AnimationClip { frames: 5, frame_time: 3 }))
    );
}
