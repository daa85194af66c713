//! Animation selection and frame advance.
//!
//! The animation state is not kept in a transition table: it is
//! recomputed every tick as a pure function of the input snapshot, the
//! velocity, the grounded flag and the slide sub-machine, by a fixed
//! priority list of rules in which the first match wins. Per character,
//! a runtime state carries the active clip, the frame index and the
//! accumulated time; frame advance catches up by whole frame periods
//! and keeps the remainder.
//!
//! Time is counted in ticks of [`TIME_UNITS_PER_SECOND`] per second,
//! chosen so that every clip's seconds-per-frame is a whole number of
//! ticks. Velocities are in thousandths of a world unit per second.

use vstd::prelude::*;

verus! {

/// Time units per second. Every clip plays at 1, 6, 12 or 16 frames
/// per second, and each of those divides 48, so seconds-per-frame is
/// always a whole number of units.
pub const TIME_UNITS_PER_SECOND: u64 = 48;

/// Vertical speeds above this (in thousandths of a unit per second,
/// here one hundredth of a unit) read as airborne ascent or descent.
pub const VERTICAL_VELOCITY_EPSILON_MILLI: i64 = 10;

/// Horizontal speeds within this dead zone (one tenth of a unit per
/// second) leave the sprite's facing unchanged, to avoid flicker.
pub const FACING_DEAD_ZONE_MILLI: i64 = 100;

/// The named animation states, one per clip.
#[derive(Clone, Copy, Debug, PartialEq, Eq, Structural)]
pub enum AnimationState {
    Idle,
    Jump,
    Run,
    Fall,
    CrouchTransition,
    Crouch,
    CrouchWalk,
    Attack,
    AttackSlide,
    Attack2,
    Attack2Slide,
    CrouchAttack,
    Combo,
    ComboSlide,
    SlideStart,
    Slide,
    SlideEnd,
    Roll,
    Dash,
    WallHang,
    WallSlide,
    WallClimb,
    WallClimbNoMovement,
    Death,
    DeathNoMovement,
}

/// The per-tick snapshot of the logical buttons the selector and the
/// movement rules read.
#[derive(Clone, Copy, Debug, PartialEq, Eq, Structural, Default)]
pub struct InputSnapshot {
    /// Move left is held.
    pub left: bool,
    /// Move right is held.
    pub right: bool,
    /// Jump was pressed this tick.
    pub jump_just_pressed: bool,
    /// Crouch is held.
    pub crouch: bool,
    /// Crouch was pressed this tick.
    pub crouch_just_pressed: bool,
    /// The primary attack is held.
    pub attack_primary: bool,
    /// The secondary attack is held.
    pub attack_secondary: bool,
    /// Dash is held.
    pub dash: bool,
    /// Dash was pressed this tick.
    pub dash_just_pressed: bool,
    /// The death debug button is held.
    pub death: bool,
}

/// The immutable metadata of one animation clip: its frame count and
/// how many time units each frame lasts.
#[derive(Clone, Copy, Debug, PartialEq, Eq, Structural)]
pub struct AnimationClip {
    /// Number of frames; the frame index always stays below it.
    pub frames: usize,
    /// Time units each frame is shown for.
    pub frame_time: u64,
}

impl AnimationClip {
    /// A usable clip shows at least one frame for at least one unit.
    pub open spec fn wf(&self) -> bool {
        self.frames >= 1 && self.frame_time >= 1
    }

    /// A clip of `frames` frames playing at `fps` frames per second.
    /// The playback rates in use all divide the time unit rate, so the
    /// per-frame time is exact.
    pub fn new(frames: usize, fps: u64) -> (clip: AnimationClip)
        requires
            frames >= 1,
            1 <= fps <= TIME_UNITS_PER_SECOND,
            TIME_UNITS_PER_SECOND as int % fps as int == 0,
        ensures
            clip.frames == frames,
            clip.frame_time == TIME_UNITS_PER_SECOND as int / fps as int,
            clip.wf(),
    {
        AnimationClip { frames, frame_time: TIME_UNITS_PER_SECOND / fps }
    }
}

/// The phase of the grounded slide: a three-phase sub-machine (entry,
/// loop, exit), each phase with its own duration.
#[derive(Clone, Copy, Debug, PartialEq, Eq, Structural)]
pub enum SlidePhase {
    /// No slide in progress.
    Inactive,
    /// The slide-start clip is playing.
    Entry,
    /// The slide loop is playing.
    Loop,
    /// The slide-end clip is playing; it finishes even if the inputs
    /// are released.
    Exit,
}

/// How long the slide entry lasts: one frame at twelve frames per
/// second.
pub const SLIDE_ENTRY_TIME: u64 = 4;

/// How long the slide loop lasts before the slide winds down on its
/// own: four frames at six frames per second.
pub const SLIDE_LOOP_TIME: u64 = 32;

/// How long the slide exit lasts: one frame at twelve frames per
/// second.
pub const SLIDE_EXIT_TIME: u64 = 4;

/// The slide sub-machine of one character: its phase and the time spent
/// in it.
#[derive(Clone, Copy, Debug, PartialEq, Eq, Structural)]
pub struct SlideTracker {
    pub phase: SlidePhase,
    pub elapsed: u64,
}

/// The phase timer never reaches its phase's duration, and rests at
/// zero while inactive.
pub open spec fn slide_wf(t: SlideTracker) -> bool {
    match t.phase {
        SlidePhase::Inactive => t.elapsed == 0,
        SlidePhase::Entry => t.elapsed < SLIDE_ENTRY_TIME,
        SlidePhase::Loop => t.elapsed < SLIDE_LOOP_TIME,
        SlidePhase::Exit => t.elapsed < SLIDE_EXIT_TIME,
    }
}

/// One tick of the slide sub-machine. Holding the slide inputs walks
/// entry, then loop, then exit, each for its duration (the timer
/// restarts on each phase change); releasing them during entry or loop
/// jumps to the exit phase, which always plays out in full.
pub open spec fn spec_slide_step(t: SlideTracker, held: bool, delta: u64) -> SlideTracker {
    match t.phase {
        SlidePhase::Inactive => if held {
            SlideTracker { phase: SlidePhase::Entry, elapsed: 0 }
        } else {
            t
        },
        SlidePhase::Entry => if !held {
            SlideTracker { phase: SlidePhase::Exit, elapsed: 0 }
        } else if t.elapsed + delta >= SLIDE_ENTRY_TIME {
            SlideTracker { phase: SlidePhase::Loop, elapsed: 0 }
        } else {
            SlideTracker { phase: SlidePhase::Entry, elapsed: (t.elapsed + delta) as u64 }
        },
        SlidePhase::Loop => if !held {
            SlideTracker { phase: SlidePhase::Exit, elapsed: 0 }
        } else if t.elapsed + delta >= SLIDE_LOOP_TIME {
            SlideTracker { phase: SlidePhase::Exit, elapsed: 0 }
        } else {
            SlideTracker { phase: SlidePhase::Loop, elapsed: (t.elapsed + delta) as u64 }
        },
        SlidePhase::Exit => if t.elapsed + delta >= SLIDE_EXIT_TIME {
            SlideTracker { phase: SlidePhase::Inactive, elapsed: 0 }
        } else {
            SlideTracker { phase: SlidePhase::Exit, elapsed: (t.elapsed + delta) as u64 }
        },
    }
}

impl SlideTracker {
    /// A fresh sub-machine, not sliding.
    pub fn new() -> (t: SlideTracker)
        ensures
            t.phase == SlidePhase::Inactive,
            t.elapsed == 0,
            slide_wf(t),
    {
        SlideTracker { phase: SlidePhase::Inactive, elapsed: 0 }
    }

    /// Advances the sub-machine by one tick of `delta` time units,
    /// given whether the slide inputs (dash plus a horizontal
    /// direction, grounded) are held.
    pub fn tick(&mut self, held: bool, delta: u64)
        requires
            slide_wf(*old(self)),
            delta <= u64::MAX - SLIDE_LOOP_TIME,
        ensures
            *final(self) == spec_slide_step(*old(self), held, delta),
            slide_wf(*final(self)),
    {
        match self.phase {
            SlidePhase::Inactive => {
                if held {
                    self.phase = SlidePhase::Entry;
                    self.elapsed = 0;
                }
            }
            SlidePhase::Entry => {
                if !held {
                    self.phase = SlidePhase::Exit;
                    self.elapsed = 0;
                } else if self.elapsed + delta >= SLIDE_ENTRY_TIME {
                    self.phase = SlidePhase::Loop;
                    self.elapsed = 0;
                } else {
                    self.elapsed = self.elapsed + delta;
                }
            }
            SlidePhase::Loop => {
                if !held {
                    self.phase = SlidePhase::Exit;
                    self.elapsed = 0;
                } else if self.elapsed + delta >= SLIDE_LOOP_TIME {
                    self.phase = SlidePhase::Exit;
                    self.elapsed = 0;
                } else {
                    self.elapsed = self.elapsed + delta;
                }
            }
            SlidePhase::Exit => {
                if self.elapsed + delta >= SLIDE_EXIT_TIME {
                    self.phase = SlidePhase::Inactive;
                    self.elapsed = 0;
                } else {
                    self.elapsed = self.elapsed + delta;
                }
            }
        }
    }
}

/// The clip of the current slide phase. A phase not yet started counts
/// as entering.
pub open spec fn spec_slide_clip(phase: SlidePhase) -> AnimationState {
    match phase {
        SlidePhase::Inactive => AnimationState::SlideStart,
        SlidePhase::Entry => AnimationState::SlideStart,
        SlidePhase::Loop => AnimationState::Slide,
        SlidePhase::Exit => AnimationState::SlideEnd,
    }
}

/// The animation state selected for one tick: the first matching rule
/// of the priority list wins. Airborne motion outranks crouching,
/// crouching outranks dashing and sliding, those outrank running, and
/// running outranks the attack poses; the death pose and idling come
/// last.
pub open spec fn spec_select_state(
    input: InputSnapshot,
    vx: i64,
    vy: i64,
    grounded: bool,
    slide: SlidePhase,
) -> AnimationState {
    if vy > VERTICAL_VELOCITY_EPSILON_MILLI {
        AnimationState::Jump
    } else if vy < -VERTICAL_VELOCITY_EPSILON_MILLI {
        AnimationState::Fall
    } else if input.crouch && input.attack_primary {
        AnimationState::CrouchAttack
    } else if input.crouch && (input.right || input.left) {
        AnimationState::CrouchWalk
    } else if input.crouch_just_pressed {
        AnimationState::CrouchTransition
    } else if input.crouch {
        AnimationState::Crouch
    } else if input.dash && !grounded {
        AnimationState::Dash
    } else if input.dash && (input.left || input.right) {
        spec_slide_clip(slide)
    } else if input.dash {
        AnimationState::Roll
    } else if vx != 0 {
        AnimationState::Run
    } else if (input.left || input.right) && input.attack_primary && input.attack_secondary {
        AnimationState::ComboSlide
    } else if input.attack_primary && input.attack_secondary {
        AnimationState::Combo
    } else if (input.left || input.right) && input.attack_primary {
        AnimationState::AttackSlide
    } else if input.attack_primary {
        AnimationState::Attack
    } else if (input.left || input.right) && input.attack_secondary {
        AnimationState::Attack2Slide
    } else if input.attack_secondary {
        AnimationState::Attack2
    } else if input.death {
        AnimationState::Death
    } else {
        AnimationState::Idle
    }
}

/// Selects the animation state for one tick.
pub fn select_state(
    input: &InputSnapshot,
    vx: i64,
    vy: i64,
    grounded: bool,
    slide: SlidePhase,
) -> (s: AnimationState)
    ensures
        s == spec_select_state(*input, vx, vy, grounded, slide),
{
    if vy > VERTICAL_VELOCITY_EPSILON_MILLI {
        AnimationState::Jump
    } else if vy < -VERTICAL_VELOCITY_EPSILON_MILLI {
        AnimationState::Fall
    } else if input.crouch && input.attack_primary {
        AnimationState::CrouchAttack
    } else if input.crouch && (input.right || input.left) {
        AnimationState::CrouchWalk
    } else if input.crouch_just_pressed {
        AnimationState::CrouchTransition
    } else if input.crouch {
        AnimationState::Crouch
    } else if input.dash && !grounded {
        AnimationState::Dash
    } else if input.dash && (input.left || input.right) {
        match slide {
            SlidePhase::Inactive => AnimationState::SlideStart,
            SlidePhase::Entry => AnimationState::SlideStart,
            SlidePhase::Loop => AnimationState::Slide,
            SlidePhase::Exit => AnimationState::SlideEnd,
        }
    } else if input.dash {
        AnimationState::Roll
    } else if vx != 0 {
        AnimationState::Run
    } else if (input.left || input.right) && input.attack_primary && input.attack_secondary {
        AnimationState::ComboSlide
    } else if input.attack_primary && input.attack_secondary {
        AnimationState::Combo
    } else if (input.left || input.right) && input.attack_primary {
        AnimationState::AttackSlide
    } else if input.attack_primary {
        AnimationState::Attack
    } else if (input.left || input.right) && input.attack_secondary {
        AnimationState::Attack2Slide
    } else if input.attack_secondary {
        AnimationState::Attack2
    } else if input.death {
        AnimationState::Death
    } else {
        AnimationState::Idle
    }
}

/// Law: airborne ascent outranks everything. Whenever the vertical
/// velocity is above the threshold, the selected state is the jump,
/// whatever buttons are held and whatever the other readings say.
pub proof fn lemma_ascending_selects_jump(
    input: InputSnapshot,
    vx: i64,
    vy: i64,
    grounded: bool,
    slide: SlidePhase,
)
    requires
        vy > VERTICAL_VELOCITY_EPSILON_MILLI,
    ensures
        spec_select_state(input, vx, vy, grounded, slide) == AnimationState::Jump,
{
}

/// The sprite's facing after one tick: moving left beyond the dead zone
/// mirrors the sprite, moving right beyond it unmirrors it, and inside
/// the dead zone the facing is kept.
pub open spec fn spec_facing(flip_x: bool, vx: i64) -> bool {
    if vx < -FACING_DEAD_ZONE_MILLI {
        true
    } else if vx > FACING_DEAD_ZONE_MILLI {
        false
    } else {
        flip_x
    }
}

/// The per-character animation runtime state: the active clip and atlas
/// handle, the frame index, the time accumulated toward the next frame,
/// the crouch-hold timer and the sprite's facing.
#[derive(Clone, Copy, Debug, PartialEq, Eq, Structural)]
pub struct AnimationRuntimeState {
    /// Opaque handle of the active clip's frame atlas.
    pub atlas: u64,
    /// The active clip's metadata.
    pub clip: AnimationClip,
    /// The current frame index, always below the clip's frame count.
    pub frame: usize,
    /// Time units accumulated toward the next frame advance.
    pub elapsed: u64,
    /// Time units the crouch input has been held.
    pub crouch_held_time: u64,
    /// Whether the sprite is mirrored to face left.
    pub flip_x: bool,
}

impl AnimationRuntimeState {
    /// The clip is usable and the frame index is in range.
    pub open spec fn wf(&self) -> bool {
        self.clip.wf() && self.frame < self.clip.frames
    }

    /// A fresh runtime state showing the first frame of the clip.
    pub fn new(atlas: u64, clip: AnimationClip) -> (s: AnimationRuntimeState)
        requires
            clip.wf(),
        ensures
            s.wf(),
            s.atlas == atlas,
            s.clip == clip,
            s.frame == 0,
            s.elapsed == 0,
            s.crouch_held_time == 0,
            !s.flip_x,
    {
        AnimationRuntimeState {
            atlas,
            clip,
            frame: 0,
            elapsed: 0,
            crouch_held_time: 0,
            flip_x: false,
        }
    }

    /// Advances the active clip by `delta` time units. Once the
    /// accumulated time exceeds the clip's per-frame time, the frame
    /// index catches up by the whole number of frame periods that
    /// elapsed, wrapping modulo the frame count, and the remainder is
    /// kept for the next tick. The crouch-hold timer accumulates while
    /// the crouch input is held and resets when it is not.
    pub fn animate_sprite(&mut self, delta: u64, crouch_held: bool)
        requires
            old(self).wf(),
            old(self).elapsed + delta <= u64::MAX,
            old(self).crouch_held_time + delta <= u64::MAX,
        ensures
            final(self).wf(),
            final(self).atlas == old(self).atlas,
            final(self).clip == old(self).clip,
            final(self).flip_x == old(self).flip_x,
            ({
                let acc = old(self).elapsed + delta;
                let ft = old(self).clip.frame_time as int;
                let n = old(self).clip.frames as int;
                if acc > ft {
                    &&& final(self).frame == (old(self).frame + acc / ft) % n
                    &&& final(self).elapsed == acc % ft
                } else {
                    &&& final(self).frame == old(self).frame
                    &&& final(self).elapsed == acc
                }
            }),
            final(self).crouch_held_time == if crouch_held {
                old(self).crouch_held_time + delta
            } else {
                0
            },
    {
        self.elapsed = self.elapsed + delta;
        if self.elapsed > self.clip.frame_time {
            let advanced: u64 = self.elapsed / self.clip.frame_time;
            let total: u128 = self.frame as u128 + advanced as u128;
            let wrapped: u128 = total % (self.clip.frames as u128);
            self.frame = wrapped as usize;
            self.elapsed = self.elapsed % self.clip.frame_time;
        }
        if crouch_held {
            self.crouch_held_time = self.crouch_held_time + delta;
        } else {
            self.crouch_held_time = 0;
        }
    }
}


/// Failure of a per-tick animation update.
#[derive(Clone, Copy, Debug, PartialEq, Eq, Structural)]
pub enum AnimationError {
    /// The catalog holds no clip for the selected state; the tick's
    /// update is skipped and the previous clip stays active.
    MissingAnimationAsset,
}

/// One catalog entry: a state's frame atlas handle and clip metadata.
#[derive(Clone, Copy, Debug, PartialEq, Eq, Structural)]
pub struct AnimationEntry {
    pub state: AnimationState,
    pub atlas: u64,
    pub clip: AnimationClip,
}

/// Whether the entry list holds a clip for the state.
pub open spec fn has_state(entries: Seq<AnimationEntry>, state: AnimationState) -> bool {
    exists|i: int| 0 <= i < entries.len() && (#[trigger] entries[i]).state == state
}

/// The catalog of loaded clips, one entry per state, immutable after
/// startup and shared by every character.
pub struct AnimationCatalog {
    /// One entry per state (see [`AnimationCatalog::wf`]).
    pub entries: Vec<AnimationEntry>,
}

impl AnimationCatalog {
    /// Each state appears at most once and every clip is usable.
    pub open spec fn wf(&self) -> bool {
        &&& forall|i: int, j: int| 0 <= i < j < self.entries@.len()
                ==> (#[trigger] self.entries@[i]).state != (#[trigger] self.entries@[j]).state
        &&& forall|i: int| 0 <= i < self.entries@.len()
                ==> (#[trigger] self.entries@[i]).clip.wf()
    }

    /// An empty catalog.
    pub fn new() -> (c: AnimationCatalog)
        ensures
            c.wf(),
            c.entries@.len() == 0,
    {
        AnimationCatalog { entries: Vec::new() }
    }

    /// Adds a clip for a state, replacing the state's previous entry if
    /// it had one.
    pub fn add(&mut self, state: AnimationState, atlas: u64, clip: AnimationClip)
        requires
            old(self).wf(),
            clip.wf(),
            old(self).entries@.len() < usize::MAX,
        ensures
            final(self).wf(),
            has_state(final(self).entries@, state),
            forall|i: int| 0 <= i < final(self).entries@.len()
                && (#[trigger] final(self).entries@[i]).state == state
                ==> final(self).entries@[i].atlas == atlas
                    && final(self).entries@[i].clip == clip,
            forall|e: AnimationEntry| e.state != state
                ==> (#[trigger] final(self).entries@.contains(e)
                    <==> old(self).entries@.contains(e)),
    {
        let ghost olde = self.entries@;
        let target = AnimationEntry { state, atlas, clip };
        let n = self.entries.len();
        let mut i: usize = 0;
        while i < n
            invariant
                0 <= i <= n,
                n == self.entries@.len(),
                self.entries@ == olde,
                olde == old(self).entries@,
                target == (AnimationEntry { state, atlas, clip }),
                clip.wf(),
                forall|k1: int, k2: int| 0 <= k1 < k2 < olde.len()
                    ==> (#[trigger] olde[k1]).state != (#[trigger] olde[k2]).state,
                forall|k: int| 0 <= k < olde.len() ==> (#[trigger] olde[k]).clip.wf(),
                forall|k: int| 0 <= k < i ==> (#[trigger] olde[k]).state != state,
            decreases n - i,
        {
            if matching_state(&self.entries[i].state, &state) {
                proof {
                    assert(self.entries@[i as int].state == state);
                }
                let e = entry_at(&mut self.entries, i);
                *e = target;
                proof {
                    let iv = i as int;
                    assert(self.entries@ == olde.update(iv, target));
                    assert(olde[iv].state == state);
                    assert(has_state(self.entries@, state)) by {
                        assert(self.entries@[iv].state == state);
                    }
                    assert forall|k: int| 0 <= k < self.entries@.len() && k != iv
                        implies (#[trigger] self.entries@[k]).state != state
                    by {
                        assert(self.entries@[k] == olde[k]);
                        if k < iv {
                            assert(olde[k].state != olde[iv].state);
                        } else {
                            assert(olde[iv].state != olde[k].state);
                        }
                    }
                    assert forall|e: AnimationEntry| e.state != state
                        implies (self.entries@.contains(e) <==> olde.contains(e))
                    by {
                        if self.entries@.contains(e) {
                            let k = choose|k: int| 0 <= k < self.entries@.len()
                                && self.entries@[k] == e;
                            assert(k != iv);
                            assert(olde[k] == e);
                        }
                        if olde.contains(e) {
                            let k = choose|k: int| 0 <= k < olde.len() && olde[k] == e;
                            assert(k != iv);
                            assert(self.entries@[k] == e);
                        }
                    }
                }
                return;
            }
            i = i + 1;
        }
        self.entries.push(target);
        proof {
            let last = olde.len() as int;
            assert(self.entries@[last] == target);
            assert forall|e: AnimationEntry| e.state != state
                implies (self.entries@.contains(e) <==> olde.contains(e))
            by {
                if self.entries@.contains(e) {
                    let k = choose|k: int| 0 <= k < self.entries@.len()
                        && self.entries@[k] == e;
                    assert(k != last);
                    assert(olde[k] == e);
                }
                if olde.contains(e) {
                    let k = choose|k: int| 0 <= k < olde.len() && olde[k] == e;
                    assert(self.entries@[k] == e);
                }
            }
        }
    }

    /// Looks up the atlas handle and clip loaded for a state.
    pub fn get(&self, state: AnimationState) -> (r: Option<(u64, AnimationClip)>)
        ensures
            match r {
                Some(p) => exists|i: int| 0 <= i < self.entries@.len()
                    && (#[trigger] self.entries@[i]).state == state
                    && self.entries@[i].atlas == p.0
                    && self.entries@[i].clip == p.1,
                None => !has_state(self.entries@, state),
            },
{
        let n = self.entries.len();
        let mut i: usize = 0;
        while i < n
            invariant
                0 <= i <= n,
                n == self.entries@.len(),
                forall|k: int| 0 <= k < i ==> (#[trigger] self.entries@[k]).state != state,
            decreases n - i,
        {
            if matching_state(&self.entries[i].state, &state) {
                proof {
                    assert(self.entries@[i as int].state == state);
                }
                return Some((self.entries[i].atlas, self.entries[i].clip));
            }
            i = i + 1;
        }
        None
    }
}

/// Whether two animation states are the same.
fn matching_state(a: &AnimationState, b: &AnimationState) -> (r: bool)
    ensures
        r == (*a == *b),
{
    *a == *b
}

/// A mutable borrow of one catalog entry.
fn entry_at(entries: &mut Vec<AnimationEntry>, i: usize) -> (e: &mut AnimationEntry)
    requires
        i < old(entries)@.len(),
    ensures
        *e == old(entries)@[i as int],
        final(entries)@ == old(entries)@.update(i as int, *final(e)),
{
    &mut entries[i]
}

/// Selects and applies the animation for one tick: updates the sprite's
/// facing from the horizontal velocity, selects the state by the
/// priority rules, and swaps the atlas and clip in. The frame index is
/// taken modulo the new clip's frame count rather than reset, so clips
/// of overlapping length do not snap. When the catalog has no clip for
/// the selected state, the facing still updates but the previous clip
/// and frame stay active and the error says so.
pub fn change_player_animation(
    state: &mut AnimationRuntimeState,
    input: &InputSnapshot,
    vx: i64,
    vy: i64,
    grounded: bool,
    slide: SlidePhase,
    catalog: &AnimationCatalog,
) -> (r: Result<AnimationState, AnimationError>)
    requires
        old(state).wf(),
        catalog.wf(),
    ensures
        final(state).wf(),
        final(state).flip_x == spec_facing(old(state).flip_x, vx),
        final(state).elapsed == old(state).elapsed,
        final(state).crouch_held_time == old(state).crouch_held_time,
        ({
            let sel = spec_select_state(*input, vx, vy, grounded, slide);
            match r {
                Ok(s) => {
                    &&& s == sel
                    &&& has_state(catalog.entries@, sel)
                    &&& exists|i: int| 0 <= i < catalog.entries@.len()
                            && (#[trigger] catalog.entries@[i]).state == sel
                            && final(state).atlas == catalog.entries@[i].atlas
                            && final(state).clip == catalog.entries@[i].clip
                    &&& final(state).frame
                        == old(state).frame as int % final(state).clip.frames as int
                },
                Err(e) => {
                    &&& e == AnimationError::MissingAnimationAsset
                    &&& !has_state(catalog.entries@, sel)
                    &&& final(state).atlas == old(state).atlas
                    &&& final(state).clip == old(state).clip
                    &&& final(state).frame == old(state).frame
                },
            }
        }),
{
    if vx < -FACING_DEAD_ZONE_MILLI {
        state.flip_x = true;
    } else if vx > FACING_DEAD_ZONE_MILLI {
        state.flip_x = false;
    }
    let sel = select_state(input, vx, vy, grounded, slide);
    match catalog.get(sel) {
        Some((atlas, clip)) => {
            proof {
                let i = choose|i: int| 0 <= i < catalog.entries@.len()
                    && (#[trigger] catalog.entries@[i]).state == sel
                    && catalog.entries@[i].atlas == atlas
                    && catalog.entries@[i].clip == clip;
                assert(catalog.entries@[i].clip.wf());
            }
            state.atlas = atlas;
            state.frame = state.frame % clip.frames;
            state.clip = clip;
            Ok(sel)
        }
        None => Err(AnimationError::MissingAnimationAsset),
    }
}

/// Builds the animation runtime state a character starts with: the idle
/// clip, at its first frame. Fails when the catalog has no idle clip
/// loaded.
pub fn append_animation_for_player(
    catalog: &AnimationCatalog,
) -> (r: Result<AnimationRuntimeState, AnimationError>)
    requires
        catalog.wf(),
    ensures
        match r {
            Ok(s) => {
                &&& has_state(catalog.entries@, AnimationState::Idle)
                &&& exists|i: int| 0 <= i < catalog.entries@.len()
                        && (#[trigger] catalog.entries@[i]).state == AnimationState::Idle
                        && s.atlas == catalog.entries@[i].atlas
                        && s.clip == catalog.entries@[i].clip
                &&& s.wf()
                &&& s.frame == 0
                &&& s.elapsed == 0
                &&& s.crouch_held_time == 0
                &&& !s.flip_x
            },
            Err(e) => {
                &&& e == AnimationError::MissingAnimationAsset
                &&& !has_state(catalog.entries@, AnimationState::Idle)
            },
        },
{
    match catalog.get(AnimationState::Idle) {
        Some((atlas, clip)) => {
            proof {
                let i = choose|i: int| 0 <= i < catalog.entries@.len()
                    && (#[trigger] catalog.entries@[i]).state == AnimationState::Idle
                    && catalog.entries@[i].atlas == atlas
                    && catalog.entries@[i].clip == clip;
                assert(catalog.entries@[i].clip.wf());
            }
            Ok(AnimationRuntimeState::new(atlas, clip))
        }
        None => Err(AnimationError::MissingAnimationAsset),
    }
}


/// The clip metadata the game loads for each state, where it loads one:
/// frame count and per-frame time in time units. Three wall and death
/// variants have no clip of their own.
pub open spec fn spec_standard_clip(state: AnimationState) -> Option<AnimationClip> {
    match state {
        AnimationState::Idle => Some(AnimationClip { frames: 9, frame_time: 4 }),
        AnimationState::Run => Some(AnimationClip { frames: 9, frame_time: 4 }),
        AnimationState::Jump => Some(AnimationClip { frames: 2, frame_time: 4 }),
        AnimationState::Fall => Some(AnimationClip { frames: 2, frame_time: 48 }),
        AnimationState::CrouchTransition => Some(AnimationClip { frames: 1, frame_time: 4 }),
        AnimationState::Crouch => Some(AnimationClip { frames: 1, frame_time: 4 }),
        AnimationState::CrouchWalk => Some(AnimationClip { frames: 7, frame_time: 4 }),
        AnimationState::Attack => Some(AnimationClip { frames: 3, frame_time: 3 }),
        AnimationState::AttackSlide => Some(AnimationClip { frames: 3, frame_time: 3 }),
        AnimationState::Attack2 => Some(AnimationClip { frames: 5, frame_time: 3 }),
        AnimationState::Attack2Slide => Some(AnimationClip { frames: 5, frame_time: 3 }),
        AnimationState::Combo => Some(AnimationClip { frames: 9, frame_time: 3 }),
        AnimationState::ComboSlide => Some(AnimationClip { frames: 9, frame_time: 3 }),
        AnimationState::CrouchAttack => Some(AnimationClip { frames: 3, frame_time: 3 }),
        AnimationState::Roll => Some(AnimationClip { frames: 11, frame_time: 4 }),
        AnimationState::Dash => Some(AnimationClip { frames: 1, frame_time: 4 }),
        AnimationState::Slide => Some(AnimationClip { frames: 3, frame_time: 8 }),
        AnimationState::SlideStart => Some(AnimationClip { frames: 1, frame_time: 4 }),
        AnimationState::SlideEnd => Some(AnimationClip { frames: 1, frame_time: 4 }),
        AnimationState::WallHang => Some(AnimationClip { frames: 1, frame_time: 4 }),
        AnimationState::WallClimb => Some(AnimationClip { frames: 6, frame_time: 4 }),
        AnimationState::Death => Some(AnimationClip { frames: 9, frame_time: 4 }),
        AnimationState::WallSlide => None,
        AnimationState::WallClimbNoMovement => None,
        AnimationState::DeathNoMovement => None,
    }
}

/// The position of a state's atlas in the load order of the standard
/// catalog. Meaningful only for states with a standard clip.
pub open spec fn spec_standard_atlas_index(state: AnimationState) -> int {
    match state {
        AnimationState::Idle => 0,
        AnimationState::Run => 1,
        AnimationState::Jump => 2,
        AnimationState::Fall => 3,
        AnimationState::CrouchTransition => 4,
        AnimationState::Crouch => 5,
        AnimationState::CrouchWalk => 6,
        AnimationState::Attack => 7,
        AnimationState::AttackSlide => 8,
        AnimationState::Attack2 => 9,
        AnimationState::Attack2Slide => 10,
        AnimationState::Combo => 11,
        AnimationState::ComboSlide => 12,
        AnimationState::CrouchAttack => 13,
        AnimationState::Roll => 14,
        AnimationState::Dash => 15,
        AnimationState::Slide => 16,
        AnimationState::SlideStart => 17,
        AnimationState::SlideEnd => 18,
        AnimationState::WallHang => 19,
        AnimationState::WallClimb => 20,
        AnimationState::Death => 21,
        AnimationState::WallSlide => 0,
        AnimationState::WallClimbNoMovement => 0,
        AnimationState::DeathNoMovement => 0,
    }
}

/// How many atlases the standard catalog takes, one per loaded clip.
pub const STANDARD_ATLAS_COUNT: usize = 22;

/// The clip metadata the game loads for a state, if any.
pub fn standard_clip(state: AnimationState) -> (r: Option<AnimationClip>)
    ensures
        r == spec_standard_clip(state),
{
    match state {
        AnimationState::Idle => Some(AnimationClip { frames: 9, frame_time: 4 }),
        AnimationState::Run => Some(AnimationClip { frames: 9, frame_time: 4 }),
        AnimationState::Jump => Some(AnimationClip { frames: 2, frame_time: 4 }),
        AnimationState::Fall => Some(AnimationClip { frames: 2, frame_time: 48 }),
        AnimationState::CrouchTransition => Some(AnimationClip { frames: 1, frame_time: 4 }),
        AnimationState::Crouch => Some(AnimationClip { frames: 1, frame_time: 4 }),
        AnimationState::CrouchWalk => Some(AnimationClip { frames: 7, frame_time: 4 }),
        AnimationState::Attack => Some(AnimationClip { frames: 3, frame_time: 3 }),
        AnimationState::AttackSlide => Some(AnimationClip { frames: 3, frame_time: 3 }),
        AnimationState::Attack2 => Some(AnimationClip { frames: 5, frame_time: 3 }),
        AnimationState::Attack2Slide => Some(AnimationClip { frames: 5, frame_time: 3 }),
        AnimationState::Combo => Some(AnimationClip { frames: 9, frame_time: 3 }),
        AnimationState::ComboSlide => Some(AnimationClip { frames: 9, frame_time: 3 }),
        AnimationState::CrouchAttack => Some(AnimationClip { frames: 3, frame_time: 3 }),
        AnimationState::Roll => Some(AnimationClip { frames: 11, frame_time: 4 }),
        AnimationState::Dash => Some(AnimationClip { frames: 1, frame_time: 4 }),
        AnimationState::Slide => Some(AnimationClip { frames: 3, frame_time: 8 }),
        AnimationState::SlideStart => Some(AnimationClip { frames: 1, frame_time: 4 }),
        AnimationState::SlideEnd => Some(AnimationClip { frames: 1, frame_time: 4 }),
        AnimationState::WallHang => Some(AnimationClip { frames: 1, frame_time: 4 }),
        AnimationState::WallClimb => Some(AnimationClip { frames: 6, frame_time: 4 }),
        AnimationState::Death => Some(AnimationClip { frames: 9, frame_time: 4 }),
        AnimationState::WallSlide => None,
        AnimationState::WallClimbNoMovement => None,
        AnimationState::DeathNoMovement => None,
    }
}

/// Builds the catalog of standard clips from the loaded atlas handles,
/// which come in load order, one per loaded clip: every state with a
/// standard clip is present with that clip and its atlas, and no other
/// state is.
#[verifier::rlimit(100)]
pub fn standard_catalog(atlases: &Vec<u64>) -> (catalog: AnimationCatalog)
    requires
        atlases@.len() == STANDARD_ATLAS_COUNT,
    ensures
        catalog.wf(),
        forall|st: AnimationState| #[trigger] has_state(catalog.entries@, st)
            <==> spec_standard_clip(st) is Some,
        forall|i: int| 0 <= i < catalog.entries@.len() ==> {
            let e = #[trigger] catalog.entries@[i];
            &&& spec_standard_clip(e.state) == Some(e.clip)
            &&& e.atlas == atlases@[spec_standard_atlas_index(e.state)]
        },
{
    let mut entries: Vec<AnimationEntry> = Vec::new();
    entries.push(AnimationEntry {
        state: AnimationState::Idle,
        atlas: atlases[0],
        clip: AnimationClip { frames: 9, frame_time: 4 },
    });
    entries.push(AnimationEntry {
        state: AnimationState::Run,
        atlas: atlases[1],
        clip: AnimationClip { frames: 9, frame_time: 4 },
    });
    entries.push(AnimationEntry {
        state: AnimationState::Jump,
        atlas: atlases[2],
        clip: AnimationClip { frames: 2, frame_time: 4 },
    });
    entries.push(AnimationEntry {
        state: AnimationState::Fall,
        atlas: atlases[3],
        clip: AnimationClip { frames: 2, frame_time: 48 },
    });
    entries.push(AnimationEntry {
        state: AnimationState::CrouchTransition,
        atlas: atlases[4],
        clip: AnimationClip { frames: 1, frame_time: 4 },
    });
    entries.push(AnimationEntry {
        state: AnimationState::Crouch,
        atlas: atlases[5],
        clip: AnimationClip { frames: 1, frame_time: 4 },
    });
    entries.push(AnimationEntry {
        state: AnimationState::CrouchWalk,
        atlas: atlases[6],
        clip: AnimationClip { frames: 7, frame_time: 4 },
    });
    entries.push(AnimationEntry {
        state: AnimationState::Attack,
        atlas: atlases[7],
        clip: AnimationClip { frames: 3, frame_time: 3 },
    });
    entries.push(AnimationEntry {
        state: AnimationState::AttackSlide,
        atlas: atlases[8],
        clip: AnimationClip { frames: 3, frame_time: 3 },
    });
    entries.push(AnimationEntry {
        state: AnimationState::Attack2,
        atlas: atlases[9],
        clip: AnimationClip { frames: 5, frame_time: 3 },
    });
    entries.push(AnimationEntry {
        state: AnimationState::Attack2Slide,
        atlas: atlases[10],
        clip: AnimationClip { frames: 5, frame_time: 3 },
    });
    entries.push(AnimationEntry {
        state: AnimationState::Combo,
        atlas: atlases[11],
        clip: AnimationClip { frames: 9, frame_time: 3 },
    });
    entries.push(AnimationEntry {
        state: AnimationState::ComboSlide,
        atlas: atlases[12],
        clip: AnimationClip { frames: 9, frame_time: 3 },
    });
    entries.push(AnimationEntry {
        state: AnimationState::CrouchAttack,
        atlas: atlases[13],
        clip: AnimationClip { frames: 3, frame_time: 3 },
    });
    entries.push(AnimationEntry {
        state: AnimationState::Roll,
        atlas: atlases[14],
        clip: AnimationClip { frames: 11, frame_time: 4 },
    });
    entries.push(AnimationEntry {
        state: AnimationState::Dash,
        atlas: atlases[15],
        clip: AnimationClip { frames: 1, frame_time: 4 },
    });
    entries.push(AnimationEntry {
        state: AnimationState::Slide,
        atlas: atlases[16],
        clip: AnimationClip { frames: 3, frame_time: 8 },
    });
    entries.push(AnimationEntry {
        state: AnimationState::SlideStart,
        atlas: atlases[17],
        clip: AnimationClip { frames: 1, frame_time: 4 },
    });
    entries.push(AnimationEntry {
        state: AnimationState::SlideEnd,
        atlas: atlases[18],
        clip: AnimationClip { frames: 1, frame_time: 4 },
    });
    entries.push(AnimationEntry {
        state: AnimationState::WallHang,
        atlas: atlases[19],
        clip: AnimationClip { frames: 1, frame_time: 4 },
    });
    entries.push(AnimationEntry {
        state: AnimationState::WallClimb,
        atlas: atlases[20],
        clip: AnimationClip { frames: 6, frame_time: 4 },
    });
    entries.push(AnimationEntry {
        state: AnimationState::Death,
        atlas: atlases[21],
        clip: AnimationClip { frames: 9, frame_time: 4 },
    });
    let catalog = AnimationCatalog { entries };
    proof {
        assert forall|st: AnimationState| spec_standard_clip(st) is Some
            implies has_state(catalog.entries@, st)
        by {
            match st {
                AnimationState::Idle => {
                    assert(catalog.entries@[0].state == st);
                }
                AnimationState::Run => {
                    assert(catalog.entries@[1].state == st);
                }
                AnimationState::Jump => {
                    assert(catalog.entries@[2].state == st);
                }
                AnimationState::Fall => {
                    assert(catalog.entries@[3].state == st);
                }
                AnimationState::CrouchTransition => {
                    assert(catalog.entries@[4].state == st);
                }
                AnimationState::Crouch => {
                    assert(catalog.entries@[5].state == st);
                }
                AnimationState::CrouchWalk => {
                    assert(catalog.entries@[6].state == st);
                }
                AnimationState::Attack => {
                    assert(catalog.entries@[7].state == st);
                }
                AnimationState::AttackSlide => {
                    assert(catalog.entries@[8].state == st);
                }
                AnimationState::Attack2 => {
                    assert(catalog.entries@[9].state == st);
                }
                AnimationState::Attack2Slide => {
                    assert(catalog.entries@[10].state == st);
                }
                AnimationState::Combo => {
                    assert(catalog.entries@[11].state == st);
                }
                AnimationState::ComboSlide => {
                    assert(catalog.entries@[12].state == st);
                }
                AnimationState::CrouchAttack => {
                    assert(catalog.entries@[13].state == st);
                }
                AnimationState::Roll => {
                    assert(catalog.entries@[14].state == st);
                }
                AnimationState::Dash => {
                    assert(catalog.entries@[15].state == st);
                }
                AnimationState::Slide => {
                    assert(catalog.entries@[16].state == st);
                }
                AnimationState::SlideStart => {
                    assert(catalog.entries@[17].state == st);
                }
                AnimationState::SlideEnd => {
                    assert(catalog.entries@[18].state == st);
                }
                AnimationState::WallHang => {
                    assert(catalog.entries@[19].state == st);
                }
                AnimationState::WallClimb => {
                    assert(catalog.entries@[20].state == st);
                }
                AnimationState::Death => {
                    assert(catalog.entries@[21].state == st);
                }
                AnimationState::WallSlide => {
                    assert(false);
                }
                AnimationState::WallClimbNoMovement => {
                    assert(false);
                }
                AnimationState::DeathNoMovement => {
                    assert(false);
                }
            }
        }
    }
    catalog
}

} // verus!
