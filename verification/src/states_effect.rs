//! Hit and splash effects, kept in fixed pools, and the sounds of a tick.

use vstd::prelude::*;
use crate::chart::NoteType;
use crate::scalar::{Real, ONE_BITS};

verus! {

/// The number of slots for hit effects.
pub const HIT_EFFECT_SLOTS: usize = 64;

/// The number of slots for splash effects.
pub const SPLASH_EFFECT_SLOTS: usize = 256;

/// One slot of an effect pool: an animation at a point, and how far it has
/// run, from zero to one.
#[derive(Clone, Copy, Debug)]
pub struct Effect {
    pub enable: bool,
    pub x: Real,
    pub y: Real,
    pub progress: Real,
    pub tint_type: i8,
}

impl Effect {
    /// A slot that is free.
    pub open spec fn default_spec() -> Effect {
        Effect {
            enable: false,
            x: Real::zero_spec(),
            y: Real::zero_spec(),
            progress: Real::zero_spec(),
            tint_type: 0,
        }
    }

    /// An animation that starts at a point.
    pub open spec fn started(x: Real, y: Real, tint_type: i8) -> Effect {
        Effect { enable: true, x, y, progress: Real::zero_spec(), tint_type }
    }

    /// The slot once its animation has run to `progress`: a running animation
    /// takes the new progress and stops when that has reached one; a free
    /// slot stays as it is.
    pub open spec fn advanced(self, progress: Real) -> Effect {
        if self.enable {
            Effect { enable: !progress.ge_spec(Real { bits: ONE_BITS }), progress, ..self }
        } else {
            self
        }
    }
}

impl Default for Effect {
    fn default() -> (r: Self)
        ensures
            r == Effect::default_spec(),
    {
        Effect { enable: false, x: Real::zero(), y: Real::zero(), progress: Real::zero(), tint_type: 0 }
    }
}

/// How many sounds of each kind the last judging tick asks for.
#[derive(Clone, Copy, Debug, PartialEq, Eq, Structural)]
pub struct SoundEffect {
    pub tap_count: u32,
    pub drag_count: u32,
    pub flick_count: u32,
}

/// A count raised by one; it stays at the largest value once there.
pub open spec fn bumped(count: u32) -> u32 {
    if count < u32::MAX {
        (count + 1) as u32
    } else {
        count
    }
}

impl SoundEffect {
    /// No sound.
    pub open spec fn silent() -> SoundEffect {
        SoundEffect { tap_count: 0, drag_count: 0, flick_count: 0 }
    }

    /// The counts with one more sound for a note of the given kind. A hold
    /// sounds as a tap does.
    pub open spec fn with_sound(self, note_type: NoteType) -> SoundEffect {
        match note_type {
            NoteType::Tap | NoteType::Hold => SoundEffect {
                tap_count: bumped(self.tap_count),
                ..self
            },
            NoteType::Drag => SoundEffect { drag_count: bumped(self.drag_count), ..self },
            NoteType::Flick => SoundEffect { flick_count: bumped(self.flick_count), ..self },
        }
    }
}

impl Default for SoundEffect {
    fn default() -> (r: Self)
        ensures
            r == SoundEffect::silent(),
    {
        SoundEffect { tap_count: 0, drag_count: 0, flick_count: 0 }
    }
}

fn bump(count: u32) -> (r: u32)
    ensures
        r == bumped(count),
{
    if count < u32::MAX {
        count + 1
    } else {
        count
    }
}

/// The place of the first free slot from `from` on, or the pool's length
/// where every slot is taken.
pub open spec fn first_free(pool: Seq<Effect>, from: int) -> int
    decreases pool.len() - from,
{
    if from < 0 || from >= pool.len() {
        pool.len() as int
    } else if !pool[from].enable {
        from
    } else {
        first_free(pool, from + 1)
    }
}

/// The first free slot is free, and every slot before it is taken.
pub proof fn lemma_first_free(pool: Seq<Effect>, from: int)
    requires
        0 <= from <= pool.len(),
    ensures
        from <= first_free(pool, from) <= pool.len(),
        first_free(pool, from) < pool.len() ==> !pool[first_free(pool, from)].enable,
        forall|k: int| from <= k < first_free(pool, from) ==> (#[trigger] pool[k]).enable,
    decreases pool.len() - from,
{
    if from < pool.len() && pool[from].enable {
        lemma_first_free(pool, from + 1);
    }
}

/// The pool after an effect was started in it: the effect stands in the
/// first free slot; a full pool drops it.
pub open spec fn pool_with(pool: Seq<Effect>, effect: Effect) -> Seq<Effect> {
    let slot = first_free(pool, 0);
    if slot < pool.len() {
        pool.update(slot, effect)
    } else {
        pool
    }
}

/// Starts an effect in the first free slot of a pool. A full pool drops it.
pub fn start_effect(pool: &mut Vec<Effect>, x: Real, y: Real, tint_type: i8)
    ensures
        final(pool)@ == pool_with(old(pool)@, Effect::started(x, y, tint_type)),
        final(pool)@.len() == old(pool)@.len(),
{
    let len: usize = pool.len();
    let mut i: usize = 0;
    while i < len
        invariant
            len == pool@.len(),
            pool@ == old(pool)@,
            i <= len,
            first_free(pool@, 0) == first_free(pool@, i as int),
        decreases len - i,
    {
        if !pool[i].enable {
            pool[i] = Effect { enable: true, x, y, progress: Real::zero(), tint_type };
            return ;
        }
        i = i + 1;
    }
}

/// The sounds, the hit effects and the splash effects of the engine.
pub struct Effects {
    pub hit_effects: Vec<Effect>,
    pub splash_effects: Vec<Effect>,
    pub sound: SoundEffect,
}

/// What the effects hold, as plain values.
pub struct EffectsView {
    pub hit_effects: Seq<Effect>,
    pub splash_effects: Seq<Effect>,
    pub sound: SoundEffect,
}

impl View for Effects {
    type V = EffectsView;

    open spec fn view(&self) -> EffectsView {
        EffectsView {
            hit_effects: self.hit_effects@,
            splash_effects: self.splash_effects@,
            sound: self.sound,
        }
    }
}

impl EffectsView {
    /// The effects with a hit effect and a splash started at a point.
    pub open spec fn with_click(self, x: Real, y: Real, tint_type: i8) -> EffectsView {
        EffectsView {
            hit_effects: pool_with(self.hit_effects, Effect::started(x, y, tint_type)),
            splash_effects: pool_with(self.splash_effects, Effect::started(x, y, tint_type)),
            ..self
        }
    }

    /// The effects with one more sound for a note of the given kind.
    pub open spec fn with_sound(self, note_type: NoteType) -> EffectsView {
        EffectsView { sound: self.sound.with_sound(note_type), ..self }
    }

    /// The effects with no sound.
    pub open spec fn without_sound(self) -> EffectsView {
        EffectsView { sound: SoundEffect::silent(), ..self }
    }
}

/// A pool of free slots only.
pub fn empty_pool(slots: usize) -> (pool: Vec<Effect>)
    ensures
        pool@.len() == slots,
        forall|i: int| 0 <= i < slots ==> #[trigger] pool@[i] == Effect::default_spec(),
{
    let mut pool: Vec<Effect> = Vec::new();
    let mut i: usize = 0;
    while i < slots
        invariant
            i <= slots,
            pool@.len() == i,
            forall|k: int| 0 <= k < i ==> #[trigger] pool@[k] == Effect::default_spec(),
        decreases slots - i,
    {
        pool.push(Effect::default());
        i = i + 1;
    }
    pool
}

impl Effects {
    /// Whether the pools have their fixed sizes.
    pub open spec fn wf(&self) -> bool {
        &&& self.hit_effects@.len() == HIT_EFFECT_SLOTS
        &&& self.splash_effects@.len() == SPLASH_EFFECT_SLOTS
    }

    /// Whether nothing plays and nothing sounds.
    pub open spec fn is_default(&self) -> bool {
        &&& self.wf()
        &&& forall|i: int|
            0 <= i < self.hit_effects@.len() ==> #[trigger] self.hit_effects@[i]
                == Effect::default_spec()
        &&& forall|i: int|
            0 <= i < self.splash_effects@.len() ==> #[trigger] self.splash_effects@[i]
                == Effect::default_spec()
        &&& self.sound == SoundEffect::silent()
    }

    /// Pools of the fixed sizes in which nothing plays, and no sound.
    pub fn new() -> (r: Effects)
        ensures
            r.is_default(),
    {
        Effects {
            hit_effects: empty_pool(HIT_EFFECT_SLOTS),
            splash_effects: empty_pool(SPLASH_EFFECT_SLOTS),
            sound: SoundEffect::default(),
        }
    }
}

/// Forgets the sounds of the tick before.
pub fn clear_sound_effect(effects: &mut Effects)
    ensures
        final(effects)@ == old(effects)@.without_sound(),
{
    effects.sound = SoundEffect::default();
}

/// Counts one more sound for a note of the given kind.
pub fn new_sound_effect(effects: &mut Effects, note_type: NoteType)
    ensures
        final(effects)@ == old(effects)@.with_sound(note_type),
{
    match note_type {
        NoteType::Tap | NoteType::Hold => {
            effects.sound.tap_count = bump(effects.sound.tap_count);
        },
        NoteType::Drag => {
            effects.sound.drag_count = bump(effects.sound.drag_count);
        },
        NoteType::Flick => {
            effects.sound.flick_count = bump(effects.sound.flick_count);
        },
    }
}

/// Starts a hit effect and a splash at a point, each in the first free slot
/// of its pool.
pub fn new_click_effect(effects: &mut Effects, x: Real, y: Real, tint_type: i8)
    ensures
        final(effects)@ == old(effects)@.with_click(x, y, tint_type),
{
    start_effect(&mut effects.hit_effects, x, y, tint_type);
    start_effect(&mut effects.splash_effects, x, y, tint_type);
}

/// The pool after its animations have run on: the slot at place `i` takes
/// the progress at place `i`; a slot without one stays as it is.
pub open spec fn pool_advanced(pool: Seq<Effect>, progress: Seq<Real>) -> Seq<Effect> {
    Seq::new(
        pool.len(),
        |i: int|
            if i < progress.len() {
                pool[i].advanced(progress[i])
            } else {
                pool[i]
            },
    )
}

/// Whether no running animation of the pool has reached its end.
pub open spec fn all_running(pool: Seq<Effect>) -> bool {
    forall|i: int|
        0 <= i < pool.len() && (#[trigger] pool[i]).enable ==> !pool[i].progress.ge_spec(
            Real { bits: ONE_BITS },
        )
}

/// Whether each progress is the one that its slot has already.
pub open spec fn no_progress(pool: Seq<Effect>, progress: Seq<Real>) -> bool {
    forall|i: int|
        0 <= i < pool.len() && i < progress.len() ==> #[trigger] progress[i] == pool[i].progress
}

/// Where no time has passed, no animation runs on: a pool stays as it is
/// when each slot is given the progress that it has.
pub proof fn lemma_no_time_no_advance(pool: Seq<Effect>, progress: Seq<Real>)
    requires
        all_running(pool),
        no_progress(pool, progress),
    ensures
        pool_advanced(pool, progress) == pool,
{
    assert(pool_advanced(pool, progress) =~= pool);
}

/// After its animations have run on, and after an effect has started, no
/// running animation of a pool has reached its end.
pub proof fn lemma_pools_keep_running(pool: Seq<Effect>, progress: Seq<Real>, x: Real, y: Real, tint: i8)
    requires
        all_running(pool),
    ensures
        all_running(pool_advanced(pool, progress)),
        all_running(pool_with(pool, Effect::started(x, y, tint))),
{
    lemma_first_free(pool, 0);
}

/// Runs the animations of a pool on to the progress that the host has
/// computed for each slot, and frees the slots whose animation is over.
pub fn advance_pool(pool: &mut Vec<Effect>, progress: &Vec<Real>)
    ensures
        final(pool)@ == pool_advanced(old(pool)@, progress@),
{
    let len: usize = pool.len();
    let mut i: usize = 0;
    while i < len
        invariant
            len == pool@.len(),
            len == old(pool)@.len(),
            i <= len,
            forall|k: int|
                0 <= k < i ==> #[trigger] pool@[k] == pool_advanced(old(pool)@, progress@)[k],
            forall|k: int| i <= k < len ==> #[trigger] pool@[k] == old(pool)@[k],
        decreases len - i,
    {
        if i < progress.len() && pool[i].enable {
            let reached: Real = progress[i];
            let slot: Effect = pool[i];
            pool[i] = Effect { enable: !reached.ge(Real::one()), progress: reached, ..slot };
        }
        i = i + 1;
    }
    assert(pool@ =~= pool_advanced(old(pool)@, progress@));
}

/// Runs all animations on by one tick of the engine.
pub fn tick_effect(effects: &mut Effects, hit_progress: &Vec<Real>, splash_progress: &Vec<Real>)
    ensures
        final(effects)@ == (EffectsView {
            hit_effects: pool_advanced(old(effects)@.hit_effects, hit_progress@),
            splash_effects: pool_advanced(old(effects)@.splash_effects, splash_progress@),
            sound: old(effects)@.sound,
        }),
{
    advance_pool(&mut effects.hit_effects, hit_progress);
    advance_pool(&mut effects.splash_effects, splash_progress);
}

} // verus!
