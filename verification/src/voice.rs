//! Voice scheduling of the built-in polyphonic synthesizer: which slot a new
//! note takes, how long each voice sounds and which part of its
//! attack/sustain/release envelope it is in at every sample. The oscillator
//! and the envelope's shape are computed by the host side from these stages.
use vstd::prelude::*;

verus! {

/// Number of voices that can sound at once.
pub const MAX_VOICES: usize = 16;

/// Shortest duration, in samples, that a triggered voice is given.
pub const MIN_DURATION_SAMPLES: u32 = 64;

/// Scheduling state of one synthesis voice.
#[derive(Clone, Copy, Debug, PartialEq, Eq, Structural)]
pub struct Voice {
    pub active: bool,
    /// MIDI note number being played.
    pub note: u8,
    /// Samples elapsed since the voice was triggered.
    pub elapsed: u32,
    /// Total duration in samples; the voice goes silent after this.
    pub duration_samples: u32,
    /// Length of the linear attack ramp in samples.
    pub attack_samples: u32,
    /// Length of the linear release ramp in samples.
    pub release_samples: u32,
    /// Trigger order: notes triggered later carry larger stamps.
    pub started: u64,
}

/// Which part of its envelope a sounding voice is in.
#[derive(Clone, Copy, Debug, PartialEq, Eq, Structural)]
pub enum EnvelopeStage {
    /// Rising ramp: the level is `elapsed / attack_samples`.
    Attack { elapsed: u32, attack_samples: u32 },
    /// Falling ramp: the level is `1 - position / release_samples`.
    Release { position: u32, release_samples: u32 },
    /// Full level.
    Sustain,
}

pub open spec fn max_u32(a: u32, b: u32) -> u32 {
    if a >= b { a } else { b }
}

pub open spec fn min_u32(a: u32, b: u32) -> u32 {
    if a <= b { a } else { b }
}

/// A sounding voice has samples left, and its release ramp is never empty.
pub open spec fn voice_wf(v: Voice) -> bool {
    v.active ==> v.elapsed < v.duration_samples && v.release_samples >= 1
}

/// A silent voice, as a new synthesizer holds them.
pub open spec fn idle_voice() -> Voice {
    Voice {
        active: false,
        note: 0,
        elapsed: 0,
        duration_samples: 0,
        attack_samples: 0,
        release_samples: 0,
        started: 0,
    }
}

/// The voice that a trigger starts: its duration is at least
/// `MIN_DURATION_SAMPLES`, its release ramp is the smaller of `release_cap`
/// and a fifth of the duration, but at least one sample.
pub open spec fn triggered(
    note: u8,
    duration: u32,
    attack: u32,
    release_cap: u32,
    started: u64,
) -> Voice {
    let d = max_u32(duration, MIN_DURATION_SAMPLES);
    Voice {
        active: true,
        note,
        elapsed: 0,
        duration_samples: d,
        attack_samples: attack,
        release_samples: max_u32(min_u32(release_cap, (d / 5) as u32), 1),
        started,
    }
}

/// First sample of the release ramp.
pub open spec fn release_start(v: Voice) -> int {
    if v.duration_samples >= v.release_samples {
        v.duration_samples - v.release_samples
    } else {
        0
    }
}

/// Envelope stage of a sounding voice at its current sample.
pub open spec fn stage_of(v: Voice) -> EnvelopeStage {
    if v.elapsed < v.attack_samples {
        EnvelopeStage::Attack { elapsed: v.elapsed, attack_samples: v.attack_samples }
    } else if v.elapsed >= release_start(v) {
        EnvelopeStage::Release {
            position: (v.elapsed - release_start(v)) as u32,
            release_samples: v.release_samples,
        }
    } else {
        EnvelopeStage::Sustain
    }
}

/// A voice one sample later: a sounding voice advances and falls silent when
/// its duration is reached; a silent voice stays as it is.
pub open spec fn advanced(v: Voice) -> Voice {
    if v.active {
        Voice {
            elapsed: (v.elapsed + 1) as u32,
            active: v.elapsed + 1 < v.duration_samples,
            ..v
        }
    } else {
        v
    }
}

/// A voice `k` samples later.
pub open spec fn advanced_by(v: Voice, k: nat) -> Voice
    decreases k,
{
    if k == 0 {
        v
    } else {
        advanced_by(advanced(v), (k - 1) as nat)
    }
}

/// What one sample of a voice contributes: its stage while it sounds.
pub open spec fn output_of(v: Voice) -> Option<EnvelopeStage> {
    if v.active {
        Some(stage_of(v))
    } else {
        None
    }
}

/// `slot` is where a new note goes among `vs`: the first silent voice; when
/// every voice sounds, the oldest one (least trigger stamp, the first such
/// slot on a tie) is stolen.
pub open spec fn is_slot_for_new_note(vs: Seq<Voice>, slot: int) -> bool {
    &&& 0 <= slot < vs.len()
    &&& {
        ||| (!vs[slot].active && forall|j: int| 0 <= j < slot ==> #[trigger] vs[j].active)
        ||| ((forall|j: int| 0 <= j < vs.len() ==> #[trigger] vs[j].active) && (forall|j: int|
            0 <= j < vs.len() ==> vs[slot].started <= #[trigger] vs[j].started) && (forall|j: int|
            0 <= j < slot ==> vs[slot].started < #[trigger] vs[j].started))
    }
}

/// Number of sounding voices.
pub open spec fn active_count(vs: Seq<Voice>) -> nat
    decreases vs.len(),
{
    if vs.len() == 0 {
        0
    } else {
        active_count(vs.drop_last()) + if vs.last().active {
            1nat
        } else {
            0nat
        }
    }
}

proof fn lemma_active_count_bounds(vs: Seq<Voice>)
    ensures
        active_count(vs) <= vs.len(),
        active_count(vs) == vs.len() <==> forall|j: int| 0 <= j < vs.len() ==> #[trigger] vs[j].active,
    decreases vs.len(),
{
    if vs.len() > 0 {
        let init = vs.drop_last();
        lemma_active_count_bounds(init);
        if forall|j: int| 0 <= j < vs.len() ==> #[trigger] vs[j].active {
            assert forall|j: int| 0 <= j < init.len() implies #[trigger] init[j].active by {
                assert(init[j] == vs[j]);
            }
        }
        if forall|j: int| 0 <= j < init.len() ==> #[trigger] init[j].active {
            if vs.last().active {
                assert forall|j: int| 0 <= j < vs.len() implies #[trigger] vs[j].active by {
                    if j < init.len() {
                        assert(init[j] == vs[j]);
                    }
                }
            }
        }
    }
}

proof fn lemma_active_count_update(vs: Seq<Voice>, i: int, v: Voice)
    requires
        0 <= i < vs.len(),
    ensures
        active_count(vs.update(i, v)) + (if vs[i].active {
            1int
        } else {
            0int
        }) == active_count(vs) + (if v.active {
            1int
        } else {
            0int
        }),
    decreases vs.len(),
{
    let u = vs.update(i, v);
    if i == vs.len() - 1 {
        assert(u.drop_last() =~= vs.drop_last());
    } else {
        lemma_active_count_update(vs.drop_last(), i, v);
        assert(u.drop_last() =~= vs.drop_last().update(i, v));
    }
}

/// A new note adds one sounding voice, unless all `MAX_VOICES` already sound,
/// in which case the count stays at `MAX_VOICES`.
pub proof fn lemma_note_on_active_count(vs: Seq<Voice>, slot: int, v: Voice)
    requires
        vs.len() == MAX_VOICES,
        is_slot_for_new_note(vs, slot),
        v.active,
    ensures
        active_count(vs.update(slot, v)) == if active_count(vs) < MAX_VOICES {
            active_count(vs) + 1
        } else {
            MAX_VOICES as nat
        },
{
    lemma_active_count_bounds(vs);
    lemma_active_count_update(vs, slot, v);
}

/// A voice that sounds with `r` samples left keeps sounding for exactly `r`
/// more samples, then is silent for good.
pub proof fn lemma_voice_lifetime(v: Voice, k: nat)
    requires
        voice_wf(v),
    ensures
        advanced_by(v, k).active <==> (v.active && v.elapsed + k < v.duration_samples),
        voice_wf(advanced_by(v, k)),
        advanced_by(v, k).active ==> advanced_by(v, k).elapsed == v.elapsed + k,
        advanced_by(v, k + 1) == advanced(advanced_by(v, k)),
        !advanced_by(v, k).active ==> advanced_by(v, k + 1) == advanced_by(v, k),
    decreases k,
{
    if k > 0 {
        lemma_voice_lifetime(advanced(v), (k - 1) as nat);
        assert(advanced_by(v, k + 1) == advanced_by(advanced(v), k));
        assert(advanced_by(v, k) == advanced_by(advanced(v), (k - 1) as nat));
    } else {
        assert(advanced_by(v, 1) == advanced_by(advanced(v), 0));
    }
}

/// A triggered note sounds for exactly its duration (at least
/// `MIN_DURATION_SAMPLES`) and is silent afterwards.
pub proof fn lemma_note_duration(
    note: u8,
    duration: u32,
    attack: u32,
    release_cap: u32,
    started: u64,
    k: nat,
)
    ensures
        advanced_by(triggered(note, duration, attack, release_cap, started), k).active <==> k
            < max_u32(duration, MIN_DURATION_SAMPLES),
        advanced_by(triggered(note, duration, attack, release_cap, started), k).active
            ==> advanced_by(triggered(note, duration, attack, release_cap, started), k).elapsed == k,
{
    lemma_voice_lifetime(triggered(note, duration, attack, release_cap, started), k);
}

/// Envelope positions stay inside their ramps, so the level of a sounding
/// voice lies between 0 and 1 and no ramp length is zero where it divides.
pub proof fn lemma_stage_in_ramp(v: Voice)
    requires
        voice_wf(v),
        v.active,
    ensures
        match stage_of(v) {
            EnvelopeStage::Attack { elapsed, attack_samples } => elapsed < attack_samples,
            EnvelopeStage::Release { position, release_samples } => position < release_samples,
            EnvelopeStage::Sustain => true,
        },
{
}

/// `MAX_VOICES` slots, each holding a well-formed voice, every sounding
/// voice stamped before `next_stamp` (unless the stamp counter is exhausted).
pub open spec fn pool_wf(vs: Seq<Voice>, next_stamp: u64) -> bool {
    &&& vs.len() == MAX_VOICES
    &&& forall|i: int| 0 <= i < vs.len() ==> voice_wf(#[trigger] vs[i])
    &&& forall|i: int|
        0 <= i < vs.len() && #[trigger] vs[i].active ==> vs[i].started < next_stamp || next_stamp
            == u64::MAX
}

/// The stamp counter after one more trigger.
pub open spec fn stamp_after(next_stamp: u64) -> u64 {
    if next_stamp < u64::MAX {
        (next_stamp + 1) as u64
    } else {
        next_stamp
    }
}

/// Polyphonic voice scheduler: up to `MAX_VOICES` simultaneous notes.
pub struct VoiceManager {
    voices: Vec<Voice>,
    /// Stamp the next triggered note receives.
    next_stamp: u64,
}

impl VoiceManager {
    #[verifier::type_invariant]
    spec fn inv(self) -> bool {
        pool_wf(self.voices@, self.next_stamp)
    }

    /// The voices, slot by slot.
    pub closed spec fn voices(&self) -> Seq<Voice> {
        self.voices@
    }

    /// The stamp the next triggered note receives.
    pub closed spec fn next_stamp(&self) -> u64 {
        self.next_stamp
    }

    /// A scheduler with `MAX_VOICES` silent voices.
    pub fn new() -> (vm: Self)
        ensures
            pool_wf(vm.voices(), vm.next_stamp()),
            vm.voices() == Seq::new(MAX_VOICES as nat, |i: int| idle_voice()),
            vm.next_stamp() == 0,
    {
        let mut voices: Vec<Voice> = Vec::new();
        while voices.len() < MAX_VOICES
            invariant
                voices.len() <= MAX_VOICES,
                forall|i: int| 0 <= i < voices.len() ==> voices@[i] == idle_voice(),
            decreases MAX_VOICES - voices.len(),
        {
            voices.push(
                Voice {
                    active: false,
                    note: 0,
                    elapsed: 0,
                    duration_samples: 0,
                    attack_samples: 0,
                    release_samples: 0,
                    started: 0,
                },
            );
        }
        assert(voices@ =~= Seq::new(MAX_VOICES as nat, |i: int| idle_voice()));
        VoiceManager { voices, next_stamp: 0 }
    }

    /// Whether the voice in `slot` is sounding.
    pub fn is_active(&self, slot: usize) -> (b: bool)
        requires
            slot < MAX_VOICES,
        ensures
            b == self.voices()[slot as int].active,
    {
        proof {
            use_type_invariant(self);
        }
        self.voices[slot].active
    }

    /// The MIDI note of the voice in `slot`.
    pub fn note_at(&self, slot: usize) -> (n: u8)
        requires
            slot < MAX_VOICES,
        ensures
            n == self.voices()[slot as int].note,
    {
        proof {
            use_type_invariant(self);
        }
        self.voices[slot].note
    }

    /// Triggers a new note and returns the slot it took: the first silent
    /// voice, or, when all are sounding, the oldest one, which is stolen.
    /// `attack_samples` and `release_cap_samples` are the attack length and
    /// the longest release the sample rate allows.
    pub fn note_on(
        &mut self,
        note: u8,
        duration_samples: u32,
        attack_samples: u32,
        release_cap_samples: u32,
    ) -> (slot: usize)
        ensures
            slot < MAX_VOICES,
            is_slot_for_new_note(old(self).voices(), slot as int),
            final(self).voices() == old(self).voices().update(
                slot as int,
                triggered(
                    note,
                    duration_samples,
                    attack_samples,
                    release_cap_samples,
                    old(self).next_stamp(),
                ),
            ),
            final(self).next_stamp() == stamp_after(old(self).next_stamp()),
            pool_wf(old(self).voices(), old(self).next_stamp()),
            pool_wf(final(self).voices(), final(self).next_stamp()),
    {
        proof {
            use_type_invariant(&*self);
        }
        let n = self.voices.len();
        let mut idx: usize = 0;
        while idx < n && self.voices[idx].active
            invariant
                n == self.voices@.len() == MAX_VOICES,
                idx <= n,
                forall|j: int| 0 <= j < idx ==> self.voices@[j].active,
            decreases n - idx,
        {
            idx = idx + 1;
        }
        let slot = if idx < n {
            idx
        } else {
            // every voice sounds: find the oldest
            let mut best: usize = 0;
            let mut k: usize = 1;
            while k < n
                invariant
                    n == self.voices@.len() == MAX_VOICES,
                    1 <= k <= n,
                    best < k,
                    forall|j: int| 0 <= j < k ==> self.voices@[best as int].started <= #[trigger] self.voices@[j].started,
                    forall|j: int| 0 <= j < best ==> self.voices@[best as int].started < #[trigger] self.voices@[j].started,
                decreases n - k,
            {
                if self.voices[k].started < self.voices[best].started {
                    best = k;
                }
                k = k + 1;
            }
            best
        };
        let d = if duration_samples >= MIN_DURATION_SAMPLES {
            duration_samples
        } else {
            MIN_DURATION_SAMPLES
        };
        let fifth = d / 5;
        let capped = if release_cap_samples <= fifth {
            release_cap_samples
        } else {
            fifth
        };
        let release = if capped >= 1 {
            capped
        } else {
            1
        };
        let stamp = self.next_stamp;
        let v = Voice {
            active: true,
            note,
            elapsed: 0,
            duration_samples: d,
            attack_samples,
            release_samples: release,
            started: stamp,
        };
        assert(v == triggered(note, duration_samples, attack_samples, release_cap_samples, stamp));
        let mut voices: Vec<Voice> = Vec::new();
        let mut i: usize = 0;
        while i < n
            invariant
                n == self.voices@.len() == MAX_VOICES,
                slot < n,
                i <= n,
                voices@ =~= self.voices@.update(slot as int, v).take(i as int),
            decreases n - i,
        {
            if i == slot {
                voices.push(v);
            } else {
                voices.push(self.voices[i]);
            }
            i = i + 1;
        }
        assert(voices@ =~= self.voices@.update(slot as int, v));
        let next = if stamp < u64::MAX {
            stamp + 1
        } else {
            stamp
        };
        *self = VoiceManager { voices, next_stamp: next };
        slot
    }

    /// Advances every sounding voice by one sample and returns, slot by slot,
    /// the envelope stage each sounding voice had at that sample (`None` for a
    /// silent slot).
    pub fn process_sample(&mut self) -> (out: Vec<Option<EnvelopeStage>>)
        ensures
            out@ == outputs_of(old(self).voices()),
            final(self).voices() == old(self).voices().map_values(|v: Voice| advanced(v)),
            final(self).next_stamp() == old(self).next_stamp(),
            pool_wf(old(self).voices(), old(self).next_stamp()),
            pool_wf(final(self).voices(), final(self).next_stamp()),
    {
        proof {
            use_type_invariant(&*self);
        }
        let n = self.voices.len();
        let mut out: Vec<Option<EnvelopeStage>> = Vec::new();
        let mut voices: Vec<Voice> = Vec::new();
        let mut i: usize = 0;
        while i < n
            invariant
                n == self.voices@.len() == MAX_VOICES,
                i <= n,
                out@.len() == i,
                voices@.len() == i,
                forall|j: int| 0 <= j < n ==> voice_wf(#[trigger] self.voices@[j]),
                forall|j: int| 0 <= j < i ==> out@[j] == output_of(#[trigger] self.voices@[j]),
                forall|j: int| 0 <= j < i ==> voices@[j] == advanced(#[trigger] self.voices@[j]),
            decreases n - i,
        {
            let v = self.voices[i];
            if v.active {
                let stage = if v.elapsed < v.attack_samples {
                    EnvelopeStage::Attack { elapsed: v.elapsed, attack_samples: v.attack_samples }
                } else {
                    let start = if v.duration_samples >= v.release_samples {
                        v.duration_samples - v.release_samples
                    } else {
                        0
                    };
                    if v.elapsed >= start {
                        EnvelopeStage::Release {
                            position: v.elapsed - start,
                            release_samples: v.release_samples,
                        }
                    } else {
                        EnvelopeStage::Sustain
                    }
                };
                out.push(Some(stage));
                voices.push(
                    Voice { elapsed: v.elapsed + 1, active: v.elapsed + 1 < v.duration_samples, ..v },
                );
            } else {
                out.push(None);
                voices.push(v);
            }
            i = i + 1;
        }
        assert(out@ =~= self.voices@.map_values(|v: Voice| output_of(v)));
        assert(voices@ =~= self.voices@.map_values(|v: Voice| advanced(v)));
        let next = self.next_stamp;
        *self = VoiceManager { voices, next_stamp: next };
        out
    }

    /// Silences every voice at once (transport stop or reset); nothing else
    /// about the voices changes.
    pub fn reset(&mut self)
        ensures
            final(self).voices() == silenced(old(self).voices()),
            final(self).next_stamp() == old(self).next_stamp(),
            pool_wf(final(self).voices(), final(self).next_stamp()),
    {
        proof {
            use_type_invariant(&*self);
        }
        let n = self.voices.len();
        let mut voices: Vec<Voice> = Vec::new();
        let mut i: usize = 0;
        while i < n
            invariant
                n == self.voices@.len() == MAX_VOICES,
                i <= n,
                voices@.len() == i,
                forall|j: int| 0 <= j < i ==> voices@[j] == (Voice { active: false, ..self.voices@[j] }),
            decreases n - i,
        {
            let v = self.voices[i];
            voices.push(Voice { active: false, ..v });
            i = i + 1;
        }
        assert(voices@ =~= self.voices@.map_values(|v: Voice| Voice { active: false, ..v }));
        let next = self.next_stamp;
        *self = VoiceManager { voices, next_stamp: next };
    }
}

/// When every voice sounds, a new note replaces the one triggered earliest:
/// all other sounding voices were triggered later than the stolen one, and the
/// new note is stamped after every voice that keeps sounding.
pub proof fn lemma_steals_oldest(vs: Seq<Voice>, next_stamp: u64, slot: int)
    requires
        pool_wf(vs, next_stamp),
        next_stamp < u64::MAX,
        is_slot_for_new_note(vs, slot),
        forall|j: int| 0 <= j < vs.len() ==> #[trigger] vs[j].active,
    ensures
        forall|j: int| 0 <= j < vs.len() ==> vs[slot].started <= #[trigger] vs[j].started,
        forall|j: int| 0 <= j < vs.len() && j != slot ==> #[trigger] vs[j].started < next_stamp,
{
    assert forall|j: int| 0 <= j < vs.len() && j != slot implies #[trigger] vs[j].started < next_stamp by {
        assert(vs[j].active);
    }
}

/// Voices `k` samples later, slot by slot: what `k` calls of
/// `process_sample` leave.
pub open spec fn pool_advanced_by(vs: Seq<Voice>, k: nat) -> Seq<Voice> {
    vs.map_values(|v: Voice| advanced_by(v, k))
}

/// One more `process_sample` call after `k` of them is `k + 1` of them; once
/// every voice's remaining duration is used up, every voice is silent.
pub proof fn lemma_pool_advanced_by(vs: Seq<Voice>, next_stamp: u64, k: nat)
    requires
        pool_wf(vs, next_stamp),
    ensures
        pool_advanced_by(vs, k).map_values(|v: Voice| advanced(v)) == pool_advanced_by(vs, k + 1),
        (forall|j: int| 0 <= j < vs.len() ==> #[trigger] vs[j].duration_samples <= vs[j].elapsed + k)
            ==> forall|j: int| 0 <= j < vs.len() ==> !(#[trigger] pool_advanced_by(vs, k)[j]).active,
{
    let p = pool_advanced_by(vs, k);
    let q = p.map_values(|v: Voice| advanced(v));
    assert forall|j: int| 0 <= j < vs.len() implies #[trigger] q[j] == pool_advanced_by(vs, k + 1)[j] by {
        lemma_voice_lifetime(vs[j], k);
    }
    assert(q =~= pool_advanced_by(vs, k + 1));
    assert forall|j: int| 0 <= j < vs.len() && vs[j].duration_samples <= vs[j].elapsed + k implies !(
    #[trigger] pool_advanced_by(vs, k)[j]).active by {
        lemma_voice_lifetime(vs[j], k);
    }
}

/// What a trigger sets up: the note sounds from sample 0 for its requested
/// duration, raised to `MIN_DURATION_SAMPLES` when shorter; the release ramp is
/// the smaller of the cap and a fifth of that duration, and one sample when
/// the cap is zero.
pub proof fn lemma_trigger_envelope(note: u8, duration: u32, attack: u32, release_cap: u32, started: u64)
    ensures
        ({
            let v = triggered(note, duration, attack, release_cap, started);
            &&& v.active && v.note == note && v.elapsed == 0 && v.attack_samples == attack
                && v.started == started
            &&& duration >= MIN_DURATION_SAMPLES ==> v.duration_samples == duration
            &&& duration < MIN_DURATION_SAMPLES ==> v.duration_samples == MIN_DURATION_SAMPLES
            &&& 1 <= v.release_samples <= v.duration_samples / 5
            &&& release_cap >= 1 ==> v.release_samples <= release_cap
            &&& release_cap >= 1 ==> (v.release_samples == release_cap || v.release_samples
                == v.duration_samples / 5)
            &&& release_cap == 0 ==> v.release_samples == 1
            &&& 1 <= release_cap <= v.duration_samples / 5 ==> v.release_samples == release_cap
            &&& voice_wf(v)
        }),
{
}

/// The envelope timeline of a sounding voice whose release fits in its
/// duration: attack for the first `attack_samples` samples, then sustain, then
/// the release over the last `release_samples` samples, counted from 0.
pub proof fn lemma_stage_timeline(v: Voice)
    requires
        v.active,
        voice_wf(v),
        v.release_samples <= v.duration_samples,
    ensures
        v.elapsed < v.attack_samples ==> stage_of(v) == (EnvelopeStage::Attack {
            elapsed: v.elapsed,
            attack_samples: v.attack_samples,
        }),
        v.attack_samples <= v.elapsed && v.elapsed + v.release_samples < v.duration_samples
            ==> stage_of(v) == EnvelopeStage::Sustain,
        v.attack_samples <= v.elapsed && v.elapsed + v.release_samples >= v.duration_samples
            ==> stage_of(v) == (EnvelopeStage::Release {
            position: (v.elapsed + v.release_samples - v.duration_samples) as u32,
            release_samples: v.release_samples,
        }),
{
}

/// A new note never steals while a voice is silent, takes the first silent
/// voice, and when all sound takes one triggered no later than any other.
pub proof fn lemma_slot_choice(vs: Seq<Voice>, slot: int)
    requires
        is_slot_for_new_note(vs, slot),
    ensures
        (exists|j: int| 0 <= j < vs.len() && !vs[j].active) ==> !vs[slot].active && forall|j: int|
            0 <= j < slot ==> #[trigger] vs[j].active,
        vs[slot].active ==> forall|j: int|
            0 <= j < vs.len() ==> #[trigger] vs[j].active && vs[slot].started <= vs[j].started,
{
}

/// What one `process_sample` call reports, slot by slot.
pub open spec fn outputs_of(vs: Seq<Voice>) -> Seq<Option<EnvelopeStage>> {
    vs.map_values(|v: Voice| output_of(v))
}

/// The voices after `reset`.
pub open spec fn silenced(vs: Seq<Voice>) -> Seq<Voice> {
    vs.map_values(|v: Voice| Voice { active: false, ..v })
}

/// Each sample reports exactly the sounding voices, each with its current
/// stage; a reset leaves no voice sounding and keeps everything else.
pub proof fn lemma_sample_output(vs: Seq<Voice>)
    ensures
        outputs_of(vs).len() == vs.len(),
        forall|j: int| 0 <= j < vs.len() ==> ((#[trigger] outputs_of(vs)[j]).is_some() <==> vs[j].active),
        forall|j: int|
            0 <= j < vs.len() && vs[j].active ==> #[trigger] outputs_of(vs)[j] == Some(stage_of(vs[j])),
        silenced(vs).len() == vs.len(),
        forall|j: int| 0 <= j < vs.len() ==> !(#[trigger] silenced(vs)[j]).active,
        forall|j: int|
            0 <= j < vs.len() ==> (#[trigger] silenced(vs)[j]).note == vs[j].note
                && silenced(vs)[j].elapsed == vs[j].elapsed && silenced(vs)[j].started == vs[j].started,
{
}

} // verus!
