//! Strudel sound names: the instrument family a name stands for, its General
//! MIDI percussion note and the characteristic frequency of the built-in synth.
use vstd::prelude::*;

verus! {

/// The part of a sound name before its first `:` (a sample-bank index such as
/// `bd:3` selects the same instrument as `bd`); the whole name if it has none.
pub open spec fn sound_base(s: Seq<char>) -> Seq<char>
    decreases s.len(),
{
    if s.len() == 0 {
        s
    } else if s[0] == ':' {
        Seq::empty()
    } else {
        seq![s[0]] + sound_base(s.drop_first())
    }
}

/// No `:` occurs in `s`.
pub open spec fn colon_free(s: Seq<char>) -> bool {
    forall|j: int| 0 <= j < s.len() ==> s[j] != ':'
}

/// Instrument families that the sound tables know.
#[derive(Clone, Copy, Debug, PartialEq, Eq, Structural)]
pub enum SoundFamily {
    BassDrum,
    Snare,
    ClosedHat,
    OpenHat,
    Clap,
    Rim,
    MidTom,
    HighTom,
    LowTom,
    Cowbell,
    Clave,
    Cymbal,
    Ride,
    Other,
}

/// The family that a base sound name (without bank index) names.
pub open spec fn family_of_base(b: Seq<char>) -> SoundFamily {
    if b == seq!['b', 'd'] || b == seq!['k', 'i', 'c', 'k'] || b == seq![
        'b',
        'a',
        's',
        's',
        'd',
        'r',
        'u',
        'm',
    ] {
        SoundFamily::BassDrum
    } else if b == seq!['s', 'd'] || b == seq!['s', 'n'] || b == seq!['s', 'n', 'a', 'r', 'e'] {
        SoundFamily::Snare
    } else if b == seq!['h', 'h'] || b == seq!['c', 'h'] {
        SoundFamily::ClosedHat
    } else if b == seq!['o', 'h'] {
        SoundFamily::OpenHat
    } else if b == seq!['c', 'p'] || b == seq!['c', 'l', 'a', 'p'] {
        SoundFamily::Clap
    } else if b == seq!['r', 'i', 'm'] || b == seq!['r', 's'] {
        SoundFamily::Rim
    } else if b == seq!['m', 't'] {
        SoundFamily::MidTom
    } else if b == seq!['h', 't'] {
        SoundFamily::HighTom
    } else if b == seq!['l', 't'] {
        SoundFamily::LowTom
    } else if b == seq!['c', 'o', 'w', 'b', 'e', 'l', 'l'] || b == seq!['c', 'b'] {
        SoundFamily::Cowbell
    } else if b == seq!['c', 'l', 'a', 'v', 'e'] || b == seq!['c', 'l'] {
        SoundFamily::Clave
    } else if b == seq!['c', 'y', 'm', 'b', 'a', 'l'] || b == seq!['c', 'y'] {
        SoundFamily::Cymbal
    } else if b == seq!['r', 'i', 'd', 'e'] || b == seq!['r', 'c'] {
        SoundFamily::Ride
    } else {
        SoundFamily::Other
    }
}

/// The family of a full sound name such as `bd` or `sd:2`.
pub open spec fn family_of(s: Seq<char>) -> SoundFamily {
    family_of_base(sound_base(s))
}

/// General MIDI percussion note (channel 10) of a family; C4 for the rest.
pub open spec fn gm_note_of(f: SoundFamily) -> u8 {
    match f {
        SoundFamily::BassDrum => 36,
        SoundFamily::Snare => 38,
        SoundFamily::ClosedHat => 42,
        SoundFamily::OpenHat => 46,
        SoundFamily::Clap => 39,
        SoundFamily::Rim => 37,
        SoundFamily::MidTom => 47,
        SoundFamily::HighTom => 50,
        SoundFamily::LowTom => 45,
        SoundFamily::Cowbell => 56,
        SoundFamily::Clave => 75,
        SoundFamily::Cymbal => 49,
        SoundFamily::Ride => 51,
        SoundFamily::Other => 60,
    }
}

/// Characteristic frequency in Hz that the built-in synth plays for a family;
/// A4 (440 Hz) for families without a drum voice of their own.
pub open spec fn freq_hz_of(f: SoundFamily) -> u32 {
    match f {
        SoundFamily::BassDrum => 55,
        SoundFamily::Snare => 185,
        SoundFamily::ClosedHat => 8000,
        SoundFamily::OpenHat => 6000,
        SoundFamily::Clap => 900,
        SoundFamily::Rim => 400,
        SoundFamily::MidTom => 220,
        SoundFamily::HighTom => 330,
        SoundFamily::LowTom => 147,
        SoundFamily::Cowbell => 562,
        _ => 440,
    }
}

proof fn lemma_sound_base_colon_free_prefix(s: Seq<char>, i: int)
    requires
        0 <= i <= s.len(),
        colon_free(s.take(i)),
    ensures
        sound_base(s) == s.take(i) + sound_base(s.skip(i)),
    decreases i,
{
    if i > 0 {
        assert(s[0] == s.take(i)[0]);
        let t = s.drop_first();
        assert forall|j: int| 0 <= j < i - 1 implies #[trigger] t.take(i - 1)[j] != ':' by {
            assert(t.take(i - 1)[j] == s.take(i)[j + 1]);
        }
        lemma_sound_base_colon_free_prefix(t, i - 1);
        assert(t.skip(i - 1) =~= s.skip(i));
        assert(s.take(i) =~= seq![s[0]] + t.take(i - 1));
    } else {
        assert(s.take(0) =~= Seq::<char>::empty());
        assert(s.skip(0) =~= s);
    }
}

/// Compares a collected name with a literal spelled as characters.
fn chars_eq(a: &Vec<char>, b: &[char]) -> (r: bool)
    ensures
        r == (a@ == b@),
{
    if a.len() != b.len() {
        return false;
    }
    let mut i: usize = 0;
    while i < a.len()
        invariant
            a.len() == b.len(),
            i <= a.len(),
            forall|j: int| 0 <= j < i ==> a@[j] == b@[j],
        decreases a.len() - i,
    {
        if a[i] != b[i] {
            return false;
        }
        i = i + 1;
    }
    assert(a@ =~= b@);
    true
}

/// The part of `s` before its first `:`.
pub fn sound_base_of(s: &str) -> (r: Vec<char>)
    ensures
        r@ == sound_base(s@),
{
    let mut out: Vec<char> = Vec::new();
    let mut done = false;
    for c in it: s.chars()
        invariant
            it.seq() == s@,
            !done ==> out@ == s@.take(it.index()) && colon_free(out@),
            done ==> out@ == sound_base(s@),
    {
        if !done {
            proof {
                lemma_sound_base_colon_free_prefix(s@, it.index());
            }
            if c == ':' {
                assert(s@.skip(it.index())[0] == ':');
                done = true;
            } else {
                out.push(c);
                assert(out@ =~= s@.take(it.index() + 1));
            }
        }
    }
    if !done {
        proof {
            lemma_sound_base_colon_free_prefix(s@, s@.len() as int);
            assert(s@.skip(s@.len() as int) =~= Seq::<char>::empty());
            assert(s@.take(s@.len() as int) =~= s@);
        }
    }
    out
}

/// The instrument family that a Strudel sound name stands for.
pub fn sound_family(s: &str) -> (f: SoundFamily)
    ensures
        f == family_of(s@),
{
    let b = sound_base_of(s);
    if chars_eq(&b, &['b', 'd']) || chars_eq(&b, &['k', 'i', 'c', 'k']) || chars_eq(
        &b,
        &['b', 'a', 's', 's', 'd', 'r', 'u', 'm'],
    ) {
        SoundFamily::BassDrum
    } else if chars_eq(&b, &['s', 'd']) || chars_eq(&b, &['s', 'n']) || chars_eq(
        &b,
        &['s', 'n', 'a', 'r', 'e'],
    ) {
        SoundFamily::Snare
    } else if chars_eq(&b, &['h', 'h']) || chars_eq(&b, &['c', 'h']) {
        SoundFamily::ClosedHat
    } else if chars_eq(&b, &['o', 'h']) {
        SoundFamily::OpenHat
    } else if chars_eq(&b, &['c', 'p']) || chars_eq(&b, &['c', 'l', 'a', 'p']) {
        SoundFamily::Clap
    } else if chars_eq(&b, &['r', 'i', 'm']) || chars_eq(&b, &['r', 's']) {
        SoundFamily::Rim
    } else if chars_eq(&b, &['m', 't']) {
        SoundFamily::MidTom
    } else if chars_eq(&b, &['h', 't']) {
        SoundFamily::HighTom
    } else if chars_eq(&b, &['l', 't']) {
        SoundFamily::LowTom
    } else if chars_eq(&b, &['c', 'o', 'w', 'b', 'e', 'l', 'l']) || chars_eq(&b, &['c', 'b']) {
        SoundFamily::Cowbell
    } else if chars_eq(&b, &['c', 'l', 'a', 'v', 'e']) || chars_eq(&b, &['c', 'l']) {
        SoundFamily::Clave
    } else if chars_eq(&b, &['c', 'y', 'm', 'b', 'a', 'l']) || chars_eq(&b, &['c', 'y']) {
        SoundFamily::Cymbal
    } else if chars_eq(&b, &['r', 'i', 'd', 'e']) || chars_eq(&b, &['r', 'c']) {
        SoundFamily::Ride
    } else {
        SoundFamily::Other
    }
}

/// The General MIDI percussion note of a family.
pub fn gm_note(f: SoundFamily) -> (n: u8)
    ensures
        n == gm_note_of(f),
{
    match f {
        SoundFamily::BassDrum => 36,
        SoundFamily::Snare => 38,
        SoundFamily::ClosedHat => 42,
        SoundFamily::OpenHat => 46,
        SoundFamily::Clap => 39,
        SoundFamily::Rim => 37,
        SoundFamily::MidTom => 47,
        SoundFamily::HighTom => 50,
        SoundFamily::LowTom => 45,
        SoundFamily::Cowbell => 56,
        SoundFamily::Clave => 75,
        SoundFamily::Cymbal => 49,
        SoundFamily::Ride => 51,
        SoundFamily::Other => 60,
    }
}

/// The synth frequency in Hz of a family.
pub fn freq_hz(f: SoundFamily) -> (hz: u32)
    ensures
        hz == freq_hz_of(f),
{
    match f {
        SoundFamily::BassDrum => 55,
        SoundFamily::Snare => 185,
        SoundFamily::ClosedHat => 8000,
        SoundFamily::OpenHat => 6000,
        SoundFamily::Clap => 900,
        SoundFamily::Rim => 400,
        SoundFamily::MidTom => 220,
        SoundFamily::HighTom => 330,
        SoundFamily::LowTom => 147,
        SoundFamily::Cowbell => 562,
        _ => 440,
    }
}

/// Maps a Strudel sound name to a General MIDI percussion note (channel 10):
/// `bd`, `kick`, `bassdrum` give 36, `sd`, `sn`, `snare` give 38, and so on;
/// an unknown name gives 60 (C4). A bank index after `:` is ignored.
pub fn sound_to_gm_note(s: &str) -> (n: u8)
    ensures
        n == gm_note_of(family_of(s@)),
{
    gm_note(sound_family(s))
}

/// Maps a Strudel sound name to the characteristic frequency, in whole Hz,
/// that the built-in synth plays for it (55 Hz for a kick, 440 Hz by default).
pub fn sound_to_freq_hz(s: &str) -> (hz: u32)
    ensures
        hz == freq_hz_of(family_of(s@)),
{
    freq_hz(sound_family(s))
}

/// Where the note of an event comes from, by priority.
#[derive(Clone, Copy, Debug, PartialEq, Eq, Structural)]
pub enum NoteSource {
    /// The `note` field (an absolute MIDI note).
    NoteField,
    /// The `n` field, for an event without an `s` field: a semitone offset
    /// from `N_ORIGIN_NOTE` (C4).
    NField,
    /// The `s` field: the drum sound of this family.
    Sound(SoundFamily),
    /// None of them: `DEFAULT_NOTE` (C4) at `DEFAULT_FREQ_HZ`.
    Default,
}

/// The note that an `n` field counts semitones from (C4).
pub const N_ORIGIN_NOTE: u8 = 60;

/// MIDI note of an event that gives no note, `n` or sound (C4).
pub const DEFAULT_NOTE: u8 = 60;

/// Synth frequency, in Hz, of an event that gives no note, `n` or sound.
pub const DEFAULT_FREQ_HZ: u32 = 440;

/// The MIDI note and synth frequency (Hz) a source fixes by itself: a drum
/// sound's GM note and characteristic frequency, or the default C4 at 440 Hz.
/// The `note` and `n` fields carry numbers the host reads, so they fix none.
pub open spec fn fixed_note_of(src: NoteSource) -> Option<(u8, u32)> {
    match src {
        NoteSource::Sound(f) => Some((gm_note_of(f), freq_hz_of(f))),
        NoteSource::Default => Some((DEFAULT_NOTE, DEFAULT_FREQ_HZ)),
        _ => None,
    }
}

/// Priority of the note sources of an event: `note` first; then `n` when
/// there is no `s`; then the sound named by `s`; otherwise the default.
pub open spec fn note_source_of(has_note: bool, has_n: bool, sound: Option<Seq<char>>) -> NoteSource {
    if has_note {
        NoteSource::NoteField
    } else if sound.is_none() && has_n {
        NoteSource::NField
    } else if sound.is_some() {
        NoteSource::Sound(family_of(sound.unwrap()))
    } else {
        NoteSource::Default
    }
}

/// Picks the source of an event's note from which of its parameters hold a
/// number (`note`, `n`) and the string in its `s` parameter, if any.
pub fn note_source(has_note: bool, has_n: bool, sound: Option<&str>) -> (r: NoteSource)
    ensures
        r == note_source_of(
            has_note,
            has_n,
            match sound {
                Some(s) => Some(s@),
                None => None,
            },
        ),
{
    if has_note {
        return NoteSource::NoteField;
    }
    match sound {
        None => {
            if has_n {
                NoteSource::NField
            } else {
                NoteSource::Default
            }
        },
        Some(s) => NoteSource::Sound(sound_family(s)),
    }
}

/// The note and frequency that `src` fixes by itself, if any.
pub fn fixed_note(src: NoteSource) -> (r: Option<(u8, u32)>)
    ensures
        r == fixed_note_of(src),
{
    match src {
        NoteSource::Sound(f) => Some((gm_note(f), freq_hz(f))),
        NoteSource::Default => Some((DEFAULT_NOTE, DEFAULT_FREQ_HZ)),
        _ => None,
    }
}


/// The GM note and synth frequency a full sound name maps to.
pub open spec fn sound_notes(s: Seq<char>) -> (u8, u32) {
    (gm_note_of(family_of(s)), freq_hz_of(family_of(s)))
}

/// The sound tables, name by name: every alias of a drum gets its General
/// MIDI note and synth frequency; clave, cymbal and ride have a GM note but
/// the synth plays them at 440 Hz; any other name gets C4 (60) at 440 Hz.
/// Only the part before the first `:` counts.
pub proof fn lemma_sound_tables(s: Seq<char>)
    ensures
        sound_base(s) == seq!['b', 'd'] ==> sound_notes(s) == (36u8, 55u32),
        sound_base(s) == seq!['k', 'i', 'c', 'k'] ==> sound_notes(s) == (36u8, 55u32),
        sound_base(s) == seq!['b', 'a', 's', 's', 'd', 'r', 'u', 'm'] ==> sound_notes(s) == (36u8, 55u32),
        sound_base(s) == seq!['s', 'd'] ==> sound_notes(s) == (38u8, 185u32),
        sound_base(s) == seq!['s', 'n'] ==> sound_notes(s) == (38u8, 185u32),
        sound_base(s) == seq!['s', 'n', 'a', 'r', 'e'] ==> sound_notes(s) == (38u8, 185u32),
        sound_base(s) == seq!['h', 'h'] ==> sound_notes(s) == (42u8, 8000u32),
        sound_base(s) == seq!['c', 'h'] ==> sound_notes(s) == (42u8, 8000u32),
        sound_base(s) == seq!['o', 'h'] ==> sound_notes(s) == (46u8, 6000u32),
        sound_base(s) == seq!['c', 'p'] ==> sound_notes(s) == (39u8, 900u32),
        sound_base(s) == seq!['c', 'l', 'a', 'p'] ==> sound_notes(s) == (39u8, 900u32),
        sound_base(s) == seq!['r', 'i', 'm'] ==> sound_notes(s) == (37u8, 400u32),
        sound_base(s) == seq!['r', 's'] ==> sound_notes(s) == (37u8, 400u32),
        sound_base(s) == seq!['m', 't'] ==> sound_notes(s) == (47u8, 220u32),
        sound_base(s) == seq!['h', 't'] ==> sound_notes(s) == (50u8, 330u32),
        sound_base(s) == seq!['l', 't'] ==> sound_notes(s) == (45u8, 147u32),
        sound_base(s) == seq!['c', 'o', 'w', 'b', 'e', 'l', 'l'] ==> sound_notes(s) == (56u8, 562u32),
        sound_base(s) == seq!['c', 'b'] ==> sound_notes(s) == (56u8, 562u32),
        sound_base(s) == seq!['c', 'l', 'a', 'v', 'e'] ==> sound_notes(s) == (75u8, 440u32),
        sound_base(s) == seq!['c', 'l'] ==> sound_notes(s) == (75u8, 440u32),
        sound_base(s) == seq!['c', 'y', 'm', 'b', 'a', 'l'] ==> sound_notes(s) == (49u8, 440u32),
        sound_base(s) == seq!['c', 'y'] ==> sound_notes(s) == (49u8, 440u32),
        sound_base(s) == seq!['r', 'i', 'd', 'e'] ==> sound_notes(s) == (51u8, 440u32),
        sound_base(s) == seq!['r', 'c'] ==> sound_notes(s) == (51u8, 440u32),
        (sound_base(s) != seq!['b', 'd'] && sound_base(s) != seq!['k', 'i', 'c', 'k'] && sound_base(s) != seq!['b', 'a', 's', 's', 'd', 'r', 'u', 'm'] && sound_base(s) != seq!['s', 'd'] && sound_base(s) != seq!['s', 'n'] && sound_base(s) != seq!['s', 'n', 'a', 'r', 'e'] && sound_base(s) != seq!['h', 'h'] && sound_base(s) != seq!['c', 'h'] && sound_base(s) != seq!['o', 'h'] && sound_base(s) != seq!['c', 'p'] && sound_base(s) != seq!['c', 'l', 'a', 'p'] && sound_base(s) != seq!['r', 'i', 'm'] && sound_base(s) != seq!['r', 's'] && sound_base(s) != seq!['m', 't'] && sound_base(s) != seq!['h', 't'] && sound_base(s) != seq!['l', 't'] && sound_base(s) != seq!['c', 'o', 'w', 'b', 'e', 'l', 'l'] && sound_base(s) != seq!['c', 'b'] && sound_base(s) != seq!['c', 'l', 'a', 'v', 'e'] && sound_base(s) != seq!['c', 'l'] && sound_base(s) != seq!['c', 'y', 'm', 'b', 'a', 'l'] && sound_base(s) != seq!['c', 'y'] && sound_base(s) != seq!['r', 'i', 'd', 'e'] && sound_base(s) != seq!['r', 'c']) ==> sound_notes(s) == (60u8, 440u32),
{
    let b = sound_base(s);
    if b == seq!['c', 'l'] {
        assert(seq!['c', 'l', 'a', 'p'].len() == 4);
        assert(b != seq!['c', 'l', 'a', 'p']);
        assert(b != seq!['c', 'p']);
        assert(b != seq!['c', 'h']);
        assert(b != seq!['c', 'b']);
        assert(b != seq!['c', 'o', 'w', 'b', 'e', 'l', 'l']);
        assert(family_of_base(b) == SoundFamily::Clave);
    }
}

/// Only the ten drum families of the synth table have a frequency of their
/// own; every other family plays at 440 Hz, and every family's GM note lies in
/// the General MIDI percussion range or is the C4 default.
pub proof fn lemma_family_frequencies(f: SoundFamily)
    ensures
        (f == SoundFamily::Clave || f == SoundFamily::Cymbal || f == SoundFamily::Ride || f
            == SoundFamily::Other) <==> freq_hz_of(f) == 440,
        35 <= gm_note_of(f) <= 81,
        gm_note_of(f) == 60 <==> f == SoundFamily::Other,
{
}

/// A bank index after `:` never changes the family: `name:anything` maps like
/// `name` whenever `name` holds no `:`.
pub proof fn lemma_bank_index_ignored(name: Seq<char>, rest: Seq<char>)
    requires
        colon_free(name),
    ensures
        sound_base(name + seq![':'] + rest) == name,
        sound_base(name) == name,
        family_of(name + seq![':'] + rest) == family_of(name),
{
    let full = name + seq![':'] + rest;
    assert(full.take(name.len() as int) =~= name);
    lemma_sound_base_colon_free_prefix(full, name.len() as int);
    assert(full.skip(name.len() as int)[0] == ':');
    assert(name.take(name.len() as int) =~= name);
    lemma_sound_base_colon_free_prefix(name, name.len() as int);
    assert(name.skip(name.len() as int) =~= Seq::<char>::empty());
    assert(sound_base(full.skip(name.len() as int)) == Seq::<char>::empty());
    assert(full.take(name.len() as int) + Seq::<char>::empty() =~= name);
    assert(name + Seq::<char>::empty() =~= name);
}

/// Note-source priority: a `note` field always wins; without it, `n` wins
/// only when there is no `s`; otherwise `s` gives the drum of its family; an
/// event with none of them uses the default.
pub proof fn lemma_note_priority(has_note: bool, has_n: bool, sound: Option<Seq<char>>)
    ensures
        has_note ==> note_source_of(has_note, has_n, sound) == NoteSource::NoteField,
        !has_note && sound.is_none() && has_n ==> note_source_of(has_note, has_n, sound)
            == NoteSource::NField,
        !has_note && sound.is_some() ==> note_source_of(has_note, has_n, sound) == NoteSource::Sound(
            family_of(sound.unwrap()),
        ),
        !has_note && sound.is_none() && !has_n ==> note_source_of(has_note, has_n, sound)
            == NoteSource::Default,
        note_source_of(has_note, has_n, sound) == NoteSource::NoteField <==> has_note,
{
}

/// The default note is C4 at 440 Hz; a drum fixes its own note and
/// frequency; the `note` and `n` fields fix nothing by themselves.
pub proof fn lemma_fixed_notes(src: NoteSource)
    ensures
        src == NoteSource::Default ==> fixed_note_of(src) == Some((60u8, 440u32)),
        (src == NoteSource::NoteField || src == NoteSource::NField) <==> fixed_note_of(src).is_none(),
        src matches NoteSource::Sound(f) ==> fixed_note_of(src) == Some(
            (gm_note_of(f), freq_hz_of(f)),
        ),
{
}

} // verus!
