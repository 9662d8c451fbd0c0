use strudel_clap_plugin::sound::{
    fixed_note, freq_hz, gm_note, note_source, sound_family, sound_to_freq_hz, sound_to_gm_note,
    NoteSource, SoundFamily, DEFAULT_FREQ_HZ, DEFAULT_NOTE,
};
use strudel_clap_plugin::voice::{EnvelopeStage, VoiceManager, MAX_VOICES};

fn attack_for(sample_rate: f32) -> u32 {
    (0.005 * sample_rate) as u32
}

fn release_cap_for(sample_rate: f32) -> u32 {
    (0.05 * sample_rate) as u32
}

#[test]
fn test_voice_manager_basic() {
    let mut vm = VoiceManager::new();
    vm.note_on(60, 4410, attack_for(44100.0), release_cap_for(44100.0));
    let s = vm.process_sample();
    assert_eq!(s.len(), MAX_VOICES);
    assert_eq!(
        s[0],
        Some(EnvelopeStage::Attack { elapsed: 0, attack_samples: 220 })
    );
    assert!(s[1..].iter().all(|o| o.is_none()));
}

#[test]
fn test_voice_silences_after_duration() {
    let mut vm = VoiceManager::new();
    let duration = 100u32;
    vm.note_on(60, duration, attack_for(44100.0), release_cap_for(44100.0));
    for _ in 0..duration + 10 {
        vm.process_sample();
    }
    let s = vm.process_sample();
    assert!(s.iter().all(|o| o.is_none()));
}

#[test]
fn voice_sounds_exactly_its_duration() {
    let mut vm = VoiceManager::new();
    vm.note_on(60, 100, 0, 20);
    for _ in 0..100 {
        assert!(vm.process_sample()[0].is_some());
    }
    assert!(vm.process_sample()[0].is_none());
}

#[test]
fn short_notes_last_the_minimum_duration() {
    let mut vm = VoiceManager::new();
    vm.note_on(60, 10, 0, 100);
    let mut sounding = 0;
    while vm.process_sample()[0].is_some() {
        sounding += 1;
    }
    assert_eq!(sounding, 64);
}

#[test]
fn envelope_goes_attack_sustain_release() {
    let mut vm = VoiceManager::new();
    // duration 100, attack 10, release min(50, 100 / 5) = 20
    vm.note_on(64, 100, 10, 50);
    let mut stages = Vec::new();
    for _ in 0..100 {
        stages.push(vm.process_sample()[0].unwrap());
    }
    assert_eq!(stages[0], EnvelopeStage::Attack { elapsed: 0, attack_samples: 10 });
    assert_eq!(stages[9], EnvelopeStage::Attack { elapsed: 9, attack_samples: 10 });
    assert_eq!(stages[10], EnvelopeStage::Sustain);
    assert_eq!(stages[79], EnvelopeStage::Sustain);
    assert_eq!(stages[80], EnvelopeStage::Release { position: 0, release_samples: 20 });
    assert_eq!(stages[99], EnvelopeStage::Release { position: 19, release_samples: 20 });
}

#[test]
fn release_is_at_least_one_sample() {
    let mut vm = VoiceManager::new();
    vm.note_on(64, 100, 0, 0);
    for _ in 0..99 {
        vm.process_sample();
    }
    assert_eq!(
        vm.process_sample()[0],
        Some(EnvelopeStage::Release { position: 0, release_samples: 1 })
    );
}

#[test]
fn note_on_prefers_free_voice_then_steals_oldest() {
    let mut vm = VoiceManager::new();
    for i in 0..MAX_VOICES {
        assert_eq!(vm.note_on(i as u8, 1_000_000, 0, 10), i);
    }
    // all busy: note 0 (slot 0) is the oldest
    assert_eq!(vm.note_on(16, 1_000_000, 0, 10), 0);
    // now note 1 (slot 1) is the oldest
    assert_eq!(vm.note_on(17, 1_000_000, 0, 10), 1);
    assert_eq!(vm.note_at(0), 16);
    assert_eq!(vm.note_at(1), 17);
    for slot in 2..MAX_VOICES {
        assert!(vm.is_active(slot));
        assert_eq!(vm.note_at(slot), slot as u8);
    }
    assert_eq!(vm.note_on(18, 1_000_000, 0, 10), 2);
    vm.process_sample();
    vm.reset();
    assert!(!vm.is_active(3));
    assert_eq!(vm.note_on(62, 1000, 0, 10), 0);
    assert_eq!(vm.note_on(62, 1000, 0, 10), 1);
}

#[test]
fn freed_voice_is_reused_before_stealing() {
    let mut vm = VoiceManager::new();
    vm.note_on(1, 64, 0, 10);
    for i in 1..MAX_VOICES {
        vm.note_on(i as u8 + 1, 1000, 0, 10);
    }
    for _ in 0..64 {
        vm.process_sample();
    }
    assert!(!vm.is_active(0));
    assert_eq!(vm.note_on(99, 1000, 0, 10), 0);
    // slot 1 now holds the oldest sounding note
    assert_eq!(vm.note_on(100, 1000, 0, 10), 1);
}

#[test]
fn reset_silences_all_voices() {
    let mut vm = VoiceManager::new();
    vm.note_on(60, 1000, 0, 10);
    vm.note_on(62, 1000, 0, 10);
    vm.reset();
    assert!(vm.process_sample().iter().all(|o| o.is_none()));
}

#[test]
fn gm_notes_of_drum_names() {
    assert_eq!(sound_to_gm_note("bd"), 36);
    assert_eq!(sound_to_gm_note("kick"), 36);
    assert_eq!(sound_to_gm_note("bassdrum"), 36);
    assert_eq!(sound_to_gm_note("sd"), 38);
    assert_eq!(sound_to_gm_note("snare"), 38);
    assert_eq!(sound_to_gm_note("hh"), 42);
    assert_eq!(sound_to_gm_note("oh"), 46);
    assert_eq!(sound_to_gm_note("clap"), 39);
    assert_eq!(sound_to_gm_note("rs"), 37);
    assert_eq!(sound_to_gm_note("mt"), 47);
    assert_eq!(sound_to_gm_note("ht"), 50);
    assert_eq!(sound_to_gm_note("lt"), 45);
    assert_eq!(sound_to_gm_note("cb"), 56);
    assert_eq!(sound_to_gm_note("clave"), 75);
    assert_eq!(sound_to_gm_note("cy"), 49);
    assert_eq!(sound_to_gm_note("ride"), 51);
    assert_eq!(sound_to_gm_note("piano"), 60);
    assert_eq!(sound_to_gm_note(""), 60);
}

#[test]
fn bank_index_after_colon_is_ignored() {
    assert_eq!(sound_to_gm_note("bd:3"), 36);
    assert_eq!(sound_to_gm_note("sd:1:2"), 38);
    assert_eq!(sound_to_gm_note(":bd"), 60);
    assert_eq!(sound_to_gm_note("bdx:0"), 60);
    assert_eq!(sound_to_freq_hz("hh:7"), 8000);
}

#[test]
fn synth_frequencies_of_drum_names() {
    assert_eq!(sound_to_freq_hz("bd"), 55);
    assert_eq!(sound_to_freq_hz("sn"), 185);
    assert_eq!(sound_to_freq_hz("ch"), 8000);
    assert_eq!(sound_to_freq_hz("oh"), 6000);
    assert_eq!(sound_to_freq_hz("cp"), 900);
    assert_eq!(sound_to_freq_hz("rim"), 400);
    assert_eq!(sound_to_freq_hz("mt"), 220);
    assert_eq!(sound_to_freq_hz("ht"), 330);
    assert_eq!(sound_to_freq_hz("lt"), 147);
    assert_eq!(sound_to_freq_hz("cowbell"), 562);
    assert_eq!(sound_to_freq_hz("ride"), 440);
    assert_eq!(sound_to_freq_hz("superpiano"), 440);
    assert_eq!(freq_hz(SoundFamily::Clave), 440);
    assert_eq!(gm_note(SoundFamily::Other), 60);
    assert_eq!(sound_family("kick"), SoundFamily::BassDrum);
    assert_eq!(sound_family("snäre"), SoundFamily::Other);
}

#[test]
fn note_source_priority() {
    assert_eq!(note_source(true, true, Some("bd")), NoteSource::NoteField);
    assert_eq!(note_source(false, true, None), NoteSource::NField);
    assert_eq!(
        note_source(false, true, Some("bd")),
        NoteSource::Sound(SoundFamily::BassDrum)
    );
    assert_eq!(
        note_source(false, false, Some("sd:2")),
        NoteSource::Sound(SoundFamily::Snare)
    );
    assert_eq!(note_source(false, false, None), NoteSource::Default);
}

#[test]
fn drum_event_maps_to_bass_drum_note() {
    match note_source(false, false, Some("bd")) {
        NoteSource::Sound(f) => {
            assert_eq!(gm_note(f), 36);
            assert!(freq_hz(f) > 0);
        }
        other => panic!("unexpected source {:?}", other),
    }
}

#[test]
fn fixed_notes_of_sources() {
    assert_eq!(fixed_note(NoteSource::Default), Some((60, 440)));
    assert_eq!((DEFAULT_NOTE, DEFAULT_FREQ_HZ), (60, 440));
    assert_eq!(fixed_note(NoteSource::Sound(SoundFamily::BassDrum)), Some((36, 55)));
    assert_eq!(fixed_note(NoteSource::Sound(SoundFamily::Ride)), Some((51, 440)));
    assert_eq!(fixed_note(NoteSource::NoteField), None);
    assert_eq!(fixed_note(NoteSource::NField), None);
}
