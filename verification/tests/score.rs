use boomie::{
    Arrangement, Cache, Fixed, FilterType, InstrumentSource, LoopPoint, MelodyTrack, Note,
    SampleData, SequenceElement, SynthError, WaveformType,
};

fn no_samples() -> Cache<SampleData> {
    Cache::new()
}

fn fx(micros: i64) -> Fixed {
    Fixed { micros }
}

fn melody(text: &str) -> MelodyTrack {
    MelodyTrack::from_mel(text, &no_samples()).unwrap()
}

fn note_at(track: &MelodyTrack, i: usize) -> Note {
    match &track.sequence[i] {
        SequenceElement::Note(n) => *n,
        other => panic!("no note: {:?}", other),
    }
}

#[test]
fn empty_score_gives_the_default_melody() {
    let t = melody("");
    assert_eq!(t.name, "melody");
    assert_eq!(t.tempo, fx(120_000_000));
    assert_eq!(t.length, fx(0));
    assert_eq!(t.loop_point, None);
    assert_eq!(t.time_signature, (4, 4));
    assert_eq!(t.swing, fx(0));
    assert!(t.sequence.is_empty());
    assert_eq!(t.instrument.name, "Boomie");
    assert!(matches!(t.instrument.source, InstrumentSource::Synthesized(WaveformType::Sine)));
    assert_eq!(t.instrument.attack, fx(10_000));
    assert_eq!(t.instrument.decay, fx(100_000));
    assert_eq!(t.instrument.sustain, fx(800_000));
    assert_eq!(t.instrument.release, fx(200_000));
    assert_eq!(t.instrument.volume, fx(500_000));
    assert_eq!(t.instrument.pitch, fx(1_000_000));
    assert_eq!(t.instrument.pan, fx(0));
    assert_eq!(t.instrument.detune, fx(0));
    assert!(!t.instrument.effects.has_any());
}

#[test]
fn single_sine_tone_score() {
    let t = melody(
        "name: tone\nwaveform: sine\ntempo: 60\nattack: 0\ndecay: 0\nsustain: 1\nrelease: 0\n\
         volume: 1\nnote: A4, 1.0, 1.0\n",
    );
    assert_eq!(t.name, "tone");
    assert_eq!(t.tempo, fx(60_000_000));
    assert_eq!(t.instrument.volume, fx(1_000_000));
    assert_eq!(t.instrument.sustain, fx(1_000_000));
    assert_eq!(t.sequence.len(), 1);
    assert_eq!(
        note_at(&t, 0),
        Note {
            pitch: fx(440_000_000),
            duration: fx(1_000_000),
            velocity: fx(1_000_000),
            pan: None,
            slide_to: None
        }
    );
    assert_eq!(t.length, fx(1_000_000));
}

#[test]
fn comments_blank_lines_and_unknown_keys_are_passed_over() {
    let t = melody("// a comment\n\n   \r\n  // indented\nunknown: 5\nnonsense\ntempo: 90\r\n");
    assert_eq!(t.tempo, fx(90_000_000));
    assert!(t.sequence.is_empty());
}

#[test]
fn keys_are_case_sensitive_and_start_the_line() {
    let t = melody("Tempo: 90\nx tempo: 80\n tempo:70 \n");
    assert_eq!(t.tempo, fx(70_000_000));
}

#[test]
fn notes_chords_and_rests_add_up() {
    let t = melody("note: C4, 1, 0.8\nrest: 0.5\nchord: C4+E4+G4, 2, 0.9\nnote: D4,0.25,1\n");
    assert_eq!(t.sequence.len(), 4);
    assert!(matches!(t.sequence[1], SequenceElement::Rest(d) if d == fx(500_000)));
    match &t.sequence[2] {
        SequenceElement::Chord(c) => {
            assert_eq!(c.pitches, vec![fx(261_600_000), fx(329_600_000), fx(392_000_000)]);
            assert_eq!(c.duration, fx(2_000_000));
            assert_eq!(c.velocity, fx(900_000));
        }
        other => panic!("no chord: {:?}", other),
    }
    assert_eq!(t.length, fx(3_750_000));
    assert_eq!(t.sequence[0].beats(), fx(1_000_000));
}

#[test]
fn note_options_pan_and_slide() {
    let t = melody("note: C4, 1, 1, pan=-0.5, slide = G4\nnote: C4, 1, 1, pan=left, other=3, x\n");
    assert_eq!(note_at(&t, 0).pan, Some(fx(-500_000)));
    assert_eq!(note_at(&t, 0).slide_to, Some(fx(392_000_000)));
    assert_eq!(note_at(&t, 1).pan, None);
    assert_eq!(note_at(&t, 1).slide_to, None);
}

#[test]
fn velocity_may_be_followed_by_a_comment() {
    let t = melody("note: A4, 1, 0.5 // soft\nchord: A4+C5, 1, 0.25// softer\n");
    assert_eq!(note_at(&t, 0).velocity, fx(500_000));
    match &t.sequence[1] {
        SequenceElement::Chord(c) => assert_eq!(c.velocity, fx(250_000)),
        other => panic!("no chord: {:?}", other),
    }
}

#[test]
fn lines_with_too_few_fields_do_nothing() {
    let t = melody("note: A4, 1\nchord: A4+C5\nloop: 1\ntime_sig: 3\nfilter: lp, 500\nreverb: 1,2,3\ndelay: 1,2\ndistortion: 1\n");
    assert!(t.sequence.is_empty());
    assert_eq!(t.loop_point, None);
    assert_eq!(t.time_signature, (4, 4));
    assert!(!t.instrument.effects.has_any());
}

#[test]
fn loop_and_time_signature() {
    let t = melody("note: A4, 2, 1\nloop: 0.5, x\ntime_sig: 3/8\n");
    assert_eq!(t.loop_point, Some(LoopPoint { start: fx(500_000), end: fx(2_000_000) }));
    assert_eq!(t.time_signature, (3, 8));
    let u = melody("loop: -, 4\ntime_sig: x / -2\n");
    assert_eq!(u.loop_point, Some(LoopPoint { start: fx(0), end: fx(4_000_000) }));
    assert_eq!(u.time_signature, (4, 4));
}

#[test]
fn effects_take_usual_values_for_bad_numbers() {
    let t = melody("filter: HighPass, x, 2\nreverb: 0.9, y, 0.1, z\ndelay: a, b, c\ndistortion: 3, 0.2, 0.1\n");
    let e = t.instrument.effects;
    let f = e.filter.unwrap();
    assert_eq!(f.filter_type, FilterType::HighPass);
    assert_eq!(f.cutoff, fx(1_000_000_000));
    assert_eq!(f.resonance, fx(2_000_000));
    let r = e.reverb.unwrap();
    assert_eq!((r.room_size, r.damping, r.wet, r.width), (fx(900_000), fx(500_000), fx(100_000), fx(1_000_000)));
    let d = e.delay.unwrap();
    assert_eq!((d.time, d.feedback, d.wet), (fx(250_000), fx(400_000), fx(300_000)));
    let x = e.distortion.unwrap();
    assert_eq!((x.drive, x.tone, x.wet), (fx(3_000_000), fx(200_000), fx(100_000)));
    assert!(e.has_any());
}

#[test]
fn filter_names() {
    for (name, kind) in [
        ("lowpass", FilterType::LowPass),
        ("lp", FilterType::LowPass),
        ("highpass", FilterType::HighPass),
        ("HP", FilterType::HighPass),
        ("bandpass", FilterType::BandPass),
        ("Bp", FilterType::BandPass),
        ("notch", FilterType::LowPass),
    ] {
        let t = melody(&format!("filter: {}, 800, 0.7", name));
        assert_eq!(t.instrument.effects.filter.unwrap().filter_type, kind);
    }
}

#[test]
fn waveform_names() {
    for (name, kind) in [
        ("sine", WaveformType::Sine),
        ("SQUARE", WaveformType::Square),
        ("Triangle", WaveformType::Triangle),
        ("sawtooth", WaveformType::Sawtooth),
        ("noise", WaveformType::Noise),
    ] {
        let t = melody(&format!("waveform:  {} ", name));
        assert!(matches!(t.instrument.source, InstrumentSource::Synthesized(w) if w == kind));
    }
}

fn parse_error(text: &str) -> String {
    match MelodyTrack::from_mel(text, &no_samples()) {
        Err(SynthError::ParseError(m)) => m,
        other => panic!("unexpected: {:?}", other.map(|t| t.name)),
    }
}

#[test]
fn melody_parse_errors() {
    assert_eq!(parse_error("waveform: organ"), "Unknown Waveform");
    assert_eq!(parse_error("note: H4, 1, 1"), "Invalid note");
    assert_eq!(parse_error("note: A4, x, 1"), "Invalid Duration");
    assert_eq!(parse_error("note: A4, 1, x"), "Invalid Velocity");
    assert_eq!(parse_error("note: A4, 1, // 1"), "Invalid Velocity");
    assert_eq!(parse_error("note: A4, 1, 1, slide=Q"), "Invalid note");
    assert_eq!(parse_error("chord: A4+X, 1, 1"), "Invalid note");
    assert_eq!(parse_error("chord: A4+X, x, 1"), "Invalid Duration");
    assert_eq!(parse_error("chord: A4, 1, y"), "Invalid Velocity");
    assert_eq!(parse_error("rest: long"), "Invalid rest duration");
    assert_eq!(parse_error("tempo: fast"), "Invalid tempo:");
    assert_eq!(parse_error("volume:"), "Invalid volume:");
    assert_eq!(parse_error("attack: a"), "Invalid attack:");
    assert_eq!(parse_error("decay: a"), "Invalid decay:");
    assert_eq!(parse_error("sustain: a"), "Invalid sustain:");
    assert_eq!(parse_error("release: a"), "Invalid release:");
    assert_eq!(parse_error("pitch: a"), "Invalid pitch:");
    assert_eq!(parse_error("pan: a"), "Invalid pan:");
    assert_eq!(parse_error("detune: a"), "Invalid detune:");
    assert_eq!(parse_error("swing: a"), "Invalid swing:");
    assert_eq!(parse_error("tempo: 100\nnote: A4, 1, 1\ntempo: nan\nnote: H, 1, 1"), "Invalid tempo:");
}

#[test]
fn scalar_keys_set_their_fields() {
    let t = melody("volume: 0.7\nattack: 0.1\ndecay: 0.2\nsustain: 0.3\nrelease: 0.4\npitch: 2\npan: -1\ndetune: 12.5\nswing: 0.5\n");
    let i = &t.instrument;
    assert_eq!(
        (i.volume, i.attack, i.decay, i.sustain, i.release, i.pitch, i.pan, i.detune, t.swing),
        (fx(700_000), fx(100_000), fx(200_000), fx(300_000), fx(400_000), fx(2_000_000), fx(-1_000_000), fx(12_500_000), fx(500_000))
    );
}

#[test]
fn samples_are_taken_from_the_cache() {
    let mut samples: Cache<SampleData> = Cache::new();
    samples.insert("kick", SampleData::new(vec![1, -2, 3], 22050));
    let t = MelodyTrack::from_mel("sample:  kick \nnote: C4, 1, 1", &samples).unwrap();
    match &t.instrument.source {
        InstrumentSource::Sample(d) => {
            assert_eq!(*d.samples, vec![1, -2, 3]);
            assert_eq!(d.sample_rate, 22050);
            assert_eq!(d.len(), 3);
        }
        other => panic!("no sample: {:?}", other),
    }
    match MelodyTrack::from_mel("sample: snare", &samples) {
        Err(SynthError::InvalidInstrument(m)) => assert_eq!(m, "Sample not found: snare"),
        other => panic!("unexpected: {:?}", other.map(|t| t.name)),
    }
}

#[test]
fn a_later_cache_entry_replaces_an_earlier_one() {
    let mut samples: Cache<SampleData> = Cache::new();
    assert!(!samples.contains("kick"));
    samples.insert("kick", SampleData::new(vec![1], 1));
    samples.insert("snare", SampleData::new(vec![2], 2));
    samples.insert("kick", SampleData::new(vec![3], 3));
    assert!(samples.contains("kick"));
    assert_eq!(*samples.get("kick").unwrap().samples, vec![3]);
    assert_eq!(*samples.get("snare").unwrap().samples, vec![2]);
    // the new value stands in the place of the old one
    assert_eq!(samples.entry_count(), 2);
    assert!(samples.get("hat").is_none());
}

fn melodies() -> Cache<MelodyTrack> {
    let mut cache: Cache<MelodyTrack> = Cache::new();
    cache.insert("lead", melody("name: lead\ntempo: 60\nnote: A4, 2, 1\nnote: B4, 2, 1\n"));
    cache.insert("bass", melody("name: bass\ntempo: 90\nnote: A2, 8, 1\n"));
    cache
}

#[test]
fn arrangement_places_melodies() {
    let a = Arrangement::from_bmi(
        "name: My Song\n// comment\nfade_in: 0.5\nfade_out: 1.5\nloop: 1, 3\ntrack: lead, 0\ntrack: bass, 2.5, vol=0.5\n",
        &melodies(),
    )
    .unwrap();
    assert_eq!(a.name, "My Song");
    assert_eq!(a.fade_in, Some(fx(500_000)));
    assert_eq!(a.fade_out, Some(fx(1_500_000)));
    assert_eq!(a.master_tempo, None);
    // the loop line came before any track: its end was given, so it stands
    assert_eq!(a.loop_point, Some(LoopPoint { start: fx(1_000_000), end: fx(3_000_000) }));
    assert_eq!(a.tracks.len(), 2);
    assert_eq!(a.tracks[0].0.name, "lead");
    assert_eq!(a.tracks[0].1, fx(0));
    assert_eq!(a.tracks[1].0.name, "bass");
    assert_eq!(a.tracks[1].1, fx(2_500_000));
    assert_eq!(a.tracks[1].2.volume, Some(fx(500_000)));
    assert_eq!(a.tracks[1].0.tempo, fx(90_000_000));
    // the latest end: 2.5 + 8
    assert_eq!(a.total_length, fx(10_500_000));
}

#[test]
fn empty_arrangement_defaults() {
    let a = Arrangement::new();
    assert_eq!(a.name, "song");
    assert!(a.tracks.is_empty());
    assert_eq!(a.total_length, fx(0));
    assert_eq!((a.loop_point, a.master_tempo, a.fade_in, a.fade_out), (None, None, None, None));
}

#[test]
fn master_tempo_wins_over_override_and_own_tempo() {
    let a = Arrangement::from_bmi(
        "track: lead, 0, tempo=100\nmaster_tempo: 140\ntrack: lead, 0, tempo=100\ntrack: bass, 0\n",
        &melodies(),
    )
    .unwrap();
    assert_eq!(a.tracks[0].0.tempo, fx(100_000_000));
    assert_eq!(a.tracks[1].0.tempo, fx(140_000_000));
    assert_eq!(a.tracks[2].0.tempo, fx(140_000_000));
    assert_eq!(a.tracks[1].2.tempo, Some(fx(100_000_000)));
    assert_eq!(a.master_tempo, Some(fx(140_000_000)));
}

#[test]
fn numbers_that_cannot_be_read_leave_arrangement_settings_unset() {
    let a = Arrangement::from_bmi("master_tempo: x\nfade_in: \nfade_out: 1s\nloop: a, b\ntrack: lead, 1\n", &melodies()).unwrap();
    assert_eq!((a.master_tempo, a.fade_in, a.fade_out), (None, None, None));
    assert_eq!(a.loop_point, Some(LoopPoint { start: fx(0), end: fx(0) }));
    let b = Arrangement::from_bmi("track: lead, 1\nloop: a, b\n", &melodies()).unwrap();
    assert_eq!(b.loop_point, Some(LoopPoint { start: fx(0), end: fx(5_000_000) }));
}

#[test]
fn track_overrides() {
    let a = Arrangement::from_bmi(
        "track: lead, 0, volume=0.25, pitch = 2 , pan=-1, reverb=0.6:0.5:0.3:1.0, filter=hp:800:0.7, delay=0.5:x:0.1, dist=4:0.5:1, what=ever, plain\n\
         track: lead, 0, vol=loud, distortion=1:2:3, filter=lp:1, reverb=1:2:3, delay= 0.1 : 0.2 : 0.3 \n",
        &melodies(),
    )
    .unwrap();
    let o = a.tracks[0].2;
    assert_eq!((o.volume, o.pitch, o.tempo, o.pan), (Some(fx(250_000)), Some(fx(2_000_000)), None, Some(fx(-1_000_000))));
    let r = o.reverb.unwrap();
    assert_eq!((r.room_size, r.damping, r.wet, r.width), (fx(600_000), fx(500_000), fx(300_000), fx(1_000_000)));
    let f = o.filter.unwrap();
    assert_eq!((f.filter_type, f.cutoff, f.resonance), (FilterType::HighPass, fx(800_000_000), fx(700_000)));
    let d = o.delay.unwrap();
    assert_eq!((d.time, d.feedback, d.wet), (fx(500_000), fx(400_000), fx(100_000)));
    let x = o.distortion.unwrap();
    assert_eq!((x.drive, x.tone, x.wet), (fx(4_000_000), fx(500_000), fx(1_000_000)));
    let p = a.tracks[1].2;
    assert_eq!(p.volume, None);
    let y = p.distortion.unwrap();
    assert_eq!((y.drive, y.tone, y.wet), (fx(1_000_000), fx(2_000_000), fx(3_000_000)));
    assert_eq!(p.filter, None);
    assert_eq!(p.reverb, None);
    // the numbers of an effect are not trimmed: those with blanks are not read
    let e = p.delay.unwrap();
    assert_eq!((e.time, e.feedback, e.wet), (fx(250_000), fx(400_000), fx(300_000)));
}

#[test]
fn unknown_melodies_are_skipped_and_reported() {
    let (result, missing) = Arrangement::read_bmi("track: drums, 0\ntrack: lead, 1\ntrack: pad, 2, vol=1\n", &melodies());
    let a = result.unwrap();
    assert_eq!(a.tracks.len(), 1);
    assert_eq!(a.tracks[0].0.name, "lead");
    assert_eq!(missing, vec!["drums".to_string(), "pad".to_string()]);
}

#[test]
fn arrangement_without_tracks_is_an_error() {
    for text in ["", "name: x\n", "track: drums, 0\n", "track: lead\n"] {
        match Arrangement::from_bmi(text, &melodies()) {
            Err(SynthError::InvalidInstrument(m)) => assert_eq!(m, "Arrangement has no valid tracks"),
            other => panic!("unexpected: {:?}", other.map(|a| a.name)),
        }
    }
    let (result, missing) = Arrangement::read_bmi("track: drums, 0\n", &melodies());
    assert!(result.is_err());
    assert_eq!(missing, vec!["drums".to_string()]);
}

#[test]
fn bad_start_time_is_a_parse_error() {
    let (result, missing) = Arrangement::read_bmi("track: drums, 0\ntrack: lead, soon\ntrack: pad, 0\n", &melodies());
    match result {
        Err(SynthError::ParseError(m)) => assert_eq!(m, "Invalid start time"),
        other => panic!("unexpected: {:?}", other.map(|a| a.name)),
    }
    assert_eq!(missing, vec!["drums".to_string()]);
    assert!(matches!(Arrangement::from_bmi("track: nobody, x\n", &melodies()), Err(SynthError::ParseError(_))));
}

#[test]
fn placing_copies_the_melody() {
    let cache = melodies();
    let lead = cache.get("lead").unwrap();
    let a = Arrangement::new().place(lead, fx(1_000_000), boomie::TrackOverrides::default());
    assert_eq!(a.total_length, fx(5_000_000));
    assert_eq!(a.tracks[0].0.sequence.len(), 2);
    let b = a.clone();
    assert_eq!(b.tracks.len(), 1);
    assert_eq!(b.tracks[0].0.name, "lead");
    assert_eq!(b.total_length, a.total_length);
    let copy = lead.clone();
    assert_eq!(copy.sequence.len(), lead.sequence.len());
    assert_eq!(copy.length, lead.length);
}

#[test]
fn copies_of_a_recording_share_its_samples() {
    let mut samples: Cache<SampleData> = Cache::new();
    samples.insert("kick", SampleData::new(vec![1, -2, 3], 22050));
    let kept = samples.get("kick").unwrap();
    let copy = kept.clone();
    assert!(std::sync::Arc::ptr_eq(&kept.samples, &copy.samples));
    let a = MelodyTrack::from_mel("sample: kick\nnote: C4, 1, 1", &samples).unwrap();
    let b = a.clone();
    match (&a.instrument.source, &b.instrument.source) {
        (InstrumentSource::Sample(x), InstrumentSource::Sample(y)) => {
            assert!(std::sync::Arc::ptr_eq(&x.samples, &y.samples));
            assert!(std::sync::Arc::ptr_eq(&x.samples, &kept.samples));
            assert_eq!(x.sample_rate, y.sample_rate);
        }
        other => panic!("no samples: {:?}", other),
    }
}
