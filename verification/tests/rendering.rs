use boomie::{
    calculate_envelope, interpolate_sample, locate, plan_arrangement, Arrangement, Cache,
    DelayLine, DynamicParameters, EffectKind, EffectsChain, EffectsProcessor, Fixed, Instrument,
    MelodyTrack, Placement, Ratio, ReverbParams, SampleData, Segment, SynthEngine, SynthError,
    TrackOverrides, WaveformType,
};
use boomie::render::{effective_track, voices_at, Voice};
use boomie::timing::{samples_ceil, samples_floor, samples_of_beats, seconds_at, seconds_of_beats};
use boomie::wav::read_wav;

fn fx(micros: i64) -> Fixed {
    Fixed { micros }
}

fn melody(text: &str) -> MelodyTrack {
    MelodyTrack::from_mel(text, &Cache::new()).unwrap()
}

fn arrangement(melody_text: &str, score: &str) -> Arrangement {
    let mut cache: Cache<MelodyTrack> = Cache::new();
    cache.insert("m", melody(melody_text));
    Arrangement::from_bmi(score, &cache).unwrap()
}

#[test]
fn single_sine_tone_fills_one_second() {
    let a = arrangement("waveform: sine\ntempo: 60\nnote: A4, 1.0, 1.0\n", "track: m, 0\n");
    let plan = plan_arrangement(&a, &DynamicParameters::default(), 48000);
    assert_eq!(plan.length, 48000);
    assert_eq!(plan.tracks.len(), 1);
    let t = &plan.tracks[0];
    assert_eq!((t.source, t.start, t.total), (0, 0, 48000));
    assert_eq!(t.segments, vec![Segment { element: 0, start: 0, length: 48000 }]);
    assert_eq!(t.audible(plan.length), 48000);
    assert_eq!((plan.fade_in_samples, plan.fade_out_samples), (0, 0));
}

#[test]
fn rest_shifts_the_second_note() {
    let a = arrangement("tempo: 60\nnote: C4,1,1\nrest: 1\nnote: C4,1,1\n", "track: m, 0\n");
    let plan = SynthEngine::new(48000).unwrap().synthesize_arrangement(&a);
    assert_eq!(plan.length, 144000);
    assert_eq!(
        plan.tracks[0].segments,
        vec![
            Segment { element: 0, start: 0, length: 48000 },
            Segment { element: 2, start: 96000, length: 48000 }
        ]
    );
}

#[test]
fn rest_only_track_has_nothing_to_sound() {
    let a = arrangement("tempo: 60\nrest: 1\nrest: 2.5\n", "track: m, 0\n");
    let plan = plan_arrangement(&a, &DynamicParameters::default(), 48000);
    assert_eq!(plan.length, 168000);
    assert_eq!(plan.tracks.len(), 1);
    assert!(plan.tracks[0].segments.is_empty());
}

#[test]
fn disabled_tracks_are_not_rendered() {
    let a = arrangement("name: m\ntempo: 60\nnote: C4,1,1\n", "track: m, 0\ntrack: m, 1\n");
    let mut params = DynamicParameters::default();
    params.track_enabled.insert("m", false);
    let plan = plan_arrangement(&a, &params, 48000);
    assert_eq!(plan.length, 96000);
    assert!(plan.tracks.is_empty());
    params.track_enabled.insert("m", true);
    assert_eq!(plan_arrangement(&a, &params, 48000).tracks.len(), 2);
}

#[test]
fn faster_tempo_shortens_the_notes_but_not_the_track() {
    let a = arrangement("tempo: 120\nnote: C4,1,1\nchord: C4+E4,2,1\n", "track: m, 0.5\n");
    let plan = plan_arrangement(&a, &DynamicParameters::default(), 1000);
    let t = &plan.tracks[0];
    assert_eq!((t.start, t.total), (500, 3000));
    assert_eq!(
        t.segments,
        vec![
            Segment { element: 0, start: 0, length: 500 },
            Segment { element: 1, start: 500, length: 1000 }
        ]
    );
    assert_eq!(plan.length, 3500);
}

#[test]
fn segments_are_cut_off_at_the_end_of_the_track() {
    let a = arrangement("tempo: 30\nnote: C4,1,1\nnote: D4,1,1\nnote: E4,1,1\n", "track: m, 0\n");
    let plan = plan_arrangement(&a, &DynamicParameters::default(), 1000);
    let t = &plan.tracks[0];
    assert_eq!(t.total, 3000);
    assert_eq!(
        t.segments,
        vec![
            Segment { element: 0, start: 0, length: 2000 },
            Segment { element: 1, start: 2000, length: 1000 }
        ]
    );
}

#[test]
fn lengths_round_up_and_starts_round_down() {
    let a = arrangement("tempo: 60\nnote: C4,0.0015,1\n", "track: m, 0.0019\n");
    let plan = plan_arrangement(&a, &DynamicParameters::default(), 1000);
    // 3.4 ms of arrangement: four samples; the track starts at sample 1 and
    // is rendered over two samples, of which the note fills one
    assert_eq!(plan.length, 4);
    let t = &plan.tracks[0];
    assert_eq!((t.start, t.total), (1, 2));
    assert_eq!(t.segments, vec![Segment { element: 0, start: 0, length: 1 }]);
    assert_eq!(samples_ceil(fx(1), 1), 1);
    assert_eq!(samples_floor(fx(999_999), 1), 0);
    assert_eq!(samples_floor(fx(-5), 1000), 0);
    assert_eq!(samples_floor(fx(i64::MAX), u32::MAX), u64::MAX);
    assert_eq!(samples_of_beats(fx(1_000_000), fx(0), 48000), 0);
    assert_eq!(samples_of_beats(fx(1_000_000), fx(120_000_000), 48000), 24000);
    assert_eq!(seconds_of_beats(fx(3_000_000), fx(90_000_000)), fx(2_000_000));
    assert_eq!(seconds_at(72000, 48000), fx(1_500_000));
    assert_eq!(seconds_at(1, 3), fx(333_333));
}

#[test]
fn tracks_that_start_late_are_cut_off_by_the_rendering() {
    let a = arrangement("tempo: 60\nnote: C4,2,1\n", "track: m, 1\n");
    let plan = plan_arrangement(&a, &DynamicParameters::default(), 100);
    let t = &plan.tracks[0];
    assert_eq!(t.audible(plan.length), 200);
    assert_eq!(t.audible(250), 150);
    assert_eq!(t.audible(100), 0);
    assert_eq!(t.audible(50), 0);
    assert_eq!(t.chunk_len(0), 200);
    assert_eq!(t.chunk_len(200), 0);
    let long = arrangement("tempo: 60\nnote: C4,30,1\n", "track: m, 0\n");
    let p = plan_arrangement(&long, &DynamicParameters::default(), 100);
    assert_eq!(p.tracks[0].chunk_len(0), 1024);
    assert_eq!(p.tracks[0].chunk_len(2048), 952);
}

#[test]
fn overrides_change_the_playing_melody() {
    let a = arrangement(
        "tempo: 60\nvolume: 0.8\npitch: 1\nreverb: 0.1,0.2,0.3,0.4\nnote: C4,2,1\n",
        "track: m, 0, vol=0.5, pitch=1.5, tempo=120, delay=0.1:0.2:0.3\n",
    );
    let mut params = DynamicParameters::default();
    params.master_pitch = fx(2_000_000);
    params.track_volumes.insert("melody", fx(500_000));
    let plan = plan_arrangement(&a, &params, 1000);
    let t = &plan.tracks[0].track;
    assert_eq!(t.instrument.volume, fx(250_000));
    assert_eq!(t.instrument.pitch, fx(3_000_000));
    assert_eq!(t.tempo, fx(120_000_000));
    assert_eq!(t.instrument.effects.reverb.unwrap().width, fx(400_000));
    assert_eq!(t.instrument.effects.delay.unwrap().time, fx(100_000));
    assert_eq!(plan.tracks[0].segments, vec![Segment { element: 0, start: 0, length: 1000 }]);
}

#[test]
fn no_overrides_leave_the_melody_as_it_is() {
    let m = melody("tempo: 77\nvolume: 0.123456\npitch: 1.5\ndelay: 0.1,0.2,0.3\nnote: C4,2,1, pan=0.5\n");
    let e = effective_track(&m, &TrackOverrides::default(), fx(1_700_000), fx(1_000_000));
    assert_eq!(e.instrument.volume, m.instrument.volume);
    assert_eq!(e.instrument.pitch, m.instrument.pitch);
    assert_eq!(e.tempo, m.tempo);
    assert_eq!(e.instrument.effects, m.instrument.effects);
    assert_eq!(e.sequence.len(), 1);
    assert_eq!(e.length, m.length);
}

#[test]
fn offline_fades() {
    let mut a = arrangement("tempo: 60\nnote: C4,1,1\n", "track: m, 0\n");
    a.fade_in = Some(fx(10_000));
    a.fade_out = Some(fx(20_000));
    let plan = plan_arrangement(&a, &DynamicParameters::default(), 1000);
    assert_eq!((plan.length, plan.fade_in_samples, plan.fade_out_samples), (1000, 10, 20));
    assert_eq!(plan.fade_at(0), (Some(Ratio { num: 0, den: 10 }), None));
    assert_eq!(plan.fade_at(9), (Some(Ratio { num: 9, den: 10 }), None));
    assert_eq!(plan.fade_at(10), (None, None));
    assert_eq!(plan.fade_at(979), (None, None));
    assert_eq!(plan.fade_at(980), (None, Some(Ratio { num: 20, den: 20 })));
    assert_eq!(plan.fade_at(999), (None, Some(Ratio { num: 1, den: 20 })));
    assert_eq!(plan.fade_at(1000), (None, None));
}

#[test]
fn locating_a_moment_in_a_track() {
    let m = melody("tempo: 120\nnote: C4,1,1\nrest: 1\nchord: C4+E4,2,1\n");
    let at = |sample: u64| locate(&m, fx(500_000), sample, 1000);
    assert_eq!(at(0), None);
    assert_eq!(at(499), None);
    assert_eq!(
        at(500),
        Some(Placement { element: 0, time_in_note: fx(0), duration: fx(500_000) })
    );
    assert_eq!(
        at(999),
        Some(Placement { element: 0, time_in_note: fx(499_000), duration: fx(500_000) })
    );
    assert_eq!(at(1000), None);
    assert_eq!(at(1499), None);
    assert_eq!(
        at(1750),
        Some(Placement { element: 2, time_in_note: fx(250_000), duration: fx(1_000_000) })
    );
    assert_eq!(at(2499).unwrap().element, 2);
    assert_eq!(at(2500), None);
    let still = melody("tempo: 0\nnote: C4,1,1\n");
    assert_eq!(locate(&still, fx(0), 10, 1000), None);
}

fn env(t: i64, d: i64, i: &Instrument) -> i64 {
    calculate_envelope(fx(t), fx(d), i).micros
}

#[test]
fn envelope_stages() {
    let mut i = Instrument::default();
    i.attack = fx(100_000);
    i.decay = fx(200_000);
    i.sustain = fx(600_000);
    i.release = fx(400_000);
    let d = 2_000_000;
    assert_eq!(env(0, d, &i), 0);
    assert_eq!(env(50_000, d, &i), 500_000);
    assert_eq!(env(100_000, d, &i), 1_000_000);
    assert_eq!(env(200_000, d, &i), 800_000);
    assert_eq!(env(300_000, d, &i), 600_000);
    assert_eq!(env(1_000_000, d, &i), 600_000);
    assert_eq!(env(1_600_000, d, &i), 600_000);
    assert_eq!(env(1_800_000, d, &i), 300_000);
    assert_eq!(env(2_000_000, d, &i), 0);
    assert_eq!(env(2_400_000, d, &i), -600_000);
}

#[test]
fn envelope_without_attack_starts_at_full_level() {
    let mut i = Instrument::default();
    i.attack = fx(0);
    assert_eq!(env(0, 1_000_000, &i), 1_000_000);
    i.decay = fx(0);
    assert_eq!(env(0, 1_000_000, &i), 800_000);
    i.sustain = fx(1_000_000);
    i.release = fx(0);
    assert_eq!(env(0, 1_000_000, &i), 1_000_000);
    assert_eq!(env(999_999, 1_000_000, &i), 1_000_000);
    assert_eq!(env(1_000_000, 1_000_000, &i), 0);
}

#[test]
fn envelope_of_a_short_note_goes_from_decay_to_release() {
    let mut i = Instrument::default();
    i.attack = fx(100_000);
    i.decay = fx(200_000);
    i.sustain = fx(500_000);
    i.release = fx(400_000);
    // the release would start at 0.1 s, before the decay is over
    let d = 500_000;
    assert_eq!(env(50_000, d, &i), 500_000);
    assert_eq!(env(200_000, d, &i), 750_000);
    // 1 - 199999 * 0.5 / 200000, the fall cut off after the sixth place
    assert_eq!(env(299_999, d, &i), 500_003);
    assert_eq!(env(300_000, d, &i), 250_000);
    assert_eq!(env(500_000, d, &i), 0);
    for t in 0..=500 {
        let level = env(t * 1000, d, &i);
        assert!((0..=1_000_000).contains(&level));
    }
}

#[test]
fn interpolation_between_samples() {
    let data = SampleData::new(vec![16384, -16384, 32767], 1000);
    let at = |t: i64, pitch: i64| interpolate_sample(&data, fx(t), fx(pitch)).micros;
    assert_eq!(at(0, 1_000_000), 500_000);
    assert_eq!(at(500, 1_000_000), 0);
    assert_eq!(at(250, 1_000_000), 250_000);
    assert_eq!(at(1000, 1_000_000), -500_000);
    // twice as fast: the second sample is reached after half the time
    assert_eq!(at(500, 2_000_000), -500_000);
    // the last sample stands for itself
    assert_eq!(at(2000, 1_000_000), 999_969);
    assert_eq!(at(2999, 1_000_000), 999_969);
    assert_eq!(at(3000, 1_000_000), 0);
    assert_eq!(at(i64::MAX, i64::MAX), 0);
    assert_eq!(at(-5, 1_000_000), 500_000);
    assert_eq!(interpolate_sample(&SampleData::new(vec![], 1000), fx(0), fx(1_000_000)).micros, 0);
    assert_eq!(
        interpolate_sample(&SampleData::new(vec![-32768], 1000), fx(0), fx(1_000_000)).micros,
        -1_000_000
    );
}

#[test]
fn straight_line_waveforms() {
    let sample = |w: WaveformType, phase: i64| w.generate_sample(fx(phase)).map(|f| f.micros);
    assert_eq!(sample(WaveformType::Sine, 0), None);
    assert_eq!(sample(WaveformType::Noise, 250_000), None);
    assert_eq!(sample(WaveformType::Square, 0), Some(1_000_000));
    assert_eq!(sample(WaveformType::Square, 249_999), Some(1_000_000));
    assert_eq!(sample(WaveformType::Square, 250_000), Some(-1_000_000));
    assert_eq!(sample(WaveformType::Square, 500_000), Some(1_000_000));
    assert_eq!(sample(WaveformType::Square, 750_000), Some(-1_000_000));
    assert_eq!(sample(WaveformType::Sawtooth, 0), Some(-1_000_000));
    assert_eq!(sample(WaveformType::Sawtooth, 250_000), Some(0));
    // twice the phase, less its whole cycles, is 0 at half a cycle
    assert_eq!(sample(WaveformType::Sawtooth, 500_000), Some(-1_000_000));
    assert_eq!(sample(WaveformType::Sawtooth, 999_999), Some(999_996));
    // a ramp over the whole cycle: the peak at a quarter, the trough at
    // three quarters
    assert_eq!(sample(WaveformType::Triangle, 0), Some(0));
    assert_eq!(sample(WaveformType::Triangle, 125_000), Some(500_000));
    assert_eq!(sample(WaveformType::Triangle, 250_000), Some(1_000_000));
    assert_eq!(sample(WaveformType::Triangle, 500_000), Some(0));
    assert_eq!(sample(WaveformType::Triangle, 750_000), Some(-1_000_000));
    assert_eq!(sample(WaveformType::Triangle, 875_000), Some(-500_000));
    assert_eq!(sample(WaveformType::Triangle, 999_999), Some(-4));
    assert_eq!(sample(WaveformType::Triangle, 1_250_000), Some(1_000_000));
    assert_eq!(sample(WaveformType::Triangle, -250_000), Some(-1_000_000));
    assert_eq!(sample(WaveformType::Sawtooth, -250_000), Some(0));
    for phase in 0..1000 {
        let s = sample(WaveformType::Square, phase * 1000).unwrap();
        assert!(s == 1_000_000 || s == -1_000_000);
    }
}

#[test]
fn effects_work_in_a_fixed_order() {
    let mut chain = EffectsChain::default();
    assert!(!chain.has_any());
    assert!(chain.stages().is_empty());
    chain.reverb = Some(ReverbParams::default());
    chain.distortion = Some(Default::default());
    assert_eq!(chain.stages(), vec![EffectKind::Distortion, EffectKind::Reverb]);
    chain.filter = Some(boomie::FilterParams {
        cutoff: fx(1),
        resonance: fx(1),
        filter_type: boomie::FilterType::LowPass,
    });
    chain.delay = Some(Default::default());
    assert_eq!(
        chain.stages(),
        vec![EffectKind::Filter, EffectKind::Distortion, EffectKind::Delay, EffectKind::Reverb]
    );
    assert_eq!(chain.delay.unwrap().time, fx(250_000));
    assert_eq!(chain.distortion.unwrap().drive, fx(2_000_000));
    assert_eq!(chain.reverb.unwrap().room_size, fx(500_000));
}

#[test]
fn delay_lines_cycle() {
    let mut line: DelayLine<i32> = DelayLine::new(3, 0);
    assert_eq!(line.len(), 3);
    assert_eq!(line.back(), Some(0));
    line.cycle(1);
    line.cycle(2);
    assert_eq!(line.back(), Some(0));
    line.cycle(3);
    assert_eq!(line.back(), Some(1));
    assert_eq!(line.tap(0), Some(3));
    assert_eq!(line.tap(1), Some(2));
    assert_eq!(line.tap(2), Some(1));
    assert_eq!(line.tap(3), Some(1));
    assert_eq!(line.tap(usize::MAX), Some(1));
    assert_eq!(line.len(), 3);
    let mut empty: DelayLine<i32> = DelayLine::new(0, 0);
    assert_eq!(empty.tap(0), None);
    assert_eq!(empty.back(), None);
    empty.cycle(7);
    assert_eq!(empty.len(), 1);
    assert_eq!(empty.back(), Some(7));
}

#[test]
fn processor_lines_are_scaled_to_the_rate() {
    let p: EffectsProcessor<i32> = EffectsProcessor::new(44100, 0);
    let combs: Vec<usize> = p.comb_buffers.iter().map(|b| b.len()).collect();
    assert_eq!(combs, vec![1116, 1188, 1277, 1356, 1422, 1491, 1557, 1617]);
    let allpasses: Vec<usize> = p.allpass_buffers.iter().map(|b| b.len()).collect();
    assert_eq!(allpasses, vec![556, 441, 341, 225]);
    assert_eq!(p.delay_buffer.len(), 88200);
    assert_eq!(p.comb_filter_state, vec![0; 8]);
    assert_eq!((p.lowpass_state, p.filter_inputs, p.filter_state), (0, (0, 0), (0, 0)));
    let q: EffectsProcessor<i32> = EffectsProcessor::new(48000, 0);
    assert_eq!(q.comb_buffers[0].len(), 1214);
    assert_eq!(q.allpass_buffers[3].len(), 244);
    assert_eq!(q.delay_buffer.len(), 96000);
}

#[test]
fn long_delays_read_the_oldest_sample() {
    let mut p: EffectsProcessor<i32> = EffectsProcessor::new(100, 0);
    for i in 1..=200 {
        p.delay_buffer.cycle(i);
    }
    // the newest sample is 200, the oldest 1
    assert_eq!(p.delayed(fx(0)), Some(200));
    assert_eq!(p.delayed(fx(200_000)), Some(180));
    assert_eq!(p.delayed(fx(1_990_000)), Some(1));
    assert_eq!(p.delayed(fx(2_000_000)), Some(1));
    assert_eq!(p.delayed(fx(5_000_000)), Some(1));
    assert_eq!(p.delayed(fx(i64::MAX)), Some(1));
    assert_eq!(p.delayed(fx(-1)), Some(200));
}

fn wav_bytes(rate: u32, channels: u16, samples: &[i16]) -> Vec<u8> {
    let data_len = (samples.len() * 2) as u32;
    let mut b: Vec<u8> = Vec::new();
    b.extend_from_slice(b"RIFF");
    b.extend_from_slice(&(36 + data_len).to_le_bytes());
    b.extend_from_slice(b"WAVE");
    b.extend_from_slice(b"fmt ");
    b.extend_from_slice(&16u32.to_le_bytes());
    b.extend_from_slice(&1u16.to_le_bytes());
    b.extend_from_slice(&channels.to_le_bytes());
    b.extend_from_slice(&rate.to_le_bytes());
    b.extend_from_slice(&(rate * channels as u32 * 2).to_le_bytes());
    b.extend_from_slice(&(channels * 2).to_le_bytes());
    b.extend_from_slice(&16u16.to_le_bytes());
    b.extend_from_slice(b"data");
    b.extend_from_slice(&data_len.to_le_bytes());
    for s in samples {
        b.extend_from_slice(&s.to_le_bytes());
    }
    b
}

#[test]
fn wav_data_is_decoded() {
    let bytes = wav_bytes(22050, 1, &[0, 1, -1, 32767, -32768, 258]);
    let audio = read_wav(&bytes).unwrap();
    assert_eq!(audio.sample_rate, 22050);
    assert_eq!(audio.channels, 1);
    assert_eq!(audio.samples, vec![0, 1, -1, 32767, -32768, 258]);
}

#[test]
fn what_is_no_wav_data_is_a_file_error() {
    assert!(matches!(read_wav(b"not a wav file"), Err(SynthError::FileError(_))));
    assert!(matches!(read_wav(&[]), Err(SynthError::FileError(_))));
    let mut cut = wav_bytes(8000, 1, &[1, 2, 3]);
    cut.truncate(cut.len() - 1);
    assert!(matches!(read_wav(&cut), Err(SynthError::FileError(_))));
}

#[test]
fn samples_are_loaded_into_the_engine() {
    let mut e = SynthEngine::new(48000).unwrap();
    let loaded = e.load_sample("kick", &wav_bytes(44100, 2, &[100, -100, 200, -200]));
    assert_eq!(loaded.unwrap(), (44100, 2));
    let data = e.get_sample_cache().get("kick").unwrap();
    assert_eq!(*data.samples, vec![100, -100, 200, -200]);
    assert_eq!(data.sample_rate, 44100);
    assert!(e.load_sample("bad", b"RIFFxxxx").is_err());
    assert!(!e.get_sample_cache().contains("bad"));
    e.load_melody("beat", "sample: kick\nnote: C4, 1, 1\n").unwrap();
    assert!(matches!(
        e.load_melody("other", "sample: snare\n"),
        Err(SynthError::InvalidInstrument(_))
    ));
    e.add_sample("snare", SampleData::new(vec![5], 8000));
    e.load_melody("other", "sample: snare\n").unwrap();
}

#[test]
fn voices_of_a_moment() {
    let mut cache: Cache<MelodyTrack> = Cache::new();
    cache.insert("lead", melody("name: lead\ntempo: 60\nvolume: 0.8\nattack: 0.1\ndecay: 0.1\nsustain: 0.5\nrelease: 0.2\nnote: A4, 1, 1\nrest: 1\nnote: B4, 1, 1\n"));
    cache.insert("bass", melody("name: bass\ntempo: 120\nattack: 0\ndecay: 0\nsustain: 1\nrelease: 0\nchord: A2+E3, 4, 1\n"));
    let a = Arrangement::from_bmi("track: lead, 0, vol=0.5\ntrack: bass, 0.5\n", &cache).unwrap();
    let mut params = DynamicParameters::default();
    params.track_volumes.insert("lead", fx(500_000));
    let v = voices_at(&a, &params, 250, 1000);
    assert_eq!(
        v,
        vec![Voice {
            track: 0,
            element: 0,
            track_time: fx(250_000),
            time_in_note: fx(250_000),
            duration: fx(1_000_000),
            envelope: fx(500_000),
            volume: fx(200_000),
        }]
    );
    let v = voices_at(&a, &params, 1500, 1000);
    // the lead rests; the bass is one second into its chord of two seconds
    assert_eq!(
        v,
        vec![Voice {
            track: 1,
            element: 0,
            track_time: fx(1_000_000),
            time_in_note: fx(1_000_000),
            duration: fx(2_000_000),
            envelope: fx(1_000_000),
            volume: fx(500_000),
        }]
    );
    let v = voices_at(&a, &params, 2050, 1000);
    assert_eq!(v.len(), 2);
    assert_eq!((v[0].track, v[0].element, v[0].time_in_note), (0, 2, fx(50_000)));
    assert_eq!(v[0].envelope, fx(500_000));
    assert_eq!((v[1].track, v[1].track_time), (1, fx(1_550_000)));
    params.track_enabled.insert("bass", false);
    assert_eq!(voices_at(&a, &params, 2050, 1000).len(), 1);
    params.track_enabled.insert("lead", false);
    assert!(voices_at(&a, &params, 2050, 1000).is_empty());
    assert!(voices_at(&a, &DynamicParameters::default(), 5000, 1000).is_empty());
}

#[test]
fn a_chord_fills_the_samples_of_a_note_of_its_length() {
    let chord = arrangement("tempo: 90\nchord: A4+A4+A4, 1.5, 0.7\n", "track: m, 0\n");
    let note = arrangement("tempo: 90\nnote: A4, 1.5, 0.7\n", "track: m, 0\n");
    let params = DynamicParameters::default();
    let c = plan_arrangement(&chord, &params, 48000);
    let n = plan_arrangement(&note, &params, 48000);
    assert_eq!(c.length, n.length);
    assert_eq!(c.tracks[0].segments, n.tracks[0].segments);
    assert_eq!(c.tracks[0].segments, vec![Segment { element: 0, start: 0, length: 48000 }]);
    let at = voices_at(&chord, &params, 1234, 48000);
    assert_eq!(at, voices_at(&note, &params, 1234, 48000));
}
