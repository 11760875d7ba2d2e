use boomie::{
    Arrangement, Cache, Fixed, LoopPoint, MelodyTrack, PlaybackState, Ratio, SampleData,
    SynthEngine, SynthError,
};

fn fx(micros: i64) -> Fixed {
    Fixed { micros }
}

fn one_note_arrangement(seconds: u32) -> Arrangement {
    let samples: Cache<SampleData> = Cache::new();
    let text = format!("name: tone\ntempo: 60\nnote: A4, {}, 1\n", seconds);
    let track = MelodyTrack::from_mel(&text, &samples).unwrap();
    let mut cache: Cache<MelodyTrack> = Cache::new();
    cache.insert("tone", track);
    Arrangement::from_bmi("track: tone, 0\n", &cache).unwrap()
}

fn engine() -> SynthEngine {
    SynthEngine::new(48000).unwrap()
}

#[test]
fn an_engine_needs_a_sample_rate() {
    assert!(matches!(SynthEngine::new(0), Err(SynthError::AudioError(_))));
    let e = engine();
    assert_eq!(e.sample_rate, 48000);
    assert!(e.playback_context.is_none());
    assert_eq!(e.get_playback_state(), PlaybackState::Stopped);
    assert_eq!(e.get_playback_position(), fx(0));
    assert!(e.next_frame().is_none());
}

#[test]
fn play_starts_at_sample_zero() {
    let mut e = engine();
    e.play_arrangement(one_note_arrangement(2));
    assert_eq!(e.get_playback_state(), PlaybackState::Playing);
    assert_eq!(e.current_sample(), 0);
    let c = e.playback_context.as_ref().unwrap();
    assert!(!c.loop_enabled);
    assert!(c.crossfade_state.is_none());
    assert_eq!(c.dynamic_params.master_volume, fx(1_000_000));
    assert_eq!(c.dynamic_params.master_pitch, fx(1_000_000));
    assert_eq!(c.dynamic_params.crossfade_duration, fx(1_000_000));
    assert_eq!(c.dynamic_params.track_enabled.get("tone"), Some(&true));
    assert_eq!(c.dynamic_params.track_volumes.get("tone"), Some(&fx(1_000_000)));
    assert!(c.dynamic_params.is_enabled("tone"));
    assert!(c.dynamic_params.is_enabled("another"));
    assert_eq!(c.dynamic_params.volume_of("another"), fx(1_000_000));
}

#[test]
fn stop_after_play_is_stopped_at_zero() {
    let mut e = engine();
    e.play_arrangement(one_note_arrangement(2));
    for _ in 0..1000 {
        e.step();
    }
    assert_eq!(e.current_sample(), 1000);
    e.stop();
    assert_eq!(e.get_playback_state(), PlaybackState::Stopped);
    assert_eq!(e.get_playback_position(), fx(0));
    assert_eq!(e.current_sample(), 0);
    assert!(e.playback_context.is_none());
    assert!(e.step().is_none());
}

#[test]
fn pause_and_resume() {
    let mut e = engine();
    e.pause();
    e.resume();
    assert_eq!(e.get_playback_state(), PlaybackState::Stopped);
    e.play_arrangement(one_note_arrangement(2));
    e.resume();
    assert_eq!(e.get_playback_state(), PlaybackState::Playing);
    e.pause();
    assert_eq!(e.get_playback_state(), PlaybackState::Paused);
    assert!(e.next_frame().is_none());
    e.pause();
    assert_eq!(e.get_playback_state(), PlaybackState::Paused);
    e.resume();
    assert_eq!(e.get_playback_state(), PlaybackState::Playing);
    assert!(e.next_frame().is_some());
}

#[test]
fn playback_stops_at_the_end() {
    let mut e = SynthEngine::new(100).unwrap();
    e.play_arrangement(one_note_arrangement(2));
    for i in 0..199 {
        assert_eq!(e.next_frame().unwrap().position, i);
        e.step();
        assert_eq!(e.get_playback_state(), PlaybackState::Playing);
    }
    e.step();
    assert_eq!(e.current_sample(), 200);
    assert_eq!(e.get_playback_state(), PlaybackState::Stopped);
    assert_eq!(e.get_playback_position(), fx(2_000_000));
    // a stopped engine does not resume
    e.resume();
    assert_eq!(e.get_playback_state(), PlaybackState::Stopped);
}

#[test]
fn loop_without_loop_point_wraps_to_zero() {
    let mut e = SynthEngine::new(100).unwrap();
    e.play_arrangement(one_note_arrangement(2));
    e.set_loop_enabled(true);
    for _ in 0..199 {
        e.step();
    }
    assert_eq!(e.current_sample(), 199);
    e.step();
    assert_eq!(e.current_sample(), 0);
    assert_eq!(e.get_playback_state(), PlaybackState::Playing);
}

#[test]
fn loop_point_wraps_to_its_start() {
    let mut e = engine();
    let mut a = one_note_arrangement(4);
    a.loop_point = Some(LoopPoint { start: fx(0), end: fx(1_000_000) });
    e.play_arrangement(a);
    e.set_loop_enabled(true);
    // one and a half seconds of frames
    for _ in 0..72000 {
        e.step();
    }
    assert_eq!(e.current_sample(), 24000);
    assert_eq!(e.get_playback_position(), fx(500_000));
}

#[test]
fn loop_point_with_a_later_start() {
    let mut e = SynthEngine::new(1000).unwrap();
    let mut a = one_note_arrangement(4);
    a.loop_point = Some(LoopPoint { start: fx(250_500), end: fx(1_000_000) });
    e.play_arrangement(a);
    e.set_loop_enabled(true);
    for _ in 0..999 {
        e.step();
    }
    assert_eq!(e.current_sample(), 999);
    e.step();
    assert_eq!(e.current_sample(), 250);
}

#[test]
fn master_settings_are_held_to_their_ranges() {
    let mut e = engine();
    e.set_master_volume(fx(500_000));
    assert!(e.playback_context.is_none());
    e.play_arrangement(one_note_arrangement(2));
    e.set_master_volume(fx(3_000_000));
    e.set_master_pitch(fx(100_000));
    {
        let p = &e.playback_context.as_ref().unwrap().dynamic_params;
        assert_eq!(p.master_volume, fx(2_000_000));
        assert_eq!(p.master_pitch, fx(500_000));
    }
    e.set_master_volume(fx(-1));
    e.set_master_pitch(fx(2_000_001));
    {
        let p = &e.playback_context.as_ref().unwrap().dynamic_params;
        assert_eq!(p.master_volume, fx(0));
        assert_eq!(p.master_pitch, fx(2_000_000));
    }
    e.set_master_volume(fx(1_250_000));
    e.set_master_pitch(fx(750_000));
    let p = &e.playback_context.as_ref().unwrap().dynamic_params;
    assert_eq!(p.master_volume, fx(1_250_000));
    assert_eq!(p.master_pitch, fx(750_000));
}

#[test]
fn track_settings() {
    let mut e = engine();
    e.play_arrangement(one_note_arrangement(2));
    e.set_track_enabled("tone", false);
    e.set_track_volume("tone", fx(5_000_000));
    e.set_track_volume("other", fx(-5));
    {
        let c = e.playback_context.as_ref().unwrap();
        assert!(!c.dynamic_params.is_enabled("tone"));
        assert_eq!(c.dynamic_params.volume_of("tone"), fx(2_000_000));
        assert_eq!(c.dynamic_params.volume_of("other"), fx(0));
    }
    e.interpolate_track_volume("tone", fx(7_000_000), fx(1_500_000));
    let c = e.playback_context.as_ref().unwrap();
    assert_eq!(c.dynamic_params.volume_of("tone"), fx(7_000_000));
    assert_eq!(c.param_interpolators.get("vol_tone"), Some(&fx(1_500_000)));
    assert!(c.param_interpolators.get("tone").is_none());
}

#[test]
fn crossfade_shares_grow_frame_by_frame() {
    let mut e = engine();
    e.play_arrangement(one_note_arrangement(4));
    let mut target = one_note_arrangement(8);
    target.name = "target".to_string();
    e.crossfade_to(target, fx(1_000_000));
    assert_eq!(e.next_frame().unwrap().target_share, Some(Ratio { num: 0, den: 48000 }));
    for _ in 0..24000 {
        e.step();
    }
    // half a second into the fade both arrangements have the same share
    let mix = e.next_frame().unwrap();
    assert_eq!(mix.position, 24000);
    assert_eq!(mix.target_share, Some(Ratio { num: 24000, den: 48000 }));
    assert_eq!(e.playback_context.as_ref().unwrap().arrangement.name, "song");
    for _ in 0..23999 {
        e.step();
    }
    assert_eq!(e.next_frame().unwrap().target_share, Some(Ratio { num: 47999, den: 48000 }));
    e.step();
    let c = e.playback_context.as_ref().unwrap();
    assert!(c.crossfade_state.is_none());
    assert_eq!(c.arrangement.name, "target");
    assert_eq!(c.current_sample, 48000);
    assert_eq!(e.next_frame().unwrap().target_share, None);
}

#[test]
fn crossfade_of_no_length_is_over_after_one_frame() {
    let mut e = engine();
    e.play_arrangement(one_note_arrangement(4));
    let mut target = one_note_arrangement(8);
    target.name = "target".to_string();
    e.crossfade_to(target, fx(0));
    // the one frame of the crossfade is the target's alone
    assert_eq!(e.next_frame().unwrap().target_share, Some(Ratio { num: 1, den: 1 }));
    e.step();
    let c = e.playback_context.as_ref().unwrap();
    assert!(c.crossfade_state.is_none());
    assert_eq!(c.arrangement.name, "target");
    assert_eq!(c.arrangement.total_length, fx(8_000_000));
    assert_eq!(c.state, PlaybackState::Playing);
}

#[test]
fn crossfade_without_playback_plays() {
    let mut e = engine();
    e.crossfade_to(one_note_arrangement(4), fx(1_000_000));
    let c = e.playback_context.as_ref().unwrap();
    assert!(c.crossfade_state.is_none());
    assert_eq!(c.state, PlaybackState::Playing);
    assert_eq!(c.current_sample, 0);
}

#[test]
fn fades_go_by_the_position_after_the_step() {
    let mut e = SynthEngine::new(1000).unwrap();
    let mut a = one_note_arrangement(4);
    a.fade_in = Some(fx(500_000));
    a.fade_out = Some(fx(1_000_000));
    e.play_arrangement(a);
    e.set_master_volume(fx(1_500_000));
    let g = e.step().unwrap();
    assert_eq!(g.master_volume, fx(1_500_000));
    assert_eq!(g.fade_in, Some(Ratio { num: 1_000_000, den: 500_000_000 }));
    assert_eq!(g.fade_out, None);
    for _ in 0..498 {
        e.step();
    }
    assert_eq!(e.step().unwrap().fade_in, None);
    for _ in 0..2500 {
        e.step();
    }
    // at sample 3000 the fade out has not begun; one sample later it has
    assert_eq!(e.current_sample(), 3000);
    let g = e.step().unwrap();
    assert_eq!(g.fade_out, Some(Ratio { num: 999_000_000, den: 1_000_000_000 }));
}

#[test]
fn loading_scores_into_the_engine() {
    let mut e = engine();
    assert!(e.load_arrangement("track: lead, 0").is_err());
    e.load_melody("lead", "tempo: 60\nnote: A4, 1, 1\n").unwrap();
    assert!(matches!(e.load_melody("bad", "tempo: x"), Err(SynthError::ParseError(_))));
    assert!(e.mel_cache.contains("lead"));
    assert!(!e.mel_cache.contains("bad"));
    let a = e.load_arrangement("track: lead, 0.5\ntrack: bad, 0\n").unwrap();
    assert_eq!(a.tracks.len(), 1);
    assert_eq!(a.total_length, fx(1_500_000));
}

#[test]
fn a_callback_changes_nothing_unless_an_arrangement_plays() {
    let mut e = engine();
    assert!(e.callback(64).is_none());
    assert!(e.playback_context.is_none());
    e.play_arrangement(one_note_arrangement(2));
    e.set_loop_enabled(true);
    e.crossfade_to(one_note_arrangement(4), fx(1_000_000));
    assert_eq!(e.callback(10).unwrap().frames.len(), 10);
    e.pause();
    assert!(e.callback(64).is_none());
    assert!(e.callback(0).is_none());
    {
        let c = e.playback_context.as_ref().unwrap();
        assert_eq!(c.current_sample, 10);
        assert_eq!(c.state, PlaybackState::Paused);
        assert_eq!(c.crossfade_state.as_ref().unwrap().progress, 10);
        assert!(c.loop_enabled);
        assert_eq!(c.arrangement.total_length, fx(2_000_000));
    }
    e.resume();
    assert_eq!(e.callback(5).unwrap().frames.len(), 5);
    assert_eq!(e.current_sample(), 15);
}

#[test]
fn a_callback_takes_its_frames_in_order() {
    let mut e = SynthEngine::new(1000).unwrap();
    let mut a = one_note_arrangement(2);
    a.fade_in = Some(fx(4_000));
    e.play_arrangement(a);
    let out = e.callback(6).unwrap();
    assert!(out.retired.is_none());
    let positions: Vec<u64> = out.frames.iter().map(|f| f.0.position).collect();
    assert_eq!(positions, vec![0, 1, 2, 3, 4, 5]);
    assert!(out.frames.iter().all(|f| f.0.target_share.is_none()));
    // the fades go by the position after the step
    assert_eq!(out.frames[0].1.fade_in, Some(Ratio { num: 1_000_000, den: 4_000_000 }));
    assert_eq!(out.frames[2].1.fade_in, Some(Ratio { num: 3_000_000, den: 4_000_000 }));
    assert_eq!(out.frames[3].1.fade_in, None);
    assert_eq!(e.current_sample(), 6);
    assert_eq!(e.callback(0).unwrap().frames.len(), 0);
    assert_eq!(e.current_sample(), 6);
}

#[test]
fn a_callback_goes_on_after_the_end_of_the_arrangement() {
    let mut e = SynthEngine::new(100).unwrap();
    e.play_arrangement(one_note_arrangement(1));
    let out = e.callback(150).unwrap();
    assert_eq!(out.frames.len(), 150);
    assert_eq!(e.current_sample(), 150);
    assert_eq!(e.get_playback_state(), PlaybackState::Stopped);
    assert!(e.callback(10).is_none());
    assert_eq!(e.current_sample(), 150);
}

#[test]
fn a_callback_hands_back_the_arrangement_that_a_crossfade_replaced() {
    let mut e = SynthEngine::new(1000).unwrap();
    let mut first = one_note_arrangement(4);
    first.name = "first".to_string();
    let mut second = one_note_arrangement(8);
    second.name = "second".to_string();
    e.play_arrangement(first);
    e.crossfade_to(second, fx(4_000));
    let out = e.callback(6).unwrap();
    assert_eq!(out.retired.as_ref().unwrap().name, "first");
    let shares: Vec<Option<Ratio>> = out.frames.iter().map(|f| f.0.target_share).collect();
    assert_eq!(
        shares,
        vec![
            Some(Ratio { num: 0, den: 4 }),
            Some(Ratio { num: 1, den: 4 }),
            Some(Ratio { num: 2, den: 4 }),
            Some(Ratio { num: 3, den: 4 }),
            None,
            None
        ]
    );
    let c = e.playback_context.as_ref().unwrap();
    assert_eq!(c.arrangement.name, "second");
    assert!(c.crossfade_state.is_none());
    assert!(e.callback(3).unwrap().retired.is_none());
}

#[test]
fn an_instant_crossfade_in_a_callback() {
    let mut e = SynthEngine::new(1000).unwrap();
    let mut first = one_note_arrangement(4);
    first.name = "first".to_string();
    let mut second = one_note_arrangement(8);
    second.name = "second".to_string();
    e.play_arrangement(first);
    e.callback(3);
    e.crossfade_to(second, fx(0));
    let out = e.callback(1).unwrap();
    assert_eq!(out.frames[0].0.target_share, Some(Ratio { num: 1, den: 1 }));
    assert_eq!(out.frames[0].0.position, 3);
    assert_eq!(out.retired.unwrap().name, "first");
    let c = e.playback_context.as_ref().unwrap();
    assert_eq!(c.arrangement.name, "second");
    assert!(c.crossfade_state.is_none());
    assert_eq!(c.state, PlaybackState::Playing);
}

#[test]
fn settings_that_are_set_again_take_no_more_room() {
    let mut e = engine();
    e.play_arrangement(one_note_arrangement(2));
    for i in 0..100 {
        e.set_track_volume("tone", fx(i * 10_000));
        e.set_track_enabled("tone", i % 2 == 0);
        e.interpolate_track_volume("tone", fx(i), fx(1_000_000));
    }
    let c = e.playback_context.as_ref().unwrap();
    assert_eq!(c.dynamic_params.track_volumes.entry_count(), 1);
    assert_eq!(c.dynamic_params.track_enabled.entry_count(), 1);
    assert_eq!(c.param_interpolators.entry_count(), 1);
    assert_eq!(c.dynamic_params.volume_of("tone"), fx(99));
    assert!(!c.dynamic_params.is_enabled("tone"));
}
