use keet::decode::{
    apply_chain, await_consumer_drain, balance_levels, crossfade_span, deinterleave_into, extract_rg_from_tags, hold_back, release_tail,
    flush_resampler, frames_to_flush, interleaved_to_stereo, producer_should_unstick, push_all, rg_choice,
    rg_slot_of_key, rg_text, stereo_route, whole_chunks, Flush, Push, RgSlot, RgTag, RgTags, Route, Wait,
};
use keet::ring::push_some;
use keet::state::{PlayerState, RgMode};

fn bits(v: &[f32]) -> Vec<u32> {
    v.iter().map(|x| x.to_bits()).collect()
}

/// Mixes one frame down by the routes of its channels.
fn mix(frame: &[f32], channels: usize) -> Vec<f32> {
    let g = std::f32::consts::FRAC_1_SQRT_2;
    let (mut l, mut r) = (0.0f32, 0.0f32);
    for (i, &s) in frame.iter().enumerate() {
        match stereo_route(channels, i) {
            Route::Left => l += s,
            Route::Right => r += s,
            Route::Both => {
                l += s;
                r += s;
            }
            Route::SoftLeft => l += g * s,
            Route::SoftRight => r += g * s,
            Route::SoftBoth => {
                l += g * s;
                r += g * s;
            }
            Route::Dropped => {}
        }
    }
    vec![l, r]
}

/// The linear gain of a mode: its decibels, held below what the peak allows.
fn gain_of(mode: RgMode, tags: RgTags) -> f32 {
    let (gain, peak) = rg_choice(mode, tags);
    match gain {
        None => 1.0,
        Some(g) => {
            let mut lin = 10.0f32.powf(f32::from_bits(g) / 20.0);
            if let Some(p) = peak {
                let p = f32::from_bits(p);
                if p > 0.0 && lin * p > 1.0 {
                    lin = 1.0 / p;
                }
            }
            lin
        }
    }
}

#[test]
fn stereo_passes_through_appending() {
    let mut out = bits(&[9.0, 9.0]); // pre-existing content must be kept
    assert!(interleaved_to_stereo(&bits(&[0.1, 0.2, 0.3, 0.4]), 2, &mut out));
    assert_eq!(out, bits(&[9.0, 9.0, 0.1, 0.2, 0.3, 0.4]));
}

#[test]
fn mono_duplicates_to_both_channels() {
    let mut out = Vec::new();
    assert!(interleaved_to_stereo(&bits(&[0.5, -0.25]), 1, &mut out));
    assert_eq!(out, bits(&[0.5, 0.5, -0.25, -0.25]));
}

#[test]
fn five_one_downmix_center_and_surrounds_minus_3db_lfe_dropped() {
    // SMPTE order: FL FR FC LFE BL BR
    let out = mix(&[0.2, 0.4, 0.6, 1.0, 0.1, 0.3], 6);
    let g = std::f32::consts::FRAC_1_SQRT_2;
    let want_l = 0.2 + g * 0.6 + g * 0.1;
    let want_r = 0.4 + g * 0.6 + g * 0.3;
    assert_eq!(out.len(), 2);
    assert!((out[0] - want_l).abs() < 1e-6, "L: got {} want {}", out[0], want_l);
    assert!((out[1] - want_r).abs() < 1e-6, "R: got {} want {}", out[1], want_r);
}

#[test]
fn quad_downmix_routes_rears_to_their_sides() {
    // Quad order: FL FR BL BR
    let out = mix(&[0.2, 0.4, 0.1, 0.3], 4);
    let g = std::f32::consts::FRAC_1_SQRT_2;
    assert!((out[0] - (0.2 + g * 0.1)).abs() < 1e-6);
    assert!((out[1] - (0.4 + g * 0.3)).abs() < 1e-6);
}

#[test]
fn rg_track_mode_falls_back_to_album_tags() {
    let tags = RgTags {
        track_gain: None,
        track_peak: None,
        album_gain: Some((-6.0f32).to_bits()),
        album_peak: Some(0.9f32.to_bits()),
    };
    let gain = gain_of(RgMode::Track, tags);
    let want = 10.0f32.powf(-6.0 / 20.0);
    assert!((gain - want).abs() < 1e-6, "got {} want {}", gain, want);
}

#[test]
fn rg_track_mode_prefers_track_tags_when_present() {
    let tags = RgTags {
        track_gain: Some((-3.0f32).to_bits()),
        track_peak: None,
        album_gain: Some((-6.0f32).to_bits()),
        album_peak: None,
    };
    let gain = gain_of(RgMode::Track, tags);
    let want = 10.0f32.powf(-3.0 / 20.0);
    assert!((gain - want).abs() < 1e-6);
}

#[test]
fn unstick_predicate_fires_on_each_join_signal() {
    let mut s = PlayerState::new();
    assert!(!producer_should_unstick(&s), "fresh state must not unstick");
    s.quit();
    assert!(producer_should_unstick(&s), "quit must unstick");

    let mut s = PlayerState::new();
    s.prev();
    assert!(producer_should_unstick(&s), "skip-prev must unstick");

    let mut s = PlayerState::new();
    s.jump_to(0);
    assert!(producer_should_unstick(&s), "jump must unstick");
}

/// Pushes into a ring until it is over, and counts the naps.
fn push_into(producer: &mut rtrb::Producer<u32>, state: &PlayerState, samples: &[f32], naps: usize) -> Option<usize> {
    let bits: Vec<u32> = samples.iter().map(|s| s.to_bits()).collect();
    let mut done = 0;
    let mut slept = 0;
    loop {
        match push_some(producer, state, &bits, done) {
            Push::Over => return Some(slept),
            Push::Take(n) => done += n,
            Push::Sleep(_) => {
                slept += 1;
                if slept > naps {
                    return None;
                }
            }
        }
    }
}

/// Whether pushing ends at once against a full ring that nobody drains.
fn push_all_returns(state: &PlayerState) -> bool {
    let (mut producer, _consumer) = rtrb::RingBuffer::<u32>::new(8);
    for _ in 0..8 {
        producer.push(0).unwrap();
    }
    push_into(&mut producer, state, &[0.0; 4], 0).is_some()
}

#[test]
fn push_all_unsticks_on_jump_signal() {
    let mut state = PlayerState::new();
    assert!(!push_all_returns(&state));
    state.jump_to(0);
    assert!(push_all_returns(&state), "push_all must exit when a jump is set");
}

#[test]
fn push_all_unsticks_on_skip_prev_signal() {
    let mut state = PlayerState::new();
    state.prev();
    assert!(push_all_returns(&state), "push_all must exit when skip_prev is set");
}

#[test]
fn push_all_unsticks_on_quit_signal() {
    let mut state = PlayerState::new();
    state.quit();
    assert!(push_all_returns(&state), "push_all must exit on quit");
}

#[test]
fn await_consumer_drain_unsticks_promptly_on_jump() {
    let mut state = PlayerState::new();
    state.producer.reset_consumer_counter = true;
    assert_eq!(await_consumer_drain(&state, 0), Wait::Sleep(5));
    assert_eq!(await_consumer_drain(&state, 50), Wait::Over, "bounded at 250 ms");
    state.jump_to(0);
    assert_eq!(await_consumer_drain(&state, 0), Wait::Over, "a jump ends the wait at once");
}

#[test]
fn push_all_delivers_full_chunk_when_ring_has_space() {
    let state = PlayerState::new();
    let (mut producer, consumer) = rtrb::RingBuffer::<u32>::new(64);
    assert_eq!(push_into(&mut producer, &state, &[1.0; 48], 0), Some(0));
    assert_eq!(consumer.slots(), 48);
}

#[test]
fn samples_pass_the_ring_in_order() {
    let state = PlayerState::new();
    let (mut producer, mut consumer) = rtrb::RingBuffer::<u32>::new(4);
    let samples: Vec<u32> = (0u32..10).collect();
    let mut heard = Vec::new();
    let mut done = 0;
    loop {
        match push_some(&mut producer, &state, &samples, done) {
            Push::Over => break,
            Push::Take(n) => {
                assert!(n <= 4);
                done += n;
            }
            Push::Sleep(ms) => {
                assert_eq!(ms, 5);
                for _ in 0..3 {
                    heard.push(consumer.pop().unwrap());
                }
            }
        }
    }
    while let Ok(s) = consumer.pop() {
        heard.push(s);
    }
    assert_eq!(heard, samples);
}

#[test]
fn pushes_ask_for_no_more_than_there_is_room_for() {
    let mut state = PlayerState::new();
    assert_eq!(push_all(&state, 3, 8), Push::Take(3));
    assert_eq!(push_all(&state, 9, 8), Push::Take(8));
    assert_eq!(push_all(&state, 0, 8), Push::Sleep(5));
    assert_eq!(push_all(&state, 9, 0), Push::Over);
    state.quit();
    assert_eq!(push_all(&state, 9, 8), Push::Over);
}

#[test]
fn a_chunk_passes_only_the_stages_that_change_it() {
    assert!(apply_chain(0, true, true, false, true, 5, None).is_none());
    let p = apply_chain(8, true, false, true, false, 0, None).unwrap();
    assert!(p.eq && !p.effects && !p.gain && !p.crossfeed);
    assert_eq!(p.balance, None);
    assert_eq!(p.fade, 0);
    let p = apply_chain(8, false, true, false, true, -25, Some((2, 6))).unwrap();
    assert!(p.gain && p.crossfeed);
    assert_eq!(p.balance, Some((100, 75)));
    assert_eq!(p.fade, 4);
}

#[test]
fn balance_turns_one_side_down() {
    assert_eq!(balance_levels(0), (100, 100));
    assert_eq!(balance_levels(30), (70, 100));
    assert_eq!(balance_levels(-100), (100, 0));
    assert_eq!(balance_levels(250), (0, 100));
}

#[test]
fn crossfades_end_with_their_samples() {
    assert_eq!(crossfade_span(0, 100, 30), 30);
    assert_eq!(crossfade_span(90, 100, 30), 10);
    assert_eq!(crossfade_span(100, 100, 30), 0);
}

#[test]
fn the_newest_samples_are_held_back() {
    let mut tail = std::collections::VecDeque::new();
    assert!(hold_back(&mut tail, &vec![1, 2, 3], 4).is_empty());
    assert_eq!(tail, vec![1, 2, 3]);
    assert_eq!(hold_back(&mut tail, &vec![4, 5, 6], 4), vec![1, 2]);
    assert_eq!(tail, vec![3, 4, 5, 6]);
    assert_eq!(hold_back(&mut tail, &vec![7, 8, 9, 10, 11], 4), vec![3, 4, 5, 6, 7]);
    assert_eq!(tail, vec![8, 9, 10, 11]);
    assert_eq!(release_tail(&mut tail), vec![8, 9, 10, 11]);
    assert!(tail.is_empty());
}

#[test]
fn only_gains_have_a_unit() {
    assert_eq!(rg_text(RgSlot::TrackGain, " -6.50 dB "), "-6.50");
    assert_eq!(rg_text(RgSlot::AlbumGain, "+1.0DB"), "+1.0");
    assert_eq!(rg_text(RgSlot::TrackGain, "2.5"), "2.5");
    assert_eq!(rg_text(RgSlot::TrackPeak, " 0.9 dB"), "0.9 dB");
}

#[test]
fn resamplers_are_flushed_for_what_they_owe() {
    assert_eq!(frames_to_flush(441, 48000, 44100, 10), 490);
    assert_eq!(frames_to_flush(0, 48000, 44100, 10), 10);
    assert_eq!(whole_chunks(2500, 1024), 2048);
    assert_eq!(flush_resampler(100, 40), Flush::Use { take: 40, left: 60 });
    assert_eq!(flush_resampler(60, 100), Flush::Use { take: 60, left: 0 });
    assert_eq!(flush_resampler(0, 100), Flush::Over);
    assert_eq!(flush_resampler(5, 0), Flush::Over);
}

#[test]
fn channels_are_taken_apart() {
    assert_eq!(deinterleave_into(&vec![1, 2, 3, 4, 5, 6], 2), vec![vec![1, 3, 5], vec![2, 4, 6]]);
}

#[test]
fn loudness_tags_are_read_by_slot() {
    assert_eq!(rg_slot_of_key("REPLAYGAIN_TRACK_GAIN"), Some(RgSlot::TrackGain));
    assert_eq!(rg_slot_of_key("replaygain_album_peak"), Some(RgSlot::AlbumPeak));
    assert_eq!(rg_slot_of_key("title"), None);
    let tags = extract_rg_from_tags(&vec![
        RgTag { slot: RgSlot::TrackGain, value: None },
        RgTag { slot: RgSlot::TrackGain, value: Some(7) },
        RgTag { slot: RgSlot::TrackGain, value: Some(8) },
        RgTag { slot: RgSlot::AlbumPeak, value: Some(9) },
    ]);
    assert_eq!(tags.track_gain, Some(7));
    assert_eq!(tags.album_peak, Some(9));
    assert_eq!(rg_choice(RgMode::Off, tags), (None, None));
    assert_eq!(rg_choice(RgMode::Album, tags), (Some(7), Some(9)));
}

#[test]
fn only_the_bass_is_dropped() {
    for channels in 1..9usize {
        for i in 0..channels {
            let dropped = stereo_route(channels, i) == Route::Dropped;
            assert_eq!(dropped, channels >= 6 && i == 3, "{i} of {channels}");
        }
    }
}
