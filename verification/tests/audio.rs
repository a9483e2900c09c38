use keet::audio::{
    callback_plan, count_played, find_device_by_name, fix_bluetooth_sample_rate, frame_source, frames_written,
    group_configs, max_supported_rate, pick_device_id, rate_after_switch, release_exclusive_mode, set_exclusive_mode,
    set_output_sample_rate, supports_rate, tap_plan, Output, OutputConfig, Platform, RateCaps, RateSwitch, Tap,
};
use keet::ring::next_samples;
use keet::state::PlayerState;

#[test]
fn device_name_prefers_an_exact_match_over_a_substring() {
    let devs = vec![
        (10, "External Speakers".to_string()),
        (20, "Speakers".to_string()),
        (30, "USB DAC Pro".to_string()),
    ];
    assert_eq!(pick_device_id(&devs, "speakers"), Some(20), "exact beats first substring hit");
    assert_eq!(pick_device_id(&devs, "dac"), Some(30), "substring still works");
    assert_eq!(pick_device_id(&devs, "headphones"), None);
    assert_eq!(pick_device_id(&devs, ""), None, "empty name matches nothing");
}

#[test]
fn devices_without_a_name_are_not_found() {
    let names = vec![None, Some("Built-in Output".to_string())];
    assert_eq!(find_device_by_name(&names, "BUILT"), Some(1));
    assert_eq!(find_device_by_name(&names, "usb"), None);
}

#[test]
fn bluetooth_devices_are_set_to_their_own_rate() {
    assert_eq!(fix_bluetooth_sample_rate(Platform::MacOs, true), Some(48000));
    assert_eq!(fix_bluetooth_sample_rate(Platform::MacOs, false), None);
    assert_eq!(fix_bluetooth_sample_rate(Platform::Linux, true), None);
}

#[test]
fn exclusive_mode_is_refused_where_there_is_none() {
    assert!(set_exclusive_mode(Platform::Linux, Some(3)).is_err());
    let e = set_exclusive_mode(Platform::Windows, None).unwrap_err();
    assert_eq!(e.message(), "Exclusive mode not supported on this platform");
    let e = set_exclusive_mode(Platform::MacOs, None).unwrap_err();
    assert_eq!(e.message(), "Could not find CoreAudio device ID");
    assert_eq!(set_exclusive_mode(Platform::MacOs, Some(7)), Ok(7));
    assert_eq!(release_exclusive_mode(Platform::Linux, 3), None);
    assert_eq!(release_exclusive_mode(Platform::MacOs, 3), Some(3));
}

#[test]
fn rates_are_looked_up_in_ranges() {
    let ranges = vec![(44100, 48000), (96000, 96000)];
    assert!(supports_rate(&ranges, 48000));
    assert!(!supports_rate(&ranges, 88200));
    let caps = RateCaps::probe(Platform::MacOs, ranges, 96000, false);
    assert_eq!(caps.exclusive_target_rate(96000, 44100), 96000);
    assert_eq!(max_supported_rate(&vec![44100, 192000, 96000]), 192000);
}

#[test]
fn the_device_is_left_alone_where_its_rate_fits() {
    assert_eq!(set_output_sample_rate(Platform::MacOs, 44100, 44100, None), RateSwitch::Stay(44100));
    assert_eq!(set_output_sample_rate(Platform::Linux, 96000, 44100, None), RateSwitch::Use(96000));
    let known = Some((false, vec![(44100, 96000)]));
    assert_eq!(set_output_sample_rate(Platform::MacOs, 96000, 44100, known), RateSwitch::Ask(96000));
    let bluetooth = Some((true, vec![(44100, 96000)]));
    assert_eq!(set_output_sample_rate(Platform::MacOs, 96000, 44100, bluetooth), RateSwitch::Stay(44100));
    assert_eq!(set_output_sample_rate(Platform::Windows, 96000, 44100, None), RateSwitch::Stay(44100));
    assert_eq!(rate_after_switch(96000, 48000, Some(96000)), 96000);
    assert_eq!(rate_after_switch(96000, 48000, None), 48000);
}

#[test]
fn a_paused_player_is_silent() {
    let mut s = PlayerState::new();
    s.toggle_pause();
    assert_eq!(callback_plan(&mut s, 100, 64, 2), Output::Silence);
    assert_eq!(s.producer.buffer_level, 100);
    s.toggle_pause();
    assert_eq!(callback_plan(&mut s, 100, 64, 2), Output::Play(64));
    assert_eq!(callback_plan(&mut s, 10, 64, 2), Output::Play(10));
    assert_eq!(callback_plan(&mut s, 100, 64, 1), Output::Play(100));
    s.producer.reset_consumer_counter = true;
    assert_eq!(callback_plan(&mut s, 100, 64, 2), Output::Drain);
    assert!(!s.producer.reset_consumer_counter);
    count_played(&mut s, 10);
    assert_eq!(s.track.samples_played, 5);
}

#[test]
fn frames_come_from_two_slices() {
    assert_eq!(frame_source(0, 4), (false, 0));
    assert_eq!(frame_source(1, 4), (false, 2));
    assert_eq!(frame_source(2, 4), (true, 0));
    assert_eq!(frames_written(4, 2, 100, 2), 3);
    assert_eq!(frames_written(4, 4, 4, 2), 2);
    assert_eq!(frames_written(8, 0, 3, 1), 3);
}

#[test]
fn the_visualiser_gets_what_fits() {
    assert_eq!(tap_plan(0, 2, true, 8, 100), Tap::Nothing);
    assert_eq!(tap_plan(4, 2, true, 8, 0), Tap::Copy(8));
    assert_eq!(tap_plan(4, 2, false, 8, 8), Tap::Scale(8));
    assert_eq!(tap_plan(4, 6, true, 24, 7), Tap::Nothing);
}

#[test]
fn rates_are_grouped_by_shape() {
    let c = |channels: u16, low: u32, high: u32| OutputConfig { channels, format: "F32".to_string(), low, high };
    let g = group_configs(&vec![c(2, 48000, 48000), c(1, 8000, 44100), c(2, 44100, 48000)]);
    assert_eq!(g.len(), 2);
    assert_eq!(g[0].rates, vec![44100, 48000]);
    assert_eq!(g[1].rates, vec![8000, 44100]);
}

#[test]
fn the_callback_takes_what_is_queued() {
    let (mut producer, mut ring) = rtrb::RingBuffer::<u32>::new(8);
    let mut s = PlayerState::new();
    let mut out = vec![5];
    for i in 0..6 {
        producer.push(i).unwrap();
    }
    assert_eq!(next_samples(&mut ring, &mut s, 4, 2, &mut out), 4);
    assert_eq!(out, vec![0, 1, 2, 3]);
    assert_eq!(s.producer.buffer_level, 6);
    assert_eq!(s.track.samples_played, 2);
    for i in 6..12 {
        producer.push(i).unwrap();
    }
    assert_eq!(next_samples(&mut ring, &mut s, 100, 1, &mut out), 4, "the ring starts anew behind its end");
    assert_eq!(out, vec![4, 5, 6, 7, 8, 9, 10, 11]);
    assert_eq!(s.track.samples_played, 6);
    assert_eq!(next_samples(&mut ring, &mut s, 4, 2, &mut out), 0);
    assert!(out.is_empty());
    producer.push(12).unwrap();
    s.toggle_pause();
    next_samples(&mut ring, &mut s, 4, 2, &mut out);
    assert!(out.is_empty());
    assert_eq!(ring.slots(), 1, "a pause takes nothing");
    s.producer.reset_consumer_counter = true;
    next_samples(&mut ring, &mut s, 4, 2, &mut out);
    assert!(out.is_empty() && !s.producer.reset_consumer_counter);
    assert_eq!(ring.slots(), 0, "a drain takes everything");
    assert_eq!(s.track.samples_played, 6);
}

#[test]
fn the_clock_waits_for_its_track() {
    let mut s = PlayerState::new();
    s.producer.clock_preroll = 5;
    count_played(&mut s, 6);
    assert_eq!((s.producer.clock_preroll, s.track.samples_played), (2, 0));
    count_played(&mut s, 10);
    assert_eq!((s.producer.clock_preroll, s.track.samples_played), (0, 3));
    let (mut producer, mut ring) = rtrb::RingBuffer::<u32>::new(8);
    for i in 0..8 {
        producer.push(i).unwrap();
    }
    s.producer.clock_preroll = 1;
    let mut out = Vec::new();
    next_samples(&mut ring, &mut s, 8, 2, &mut out);
    assert_eq!((s.producer.clock_preroll, s.track.samples_played), (0, 6));
}
