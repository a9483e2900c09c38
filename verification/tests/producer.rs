use keet::producer::{Action, Closing, Decoder, Event, Landing, Stage, TrackFormat};
use keet::state::PlayerState;

const RATE: u32 = 48000;
const RING: usize = 384000;

fn format(rate: u32, secs: u64) -> TrackFormat {
    TrackFormat { sample_rate: rate, channels: 2, bits_per_sample: 16, total: secs * rate as u64 }
}

/// A decoder that has opened its first track and decodes it.
fn playing(tracks: usize, rate: u32, secs: u64) -> (Decoder, PlayerState) {
    let mut s = PlayerState::new();
    s.track.output_rate = RATE;
    let mut d = Decoder::new(tracks, 0, RATE, RING, 0);
    let mut a = d.step(&mut s, Event::Go);
    for _ in 0..20 {
        a = match a {
            Action::Open(_) => d.step(&mut s, Event::Opened(format(rate, secs))),
            Action::MakeResampler => d.step(&mut s, Event::Made),
            Action::Decode { .. } => return (d, s),
            Action::Look | Action::Sleep(_) => d.step(&mut s, Event::Look { free: RING }),
            _ => d.step(&mut s, Event::Go),
        };
    }
    panic!("no packet is decoded: {a:?}");
}

#[test]
fn a_track_is_opened_and_decoded() {
    let (d, s) = playing(2, RATE, 10);
    assert_eq!(d.stage, Stage::Playing);
    assert_eq!(s.track.sample_rate, RATE);
    assert_eq!(s.track.total_samples, 10 * RATE as u64);
    assert!(s.producer.track_info_ready);
}

#[test]
fn a_full_ring_is_waited_for() {
    let (mut d, mut s) = playing(2, RATE, 10);
    assert!(matches!(d.step(&mut s, Event::Look { free: 0 }), Action::Sleep(_)));
    assert!(matches!(d.step(&mut s, Event::Look { free: RING }), Action::Decode { .. }));
}

#[test]
fn a_seek_past_the_end_moves_on() {
    let (mut d, mut s) = playing(2, RATE, 10);
    s.seek(100);
    let mut a = d.step(&mut s, Event::Look { free: RING });
    for _ in 0..20 {
        a = match a {
            Action::Open(i) => {
                assert_eq!(i, 1);
                return;
            }
            Action::Close(_) => d.step(&mut s, Event::Closed { held: false }),
            Action::ProbeNext(_) => d.step(&mut s, Event::NextRate(None)),
            Action::Look | Action::Sleep(_) => d.step(&mut s, Event::Look { free: RING }),
            Action::Seek(_) => panic!("there is nothing to seek to"),
            _ => d.step(&mut s, Event::Go),
        };
    }
    panic!("the next track is not opened: {a:?}");
}

#[test]
fn a_seek_inside_the_track_lands() {
    let (mut d, mut s) = playing(2, RATE, 100);
    s.seek(30);
    let a = d.step(&mut s, Event::Look { free: RING });
    assert_eq!(a, Action::Seek(30 * RATE as u128));
    d.step(&mut s, Event::Landed(Landing::Reached { secs: 30, nanos: 0 }));
    assert_eq!(s.track.samples_played, 30 * RATE as u64);
}

#[test]
fn a_broken_file_is_noted_and_left() {
    let mut s = PlayerState::new();
    let mut d = Decoder::new(2, 0, RATE, RING, 0);
    let mut a = d.step(&mut s, Event::Go);
    assert_eq!(a, Action::Open(0));
    a = d.step(&mut s, Event::Failed("broken".to_string()));
    assert_eq!(s.producer.decode_error.as_deref(), Some("broken"));
    for _ in 0..10 {
        a = match a {
            Action::Open(i) => {
                assert_eq!(i, 1);
                return;
            }
            Action::Close(_) => d.step(&mut s, Event::Closed { held: false }),
            _ => d.step(&mut s, Event::Go),
        };
    }
    panic!("the next track is not opened: {a:?}");
}

#[test]
fn quitting_ends_the_run() {
    let (mut d, mut s) = playing(2, RATE, 10);
    s.quit();
    let mut a = d.step(&mut s, Event::Look { free: RING });
    for _ in 0..10 {
        a = match a {
            Action::Exit => return,
            Action::Close(_) => d.step(&mut s, Event::Closed { held: false }),
            Action::Look | Action::Sleep(_) => d.step(&mut s, Event::Look { free: 0 }),
            _ => d.step(&mut s, Event::Go),
        };
    }
    panic!("the decoder does not leave: {a:?}");
}

#[test]
fn a_resampler_goes_on_to_the_next_track() {
    let (mut d, mut s) = playing(2, 44100, 10);
    let a = d.step(&mut s, Event::StreamEnded);
    assert_eq!(a, Action::Close(Closing::Keep));
    let (mut d, mut s) = playing(1, 44100, 10);
    let a = d.step(&mut s, Event::StreamEnded);
    assert_eq!(a, Action::Close(Closing::Flush));
}
