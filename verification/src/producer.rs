//! The decoder's run through a playlist, one step at a time.
//!
//! [`Decoder::step`] takes what has happened and says what to do next. Whoever
//! runs it opens the files, moves the samples, sleeps, and comes back with the
//! outcome. Positions are counted in frames of the output stream.
use crate::decode;
use crate::decode::producer_should_unstick;
use crate::state::{PlayerState, Preset, Feed, RepeatMode, TrackInfo, Transport, Device};
use crate::text;
use vstd::prelude::*;

verus! {

/// What was found out about a track when it was opened.
#[derive(Clone, Copy, Debug, PartialEq, Eq, Structural)]
pub struct TrackFormat {
    pub sample_rate: u32,
    pub channels: usize,
    pub bits_per_sample: u32,
    /// Frames, or 0 where that is unknown.
    pub total: u64,
}

/// How far the decoder is with a track.
#[derive(Clone, Copy, Debug, PartialEq, Eq, Structural)]
pub enum Stage {
    /// Ahead of a track.
    Head,
    /// The file is being opened.
    Opening,
    /// The previous track's resampler has been emptied.
    Flushed,
    /// A resampler is being made.
    Making,
    /// The previous track is still in the ring.
    Draining,
    /// The ring has been emptied, and the track can start.
    Starting,
    /// Packets are being decoded.
    Playing,
    /// A seek to this frame is under way.
    Seeking(u128),
    /// The decoder is being made anew for the next stream in the file.
    Rebuilding,
    /// The track was given up.
    Ended,
    /// The track's resampler is being dealt with.
    Closing,
    /// The next track's rate is being read.
    Probing,
    /// The stream has to be built anew at this rate.
    Switching(u32),
    /// The last track is still in the ring.
    Final,
    /// What was held back is being played out, and then the decoder leaves.
    Leaving,
    /// The decoder has left.
    Gone,
}

/// Where a seek came out.
#[derive(Clone, Copy, Debug, PartialEq, Eq, Structural)]
pub enum Landing {
    /// At this time.
    Reached { secs: u64, nanos: u32 },
    /// At the time that was asked for, as far as is known.
    Asked,
    /// Nowhere; decoding goes on from this time.
    Failed { secs: u64, nanos: u32 },
}

/// What has happened.
pub enum Event {
    /// The last action is done.
    Go,
    /// So many places of the ring are free.
    Look { free: usize },
    /// It did not work, for this reason.
    Failed(String),
    /// The file is open.
    Opened(TrackFormat),
    /// What was to be made is there.
    Made,
    Landed(Landing),
    /// There are no more packets.
    StreamEnded,
    /// Another stream begins in the file, with or without audio, and with its
    /// rate where that is known.
    NewLink(Option<Option<u32>>),
    /// The track's resampler has been dealt with; whether samples are held back.
    Closed { held: bool },
    /// The next track's rate, and the one that the device would reach for it.
    NextRate(Option<(u32, u32)>),
}

/// Which equaliser curve to load.
#[derive(Clone, Copy, Debug, PartialEq, Eq, Structural)]
pub enum EqLoad {
    Keep,
    Custom,
    Preset(usize),
}

/// What becomes of a track's resampler at the end of its input.
#[derive(Clone, Copy, Debug, PartialEq, Eq, Structural)]
pub enum Closing {
    /// There is none.
    Nothing,
    /// It goes on to the next track with the input it has not consumed.
    Keep,
    /// It is emptied.
    Flush,
    /// It is thrown away.
    Discard,
}

/// What to do next.
#[derive(Clone, Copy, Debug, PartialEq, Eq, Structural)]
pub enum Action {
    /// Open this track: [`Event::Opened`] or [`Event::Failed`].
    Open(usize),
    /// Go on with the resampler kept from the previous track.
    Reuse,
    /// Make a resampler: [`Event::Made`] or [`Event::Failed`].
    MakeResampler,
    /// Wait until the callback has drained the ring, and drop what is held back.
    DropQueued { reset_resampler: bool },
    /// Set the track up. The filters are reset where the audio jumps; held-back
    /// samples of the previous track fade out under this one.
    Start { reset_filters: bool, fade_in: bool, continued: bool },
    /// Wait until the callback has drained the ring, and seek:
    /// [`Event::Landed`].
    Seek(u128),
    /// Sleep for some milliseconds, and look at the ring.
    Sleep(u64),
    /// Load what has changed, and decode a packet: [`Event::Look`],
    /// [`Event::StreamEnded`] or [`Event::NewLink`].
    Decode { eq: EqLoad, effects: Option<usize>, crossfeed: Option<usize> },
    /// Make the decoder anew: [`Event::Made`] or [`Event::Failed`].
    RebuildDecoder,
    /// Deal with the resampler: [`Event::Closed`].
    Close(Closing),
    /// Play the held-back samples, empty the kept resampler, or both.
    PlayOut { tail: bool, carry: bool },
    /// Read the rate of this track: [`Event::NextRate`].
    ProbeNext(usize),
    /// Look at the ring: [`Event::Look`].
    Look,
    /// Leave.
    Exit,
}

/// The decoder's run through a playlist.
#[derive(Clone, Copy, Debug, PartialEq, Eq, Structural)]
pub struct Decoder {
    pub track_count: usize,
    pub output_rate: u32,
    pub ring_capacity: usize,
    /// Samples held back for a crossfade; 0 is no crossfade.
    pub crossfade_samples: usize,
    pub track_index: usize,
    /// No track has been set up yet.
    pub first: bool,
    /// The audio jumps where the next track starts.
    pub after_jump: bool,
    /// The last track whose audio reached the ring.
    pub last_track: Option<usize>,
    /// Where the next track is to start, if not at its beginning.
    pub start_at: Option<u128>,
    /// Samples of the previous track are held back to fade out.
    pub tail_held: bool,
    /// Source rate of the resampler kept from the previous track.
    pub carry_rate: Option<u32>,
    pub format: TrackFormat,
    /// The track is resampled.
    pub resampling: bool,
    /// The resampler still holds input of the previous track.
    pub continued: bool,
    /// The track was given up by a skip or a seek past its end.
    pub skipped: bool,
    pub stage: Stage,
}

/// A step's outcome: the decoder and the player after it, and what to do.
pub struct Turn {
    pub d: Decoder,
    pub s: PlayerState,
    pub a: Action,
}

/// The frame that a seek by `rel` seconds from frame `base` aims at.
pub open spec fn seek_target(base: int, rel: int, rate: int) -> int {
    text::most(base + rel * rate, 0)
}

/// Whether a frame of the output stream lies behind the end of the track. A
/// track of unknown length has no end.
pub open spec fn past_end(target: int, rate: int, total: int, sample_rate: int) -> bool {
    sample_rate > 0 && total > 0 && target * sample_rate >= total * rate
}

/// The frame that a time stands for, as far as it can be counted.
pub open spec fn frame_of(secs: int, nanos: int, rate: int) -> int {
    text::least((secs * 1_000_000_000 + nanos) * rate / 1_000_000_000, u64::MAX as int)
}

/// Where a pending seek leads, of a track that is decoded to its end but still
/// playing: nowhere without a request, to a frame, or out of the track.
pub open spec fn finished_target(s: PlayerState, rate: int) -> Option<Option<u128>> {
    let rel = s.transport.seek_request;
    if rel == 0 {
        None
    } else {
        let target = seek_target(s.track.samples_played as int, rel as int, rate);
        if past_end(target, rate, s.track.total_samples as int, s.track.sample_rate as int) {
            Some(None)
        } else {
            Some(Some(target as u128))
        }
    }
}

/// `s` with the seek request taken.
pub open spec fn seek_taken(s: PlayerState) -> PlayerState {
    PlayerState { transport: Transport { seek_request: 0, ..s.transport }, ..s }
}

/// `s` with the callback asked to drain the ring.
pub open spec fn draining(s: PlayerState) -> PlayerState {
    PlayerState { producer: Feed { reset_consumer_counter: true, ..s.producer }, ..s }
}

/// `s` after the news that the decoder went on to a track.
pub open spec fn signalled(s: PlayerState, index: usize) -> PlayerState {
    PlayerState {
        producer: Feed {
            producer_track_index: index,
            track_transition_count: if s.producer.track_transition_count == usize::MAX {
                0
            } else {
                (s.producer.track_transition_count + 1) as usize
            },
            ..s.producer
        },
        ..s
    }
}

/// The decoder leaves. It is done, unless it left for the stream to be built
/// anew.
#[verifier::opaque]
pub open spec fn exit_turn(d: Decoder, s: PlayerState) -> Turn {
    Turn {
        d: Decoder { stage: Stage::Gone, ..d },
        s: PlayerState {
            producer: Feed {
                producer_done: s.producer.producer_done || !s.device.rate_change_needed,
                ..s.producer
            },
            ..s
        },
        a: Action::Exit,
    }
}

/// The run is over. What is held back is played out, unless someone waits for
/// the decoder to leave.
#[verifier::opaque]
pub open spec fn finish_turn(d: Decoder, s: PlayerState) -> Turn {
    let tail = d.tail_held && !decode::must_leave(s);
    let carry = d.carry_rate is Some && !decode::must_leave(s);
    let d1 = Decoder { tail_held: false, carry_rate: None, ..d };
    if tail || carry {
        Turn { d: Decoder { stage: Stage::Leaving, ..d1 }, s, a: Action::PlayOut { tail, carry } }
    } else {
        exit_turn(d1, s)
    }
}

/// Ahead of a track: it is opened, unless the list is at its end or the decoder
/// has to leave.
#[verifier::opaque]
pub open spec fn head_turn(d: Decoder, s: PlayerState) -> Turn {
    if d.track_index >= d.track_count || decode::must_leave(s) {
        finish_turn(d, s)
    } else {
        Turn {
            d: Decoder { stage: Stage::Opening, ..d },
            s: PlayerState { producer: Feed { producer_decoding: d.track_index, ..s.producer }, ..s },
            a: Action::Open(d.track_index),
        }
    }
}

/// The next track.
#[verifier::opaque]
pub open spec fn next_turn(d: Decoder, s: PlayerState) -> Turn {
    head_turn(Decoder { track_index: (d.track_index + 1) as usize, ..d }, s)
}

/// A track that cannot be played is named as an error and passed over.
#[verifier::opaque]
pub open spec fn failed_turn(d: Decoder, s: PlayerState, why: String) -> Turn {
    let s1 = PlayerState { producer: Feed { decode_error: Some(why), ..s.producer }, ..s };
    next_turn(d, signalled(s1, (d.track_index + 1) as usize))
}

/// A resampler is made where the rates differ.
#[verifier::opaque]
pub open spec fn resampler_turn(d: Decoder, s: PlayerState) -> Turn {
    if d.resampling {
        Turn { d: Decoder { stage: Stage::Making, ..d }, s, a: Action::MakeResampler }
    } else {
        Turn { d: Decoder { stage: Stage::Draining, ..d }, s, a: Action::Look }
    }
}

/// A track is open. A kept resampler goes on at the same source rate, and is
/// emptied at any other.
#[verifier::opaque]
pub open spec fn opened_turn(d: Decoder, s: PlayerState, f: TrackFormat) -> Turn {
    let d1 = Decoder {
        format: f,
        resampling: f.sample_rate != d.output_rate,
        continued: false,
        skipped: false,
        carry_rate: None,
        ..d
    };
    match d.carry_rate {
        Some(r) => if d1.resampling && r == f.sample_rate {
            Turn { d: Decoder { continued: true, stage: Stage::Draining, ..d1 }, s, a: Action::Reuse }
        } else {
            Turn {
                d: Decoder { stage: Stage::Flushed, ..d1 },
                s,
                a: Action::PlayOut { tail: false, carry: true },
            }
        },
        None => resampler_turn(d1, s),
    }
}

/// The track is set up: the clock starts at 0, and lets pass what is queued.
#[verifier::opaque]
pub open spec fn start_turn(d: Decoder, s: PlayerState, free: usize) -> Turn {
    let s1 = PlayerState {
        track: TrackInfo {
            sample_rate: d.format.sample_rate,
            total_samples: d.format.total,
            samples_played: 0,
            channels: d.format.channels,
            bits_per_sample: d.format.bits_per_sample as usize,
            ..s.track
        },
        producer: Feed {
            track_info_ready: true,
            clock_preroll: ((d.ring_capacity - free) / 2) as u64,
            ..s.producer
        },
        ..s
    };
    Turn {
        d: Decoder {
            last_track: Some(d.track_index),
            first: false,
            tail_held: false,
            continued: false,
            skipped: false,
            stage: Stage::Playing,
            ..d
        },
        s: if d.first {
            s1
        } else {
            signalled(s1, d.track_index)
        },
        a: Action::Start {
            reset_filters: d.first || d.after_jump,
            fade_in: d.tail_held,
            continued: d.continued,
        },
    }
}

/// The ring still holds the previous track. A skip or a seek made meanwhile
/// belongs to that track: it drops what is left of it, and a seek to a place in
/// it opens it again.
#[verifier::opaque]
pub open spec fn draining_turn(d: Decoder, s: PlayerState, free: usize) -> Turn {
    let dropped = Decoder {
        tail_held: false,
        continued: false,
        after_jump: true,
        stage: Stage::Starting,
        ..d
    };
    let drop = Action::DropQueued { reset_resampler: d.continued };
    if d.first || d.ring_capacity - free <= d.output_rate {
        start_turn(d, s, free)
    } else if decode::must_leave(s) {
        finish_turn(d, s)
    } else if s.transport.skip_next {
        let s1 = PlayerState { transport: Transport { skip_next: false, ..s.transport }, ..s };
        Turn { d: dropped, s: draining(s1), a: drop }
    } else {
        match finished_target(s, d.output_rate as int) {
            Some(to) => Turn {
                d: if to is Some && d.last_track is Some {
                    Decoder {
                        track_index: d.last_track->0,
                        start_at: to,
                        stage: Stage::Head,
                        ..dropped
                    }
                } else {
                    dropped
                },
                s: draining(seek_taken(s)),
                a: drop,
            },
            None => Turn {
                d,
                s,
                a: Action::Sleep(
                    if s.transport.paused {
                        50
                    } else {
                        10
                    },
                ),
            },
        }
    }
}

/// The end of a track's input. Where the next track joins on without a
/// crossfade, the resampler is kept for it; else it is emptied. After a skip it
/// is thrown away.
#[verifier::opaque]
pub open spec fn close_turn(d: Decoder, s: PlayerState) -> Turn {
    let joins = s.transport.repeat_mode is One || d.track_index + 1 < d.track_count;
    let how = if !d.resampling {
        Closing::Nothing
    } else if d.skipped {
        Closing::Discard
    } else if d.crossfade_samples == 0 && joins {
        Closing::Keep
    } else {
        Closing::Flush
    };
    Turn {
        d: Decoder {
            carry_rate: if how is Keep {
                Some(d.format.sample_rate)
            } else {
                None
            },
            stage: Stage::Closing,
            ..d
        },
        s,
        a: Action::Close(how),
    }
}

/// The track is given up, and what is queued of it dropped.
#[verifier::opaque]
pub open spec fn give_up_turn(d: Decoder, s: PlayerState, free: usize) -> Turn {
    let d1 = Decoder { skipped: true, ..d };
    if d.ring_capacity - free > 0 {
        Turn {
            d: Decoder { stage: Stage::Ended, ..d1 },
            s: draining(s),
            a: Action::DropQueued { reset_resampler: false },
        }
    } else {
        close_turn(d1, s)
    }
}

/// The frame that is to be played next, where that is not the next one.
pub open spec fn wanted_frame(d: Decoder, s: PlayerState) -> Option<int> {
    let rel = s.transport.seek_request as int;
    match d.start_at {
        Some(t) => Some(seek_target(t as int, rel, d.output_rate as int)),
        None => if rel != 0 {
            Some(seek_target(s.track.samples_played as int, rel, d.output_rate as int))
        } else {
            None
        },
    }
}

/// The preset to load, where another was selected.
pub open spec fn preset_load(p: Preset) -> Option<usize> {
    if p.changed && p.index < p.count {
        Some(p.index)
    } else {
        None
    }
}

/// The curve to load, where another was selected or edited.
pub open spec fn eq_load(s: PlayerState) -> EqLoad {
    if !s.eq.changed {
        EqLoad::Keep
    } else if s.eq_custom {
        EqLoad::Custom
    } else if s.eq.index < s.eq.count {
        EqLoad::Preset(s.eq.index)
    } else {
        EqLoad::Keep
    }
}

/// A packet is decoded where the ring has room and playback is not paused. What
/// was selected meanwhile is loaded first.
#[verifier::opaque]
pub open spec fn decode_turn(d: Decoder, s: PlayerState, free: usize) -> Turn {
    if free < d.ring_capacity / 4 {
        Turn { d, s, a: Action::Sleep(20) }
    } else if s.transport.paused {
        Turn { d, s, a: Action::Sleep(50) }
    } else {
        Turn {
            d,
            s: PlayerState {
                eq: Preset { changed: false, ..s.eq },
                effects: Preset { changed: false, ..s.effects },
                crossfeed: Preset { changed: false, ..s.crossfeed },
                ..s
            },
            a: Action::Decode {
                eq: eq_load(s),
                effects: preset_load(s.effects),
                crossfeed: preset_load(s.crossfeed),
            },
        }
    }
}

/// A seek to a frame; past the end of the track it gives the track up.
#[verifier::opaque]
pub open spec fn go_to_turn(d: Decoder, s: PlayerState, free: usize, to: int) -> Turn {
    if past_end(to, d.output_rate as int, s.track.total_samples as int, s.track.sample_rate as int) {
        give_up_turn(d, s, free)
    } else {
        Turn {
            d: Decoder { stage: Stage::Seeking(to as u128), ..d },
            s: draining(s),
            a: Action::Seek(to as u128),
        }
    }
}

/// A packet is decoded once nothing else was asked for and there is room: a
/// skip gives the track up, and so does a seek past its end.
#[verifier::opaque]
pub open spec fn playing_turn(d: Decoder, s: PlayerState, free: usize) -> Turn {
    if decode::must_leave(s) {
        finish_turn(d, s)
    } else if s.transport.skip_next {
        let s1 = PlayerState { transport: Transport { skip_next: false, ..s.transport }, ..s };
        give_up_turn(d, s1, free)
    } else {
        let d1 = Decoder { start_at: None, ..d };
        match wanted_frame(d, s) {
            Some(to) => go_to_turn(d1, seek_taken(s), free, to),
            None => decode_turn(d1, seek_taken(s), free),
        }
    }
}

/// The clock goes to where a seek came out.
#[verifier::opaque]
pub open spec fn landed_turn(d: Decoder, s: PlayerState, asked: u128, l: Landing) -> Turn {
    let at = match l {
        Landing::Reached { secs, nanos } => frame_of(secs as int, nanos as int, d.output_rate as int),
        Landing::Asked => text::least(asked as int, u64::MAX as int),
        Landing::Failed { secs, nanos } => frame_of(secs as int, nanos as int, d.output_rate as int),
    };
    Turn {
        d: Decoder { stage: Stage::Playing, ..d },
        s: PlayerState {
            track: TrackInfo { samples_played: at as u64, ..s.track },
            producer: Feed { clock_preroll: 0, ..s.producer },
            ..s
        },
        a: Action::Look,
    }
}

/// Another stream in the file is played on where it has audio at the same rate.
#[verifier::opaque]
pub open spec fn link_turn(d: Decoder, s: PlayerState, link: Option<Option<u32>>) -> Turn {
    match link {
        Some(rate) => if rate is None || rate == Some(d.format.sample_rate) {
            Turn { d: Decoder { stage: Stage::Rebuilding, ..d }, s, a: Action::RebuildDecoder }
        } else {
            close_turn(d, s)
        },
        None => close_turn(d, s),
    }
}

/// The last track stays until it has played, so that a seek still reaches it.
#[verifier::opaque]
pub open spec fn last_turn(d: Decoder, s: PlayerState) -> Turn {
    if d.track_index + 1 >= d.track_count && !decode::must_leave(s) {
        Turn {
            d: Decoder { tail_held: false, stage: Stage::Final, ..d },
            s,
            a: if d.tail_held {
                Action::PlayOut { tail: true, carry: false }
            } else {
                Action::Look
            },
        }
    } else {
        next_turn(d, s)
    }
}

/// A track is closed. Repeated, it starts again without a crossfade; where the
/// device follows the files' rates, the next one's is read.
#[verifier::opaque]
pub open spec fn closed_turn(d: Decoder, s: PlayerState, held: bool) -> Turn {
    let d1 = Decoder {
        after_jump: d.skipped,
        tail_held: held && d.crossfade_samples > 0 && !d.skipped,
        ..d
    };
    if s.transport.repeat_mode is One && !d.skipped {
        if d1.tail_held {
            Turn {
                d: Decoder { tail_held: false, stage: Stage::Head, ..d1 },
                s,
                a: Action::PlayOut { tail: true, carry: false },
            }
        } else {
            head_turn(d1, s)
        }
    } else if s.device.exclusive && d.track_index + 1 < d.track_count {
        Turn {
            d: Decoder { stage: Stage::Probing, ..d1 },
            s,
            a: Action::ProbeNext((d.track_index + 1) as usize),
        }
    } else {
        last_turn(d1, s)
    }
}

/// The decoder leaves for the stream to be built at another rate.
#[verifier::opaque]
pub open spec fn switch_turn(d: Decoder, s: PlayerState, rate: u32) -> Turn {
    exit_turn(
        Decoder { track_index: (d.track_index + 1) as usize, ..d },
        PlayerState {
            device: Device { next_track_rate: rate, rate_change_needed: true, ..s.device },
            producer: Feed { producer_track_index: (d.track_index + 1) as usize, ..s.producer },
            ..s
        },
    )
}

/// The next track's rate is known. Where the device would follow it, nothing can
/// fade across: what is held back is played out first.
#[verifier::opaque]
pub open spec fn probed_turn(d: Decoder, s: PlayerState, next: Option<(u32, u32)>) -> Turn {
    match next {
        Some((rate, reached)) => if reached != d.output_rate {
            let d1 = Decoder { tail_held: false, carry_rate: None, stage: Stage::Switching(rate), ..d };
            if d.tail_held || d.carry_rate is Some {
                Turn {
                    d: d1,
                    s,
                    a: Action::PlayOut { tail: d.tail_held, carry: d.carry_rate is Some },
                }
            } else {
                switch_turn(d1, s, rate)
            }
        } else {
            last_turn(d, s)
        },
        None => last_turn(d, s),
    }
}

/// The last track is still in the ring: a seek to a place in it opens it again,
/// one past its end drops what is left.
#[verifier::opaque]
pub open spec fn final_turn(d: Decoder, s: PlayerState, free: usize) -> Turn {
    if decode::must_leave(s) || d.ring_capacity - free == 0 {
        next_turn(d, s)
    } else {
        match finished_target(s, d.output_rate as int) {
            Some(to) => Turn {
                d: match to {
                    Some(_) => Decoder {
                        track_index: match d.last_track {
                            Some(a) => a,
                            None => d.track_index,
                        },
                        start_at: to,
                        after_jump: true,
                        stage: Stage::Head,
                        ..d
                    },
                    None => Decoder {
                        track_index: (d.track_index + 1) as usize,
                        stage: Stage::Head,
                        ..d
                    },
                },
                s: draining(seek_taken(s)),
                a: Action::DropQueued { reset_resampler: false },
            },
            None => Turn { d, s, a: Action::Sleep(10) },
        }
    }
}

/// One step of the run. An event that does not belong to the stage changes
/// nothing, and the ring is to be looked at.
pub open spec fn turn(d: Decoder, s: PlayerState, ev: Event) -> Turn {
    let idle = Turn { d, s, a: Action::Look };
    match d.stage {
        Stage::Head => head_turn(d, s),
        Stage::Opening => match ev {
            Event::Opened(f) => opened_turn(d, s, f),
            Event::Failed(why) => failed_turn(d, s, why),
            _ => idle,
        },
        Stage::Flushed => resampler_turn(d, s),
        Stage::Making => match ev {
            Event::Made => Turn { d: Decoder { stage: Stage::Draining, ..d }, s, a: Action::Look },
            Event::Failed(why) => failed_turn(d, s, why),
            _ => idle,
        },
        Stage::Draining => match ev {
            Event::Look { free } => draining_turn(d, s, free),
            _ => idle,
        },
        Stage::Starting => match ev {
            Event::Look { free } => start_turn(d, s, free),
            _ => idle,
        },
        Stage::Playing => match ev {
            Event::Look { free } => playing_turn(d, s, free),
            Event::StreamEnded => close_turn(d, s),
            Event::NewLink(link) => link_turn(d, s, link),
            _ => idle,
        },
        Stage::Seeking(asked) => match ev {
            Event::Landed(l) => landed_turn(d, s, asked, l),
            _ => idle,
        },
        Stage::Rebuilding => match ev {
            Event::Made => Turn { d: Decoder { stage: Stage::Playing, ..d }, s, a: Action::Look },
            _ => close_turn(d, s),
        },
        Stage::Ended => close_turn(d, s),
        Stage::Closing => match ev {
            Event::Closed { held } => closed_turn(d, s, held),
            _ => idle,
        },
        Stage::Probing => match ev {
            Event::NextRate(next) => probed_turn(d, s, next),
            _ => idle,
        },
        Stage::Switching(rate) => switch_turn(d, s, rate),
        Stage::Final => match ev {
            Event::Look { free } => final_turn(d, s, free),
            _ => idle,
        },
        Stage::Leaving => exit_turn(d, s),
        Stage::Gone => Turn { d, s, a: Action::Exit },
    }
}

impl Decoder {
    /// A stage in which there is a track at hand.
    pub open spec fn busy(self) -> bool {
        !(self.stage is Head || self.stage is Leaving || self.stage is Gone)
    }

    /// The track at hand and the last one are tracks of the list.
    pub open spec fn wf(self) -> bool {
        &&& self.track_index <= self.track_count
        &&& self.busy() ==> self.track_index < self.track_count
        &&& self.last_track matches Some(a) ==> a < self.track_count
        &&& self.start_at matches Some(t) ==> t < 0x1_0000_0000_0000_0000_0000_0000_0000
    }

    /// Whether the ring can have so many free places.
    pub open spec fn admits(self, ev: Event) -> bool {
        ev matches Event::Look { free } ==> free <= self.ring_capacity
    }

    /// A run that starts at a track.
    pub fn new(
        track_count: usize,
        start_index: usize,
        output_rate: u32,
        ring_capacity: usize,
        crossfade_secs: u32,
    ) -> (d: Self)
        requires
            start_index <= track_count,
            crossfade_secs * output_rate * 2 <= usize::MAX,
        ensures
            d.wf(),
            d.stage is Head,
            d.first && !d.after_jump && !d.tail_held && !d.continued && !d.skipped && !d.resampling,
            d.track_count == track_count && d.track_index == start_index,
            d.output_rate == output_rate && d.ring_capacity == ring_capacity,
            d.crossfade_samples == crossfade_secs * output_rate * 2,
            d.last_track is None && d.start_at is None && d.carry_rate is None,
    {
        proof {
            assert(crossfade_secs * output_rate >= 0) by (nonlinear_arith);
            assert(crossfade_secs * output_rate * 2 == (crossfade_secs * output_rate) * 2);
        }
        Decoder {
            track_count,
            output_rate,
            ring_capacity,
            crossfade_samples: crossfade_secs as usize * output_rate as usize * 2,
            track_index: start_index,
            first: true,
            after_jump: false,
            last_track: None,
            start_at: None,
            tail_held: false,
            carry_rate: None,
            format: TrackFormat { sample_rate: 44100, channels: 2, bits_per_sample: 16, total: 0 },
            resampling: false,
            continued: false,
            skipped: false,
            stage: Stage::Head,
        }
    }

    fn exit(&mut self, state: &mut PlayerState) -> (a: Action)
        ensures
            (Turn { d: *final(self), s: *final(state), a }) == exit_turn(*old(self), *old(state)),
    {
        proof {
            reveal(exit_turn);
        }
        self.stage = Stage::Gone;
        if !state.device.rate_change_needed {
            state.producer.producer_done = true;
        }
        Action::Exit
    }

    fn finish(&mut self, state: &mut PlayerState) -> (a: Action)
        ensures
            (Turn { d: *final(self), s: *final(state), a }) == finish_turn(*old(self), *old(state)),
    {
        proof {
            reveal(finish_turn);
        }
        let leave: bool = producer_should_unstick(state);
        let tail: bool = self.tail_held && !leave;
        let carry: bool = self.carry_rate.is_some() && !leave;
        self.tail_held = false;
        self.carry_rate = None;
        if tail || carry {
            self.stage = Stage::Leaving;
            Action::PlayOut { tail, carry }
        } else {
            self.exit(state)
        }
    }

    fn head(&mut self, state: &mut PlayerState) -> (a: Action)
        ensures
            (Turn { d: *final(self), s: *final(state), a }) == head_turn(*old(self), *old(state)),
    {
        proof {
            reveal(head_turn);
        }
        if self.track_index >= self.track_count || producer_should_unstick(state) {
            self.finish(state)
        } else {
            self.stage = Stage::Opening;
            state.producer.producer_decoding = self.track_index;
            Action::Open(self.track_index)
        }
    }

    fn next(&mut self, state: &mut PlayerState) -> (a: Action)
        requires
            old(self).track_index < old(self).track_count,
        ensures
            (Turn { d: *final(self), s: *final(state), a }) == next_turn(*old(self), *old(state)),
    {
        proof {
            reveal(next_turn);
        }
        self.track_index = self.track_index + 1;
        self.head(state)
    }

    fn failed(&mut self, state: &mut PlayerState, why: String) -> (a: Action)
        requires
            old(self).track_index < old(self).track_count,
        ensures
            (Turn { d: *final(self), s: *final(state), a }) == failed_turn(*old(self), *old(state), why),
    {
        proof {
            reveal(failed_turn);
        }
        state.producer.decode_error = Some(why);
        state.signal_next_track(self.track_index + 1);
        self.next(state)
    }

    fn resampler(&mut self, state: &mut PlayerState) -> (a: Action)
        ensures
            (Turn { d: *final(self), s: *final(state), a }) == resampler_turn(*old(self), *old(state)),
    {
        proof {
            reveal(resampler_turn);
        }
        if self.resampling {
            self.stage = Stage::Making;
            Action::MakeResampler
        } else {
            self.stage = Stage::Draining;
            Action::Look
        }
    }

    fn opened(&mut self, state: &mut PlayerState, f: TrackFormat) -> (a: Action)
        ensures
            (Turn { d: *final(self), s: *final(state), a }) == opened_turn(*old(self), *old(state), f),
    {
        proof {
            reveal(opened_turn);
        }
        let kept: Option<u32> = self.carry_rate;
        self.format = f;
        self.resampling = f.sample_rate != self.output_rate;
        self.continued = false;
        self.skipped = false;
        self.carry_rate = None;
        match kept {
            Some(r) => {
                if self.resampling && r == f.sample_rate {
                    self.continued = true;
                    self.stage = Stage::Draining;
                    Action::Reuse
                } else {
                    self.stage = Stage::Flushed;
                    Action::PlayOut { tail: false, carry: true }
                }
            },
            None => self.resampler(state),
        }
    }

    fn start(&mut self, state: &mut PlayerState, free: usize) -> (a: Action)
        requires
            free <= old(self).ring_capacity,
        ensures
            (Turn { d: *final(self), s: *final(state), a }) == start_turn(*old(self), *old(state), free),
    {
        proof {
            reveal(start_turn);
        }
        let a: Action = Action::Start {
            reset_filters: self.first || self.after_jump,
            fade_in: self.tail_held,
            continued: self.continued,
        };
        state.track.sample_rate = self.format.sample_rate;
        state.track.total_samples = self.format.total;
        state.track.samples_played = 0;
        state.track.channels = self.format.channels;
        state.track.bits_per_sample = self.format.bits_per_sample as usize;
        state.producer.track_info_ready = true;
        state.producer.clock_preroll = ((self.ring_capacity - free) / 2) as u64;
        if !self.first {
            state.signal_next_track(self.track_index);
        }
        self.last_track = Some(self.track_index);
        self.first = false;
        self.tail_held = false;
        self.continued = false;
        self.skipped = false;
        self.stage = Stage::Playing;
        a
    }

    fn close(&mut self, state: &mut PlayerState) -> (a: Action)
        requires
            old(self).track_index < old(self).track_count,
        ensures
            (Turn { d: *final(self), s: *final(state), a }) == close_turn(*old(self), *old(state)),
    {
        proof {
            reveal(close_turn);
        }
        let repeats: bool = match state.transport.repeat_mode {
            RepeatMode::One => true,
            _ => false,
        };
        let joins: bool = repeats || self.track_index + 1 < self.track_count;
        let how: Closing = if !self.resampling {
            Closing::Nothing
        } else if self.skipped {
            Closing::Discard
        } else if self.crossfade_samples == 0 && joins {
            Closing::Keep
        } else {
            Closing::Flush
        };
        self.carry_rate = match how {
            Closing::Keep => Some(self.format.sample_rate),
            _ => None,
        };
        self.stage = Stage::Closing;
        Action::Close(how)
    }

    fn give_up(&mut self, state: &mut PlayerState, free: usize) -> (a: Action)
        requires
            old(self).track_index < old(self).track_count,
            free <= old(self).ring_capacity,
        ensures
            (Turn { d: *final(self), s: *final(state), a }) == give_up_turn(*old(self), *old(state), free),
    {
        proof {
            reveal(give_up_turn);
        }
        self.skipped = true;
        if self.ring_capacity - free > 0 {
            self.stage = Stage::Ended;
            state.producer.reset_consumer_counter = true;
            Action::DropQueued { reset_resampler: false }
        } else {
            self.close(state)
        }
    }

    fn last(&mut self, state: &mut PlayerState) -> (a: Action)
        requires
            old(self).track_index < old(self).track_count,
        ensures
            (Turn { d: *final(self), s: *final(state), a }) == last_turn(*old(self), *old(state)),
    {
        proof {
            reveal(last_turn);
        }
        if self.track_index + 1 >= self.track_count && !producer_should_unstick(state) {
            let tail: bool = self.tail_held;
            self.tail_held = false;
            self.stage = Stage::Final;
            if tail {
                Action::PlayOut { tail: true, carry: false }
            } else {
                Action::Look
            }
        } else {
            self.next(state)
        }
    }

    fn switch(&mut self, state: &mut PlayerState, rate: u32) -> (a: Action)
        requires
            old(self).track_index < old(self).track_count,
        ensures
            (Turn { d: *final(self), s: *final(state), a }) == switch_turn(*old(self), *old(state), rate),
    {
        proof {
            reveal(switch_turn);
        }
        state.device.next_track_rate = rate;
        state.device.rate_change_needed = true;
        self.track_index = self.track_index + 1;
        state.producer.producer_track_index = self.track_index;
        self.exit(state)
    }
}

/// The frame a seek aims at.
fn seek_frame(base: u128, rel: i64, rate: u32) -> (r: u128)
    requires
        base < 0x1_0000_0000_0000_0000_0000_0000_0000,
    ensures
        r == seek_target(base as int, rel as int, rate as int),
{
    proof {
        assert(-0x8000_0000_0000_0000 * 0xffff_ffff <= rel * rate <= 0x8000_0000_0000_0000 * 0xffff_ffff)
            by (nonlinear_arith)
            requires
                -0x8000_0000_0000_0000 <= rel <= 0x7fff_ffff_ffff_ffff,
                0 <= rate <= 0xffff_ffff,
        ;
    }
    let t: i128 = base as i128 + rel as i128 * rate as i128;
    if t < 0 {
        0
    } else {
        t as u128
    }
}

proof fn lemma_seek_bound(base: int, rel: int, rate: int)
    requires
        0 <= base <= u64::MAX,
        i64::MIN <= rel <= i64::MAX,
        0 <= rate <= u32::MAX,
    ensures
        0 <= seek_target(base, rel, rate) < 0x1_0000_0000_0000_0000_0000_0000_0000,
{
    assert(rel * rate <= 0x8000_0000_0000_0000 * 0xffff_ffff) by (nonlinear_arith)
        requires
            rel <= 0x7fff_ffff_ffff_ffff,
            0 <= rate <= 0xffff_ffff,
    ;
}

/// Whether a frame lies behind the end of the track.
fn beyond(target: u128, rate: u32, total: u64, sample_rate: u32) -> (r: bool)
    ensures
        r == past_end(target as int, rate as int, total as int, sample_rate as int),
{
    if sample_rate == 0 || total == 0 {
        return false;
    }
    proof {
        assert(0 <= total * rate <= 0xffff_ffff_ffff_ffff * 0xffff_ffff) by (nonlinear_arith)
            requires
                0 <= total <= 0xffff_ffff_ffff_ffff,
                0 <= rate <= 0xffff_ffff,
        ;
    }
    let all: u128 = total as u128 * rate as u128;
    let end: u128 = (all + sample_rate as u128 - 1) / sample_rate as u128;
    proof {
        let n = all as int;
        let d = sample_rate as int;
        let e = end as int;
        assert(e == (n + d - 1) / d);
        assert(e * d >= n && (e - 1) * d < n) by (nonlinear_arith)
            requires
                e == (n + d - 1) / d,
                d > 0,
        ;
        let t = target as int;
        if t >= e {
            assert(t * d >= n) by (nonlinear_arith)
                requires
                    t >= e,
                    e * d >= n,
                    d > 0,
            ;
        } else {
            assert(t * d < n) by (nonlinear_arith)
                requires
                    t <= e - 1,
                    (e - 1) * d < n,
                    d > 0,
            ;
        }
    }
    target >= end
}

/// The frame a time stands for.
fn frame_at(secs: u64, nanos: u32, rate: u32) -> (r: u64)
    ensures
        r == frame_of(secs as int, nanos as int, rate as int),
{
    proof {
        assert(0 <= (secs * 1_000_000_000 + nanos) * rate <= (0xffff_ffff_ffff_ffff * 1_000_000_000
            + 0xffff_ffff) * 0xffff_ffff) by (nonlinear_arith)
            requires
                0 <= secs <= 0xffff_ffff_ffff_ffff,
                0 <= nanos <= 0xffff_ffff,
                0 <= rate <= 0xffff_ffff,
        ;
    }
    let n: u128 = (secs as u128 * 1_000_000_000 + nanos as u128) * rate as u128 / 1_000_000_000;
    if n > u64::MAX as u128 {
        u64::MAX
    } else {
        n as u64
    }
}

/// Takes a seek that is meant for a track whose decoding has ended while it
/// still plays: `None` without one, `Some(None)` where it leads past the end.
fn take_seek_for_finished_track(state: &mut PlayerState, rate: u32) -> (r: Option<Option<u128>>)
    ensures
        r == finished_target(*old(state), rate as int),
        *final(state) == seek_taken(*old(state)),
        r matches Some(Some(t)) ==> t < 0x1_0000_0000_0000_0000_0000_0000_0000,
{
    let rel: i64 = state.take_seek();
    if rel == 0 {
        return None;
    }
    proof {
        lemma_seek_bound(state.track.samples_played as int, rel as int, rate as int);
    }
    let target: u128 = seek_frame(state.track.samples_played as u128, rel, rate);
    if beyond(target, rate, state.track.total_samples, state.track.sample_rate) {
        Some(None)
    } else {
        Some(Some(target))
    }
}

fn take_preset(p: &mut Preset) -> (r: Option<usize>)
    ensures
        r == preset_load(*old(p)),
        *final(p) == (Preset { changed: false, ..*old(p) }),
{
    let changed: bool = p.changed;
    p.changed = false;
    if changed && p.index < p.count {
        Some(p.index)
    } else {
        None
    }
}

impl Decoder {
    fn draining(&mut self, state: &mut PlayerState, free: usize) -> (a: Action)
        requires
            free <= old(self).ring_capacity,
        ensures
            (Turn { d: *final(self), s: *final(state), a }) == draining_turn(*old(self), *old(state), free),
    {
        proof {
            reveal(draining_turn);
        }
        if self.first || self.ring_capacity - free <= self.output_rate as usize {
            return self.start(state, free);
        }
        if producer_should_unstick(state) {
            return self.finish(state);
        }
        let drop: Action = Action::DropQueued { reset_resampler: self.continued };
        if state.take_skip_next() {
            state.producer.reset_consumer_counter = true;
            self.tail_held = false;
            self.continued = false;
            self.after_jump = true;
            self.stage = Stage::Starting;
            return drop;
        }
        match take_seek_for_finished_track(state, self.output_rate) {
            Some(to) => {
                state.producer.reset_consumer_counter = true;
                self.tail_held = false;
                self.continued = false;
                self.after_jump = true;
                self.stage = Stage::Starting;
                match (to, self.last_track) {
                    (Some(_), Some(a)) => {
                        self.track_index = a;
                        self.start_at = to;
                        self.stage = Stage::Head;
                    },
                    _ => {},
                }
                drop
            },
            None => {
                if state.transport.paused {
                    Action::Sleep(50)
                } else {
                    Action::Sleep(10)
                }
            },
        }
    }

    fn decode(&mut self, state: &mut PlayerState, free: usize) -> (a: Action)
        ensures
            (Turn { d: *final(self), s: *final(state), a }) == decode_turn(*old(self), *old(state), free),
    {
        proof {
            reveal(decode_turn);
        }
        if free < self.ring_capacity / 4 {
            return Action::Sleep(20);
        }
        if state.transport.paused {
            return Action::Sleep(50);
        }
        let eq: EqLoad = if !state.eq.changed {
            EqLoad::Keep
        } else if state.eq_custom {
            EqLoad::Custom
        } else if state.eq.index < state.eq.count {
            EqLoad::Preset(state.eq.index)
        } else {
            EqLoad::Keep
        };
        state.eq.changed = false;
        let effects: Option<usize> = take_preset(&mut state.effects);
        let crossfeed: Option<usize> = take_preset(&mut state.crossfeed);
        Action::Decode { eq, effects, crossfeed }
    }

    fn go_to(&mut self, state: &mut PlayerState, free: usize, to: u128) -> (a: Action)
        requires
            old(self).track_index < old(self).track_count,
            free <= old(self).ring_capacity,
        ensures
            (Turn { d: *final(self), s: *final(state), a }) == go_to_turn(
                *old(self),
                *old(state),
                free,
                to as int,
            ),
    {
        proof {
            reveal(go_to_turn);
        }
        if beyond(to, self.output_rate, state.track.total_samples, state.track.sample_rate) {
            return self.give_up(state, free);
        }
        self.stage = Stage::Seeking(to);
        state.producer.reset_consumer_counter = true;
        Action::Seek(to)
    }

    fn playing(&mut self, state: &mut PlayerState, free: usize) -> (a: Action)
        requires
            old(self).wf(),
            old(self).track_index < old(self).track_count,
            free <= old(self).ring_capacity,
        ensures
            (Turn { d: *final(self), s: *final(state), a }) == playing_turn(*old(self), *old(state), free),
    {
        proof {
            reveal(playing_turn);
        }
        if producer_should_unstick(state) {
            return self.finish(state);
        }
        if state.take_skip_next() {
            return self.give_up(state, free);
        }
        assert(*state == *old(state));
        let rel: i64 = state.take_seek();
        assert(*state == seek_taken(*old(state)));
        let to: Option<u128> = match self.start_at {
            Some(t) => Some(seek_frame(t, rel, self.output_rate)),
            None => if rel != 0 {
                Some(seek_frame(state.track.samples_played as u128, rel, self.output_rate))
            } else {
                None
            },
        };
        self.start_at = None;
        match to {
            Some(f) => self.go_to(state, free, f),
            None => self.decode(state, free),
        }
    }

    fn landed(&mut self, state: &mut PlayerState, asked: u128, l: Landing) -> (a: Action)
        ensures
            (Turn { d: *final(self), s: *final(state), a }) == landed_turn(
                *old(self),
                *old(state),
                asked,
                l,
            ),
    {
        proof {
            reveal(landed_turn);
        }
        let at: u64 = match l {
            Landing::Reached { secs, nanos } => frame_at(secs, nanos, self.output_rate),
            Landing::Asked => if asked > u64::MAX as u128 {
                u64::MAX
            } else {
                asked as u64
            },
            Landing::Failed { secs, nanos } => frame_at(secs, nanos, self.output_rate),
        };
        self.stage = Stage::Playing;
        state.track.samples_played = at;
        state.producer.clock_preroll = 0;
        Action::Look
    }

    fn link(&mut self, state: &mut PlayerState, link: Option<Option<u32>>) -> (a: Action)
        requires
            old(self).track_index < old(self).track_count,
        ensures
            (Turn { d: *final(self), s: *final(state), a }) == link_turn(*old(self), *old(state), link),
    {
        proof {
            reveal(link_turn);
        }
        match link {
            Some(rate) => {
                let same: bool = match rate {
                    Some(r) => r == self.format.sample_rate,
                    None => true,
                };
                if same {
                    self.stage = Stage::Rebuilding;
                    Action::RebuildDecoder
                } else {
                    self.close(state)
                }
            },
            None => self.close(state),
        }
    }

    fn closed(&mut self, state: &mut PlayerState, held: bool) -> (a: Action)
        requires
            old(self).track_index < old(self).track_count,
        ensures
            (Turn { d: *final(self), s: *final(state), a }) == closed_turn(*old(self), *old(state), held),
    {
        proof {
            reveal(closed_turn);
        }
        self.after_jump = self.skipped;
        self.tail_held = held && self.crossfade_samples > 0 && !self.skipped;
        let repeats: bool = match state.transport.repeat_mode {
            RepeatMode::One => true,
            _ => false,
        };
        if repeats && !self.skipped {
            if self.tail_held {
                self.tail_held = false;
                self.stage = Stage::Head;
                Action::PlayOut { tail: true, carry: false }
            } else {
                self.head(state)
            }
        } else if state.device.exclusive && self.track_index + 1 < self.track_count {
            self.stage = Stage::Probing;
            Action::ProbeNext(self.track_index + 1)
        } else {
            self.last(state)
        }
    }

    fn probed(&mut self, state: &mut PlayerState, next: Option<(u32, u32)>) -> (a: Action)
        requires
            old(self).track_index < old(self).track_count,
        ensures
            (Turn { d: *final(self), s: *final(state), a }) == probed_turn(*old(self), *old(state), next),
    {
        proof {
            reveal(probed_turn);
        }
        match next {
            Some((rate, reached)) => {
                if reached != self.output_rate {
                    let tail: bool = self.tail_held;
                    let carry: bool = self.carry_rate.is_some();
                    self.tail_held = false;
                    self.carry_rate = None;
                    self.stage = Stage::Switching(rate);
                    if tail || carry {
                        Action::PlayOut { tail, carry }
                    } else {
                        self.switch(state, rate)
                    }
                } else {
                    self.last(state)
                }
            },
            None => self.last(state),
        }
    }

    fn wait_out_final_tail(&mut self, state: &mut PlayerState, free: usize) -> (a: Action)
        requires
            old(self).track_index < old(self).track_count,
            free <= old(self).ring_capacity,
        ensures
            (Turn { d: *final(self), s: *final(state), a }) == final_turn(*old(self), *old(state), free),
    {
        proof {
            reveal(final_turn);
        }
        if producer_should_unstick(state) || self.ring_capacity - free == 0 {
            return self.next(state);
        }
        match take_seek_for_finished_track(state, self.output_rate) {
            Some(to) => {
                state.producer.reset_consumer_counter = true;
                self.stage = Stage::Head;
                match to {
                    Some(_) => {
                        match self.last_track {
                            Some(a) => {
                                self.track_index = a;
                            },
                            None => {},
                        }
                        self.start_at = to;
                        self.after_jump = true;
                    },
                    None => {
                        self.track_index = self.track_index + 1;
                    },
                }
                Action::DropQueued { reset_resampler: false }
            },
            None => Action::Sleep(10),
        }
    }

    /// Takes what has happened, and says what to do next.
    pub fn step(&mut self, state: &mut PlayerState, ev: Event) -> (a: Action)
        requires
            old(self).wf(),
            old(self).admits(ev),
        ensures
            (Turn { d: *final(self), s: *final(state), a }) == turn(*old(self), *old(state), ev),
            final(self).wf(),
    {
        proof {
            step_keeps_within_the_list(*self, *state, ev);
        }
        match self.stage {
            Stage::Head => self.head(state),
            Stage::Opening => match ev {
                Event::Opened(f) => self.opened(state, f),
                Event::Failed(why) => self.failed(state, why),
                _ => Action::Look,
            },
            Stage::Flushed => self.resampler(state),
            Stage::Making => match ev {
                Event::Made => {
                    self.stage = Stage::Draining;
                    Action::Look
                },
                Event::Failed(why) => self.failed(state, why),
                _ => Action::Look,
            },
            Stage::Draining => match ev {
                Event::Look { free } => self.draining(state, free),
                _ => Action::Look,
            },
            Stage::Starting => match ev {
                Event::Look { free } => self.start(state, free),
                _ => Action::Look,
            },
            Stage::Playing => match ev {
                Event::Look { free } => self.playing(state, free),
                Event::StreamEnded => self.close(state),
                Event::NewLink(link) => self.link(state, link),
                _ => Action::Look,
            },
            Stage::Seeking(asked) => match ev {
                Event::Landed(l) => self.landed(state, asked, l),
                _ => Action::Look,
            },
            Stage::Rebuilding => match ev {
                Event::Made => {
                    self.stage = Stage::Playing;
                    Action::Look
                },
                _ => self.close(state),
            },
            Stage::Ended => self.close(state),
            Stage::Closing => match ev {
                Event::Closed { held } => self.closed(state, held),
                _ => Action::Look,
            },
            Stage::Probing => match ev {
                Event::NextRate(next) => self.probed(state, next),
                _ => Action::Look,
            },
            Stage::Switching(rate) => self.switch(state, rate),
            Stage::Final => match ev {
                Event::Look { free } => self.wait_out_final_tail(state, free),
                _ => Action::Look,
            },
            Stage::Leaving => self.exit(state),
            Stage::Gone => Action::Exit,
        }
    }
}

/// A step keeps to the tracks of the list, and so does what it asks for.
pub open spec fn keeps_to_list(t: Turn, d: Decoder) -> bool {
    &&& t.d.wf()
    &&& t.a matches Action::Open(i) ==> i < d.track_count
    &&& t.a matches Action::ProbeNext(i) ==> i < d.track_count
    &&& t.d.track_count == d.track_count
}

proof fn lemma_head_keeps(d: Decoder, s: PlayerState)
    requires
        (Decoder { stage: Stage::Head, ..d }).wf(),
    ensures
        keeps_to_list(head_turn(d, s), d),
        keeps_to_list(finish_turn(d, s), d),
{
    reveal(head_turn);
    reveal(finish_turn);
    reveal(exit_turn);
}

proof fn lemma_next_keeps(d: Decoder, s: PlayerState)
    requires
        (Decoder { stage: Stage::Head, ..d }).wf(),
        d.track_index < d.track_count,
    ensures
        keeps_to_list(next_turn(d, s), d),
        keeps_to_list(last_turn(d, s), d),
        keeps_to_list(close_turn(d, s), d),
{
    reveal(next_turn);
    reveal(last_turn);
    reveal(close_turn);
    lemma_head_keeps(Decoder { track_index: (d.track_index + 1) as usize, ..d }, s);
}

proof fn lemma_draining_keeps(d: Decoder, s: PlayerState, free: usize)
    requires
        d.wf(),
        d.track_index < d.track_count,
        free <= d.ring_capacity,
    ensures
        keeps_to_list(draining_turn(d, s, free), d),
        keeps_to_list(start_turn(d, s, free), d),
{
    reveal(draining_turn);
    reveal(start_turn);
    lemma_head_keeps(d, s);
    lemma_seek_bound(
        s.track.samples_played as int,
        s.transport.seek_request as int,
        d.output_rate as int,
    );
}

proof fn lemma_final_keeps(d: Decoder, s: PlayerState, free: usize)
    requires
        d.wf(),
        d.track_index < d.track_count,
        free <= d.ring_capacity,
        d.stage is Final,
    ensures
        keeps_to_list(final_turn(d, s, free), d),
{
    reveal(final_turn);
    lemma_next_keeps(d, s);
    lemma_seek_bound(
        s.track.samples_played as int,
        s.transport.seek_request as int,
        d.output_rate as int,
    );
}

proof fn lemma_give_up_keeps(d: Decoder, s: PlayerState, free: usize)
    requires
        d.wf(),
        d.track_index < d.track_count,
        free <= d.ring_capacity,
    ensures
        keeps_to_list(give_up_turn(d, s, free), d),
{
    reveal(give_up_turn);
    lemma_next_keeps(Decoder { skipped: true, ..d }, s);
}

proof fn lemma_playing_keeps(d: Decoder, s: PlayerState, free: usize)
    requires
        d.wf(),
        d.track_index < d.track_count,
        free <= d.ring_capacity,
    ensures
        keeps_to_list(playing_turn(d, s, free), d),
{
    reveal(playing_turn);
    reveal(go_to_turn);
    reveal(decode_turn);
    lemma_head_keeps(d, s);
    let s1 = PlayerState { transport: Transport { skip_next: false, ..s.transport }, ..s };
    lemma_give_up_keeps(d, s1, free);
    lemma_give_up_keeps(Decoder { start_at: None, ..d }, seek_taken(s), free);
}

proof fn lemma_closed_keeps(d: Decoder, s: PlayerState, held: bool)
    requires
        d.wf(),
        d.track_index < d.track_count,
    ensures
        keeps_to_list(closed_turn(d, s, held), d),
{
    reveal(closed_turn);
    let d1 = Decoder {
        after_jump: d.skipped,
        tail_held: held && d.crossfade_samples > 0 && !d.skipped,
        ..d
    };
    lemma_head_keeps(d1, s);
    lemma_next_keeps(d1, s);
}

proof fn lemma_failed_keeps(d: Decoder, s: PlayerState, why: String)
    requires
        d.wf(),
        d.track_index < d.track_count,
    ensures
        keeps_to_list(failed_turn(d, s, why), d),
{
    reveal(failed_turn);
    let s1 = PlayerState { producer: Feed { decode_error: Some(why), ..s.producer }, ..s };
    lemma_next_keeps(d, signalled(s1, (d.track_index + 1) as usize));
}

proof fn lemma_opened_keeps(d: Decoder, s: PlayerState, f: TrackFormat)
    requires
        d.wf(),
        d.track_index < d.track_count,
    ensures
        keeps_to_list(opened_turn(d, s, f), d),
        keeps_to_list(resampler_turn(d, s), d),
{
    reveal(opened_turn);
    reveal(resampler_turn);
}

proof fn lemma_landed_keeps(d: Decoder, s: PlayerState, asked: u128, l: Landing)
    requires
        d.wf(),
        d.track_index < d.track_count,
    ensures
        keeps_to_list(landed_turn(d, s, asked, l), d),
{
    reveal(landed_turn);
}

proof fn lemma_link_keeps(d: Decoder, s: PlayerState, link: Option<Option<u32>>)
    requires
        d.wf(),
        d.track_index < d.track_count,
    ensures
        keeps_to_list(link_turn(d, s, link), d),
{
    reveal(link_turn);
    lemma_next_keeps(d, s);
}

proof fn lemma_switch_keeps(d: Decoder, s: PlayerState, rate: u32)
    requires
        d.wf(),
        d.track_index < d.track_count,
    ensures
        keeps_to_list(switch_turn(d, s, rate), d),
{
    reveal(switch_turn);
    reveal(exit_turn);
}

proof fn lemma_probed_keeps(d: Decoder, s: PlayerState, next: Option<(u32, u32)>)
    requires
        d.wf(),
        d.track_index < d.track_count,
    ensures
        keeps_to_list(probed_turn(d, s, next), d),
{
    reveal(probed_turn);
    lemma_next_keeps(d, s);
    match next {
        Some((rate, _)) => {
            lemma_switch_keeps(
                Decoder { tail_held: false, carry_rate: None, stage: Stage::Switching(rate), ..d },
                s,
                rate,
            );
        },
        None => {},
    }
}

proof fn lemma_exit_keeps(d: Decoder, s: PlayerState)
    requires
        (Decoder { stage: Stage::Head, ..d }).wf(),
    ensures
        keeps_to_list(exit_turn(d, s), d),
{
    reveal(exit_turn);
}

/// Every step keeps to the tracks of the list, and so does what it asks for.
pub proof fn step_keeps_within_the_list(d: Decoder, s: PlayerState, ev: Event)
    requires
        d.wf(),
        d.admits(ev),
    ensures
        keeps_to_list(turn(d, s, ev), d),
{
    match d.stage {
        Stage::Head => {
            lemma_head_keeps(d, s);
        },
        Stage::Opening | Stage::Making => {
            match ev {
                Event::Failed(why) => {
                    lemma_failed_keeps(d, s, why);
                },
                Event::Opened(f) => {
                    lemma_opened_keeps(d, s, f);
                },
                _ => {},
            }
        },
        Stage::Flushed => {
            lemma_opened_keeps(d, s, d.format);
        },
        Stage::Draining | Stage::Starting => {
            match ev {
                Event::Look { free } => {
                    lemma_draining_keeps(d, s, free);
                },
                _ => {},
            }
        },
        Stage::Playing => {
            lemma_next_keeps(d, s);
            match ev {
                Event::Look { free } => {
                    lemma_playing_keeps(d, s, free);
                },
                Event::NewLink(link) => {
                    lemma_link_keeps(d, s, link);
                },
                _ => {},
            }
        },
        Stage::Seeking(asked) => {
            match ev {
                Event::Landed(l) => {
                    lemma_landed_keeps(d, s, asked, l);
                },
                _ => {},
            }
        },
        Stage::Rebuilding | Stage::Ended => {
            lemma_next_keeps(d, s);
        },
        Stage::Closing => {
            match ev {
                Event::Closed { held } => {
                    lemma_closed_keeps(d, s, held);
                },
                _ => {},
            }
        },
        Stage::Probing => {
            match ev {
                Event::NextRate(next) => {
                    lemma_probed_keeps(d, s, next);
                },
                _ => {},
            }
        },
        Stage::Switching(rate) => {
            lemma_switch_keeps(d, s, rate);
        },
        Stage::Final => {
            match ev {
                Event::Look { free } => {
                    lemma_final_keeps(d, s, free);
                },
                _ => {},
            }
        },
        Stage::Leaving => {
            lemma_exit_keeps(d, s);
        },
        Stage::Gone => {},
    }
}

/// Whoever waits for the decoder to leave does not wait for the ring: where it
/// has to, any look at the ring while a track plays, or the last one has played,
/// makes it leave at once, and so does any wait for the previous track.
pub proof fn leaving_waits_for_nothing(d: Decoder, s: PlayerState, free: usize)
    requires
        d.wf(),
        free <= d.ring_capacity,
        decode::must_leave(s),
        d.stage is Head || d.stage is Playing || d.stage is Final || (d.stage is Draining && !d.first
            && d.ring_capacity - free > d.output_rate),
    ensures
        turn(d, s, Event::Look { free }).a is Exit,
{
    reveal(head_turn);
    reveal(finish_turn);
    reveal(exit_turn);
    reveal(draining_turn);
    reveal(playing_turn);
    reveal(final_turn);
    reveal(next_turn);
}

/// A track that starts once the ring is nearly empty is left at the next look.
pub proof fn leaving_takes_two_looks_at_most(d: Decoder, s: PlayerState, free: usize, later: usize)
    requires
        d.wf(),
        free <= d.ring_capacity,
        later <= d.ring_capacity,
        decode::must_leave(s),
        d.stage is Draining || d.stage is Starting,
    ensures
        ({
            let one = turn(d, s, Event::Look { free });
            one.a is Exit || turn(one.d, one.s, Event::Look { free: later }).a is Exit
        }),
{
    reveal(start_turn);
    reveal(finish_turn);
    reveal(exit_turn);
    reveal(draining_turn);
    reveal(playing_turn);
}

/// Held-back samples are not lost: they stay held back, fade out under the next
/// track, or are played out, unless the listener asked for them to go or the
/// decoder has to leave.
pub proof fn held_samples_are_not_lost(d: Decoder, s: PlayerState, ev: Event)
    requires
        d.wf(),
        d.admits(ev),
        d.tail_held,
        !(d.stage is Closing || d.stage is Leaving || d.stage is Switching),
    ensures
        ({
            let t = turn(d, s, ev);
            ||| t.d.tail_held
            ||| t.a matches Action::Start { fade_in, .. } && fade_in
            ||| t.a matches Action::PlayOut { tail, .. } && tail
            ||| t.a is DropQueued
            ||| decode::must_leave(s)
        }),
{
    reveal(exit_turn);
    reveal(finish_turn);
    reveal(head_turn);
    reveal(next_turn);
    reveal(failed_turn);
    reveal(resampler_turn);
    reveal(opened_turn);
    reveal(start_turn);
    reveal(draining_turn);
    reveal(close_turn);
    reveal(give_up_turn);
    reveal(decode_turn);
    reveal(go_to_turn);
    reveal(playing_turn);
    reveal(landed_turn);
    reveal(link_turn);
    reveal(last_turn);
    reveal(probed_turn);
    reveal(switch_turn);
    reveal(final_turn);
}

/// A kept resampler is not lost: it is kept on, reused, or emptied, unless the
/// decoder has to leave.
pub proof fn kept_resampler_is_not_lost(d: Decoder, s: PlayerState, ev: Event)
    requires
        d.wf(),
        d.admits(ev),
        d.carry_rate is Some,
        d.stage is Head || d.stage is Opening || d.stage is Closing || d.stage is Probing,
    ensures
        ({
            let t = turn(d, s, ev);
            ||| t.d.carry_rate == d.carry_rate
            ||| t.a is Reuse
            ||| t.a matches Action::PlayOut { carry, .. } && carry
            ||| decode::must_leave(s)
        }),
{
    reveal(finish_turn);
    reveal(head_turn);
    reveal(next_turn);
    reveal(failed_turn);
    reveal(resampler_turn);
    reveal(opened_turn);
    reveal(closed_turn);
    reveal(last_turn);
    reveal(probed_turn);
    reveal(switch_turn);
    reveal(exit_turn);
}

/// The filters are reset only where the audio jumps: at the first track, after a
/// skip, and after a seek that reopened a track. A track that follows one that
/// ran out finds them as they were.
pub proof fn filters_stay_across_a_join(d: Decoder, s: PlayerState, held: bool)
    requires
        d.wf(),
        d.stage is Closing,
        !d.skipped,
    ensures
        !turn(d, s, Event::Closed { held }).d.after_jump,
        forall|e: Decoder, p: PlayerState, free: usize| #[trigger]
            start_turn(e, p, free).a == (Action::Start {
                reset_filters: e.first || e.after_jump,
                fade_in: e.tail_held,
                continued: e.continued,
            }),
{
    reveal(closed_turn);
    reveal(head_turn);
    reveal(finish_turn);
    reveal(exit_turn);
    reveal(last_turn);
    reveal(next_turn);
    reveal(start_turn);
}

/// Two tracks at one rate, neither that of the output, join without a gap: the
/// first one's resampler is kept at its end and goes on with the second.
pub proof fn resampled_tracks_join(d: Decoder, s: PlayerState, p: PlayerState, f: TrackFormat)
    requires
        d.wf(),
        d.stage is Playing,
        d.resampling,
        !d.skipped,
        d.crossfade_samples == 0,
        d.track_index + 1 < d.track_count,
        f.sample_rate == d.format.sample_rate,
        f.sample_rate != d.output_rate,
    ensures
        turn(d, s, Event::StreamEnded).a == Action::Close(Closing::Keep),
        ({
            let e = Decoder { stage: Stage::Opening, ..turn(d, s, Event::StreamEnded).d };
            turn(e, p, Event::Opened(f)).a is Reuse
        }),
{
    reveal(close_turn);
    reveal(opened_turn);
}

/// A seek past the end of the track that plays moves on: what is queued is
/// dropped, and the track is given up.
pub proof fn seek_past_the_end_moves_on(d: Decoder, s: PlayerState, free: usize)
    requires
        d.wf(),
        free < d.ring_capacity,
        d.stage is Playing,
        !decode::must_leave(s),
        !s.transport.skip_next,
        wanted_frame(d, s) is Some,
        past_end(
            wanted_frame(d, s)->0,
            d.output_rate as int,
            s.track.total_samples as int,
            s.track.sample_rate as int,
        ),
    ensures
        ({
            let t = turn(d, s, Event::Look { free });
            &&& t.a == (Action::DropQueued { reset_resampler: false })
            &&& t.d.skipped
            &&& t.s.transport.seek_request == 0
            &&& turn(t.d, t.s, Event::Go).a is Close
        }),
{
    reveal(playing_turn);
    reveal(go_to_turn);
    reveal(give_up_turn);
    reveal(close_turn);
}

/// A seek made while the previous track's last seconds play belongs to that
/// track: where it leads into it, that track is opened again at that place.
pub proof fn seek_goes_to_the_track_that_is_heard(d: Decoder, s: PlayerState, free: usize)
    requires
        d.wf(),
        free <= d.ring_capacity,
        d.stage is Draining,
        !d.first,
        d.ring_capacity - free > d.output_rate,
        !decode::must_leave(s),
        !s.transport.skip_next,
        d.last_track is Some,
        finished_target(s, d.output_rate as int) matches Some(Some(_)),
    ensures
        ({
            let t = turn(d, s, Event::Look { free });
            &&& t.a is DropQueued
            &&& t.d.start_at == finished_target(s, d.output_rate as int)->0
            &&& turn(t.d, t.s, Event::Go).a == Action::Open(d.last_track->0)
        }),
{
    reveal(draining_turn);
    reveal(head_turn);
}

/// A track that cannot be opened is named as an error, and the run goes on with
/// the one behind it.
pub proof fn broken_track_is_passed_over(d: Decoder, s: PlayerState, why: String)
    requires
        d.wf(),
        d.stage is Opening || d.stage is Making,
    ensures
        ({
            let t = turn(d, s, Event::Failed(why));
            &&& t.s.producer.decode_error == Some(why)
            &&& t.d.track_index == d.track_index + 1
            &&& d.track_index + 1 < d.track_count && !decode::must_leave(s) ==> t.a == Action::Open(
                (d.track_index + 1) as usize,
            )
        }),
{
    reveal(failed_turn);
    reveal(next_turn);
    reveal(head_turn);
    reveal(finish_turn);
    reveal(exit_turn);
}

} // verus!
