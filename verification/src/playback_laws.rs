//! What a listener can count on while a playlist plays: which track comes next,
//! where a seek leads, and what a skip, a pause or the end of the list do.
use crate::decode;
use crate::producer;
use crate::producer::{Action, Closing, Decoder, EqLoad, Event, Landing, Stage, TrackFormat};
use crate::state::PlayerState;
use vstd::prelude::*;

verus! {

/// Nobody waits for the decoder to leave: no one quits, goes back, or jumps.
pub open spec fn undisturbed(s: PlayerState) -> bool {
    !s.transport.quit && !s.transport.skip_prev && s.transport.jump_to_track is None
}

/// A decoder is waited for exactly where someone quits, goes back, or jumps.
pub proof fn only_quitting_going_back_and_jumping_are_waited_for(s: PlayerState)
    ensures
        decode::must_leave(s) <==> s.transport.quit || s.transport.skip_prev || s.transport.jump_to_track is Some,
{
}

/// Repeated, a track that has run out is played again: the next one to be opened
/// is the same, at once or after its held-back end has been played.
pub proof fn repeat_one_plays_the_same_track_again(d: Decoder, s: PlayerState, held: bool, later: Event)
    requires
        d.wf(),
        d.stage is Closing,
        !d.skipped,
        s.transport.repeat_mode is One,
        undisturbed(s),
    ensures
        ({
            let t = producer::turn(d, s, Event::Closed { held });
            ||| t.a == Action::Open(d.track_index)
            ||| {
                &&& held && d.crossfade_samples > 0
                &&& t.a == (Action::PlayOut { tail: true, carry: false })
                &&& producer::turn(t.d, t.s, later).a == Action::Open(d.track_index)
            }
        }),
{
    reveal(producer::closed_turn);
    reveal(producer::head_turn);
}

/// A track that was skipped is never played again by that, repeated or not: the
/// one behind it is opened, where there is one.
pub proof fn skipping_moves_on_even_when_repeating(d: Decoder, s: PlayerState, held: bool, next: Option<(u32, u32)>)
    requires
        d.wf(),
        d.stage is Closing,
        d.skipped,
        undisturbed(s),
    ensures
        ({
            let t = producer::turn(d, s, Event::Closed { held });
            let u = producer::turn(t.d, t.s, Event::NextRate(next));
            &&& t.a != Action::Open(d.track_index)
            &&& d.track_index + 1 < d.track_count && !s.device.exclusive ==> t.a == Action::Open(
                (d.track_index + 1) as usize,
            )
            &&& d.track_index + 1 < d.track_count && s.device.exclusive ==> t.a == Action::ProbeNext(
                (d.track_index + 1) as usize,
            )
            &&& d.track_index + 1 < d.track_count && s.device.exclusive && (next matches Some(n) ==> n.1
                == d.output_rate) ==> u.a == Action::Open((d.track_index + 1) as usize)
        }),
{
    reveal(producer::closed_turn);
    reveal(producer::last_turn);
    reveal(producer::next_turn);
    reveal(producer::head_turn);
    reveal(producer::probed_turn);
}

/// A track that has run out is followed by the next of the list, unless it is
/// repeated.
pub proof fn tracks_follow_one_another(d: Decoder, s: PlayerState, held: bool, next: Option<(u32, u32)>)
    requires
        d.wf(),
        d.stage is Closing,
        s.transport.repeat_mode !is One,
        d.track_index + 1 < d.track_count,
        undisturbed(s),
    ensures
        ({
            let t = producer::turn(d, s, Event::Closed { held });
            let u = producer::turn(t.d, t.s, Event::NextRate(next));
            &&& !s.device.exclusive ==> t.a == Action::Open((d.track_index + 1) as usize)
            &&& s.device.exclusive ==> t.a == Action::ProbeNext((d.track_index + 1) as usize)
            &&& s.device.exclusive && (next matches Some(n) ==> n.1 == d.output_rate) ==> u.a == Action::Open(
                (d.track_index + 1) as usize,
            )
        }),
{
    reveal(producer::closed_turn);
    reveal(producer::last_turn);
    reveal(producer::next_turn);
    reveal(producer::head_turn);
    reveal(producer::probed_turn);
}

/// Behind the last track the run is over, once that track has played: the decoder
/// leaves, and is done.
pub proof fn the_list_ends_with_its_last_track(d: Decoder, s: PlayerState, held: bool)
    requires
        d.wf(),
        d.stage is Closing,
        s.transport.repeat_mode !is One || d.skipped,
        d.track_index + 1 == d.track_count,
        d.carry_rate is None,
        undisturbed(s),
    ensures
        ({
            let t = producer::turn(d, s, Event::Closed { held });
            let empty = Event::Look { free: d.ring_capacity };
            let u = producer::turn(t.d, t.s, empty);
            &&& t.d.stage is Final
            &&& !(t.a is Open)
            &&& held && d.crossfade_samples > 0 && !d.skipped <==> t.a == (Action::PlayOut { tail: true, carry: false })
            &&& u.a is Exit
            &&& u.s.producer.producer_done || s.device.rate_change_needed
        }),
{
    reveal(producer::closed_turn);
    reveal(producer::last_turn);
    reveal(producer::final_turn);
    reveal(producer::next_turn);
    reveal(producer::head_turn);
    reveal(producer::finish_turn);
    reveal(producer::exit_turn);
}

/// A skip gives the track up: the request is taken, what is queued is dropped, and
/// the track is closed as skipped.
pub proof fn a_skip_gives_the_track_up(d: Decoder, s: PlayerState, free: usize)
    requires
        d.wf(),
        d.stage is Playing,
        free <= d.ring_capacity,
        undisturbed(s),
        s.transport.skip_next,
    ensures
        ({
            let t = producer::turn(d, s, Event::Look { free });
            &&& !t.s.transport.skip_next
            &&& t.d.skipped
            &&& t.d.track_index == d.track_index
            &&& free < d.ring_capacity ==> {
                &&& t.a is DropQueued
                &&& t.s.producer.reset_consumer_counter
                &&& producer::turn(t.d, t.s, Event::Go).a is Close
            }
            &&& free == d.ring_capacity ==> t.a is Close
        }),
{
    reveal(producer::playing_turn);
    reveal(producer::give_up_turn);
    reveal(producer::close_turn);
}

/// A seek while a track plays leads as many seconds forward or back as were asked
/// for, counted from what is heard, and never ahead of the track's start. What is
/// queued is dropped, and the request is taken.
pub proof fn a_seek_leads_where_it_was_asked_to(d: Decoder, s: PlayerState, free: usize)
    requires
        d.wf(),
        d.stage is Playing,
        free <= d.ring_capacity,
        undisturbed(s),
        !s.transport.skip_next,
        d.start_at is None,
        s.transport.seek_request != 0,
    ensures
        ({
            let t = producer::turn(d, s, Event::Look { free });
            let to = s.track.samples_played + s.transport.seek_request * d.output_rate;
            let goal = if to < 0 {
                0
            } else {
                to
            };
            let inside = s.track.total_samples == 0 || s.track.sample_rate == 0 || goal * s.track.sample_rate
                < s.track.total_samples * d.output_rate;
            &&& t.s.transport.seek_request == 0
            &&& inside ==> {
                &&& t.a == Action::Seek(goal as u128)
                &&& t.s.producer.reset_consumer_counter
                &&& t.d.track_index == d.track_index
                &&& !t.d.skipped || d.skipped
            }
            &&& !inside ==> t.d.skipped && !(t.a is Seek)
        }),
{
    reveal(producer::playing_turn);
    reveal(producer::go_to_turn);
    reveal(producer::give_up_turn);
    reveal(producer::close_turn);
}

/// A track that is opened again to be played from a place is taken there first.
pub proof fn a_track_starts_where_it_was_asked_to(d: Decoder, s: PlayerState, free: usize)
    requires
        d.wf(),
        d.stage is Playing,
        free <= d.ring_capacity,
        undisturbed(s),
        !s.transport.skip_next,
        d.start_at is Some,
        s.transport.seek_request == 0,
        s.track.total_samples == 0,
    ensures
        producer::turn(d, s, Event::Look { free }).a == Action::Seek(d.start_at->0),
        producer::turn(d, s, Event::Look { free }).d.start_at is None,
{
    reveal(producer::playing_turn);
    reveal(producer::go_to_turn);
}

/// After a seek the clock shows the time at which it came out, and playing goes
/// on.
pub proof fn the_clock_shows_where_a_seek_came_out(d: Decoder, s: PlayerState, asked: u128, secs: u64)
    requires
        d.wf(),
        d.stage == Stage::Seeking(asked),
        secs * d.output_rate <= u64::MAX,
        asked <= u64::MAX,
    ensures
        ({
            let t = producer::turn(d, s, Event::Landed(Landing::Reached { secs, nanos: 0 }));
            &&& t.s.track.samples_played == secs * d.output_rate
            &&& t.s.producer.clock_preroll == 0
            &&& t.d.stage is Playing
        }),
        producer::turn(d, s, Event::Landed(Landing::Asked)).s.track.samples_played == asked,
{
    reveal(producer::landed_turn);
    let r = d.output_rate as int;
    assert((secs * 1_000_000_000 + 0) * r / 1_000_000_000 == secs * r) by (nonlinear_arith)
        requires
            0 <= secs,
            0 <= r,
    ;
}

/// While playback is paused nothing is decoded; else it is as soon as a quarter of
/// the ring is free, and nothing else was asked for.
pub proof fn decoding_waits_for_room_and_for_the_listener(d: Decoder, s: PlayerState, free: usize)
    requires
        d.wf(),
        d.stage is Playing,
        free <= d.ring_capacity,
        undisturbed(s),
        !s.transport.skip_next,
        d.start_at is None,
        s.transport.seek_request == 0,
    ensures
        ({
            let t = producer::turn(d, s, Event::Look { free });
            &&& s.transport.paused ==> t.a is Sleep
            &&& !s.transport.paused && 4 * free >= d.ring_capacity ==> t.a is Decode
            &&& free < d.ring_capacity / 4 ==> t.a is Sleep
            &&& t.a is Sleep || t.a is Decode
        }),
{
    reveal(producer::playing_turn);
    reveal(producer::decode_turn);
}

/// What was selected meanwhile is loaded with the next packet, and once: the bands
/// set by hand where they are in force, else the preset that is selected.
pub proof fn selections_are_loaded_once(d: Decoder, s: PlayerState, free: usize)
    requires
        d.wf(),
        d.stage is Playing,
        free <= d.ring_capacity,
        producer::turn(d, s, Event::Look { free }).a is Decode,
    ensures
        ({
            let t = producer::turn(d, s, Event::Look { free });
            &&& t.a matches Action::Decode { eq, effects, crossfeed } && {
                &&& eq == EqLoad::Keep || s.eq.changed
                &&& s.eq.changed && s.eq_custom ==> eq == EqLoad::Custom
                &&& s.eq.changed && !s.eq_custom && s.eq.index < s.eq.count ==> eq == EqLoad::Preset(s.eq.index)
                &&& effects matches Some(i) ==> s.effects.changed && i == s.effects.index
                &&& s.effects.changed && s.effects.index < s.effects.count ==> effects == Some(s.effects.index)
                &&& crossfeed matches Some(i) ==> s.crossfeed.changed && i == s.crossfeed.index
                &&& s.crossfeed.changed && s.crossfeed.index < s.crossfeed.count ==> crossfeed == Some(
                    s.crossfeed.index,
                )
            }
            &&& !t.s.eq.changed && !t.s.effects.changed && !t.s.crossfeed.changed
        }),
{
    reveal(producer::playing_turn);
    reveal(producer::finish_turn);
    reveal(producer::exit_turn);
    reveal(producer::give_up_turn);
    reveal(producer::close_turn);
    reveal(producer::go_to_turn);
    reveal(producer::decode_turn);
}

/// A track that starts is shown as it is: its rate, length, channels and depth, the
/// clock at the beginning behind what is still queued; the screen is told of it
/// unless it is the first.
pub proof fn a_track_starts_at_its_beginning(d: Decoder, s: PlayerState, free: usize)
    requires
        d.wf(),
        d.stage is Starting,
        free <= d.ring_capacity,
    ensures
        ({
            let t = producer::turn(d, s, Event::Look { free });
            &&& t.s.track.samples_played == 0
            &&& 2 * t.s.producer.clock_preroll <= d.ring_capacity - free <= 2 * t.s.producer.clock_preroll + 1
                || d.ring_capacity > 2 * u64::MAX
            &&& t.s.track.sample_rate == d.format.sample_rate
            &&& t.s.track.total_samples == d.format.total
            &&& t.s.track.channels == d.format.channels
            &&& t.s.producer.track_info_ready
            &&& t.d.stage is Playing
            &&& t.d.last_track == Some(d.track_index)
            &&& !d.first ==> t.s.producer.producer_track_index == d.track_index
                && t.s.producer.track_transition_count != s.producer.track_transition_count
            &&& d.first ==> t.s.producer.track_transition_count == s.producer.track_transition_count
            &&& t.a matches Action::Start { fade_in, .. } && fade_in == d.tail_held
        }),
{
    reveal(producer::start_turn);
}

/// A crossfade happens where one is set and the track ran out: its held-back end
/// fades out under the next. A skipped track does not fade.
pub proof fn tracks_fade_into_one_another(d: Decoder, s: PlayerState, held: bool)
    requires
        d.wf(),
        d.stage is Closing,
        s.transport.repeat_mode !is One,
        !s.device.exclusive,
        d.track_index + 1 < d.track_count,
        undisturbed(s),
    ensures
        producer::turn(d, s, Event::Closed { held }).d.tail_held <==> held && d.crossfade_samples > 0 && !d.skipped,
        producer::turn(d, s, Event::Closed { held }).d.after_jump <==> d.skipped,
{
    reveal(producer::closed_turn);
    reveal(producer::last_turn);
    reveal(producer::next_turn);
    reveal(producer::head_turn);
}

/// Where the device follows the files, and the next one needs another rate, the
/// decoder leaves for the stream to be built anew, and is not done.
pub proof fn the_device_follows_the_files(d: Decoder, s: PlayerState, rate: u32, reached: u32, ev: Event)
    requires
        d.wf(),
        d.stage is Probing,
        reached != d.output_rate,
        !s.producer.producer_done,
    ensures
        ({
            let t = producer::turn(d, s, Event::NextRate(Some((rate, reached))));
            let u = if t.a is Exit {
                t
            } else {
                producer::turn(t.d, t.s, ev)
            };
            &&& t.a is Exit <==> !d.tail_held && d.carry_rate is None
            &&& u.a is Exit
            &&& u.s.device.rate_change_needed
            &&& u.s.device.next_track_rate == rate
            &&& u.s.producer.producer_track_index == d.track_index + 1
            &&& !u.s.producer.producer_done
        }),
{
    reveal(producer::probed_turn);
    reveal(producer::switch_turn);
    reveal(producer::exit_turn);
}

/// The first track to be opened is the one that the run starts with.
pub proof fn the_run_starts_with_its_track(d: Decoder, s: PlayerState, ev: Event)
    requires
        d.wf(),
        d.stage is Head,
        d.track_index < d.track_count,
        undisturbed(s),
    ensures
        producer::turn(d, s, ev).a == Action::Open(d.track_index),
        producer::turn(d, s, ev).s.producer.producer_decoding == d.track_index,
{
    reveal(producer::head_turn);
}

/// A file is resampled exactly where its rate is not that of the output.
pub proof fn files_are_resampled_where_they_have_to_be(d: Decoder, s: PlayerState, f: TrackFormat)
    requires
        d.wf(),
        d.stage is Opening,
        d.carry_rate is None,
    ensures
        producer::turn(d, s, Event::Opened(f)).a is MakeResampler <==> f.sample_rate != d.output_rate,
        producer::turn(d, s, Event::Opened(f)).d.format == f,
{
    reveal(producer::opened_turn);
    reveal(producer::resampler_turn);
}

/// At the end of its input a track's resampler goes on to a track that joins on,
/// is emptied where none does, and is thrown away where the track was skipped.
pub proof fn resamplers_end_with_their_tracks(d: Decoder, s: PlayerState)
    requires
        d.wf(),
        d.stage is Playing,
    ensures
        ({
            let t = producer::turn(d, s, Event::StreamEnded);
            let joins = d.crossfade_samples == 0 && (s.transport.repeat_mode is One || d.track_index + 1
                < d.track_count);
            &&& t.a is Close
            &&& !d.resampling ==> t.a == Action::Close(Closing::Nothing)
            &&& d.resampling && d.skipped ==> t.a == Action::Close(Closing::Discard)
            &&& d.resampling && !d.skipped && joins ==> t.a == Action::Close(Closing::Keep)
            &&& d.resampling && !d.skipped && !joins ==> t.a == Action::Close(Closing::Flush)
        }),
{
    reveal(producer::close_turn);
}

/// While the previous track's last second plays, a skip drops what is left of it,
/// and the track that was opened starts.
pub proof fn a_skip_at_the_join_starts_the_next_track(d: Decoder, s: PlayerState, free: usize, later: usize)
    requires
        d.wf(),
        d.stage is Draining,
        !d.first,
        free <= d.ring_capacity,
        later <= d.ring_capacity,
        d.ring_capacity - free > d.output_rate,
        undisturbed(s),
        s.transport.skip_next,
    ensures
        ({
            let t = producer::turn(d, s, Event::Look { free });
            &&& t.a is DropQueued
            &&& t.s.producer.reset_consumer_counter
            &&& !t.s.transport.skip_next
            &&& t.d.track_index == d.track_index
            &&& producer::turn(t.d, t.s, Event::Look { free: later }).a is Start
        }),
{
    reveal(producer::draining_turn);
    reveal(producer::start_turn);
}

/// A step that closes a track opens the same track again where one is repeated, and
/// the next one where it was skipped or nothing is repeated.
pub proof fn a_step_opens_what_comes_next(d: &mut Decoder, s: &mut PlayerState, a: Action)
    requires
        old(d).wf(),
        old(d).stage is Closing,
        call_ensures(Decoder::step, (d, s, Event::Closed { held: false }), a),
        undisturbed(*old(s)),
        !old(s).device.exclusive,
    ensures
        old(s).transport.repeat_mode is One && !old(d).skipped ==> a == Action::Open(old(d).track_index),
        (old(s).transport.repeat_mode !is One || old(d).skipped) && old(d).track_index + 1 < old(d).track_count ==> a
            == Action::Open((old(d).track_index + 1) as usize),
        old(d).skipped ==> a != Action::Open(old(d).track_index),
        a matches Action::Open(i) ==> final(d).track_index == i && final(s).producer.producer_decoding == i,
{
    reveal(producer::closed_turn);
    reveal(producer::last_turn);
    reveal(producer::next_turn);
    reveal(producer::head_turn);
}

/// A step takes a skip and a seek as they were asked for.
pub proof fn a_step_does_what_was_asked_for(d: &mut Decoder, s: &mut PlayerState, free: usize, a: Action)
    requires
        old(d).wf(),
        old(d).stage is Playing,
        free <= old(d).ring_capacity,
        call_ensures(Decoder::step, (d, s, Event::Look { free }), a),
        undisturbed(*old(s)),
        old(d).start_at is None,
    ensures
        old(s).transport.skip_next ==> final(d).skipped && !final(s).transport.skip_next,
        !old(s).transport.skip_next && old(s).transport.seek_request > 0 && old(s).track.total_samples == 0 ==> a
            == Action::Seek(
            (old(s).track.samples_played + old(s).transport.seek_request * old(d).output_rate) as u128,
        ),
        !old(s).transport.skip_next && old(s).transport.seek_request == 0 && old(s).transport.paused ==> a is Sleep,
{
    reveal(producer::playing_turn);
    reveal(producer::give_up_turn);
    reveal(producer::close_turn);
    reveal(producer::go_to_turn);
    reveal(producer::decode_turn);
    let r = old(s).transport.seek_request as int;
    let o = old(d).output_rate as int;
    if r > 0 {
        assert(r * o >= 0) by (nonlinear_arith)
            requires
                r > 0,
                o >= 0,
        ;
    }
}

/// The track that was opened starts once no more than a half second of the last one is
/// queued; until then the decoder only waits, where nothing is asked for.
pub proof fn the_last_track_is_heard_out(d: Decoder, s: PlayerState, free: usize)
    requires
        d.wf(),
        d.stage is Draining,
        free <= d.ring_capacity,
        undisturbed(s),
        !s.transport.skip_next,
        s.transport.seek_request == 0,
    ensures
        ({
            let t = producer::turn(d, s, Event::Look { free });
            &&& t.a is Start <==> d.first || d.ring_capacity - free <= d.output_rate
            &&& !(t.a is Start) ==> t.a is Sleep && t.d == d && t.s == s
            &&& t.a matches Action::Sleep(ms) ==> (s.transport.paused ==> ms == 50) && (!s.transport.paused ==> ms == 10)
        }),
{
    reveal(producer::draining_turn);
    reveal(producer::start_turn);
}

/// Filters start afresh with the first track and after a jump, and else go on across
/// the join; the depth that is shown is the track's.
pub proof fn filters_start_afresh_after_a_jump(d: Decoder, s: PlayerState, free: usize)
    requires
        d.wf(),
        d.stage is Starting,
        free <= d.ring_capacity,
    ensures
        ({
            let t = producer::turn(d, s, Event::Look { free });
            &&& t.a matches Action::Start { reset_filters, fade_in, continued } && (reset_filters <==> d.first
                || d.after_jump) && continued == d.continued
            &&& t.s.track.bits_per_sample == d.format.bits_per_sample
            &&& !t.d.first && !t.d.skipped && !t.d.tail_held
        }),
{
    reveal(producer::start_turn);
}

/// A file of several streams goes on with the next of them where that has the same
/// rate, and ends there where it has another.
pub proof fn streams_of_one_rate_are_joined(d: Decoder, s: PlayerState, rate: u32)
    requires
        d.wf(),
        d.stage is Playing,
    ensures
        producer::turn(d, s, Event::NewLink(Some(Some(rate)))).a is RebuildDecoder <==> rate == d.format.sample_rate,
        producer::turn(d, s, Event::NewLink(Some(Some(rate)))).a is Close <==> rate != d.format.sample_rate,
        producer::turn(d, s, Event::NewLink(Some(None))).a is RebuildDecoder,
        producer::turn(d, s, Event::NewLink(None)).a is Close,
{
    reveal(producer::link_turn);
    reveal(producer::close_turn);
}

/// Behind the last track a seek back still plays it again, from where it leads; one
/// beyond its end ends the run.
pub proof fn the_last_track_can_be_gone_back_in(d: Decoder, s: PlayerState, free: usize, ev: Event)
    requires
        d.wf(),
        d.stage is Final,
        free < d.ring_capacity,
        undisturbed(s),
        d.last_track == Some(d.track_index),
        s.transport.seek_request < 0,
        s.track.total_samples == 0,
    ensures
        ({
            let t = producer::turn(d, s, Event::Look { free });
            let to = s.track.samples_played + s.transport.seek_request * d.output_rate;
            &&& t.a is DropQueued
            &&& t.s.transport.seek_request == 0
            &&& t.s.producer.reset_consumer_counter
            &&& t.d.start_at == Some(
                (if to < 0 {
                    0
                } else {
                    to
                }) as u128,
            )
            &&& t.d.track_index == d.track_index
            &&& t.d.stage is Head
        }),
{
    reveal(producer::final_turn);
}

/// A seek that fails, or comes out between two seconds, sets the clock to where it came
/// out.
pub proof fn the_clock_shows_parts_of_seconds(d: Decoder, s: PlayerState, asked: u128, secs: u32, nanos: u32)
    requires
        d.wf(),
        d.stage == Stage::Seeking(asked),
        nanos < 1_000_000_000,
        secs <= 1_000_000,
    ensures
        ({
            let t = producer::turn(d, s, Event::Landed(Landing::Reached { secs: secs as u64, nanos }));
            let u = producer::turn(d, s, Event::Landed(Landing::Failed { secs: secs as u64, nanos }));
            let exact = (secs * 1_000_000_000 + nanos) * d.output_rate;
            &&& t.s.track.samples_played * 1_000_000_000 <= exact < (t.s.track.samples_played + 1) * 1_000_000_000
            &&& u.s.track.samples_played == t.s.track.samples_played
        }),
{
    reveal(producer::landed_turn);
    let r = d.output_rate as int;
    let n = secs * 1_000_000_000 + nanos;
    assert(0 <= n * r <= 1_000_001_000_000_000 * 4_294_967_295) by (nonlinear_arith)
        requires
            0 <= n <= 1_000_001_000_000_000,
            0 <= r <= 4_294_967_295,
    ;
}

/// A run starts with the track it was given, with everything of it heard, and fades as
/// long as was asked for.
pub proof fn a_run_starts_where_it_was_asked_to(
    count: usize,
    start: usize,
    rate: u32,
    capacity: usize,
    fade: u32,
    d: Decoder,
    s: PlayerState,
    ev: Event,
)
    requires
        start < count,
        fade * rate * 2 <= usize::MAX,
        call_ensures(Decoder::new, (count, start, rate, capacity, fade), d),
        undisturbed(s),
    ensures
        producer::turn(d, s, ev).a == Action::Open(start),
        d.crossfade_samples == 2 * (fade * rate),
        fade == 0 ==> d.crossfade_samples == 0,
        d.first && !d.skipped && d.start_at is None,
        d.output_rate == rate && d.ring_capacity == capacity,
{
    reveal(producer::head_turn);
    if fade == 0 {
        assert(0 * rate * 2 == 0) by (nonlinear_arith);
    }
}

} // verus!
