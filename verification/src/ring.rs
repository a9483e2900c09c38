//! The ring between the decoder and the audio callback.
//!
//! Samples are bit patterns. The callback takes them out at the other end, on
//! its own thread, so that room may appear at any time, but never goes.
use crate::audio;
use crate::audio::{callback_plan, count_played, Output};
use crate::decode;
use crate::decode::{push_all, Push};
use crate::state::{Feed, PlayerState};
use crate::text;
use vstd::prelude::*;

verus! {

/// The decoder's end of the ring.
#[verifier::external_type_specification]
#[verifier::external_body]
#[verifier::reject_recursive_types(T)]
pub struct ExProducer<T>(rtrb::Producer<T>);

/// All samples that were ever pushed into the ring, in order.
pub uninterp spec fn pushed(ring: rtrb::Producer<u32>) -> Seq<u32>;

/// How many samples the ring holds at most.
pub uninterp spec fn places(ring: rtrb::Producer<u32>) -> nat;

/// How many places this end has seen free and has not filled since.
pub uninterp spec fn room(ring: rtrb::Producer<u32>) -> nat;

/// Calls `rtrb::Producer::slots`, which looks how far the other end has come and
/// counts the places that are free. How many are is up to the other end; there
/// are never more than the ring has.
#[verifier::external_body]
fn free_places(ring: &mut rtrb::Producer<u32>) -> (r: usize)
    ensures
        r == room(*final(ring)),
        r <= places(*final(ring)),
        pushed(*final(ring)) == pushed(*old(ring)),
        places(*final(ring)) == places(*old(ring)),
{
    ring.slots()
}

/// Calls `rtrb::Producer::push_entire_slice`, which pushes all of a slice in
/// order, or fails and pushes nothing where there is not enough room. Places that
/// this end has seen free are still free: only this end fills them.
#[verifier::external_body]
fn push_slice(ring: &mut rtrb::Producer<u32>, samples: &[u32]) -> (ok: bool)
    ensures
        pushed(*final(ring)) == (if ok {
            pushed(*old(ring)) + samples@
        } else {
            pushed(*old(ring))
        }),
        places(*final(ring)) == places(*old(ring)),
        samples@.len() <= room(*old(ring)) ==> ok && room(*final(ring)) == room(*old(ring)) - samples@.len(),
{
    ring.push_entire_slice(samples).is_ok()
}

/// Makes a step of pushing samples, of which `done` are pushed: as many as there
/// is room for follow those, in order. Nothing is pushed any more where the
/// decoder has to leave. What is left over waits for room: samples stay behind
/// only where every place is taken.
pub fn push_some(ring: &mut rtrb::Producer<u32>, state: &PlayerState, samples: &Vec<u32>, done: usize) -> (r: Push)
    requires
        done <= samples@.len(),
    ensures
        r is Over <==> done == samples@.len() || decode::must_leave(*state),
        r matches Push::Sleep(ms) ==> ms == 5,
        r matches Push::Take(n) ==> 0 < n <= samples@.len() - done && n <= places(*old(ring)),
        r matches Push::Take(n) ==> n == samples@.len() - done || room(*final(ring)) == 0,
        r is Sleep ==> room(*final(ring)) == 0,
        pushed(*final(ring)) == pushed(*old(ring)) + (match r {
            Push::Take(n) => samples@.subrange(done as int, done + n),
            _ => Seq::empty(),
        }),
        places(*final(ring)) == places(*old(ring)),
{
    let free: usize = free_places(ring);
    let step: Push = push_all(state, free, samples.len() - done);
    assert(pushed(*ring) + Seq::<u32>::empty() =~= pushed(*ring));
    match step {
        Push::Take(n) => {
            let part: &[u32] = vstd::slice::slice_subrange(samples.as_slice(), done, done + n);
            if push_slice(ring, part) {
                step
            } else {
                Push::Sleep(5)
            }
        },
        _ => step,
    }
}

/// Steps that follow one another push the samples they stand for as one would:
/// none twice, none left out.
pub proof fn steps_push_in_order(samples: Seq<u32>, a: int, b: int, c: int)
    requires
        0 <= a <= b <= c <= samples.len(),
    ensures
        samples.subrange(a, b) + samples.subrange(b, c) == samples.subrange(a, c),
{
    assert(samples.subrange(a, b) + samples.subrange(b, c) =~= samples.subrange(a, c));
}

/// The callback's end of the ring.
#[verifier::external_type_specification]
#[verifier::external_body]
#[verifier::reject_recursive_types(T)]
pub struct ExConsumer<T>(rtrb::Consumer<T>);

/// All samples that were ever taken out of the ring, in order.
pub uninterp spec fn taken(ring: rtrb::Consumer<u32>) -> Seq<u32>;

/// How many samples can wait in the ring at most.
pub uninterp spec fn holds(ring: rtrb::Consumer<u32>) -> nat;

/// How many samples this end has seen waiting and has not taken since.
pub uninterp spec fn seen(ring: rtrb::Consumer<u32>) -> nat;

/// Calls `rtrb::Consumer::slots`, which looks how far the other end has come and
/// counts the samples that wait. How many do is up to the other end; there are
/// never more than the ring holds.
#[verifier::external_body]
fn waiting(ring: &mut rtrb::Consumer<u32>) -> (r: usize)
    ensures
        r == seen(*final(ring)),
        r <= holds(*final(ring)),
        taken(*final(ring)) == taken(*old(ring)),
        holds(*final(ring)) == holds(*old(ring)),
{
    ring.slots()
}

/// Calls `rtrb::Consumer::read_chunk`, copies what `ReadChunk::as_slices` gives
/// behind `out`, and frees the places with `ReadChunk::commit_all`. `None`, with
/// nothing taken, where fewer than `n` samples wait; those that this end has seen
/// still wait, since only this end takes them. The samples lie in the ring in up
/// to two pieces; how long the first is depends on where the ring starts.
#[verifier::external_body]
fn take_pieces(ring: &mut rtrb::Consumer<u32>, n: usize, out: &mut Vec<u32>) -> (first: Option<usize>)
    ensures
        first matches Some(k) ==> k <= n && final(out)@.len() == old(out)@.len() + n && final(out)@.take(
            old(out)@.len() as int,
        ) == old(out)@,
        first is None ==> final(out)@ == old(out)@,
        taken(*final(ring)) == taken(*old(ring)) + final(out)@.skip(old(out)@.len() as int),
        holds(*final(ring)) == holds(*old(ring)),
        n <= seen(*old(ring)) ==> first is Some && seen(*final(ring)) == seen(*old(ring)) - n,
{
    let chunk = ring.read_chunk(n).ok()?;
    let (a, b) = chunk.as_slices();
    let first = a.len();
    out.extend_from_slice(a);
    out.extend_from_slice(b);
    chunk.commit_all();
    Some(first)
}

/// What the audio callback plays in a buffer of `len` samples on `channels`
/// channels: `out` holds the queued samples it takes, none for silence, and the
/// result is the length of the first piece of them. A request to drain is done:
/// all that was waiting is thrown away. Else the level of the queue is noted, and
/// as much of it as the buffer has room for is taken and counted as played.
pub fn next_samples(
    ring: &mut rtrb::Consumer<u32>,
    state: &mut PlayerState,
    len: usize,
    channels: usize,
    out: &mut Vec<u32>,
) -> (first: usize)
    requires
        len * 2 <= usize::MAX,
    ensures
        first <= final(out)@.len(),
        holds(*final(ring)) == holds(*old(ring)),
        old(state).producer.reset_consumer_counter ==> {
            &&& final(out)@.len() == 0
            &&& taken(*old(ring)).is_prefix_of(taken(*final(ring)))
            &&& seen(*final(ring)) == 0
            &&& *final(state) == (PlayerState {
                producer: Feed { reset_consumer_counter: false, ..old(state).producer },
                ..*old(state)
            })
        },
        !old(state).producer.reset_consumer_counter ==> {
            let level = final(state).producer.buffer_level;
            &&& level <= holds(*old(ring))
            &&& taken(*final(ring)) == taken(*old(ring)) + final(out)@
            &&& level == seen(*final(ring)) + final(out)@.len()
            &&& final(out)@.len() == (if old(state).transport.paused || channels == 0 {
                0
            } else {
                text::least(len as int / channels as int * 2, level as int)
            })
            &&& *final(state) == audio::clocked(
                PlayerState { producer: Feed { buffer_level: level, ..old(state).producer }, ..*old(state) },
                final(out)@.len() as int / 2,
            )
        },
{
    out.clear();
    let available: usize = waiting(ring);
    let plan: Output = callback_plan(state, available, len, channels);
    let ghost before = taken(*ring);
    let mut first: usize = 0;
    match plan {
        Output::Drain => {
            let _gone: Option<usize> = take_pieces(ring, available, out);
            out.clear();
        },
        Output::Silence => {
            assert(taken(*ring) =~= before + out@);
        },
        Output::Play(n) => {
            match take_pieces(ring, n, out) {
                Some(k) => {
                    first = k;
                    count_played(state, n);
                },
                None => {},
            }
            assert(out@.skip(0) =~= out@);
        },
    }
    first
}

} // verus!
