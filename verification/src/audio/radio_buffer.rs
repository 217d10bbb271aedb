//! The bounded queue of samples between the decoder and the output device.

use crate::audio::playback::Playback;
use crate::audio::resample::{OUTPUT_CHANNELS, OUTPUT_SAMPLE_RATE};
use std::collections::VecDeque;
use vstd::prelude::*;

verus! {

/// Seconds of audio that the buffer holds.
pub const BUFFER_SECONDS: usize = 8;

/// Milliseconds that a producer sleeps at most before it tries a full buffer
/// again.
pub const PUSH_WAIT_MILLIS: u64 = 50;

/// Samples waiting to be played, in the order in which they were decoded, and
/// the generation of the stream that they belong to.
#[derive(Debug)]
pub struct RadioBuffer<T> {
    generation: u64,
    samples: VecDeque<T>,
    capacity: usize,
}

/// What a [`RadioBuffer`] holds.
#[verifier::ext_equal]
pub struct BufferState<T> {
    pub generation: u64,
    pub samples: Seq<T>,
    pub capacity: nat,
}

/// How far a push has come.
#[derive(Debug, Clone, Copy, PartialEq, Eq, Structural)]
pub enum PushOutcome {
    /// Every sample is queued.
    Finished,
    /// The buffer belongs to another generation: the rest must be dropped.
    Stale,
    /// The buffer is full. Once there is space, or after
    /// [`PUSH_WAIT_MILLIS`], the push goes on at `offset`.
    Blocked { offset: usize },
}

impl<T> BufferState<T> {
    /// The buffer is not overfull.
    pub open spec fn wf(self) -> bool {
        self.samples.len() <= self.capacity
    }

    /// The free places.
    pub open spec fn space(self) -> int {
        if self.samples.len() < self.capacity {
            self.capacity - self.samples.len()
        } else {
            0
        }
    }

    /// The number of samples that one output of `len` samples takes.
    pub open spec fn taken(self, len: nat) -> nat {
        if len <= self.samples.len() {
            len
        } else {
            self.samples.len()
        }
    }

    /// The buffer after an output of `len` samples.
    pub open spec fn drained(self, len: nat) -> Self {
        BufferState { samples: self.samples.skip(self.taken(len) as int), ..self }
    }

    /// What an output of `len` samples plays: the oldest samples, then silence.
    pub open spec fn played(self, len: nat, silence: T) -> Seq<T> {
        Seq::new(
            len,
            |i: int|
                if i < self.samples.len() {
                    self.samples[i]
                } else {
                    silence
                },
        )
    }

    /// Where a push of `len` samples from `offset` stops in this state.
    pub open spec fn push_end(self, generation: u64, len: nat, offset: nat) -> nat {
        if offset >= len || self.generation != generation {
            offset
        } else if offset + self.space() < len {
            (offset + self.space()) as nat
        } else {
            len
        }
    }

    /// The buffer after a push of `samples` from `offset`.
    pub open spec fn pushed(self, generation: u64, samples: Seq<T>, offset: nat) -> Self {
        let end = self.push_end(generation, samples.len(), offset);
        if offset < end {
            BufferState {
                samples: self.samples + samples.subrange(offset as int, end as int),
                ..self
            }
        } else {
            self
        }
    }

    /// The buffer after it was emptied for `generation`.
    pub open spec fn cleared(self, generation: u64) -> Self {
        BufferState { generation, samples: Seq::empty(), ..self }
    }
}

/// The outcome of a push of `len` samples from `offset`.
pub open spec fn push_outcome<T>(
    state: BufferState<T>,
    generation: u64,
    len: nat,
    offset: usize,
) -> PushOutcome {
    if offset >= len {
        PushOutcome::Finished
    } else if state.generation != generation {
        PushOutcome::Stale
    } else if state.push_end(generation, len, offset as nat) >= len {
        PushOutcome::Finished
    } else {
        PushOutcome::Blocked { offset: state.push_end(generation, len, offset as nat) as usize }
    }
}

impl<T> View for RadioBuffer<T> {
    type V = BufferState<T>;

    closed spec fn view(&self) -> BufferState<T> {
        BufferState {
            generation: self.generation,
            samples: self.samples@,
            capacity: self.capacity as nat,
        }
    }
}

impl<T> RadioBuffer<T> {
    /// An empty buffer of generation 0 with room for [`BUFFER_SECONDS`].
    pub fn new() -> (buffer: Self)
        ensures
            buffer@ == (BufferState {
                generation: 0,
                samples: Seq::<T>::empty(),
                capacity: (OUTPUT_SAMPLE_RATE * OUTPUT_CHANNELS * BUFFER_SECONDS) as nat,
            }),
            buffer@.wf(),
    {
        RadioBuffer {
            generation: 0,
            samples: VecDeque::new(),
            capacity: OUTPUT_SAMPLE_RATE * OUTPUT_CHANNELS * BUFFER_SECONDS,
        }
    }

    /// Empties the buffer and hands it to the stream of `generation`.
    pub fn clear(&mut self, generation: u64)
        ensures
            final(self)@ == old(self)@.cleared(generation),
            final(self)@.wf(),
    {
        self.generation = generation;
        self.samples.clear();
    }
}

impl<T: Copy> RadioBuffer<T> {
    /// Fills `output` with the oldest samples and, where there are too few,
    /// with `silence`. Playback stops when the buffer has run empty. While
    /// playback is off, nothing is taken from the buffer and all is silence.
    pub fn fill_output(&mut self, output: &mut [T], silence: T, playback: &mut Playback)
        ensures
            !old(playback).is_playing ==> {
                &&& final(self)@ == old(self)@
                &&& *final(playback) == *old(playback)
                &&& final(output)@ == Seq::new(old(output)@.len(), |i: int| silence)
            },
            old(playback).is_playing ==> {
                &&& final(self)@ == old(self)@.drained(old(output)@.len())
                &&& *final(playback) == old(playback).output_filled(
                    final(self)@.samples.len() > 0,
                )
                &&& final(output)@ == old(self)@.played(old(output)@.len(), silence)
            },
            old(self)@.wf() ==> final(self)@.wf(),
    {
        let ghost start = self.samples@;
        let len: usize = output.len();
        let mut index: usize = 0;
        while index < len
            invariant
                index <= len == output@.len() == old(output)@.len(),
                self@ == old(self)@,
                forall|i: int| 0 <= i < index ==> output@[i] == silence,
            decreases len - index,
        {
            output[index] = silence;
            index += 1;
        }
        if !playback.is_playing {
            return;
        }
        let mut wrote: usize = 0;
        while wrote < len
            invariant
                wrote <= len == output@.len() == old(output)@.len(),
                self.generation == old(self).generation,
                self.capacity == old(self).capacity,
                start == old(self)@.samples,
                wrote <= start.len(),
                self.samples@ == start.skip(wrote as int),
                forall|i: int| 0 <= i < wrote ==> output@[i] == start[i],
                forall|i: int| wrote <= i < len ==> output@[i] == silence,
            ensures
                wrote == old(self)@.taken(len as nat),
            decreases len - wrote,
        {
            match self.samples.pop_front() {
                Some(sample) => {
                    output[wrote] = sample;
                    wrote += 1;
                },
                None => {
                    break;
                },
            }
        }
        let has_samples: bool = self.samples.len() > 0;
        playback.has_buffer = has_samples;
        if !has_samples {
            playback.is_playing = false;
        }
    }

    /// Queues `samples` from `offset` on as far as there is room, for the
    /// stream of `generation`.
    pub fn push_samples(&mut self, generation: u64, samples: &[T], offset: usize) -> (outcome:
        PushOutcome)
        ensures
            outcome == push_outcome(old(self)@, generation, samples@.len(), offset),
            final(self)@ == old(self)@.pushed(generation, samples@, offset as nat),
            old(self)@.wf() ==> final(self)@.wf(),
    {
        if offset >= samples.len() {
            return PushOutcome::Finished;
        }
        if self.generation != generation {
            return PushOutcome::Stale;
        }
        if self.samples.len() >= self.capacity {
            return PushOutcome::Blocked { offset };
        }
        let available: usize = self.capacity - self.samples.len();
        let end: usize = if available < samples.len() - offset {
            offset + available
        } else {
            samples.len()
        };
        let mut next: usize = offset;
        while next < end
            invariant
                offset <= next <= end <= samples@.len(),
                self.generation == old(self).generation,
                self.capacity == old(self).capacity,
                self.samples@ == old(self).samples@ + samples@.subrange(offset as int, next as int),
            decreases end - next,
        {
            self.samples.push_back(samples[next]);
            next += 1;
        }
        if end < samples.len() {
            PushOutcome::Blocked { offset: end }
        } else {
            PushOutcome::Finished
        }
    }
}

/// One use of a buffer.
pub enum BufferUse<T> {
    /// The decoder pushes `samples` from `offset`.
    Push { generation: u64, samples: Seq<T>, offset: nat },
    /// The output device plays `len` samples.
    Output { len: nat },
    /// The buffer is handed to the stream of `generation`.
    Clear { generation: u64 },
}

/// The buffer after `uses`, one after the other.
pub open spec fn used<T>(state: BufferState<T>, uses: Seq<BufferUse<T>>) -> BufferState<T>
    decreases uses.len(),
{
    if uses.len() == 0 {
        state
    } else {
        let before = used(state, uses.drop_last());
        match uses.last() {
            BufferUse::Push { generation, samples, offset } => before.pushed(
                generation,
                samples,
                offset,
            ),
            BufferUse::Output { len } => before.drained(len),
            BufferUse::Clear { generation } => before.cleared(generation),
        }
    }
}

/// The stream that the buffer belongs to after `uses`: that of the last clear.
pub open spec fn last_generation<T>(state: BufferState<T>, uses: Seq<BufferUse<T>>) -> u64
    decreases uses.len(),
{
    if uses.len() == 0 {
        state.generation
    } else {
        match uses.last() {
            BufferUse::Clear { generation } => generation,
            _ => last_generation(state, uses.drop_last()),
        }
    }
}

/// What was waiting when the buffer was last cleared in `uses`, or at the start
/// if it was not.
pub open spec fn waiting_at_start<T>(state: BufferState<T>, uses: Seq<BufferUse<T>>) -> Seq<T>
    decreases uses.len(),
{
    if uses.len() == 0 {
        state.samples
    } else {
        match uses.last() {
            BufferUse::Clear { generation } => Seq::empty(),
            _ => waiting_at_start(state, uses.drop_last()),
        }
    }
}

/// Every sample that was queued in `uses` since the last clear, in order.
pub open spec fn queued<T>(state: BufferState<T>, uses: Seq<BufferUse<T>>) -> Seq<T>
    decreases uses.len(),
{
    if uses.len() == 0 {
        Seq::empty()
    } else {
        let earlier = queued(state, uses.drop_last());
        let before = used(state, uses.drop_last());
        match uses.last() {
            BufferUse::Push { generation, samples, offset } => {
                let end = before.push_end(generation, samples.len(), offset);
                if offset < end {
                    earlier + samples.subrange(offset as int, end as int)
                } else {
                    earlier
                }
            },
            BufferUse::Output { len } => earlier,
            BufferUse::Clear { generation } => Seq::empty(),
        }
    }
}

/// Every sample that was handed to the output device in `uses` since the last
/// clear, in order.
pub open spec fn heard<T>(state: BufferState<T>, uses: Seq<BufferUse<T>>) -> Seq<T>
    decreases uses.len(),
{
    if uses.len() == 0 {
        Seq::empty()
    } else {
        let earlier = heard(state, uses.drop_last());
        let before = used(state, uses.drop_last());
        match uses.last() {
            BufferUse::Push { generation, samples, offset } => earlier,
            BufferUse::Output { len } => earlier + before.samples.take(before.taken(len) as int),
            BufferUse::Clear { generation } => Seq::empty(),
        }
    }
}

/// However pushes, outputs and clears take turns, no sample is lost, repeated
/// or reordered but by a clear: since the last one, what was waiting and what
/// was queued is what was heard and what is waiting now.
pub proof fn law_samples_are_heard_in_order<T>(state: BufferState<T>, uses: Seq<BufferUse<T>>)
    ensures
        waiting_at_start(state, uses) + queued(state, uses) == heard(state, uses) + used(
            state,
            uses,
        ).samples,
    decreases uses.len(),
{
    if uses.len() == 0 {
        assert(state.samples + Seq::<T>::empty() =~= Seq::<T>::empty() + state.samples);
    } else {
        let uses0 = uses.drop_last();
        let before = used(state, uses0);
        let start = waiting_at_start(state, uses0);
        law_samples_are_heard_in_order(state, uses0);
        match uses.last() {
            BufferUse::Push { generation, samples, offset } => {
                let end = before.push_end(generation, samples.len(), offset);
                if offset < end {
                    let part = samples.subrange(offset as int, end as int);
                    assert(start + (queued(state, uses0) + part) =~= (start + queued(state, uses0))
                        + part);
                    assert(heard(state, uses0) + (before.samples + part) =~= (heard(state, uses0)
                        + before.samples) + part);
                }
            },
            BufferUse::Output { len } => {
                let taken = before.taken(len) as int;
                assert(before.samples =~= before.samples.take(taken) + before.samples.skip(taken));
                assert((heard(state, uses0) + before.samples.take(taken)) + before.samples.skip(
                    taken,
                ) =~= heard(state, uses0) + before.samples);
            },
            BufferUse::Clear { generation } => {},
        }
    }
}

/// Whatever is done with the buffer, it is never overfull, it keeps its
/// capacity, and it belongs to the stream that it was last cleared for.
pub proof fn law_capacity_is_kept<T>(state: BufferState<T>, uses: Seq<BufferUse<T>>)
    requires
        state.wf(),
    ensures
        used(state, uses).wf(),
        used(state, uses).capacity == state.capacity,
        used(state, uses).generation == last_generation(state, uses),
    decreases uses.len(),
{
    if uses.len() > 0 {
        law_capacity_is_kept(state, uses.drop_last());
    }
}

/// Samples of another generation never get into the buffer.
pub proof fn law_stale_samples_are_dropped<T>(
    state: BufferState<T>,
    generation: u64,
    samples: Seq<T>,
    offset: usize,
)
    requires
        generation != state.generation,
        offset < samples.len(),
    ensures
        push_outcome(state, generation, samples.len(), offset) == PushOutcome::Stale,
        state.pushed(generation, samples, offset as nat) == state,
{
}

/// The buffer and the offset at the end of a push that goes on after each
/// output: it starts at `offset`, and `outputs` are the sizes of the outputs
/// in between.
pub open spec fn resumed<T>(
    state: BufferState<T>,
    generation: u64,
    samples: Seq<T>,
    offset: nat,
    outputs: Seq<nat>,
) -> (BufferState<T>, nat)
    decreases outputs.len(),
{
    let after = state.pushed(generation, samples, offset);
    let end = state.push_end(generation, samples.len(), offset);
    if outputs.len() == 0 {
        (after, end)
    } else {
        resumed(after.drained(outputs[0]), generation, samples, end, outputs.skip(1))
    }
}

/// What is heard during [`resumed`].
pub open spec fn heard_meanwhile<T>(
    state: BufferState<T>,
    generation: u64,
    samples: Seq<T>,
    offset: nat,
    outputs: Seq<nat>,
) -> Seq<T>
    decreases outputs.len(),
{
    let after = state.pushed(generation, samples, offset);
    let end = state.push_end(generation, samples.len(), offset);
    if outputs.len() == 0 {
        Seq::empty()
    } else {
        after.samples.take(after.taken(outputs[0]) as int) + heard_meanwhile(
            after.drained(outputs[0]),
            generation,
            samples,
            end,
            outputs.skip(1),
        )
    }
}

/// A push that goes on where it was blocked queues its samples once each and
/// in order, up to the offset that it has reached.
pub proof fn law_resumed_push_queues_in_order<T>(
    state: BufferState<T>,
    generation: u64,
    samples: Seq<T>,
    offset: nat,
    outputs: Seq<nat>,
)
    requires
        offset <= samples.len(),
    ensures
        ({
            let (last, end) = resumed(state, generation, samples, offset, outputs);
            &&& offset <= end <= samples.len()
            &&& state.samples + samples.subrange(offset as int, end as int) == heard_meanwhile(
                state,
                generation,
                samples,
                offset,
                outputs,
            ) + last.samples
        }),
    decreases outputs.len(),
{
    let after = state.pushed(generation, samples, offset);
    let end = state.push_end(generation, samples.len(), offset);
    assert(after.samples =~= state.samples + samples.subrange(offset as int, end as int));
    if outputs.len() == 0 {
        assert(Seq::<T>::empty() + after.samples =~= after.samples);
    } else {
        let next = after.drained(outputs[0]);
        let taken = after.taken(outputs[0]) as int;
        law_resumed_push_queues_in_order(next, generation, samples, end, outputs.skip(1));
        let (last, last_end) = resumed(next, generation, samples, end, outputs.skip(1));
        let rest = heard_meanwhile(next, generation, samples, end, outputs.skip(1));
        assert(after.samples =~= after.samples.take(taken) + next.samples);
        assert(samples.subrange(offset as int, last_end as int) =~= samples.subrange(
            offset as int,
            end as int,
        ) + samples.subrange(end as int, last_end as int));
        assert(state.samples + samples.subrange(offset as int, last_end as int)
            =~= after.samples.take(taken) + (next.samples + samples.subrange(
            end as int,
            last_end as int,
        )));
        assert(after.samples.take(taken) + (rest + last.samples) =~= (after.samples.take(taken)
            + rest) + last.samples);
    }
}

/// A push for the buffer's own stream comes to its end: it is enough that the
/// output device goes on playing, at least one sample per missing sample.
pub proof fn law_resumed_push_finishes<T>(
    state: BufferState<T>,
    samples: Seq<T>,
    offset: nat,
    outputs: Seq<nat>,
)
    requires
        state.wf(),
        state.capacity > 0,
        offset <= samples.len(),
        forall|i: int| 0 <= i < outputs.len() ==> outputs[i] > 0,
        outputs.len() >= samples.len() - offset,
    ensures
        resumed(state, state.generation, samples, offset, outputs).1 == samples.len(),
{
    lemma_resumed_push_finishes(state, samples, offset, outputs);
}

/// As [`law_resumed_push_finishes`], with one output less where there is room
/// from the start.
proof fn lemma_resumed_push_finishes<T>(
    state: BufferState<T>,
    samples: Seq<T>,
    offset: nat,
    outputs: Seq<nat>,
)
    requires
        state.wf(),
        state.capacity > 0,
        offset <= samples.len(),
        forall|i: int| 0 <= i < outputs.len() ==> outputs[i] > 0,
        outputs.len() + (if state.space() > 0 {
            1int
        } else {
            0
        }) >= samples.len() - offset,
    ensures
        resumed(state, state.generation, samples, offset, outputs).1 == samples.len(),
    decreases outputs.len(),
{
    let after = state.pushed(state.generation, samples, offset);
    let end = state.push_end(state.generation, samples.len(), offset);
    if outputs.len() > 0 {
        let next = after.drained(outputs[0]);
        let rest = outputs.skip(1);
        assert forall|i: int| 0 <= i < rest.len() implies rest[i] > 0 by {
            assert(rest[i] == outputs[i + 1]);
        }
        lemma_resumed_push_finishes(next, samples, end, rest);
    }
}

/// An output plays the oldest samples and keeps the others: what it plays, up
/// to the samples that there were, and what is left are together what was
/// waiting. Only where nothing was waiting there is silence, and the buffer
/// stays with its stream.
pub proof fn law_output_takes_the_oldest<T>(state: BufferState<T>, len: nat, silence: T)
    ensures
        ({
            let sounding = if len <= state.samples.len() {
                len as int
            } else {
                state.samples.len() as int
            };
            let played = state.played(len, silence);
            let after = state.drained(len);
            &&& played.len() == len
            &&& played.take(sounding) + after.samples == state.samples
            &&& forall|i: int| sounding <= i < len ==> played[i] == silence
            &&& after.generation == state.generation
            &&& after.capacity == state.capacity
        }),
{
    let sounding = state.taken(len) as int;
    assert(state.played(len, silence).take(sounding) + state.drained(len).samples
        =~= state.samples);
}

/// A push takes all that fits, and says what it took: a finished one has queued
/// everything from `offset` on, a blocked one has filled the buffer and goes on
/// right behind what it queued, and a stale one has queued nothing. It is stale
/// exactly where there is something to queue for another stream.
pub proof fn law_push_takes_what_fits<T>(
    state: BufferState<T>,
    generation: u64,
    samples: Seq<T>,
    offset: usize,
)
    requires
        state.samples.len() <= state.capacity,
        samples.len() <= usize::MAX,
    ensures
        ({
            let after = state.pushed(generation, samples, offset as nat);
            let outcome = push_outcome(state, generation, samples.len(), offset);
            &&& after.generation == state.generation
            &&& after.capacity == state.capacity
            &&& outcome is Stale <==> offset < samples.len() && generation != state.generation
            &&& match outcome {
                PushOutcome::Finished => if offset <= samples.len() {
                    after.samples == state.samples + samples.skip(offset as int)
                } else {
                    after.samples == state.samples
                },
                PushOutcome::Stale => after.samples == state.samples,
                PushOutcome::Blocked { offset: next } => {
                    &&& offset <= next < samples.len()
                    &&& after.samples == state.samples + samples.subrange(
                        offset as int,
                        next as int,
                    )
                    &&& after.samples.len() == state.capacity
                },
            }
        }),
{
    if offset <= samples.len() {
        let from = offset as int;
        assert(samples.subrange(from, samples.len() as int) =~= samples.skip(from));
        assert(state.samples + samples.subrange(from, from) =~= state.samples);
    }
}

/// A cleared buffer is empty, belongs to the new stream, and has its old size.
pub proof fn law_clear_empties_the_buffer<T>(state: BufferState<T>, generation: u64)
    ensures
        state.cleared(generation).samples.len() == 0,
        state.cleared(generation).generation == generation,
        state.cleared(generation).capacity == state.capacity,
{
}

/// A call of `fill_output` writes the whole output and moves nothing else. While
/// the radio plays, what it writes before the silence and what it leaves in the
/// buffer are together what the buffer held, and playback goes on exactly if
/// something is left. While the radio does not play, it writes silence and
/// changes nothing.
pub proof fn law_fill_output_plays_the_buffer<T: Copy>(silence: T)
    ensures
        forall|buffer: &mut RadioBuffer<T>, output: &mut [T], playback: &mut Playback|
            #[trigger] call_ensures(
                RadioBuffer::<T>::fill_output,
                (buffer, output, silence, playback),
                (),
            ) ==> {
                let sounding = if output@.len() <= buffer@.samples.len() {
                    output@.len() as int
                } else {
                    buffer@.samples.len() as int
                };
                &&& final(output)@.len() == output@.len()
                &&& final(buffer)@.generation == buffer@.generation
                &&& final(buffer)@.capacity == buffer@.capacity
                &&& final(playback).is_buffering == playback.is_buffering
                &&& final(playback).stream_generation == playback.stream_generation
                &&& playback.is_playing ==> {
                    &&& final(output)@.take(sounding) + final(buffer)@.samples == buffer@.samples
                    &&& forall|i: int|
                        sounding <= i < output@.len() ==> (#[trigger] final(output)@[i]) == silence
                    &&& final(playback).has_buffer == (final(buffer)@.samples.len() > 0)
                    &&& final(playback).is_playing == (final(buffer)@.samples.len() > 0)
                }
                &&& !playback.is_playing ==> {
                    &&& final(buffer)@.samples == buffer@.samples
                    &&& forall|i: int|
                        0 <= i < output@.len() ==> (#[trigger] final(output)@[i]) == silence
                    &&& final(playback).has_buffer == playback.has_buffer
                    &&& !final(playback).is_playing
                }
            },
{
    assert forall|buffer: &mut RadioBuffer<T>, output: &mut [T], playback: &mut Playback|
        #[trigger] call_ensures(
            RadioBuffer::<T>::fill_output,
            (buffer, output, silence, playback),
            (),
        ) && playback.is_playing implies ({
        let sounding = if output@.len() <= buffer@.samples.len() {
            output@.len() as int
        } else {
            buffer@.samples.len() as int
        };
        final(output)@.take(sounding) + final(buffer)@.samples == buffer@.samples
    }) by {
        law_output_takes_the_oldest(buffer@, output@.len(), silence);
    }
}

/// A call of `push_samples` queues all that fits, behind what was waiting, and
/// says what it queued.
pub proof fn law_push_samples_queues_what_fits<T: Copy>(
    generation: u64,
    samples: &[T],
    offset: usize,
    outcome: PushOutcome,
)
    requires
        offset <= samples@.len() <= usize::MAX,
    ensures
        forall|buffer: &mut RadioBuffer<T>|
            #[trigger] call_ensures(
                RadioBuffer::<T>::push_samples,
                (buffer, generation, samples, offset),
                outcome,
            ) && buffer@.samples.len() <= buffer@.capacity ==> {
                let before = buffer@;
                let after = final(buffer)@;
                &&& after.generation == before.generation
                &&& after.capacity == before.capacity
                &&& outcome is Stale <==> offset < samples@.len() && generation != before.generation
                &&& match outcome {
                    PushOutcome::Finished => after.samples == before.samples + samples@.skip(
                        offset as int,
                    ),
                    PushOutcome::Stale => after.samples == before.samples,
                    PushOutcome::Blocked { offset: next } => {
                        &&& offset <= next < samples@.len()
                        &&& after.samples == before.samples + samples@.subrange(
                            offset as int,
                            next as int,
                        )
                        &&& after.samples.len() == before.capacity
                    },
                }
            },
{
    assert forall|buffer: &mut RadioBuffer<T>|
        #[trigger] call_ensures(
            RadioBuffer::<T>::push_samples,
            (buffer, generation, samples, offset),
            outcome,
        ) && buffer@.samples.len() <= buffer@.capacity implies (final(buffer)@ == buffer@.pushed(
        generation,
        samples@,
        offset as nat,
    ) && match outcome {
        PushOutcome::Finished => final(buffer)@.samples == buffer@.samples + samples@.skip(
            offset as int,
        ),
        PushOutcome::Stale => final(buffer)@.samples == buffer@.samples,
        PushOutcome::Blocked { offset: next } => final(buffer)@.samples == buffer@.samples
            + samples@.subrange(offset as int, next as int),
    }) by {
        law_push_takes_what_fits(buffer@, generation, samples@, offset);
    }
}

/// A new buffer is empty and holds as many seconds of output as it should; a
/// call of `clear` empties a buffer for its new stream and keeps its size.
pub proof fn law_buffers_start_empty<T>(new: RadioBuffer<T>, generation: u64)
    requires
        call_ensures(RadioBuffer::<T>::new, (), new),
    ensures
        new@.samples.len() == 0,
        new@.generation == 0,
        new@.capacity == 8 * 44_100 * 2,
        forall|buffer: &mut RadioBuffer<T>|
            #[trigger] call_ensures(RadioBuffer::<T>::clear, (buffer, generation), ()) ==> {
                &&& final(buffer)@.samples.len() == 0
                &&& final(buffer)@.generation == generation
                &&& final(buffer)@.capacity == buffer@.capacity
            },
{
}

} // verus!
