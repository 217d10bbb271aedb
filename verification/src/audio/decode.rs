//! The decisions of the decoder thread.

use crate::audio::playback::Playback;
use crate::audio::radio_buffer::{push_outcome, BufferState, PushOutcome, RadioBuffer};
use crate::audio::resample::{
    law_output_has_the_length_of_the_source, output_stereo, output_stereo_fits, to_output_stereo,
};
use vstd::prelude::*;

verus! {

/// The file extension that hints at the format of a stream.
pub const STREAM_EXTENSION: &'static str = "mp3";

/// An error of the demuxer or of the decoder.
#[derive(Debug)]
pub enum CodecError {
    /// The source failed. `unexpected_eof` tells that it ended.
    Io { unexpected_eof: bool, message: String },
    /// The data is malformed.
    Decode { message: String },
    /// Anything else.
    Other { message: String },
}

/// Why decoding ends early.
#[derive(Debug)]
pub enum DecodeError {
    /// The stream has no audio.
    NoTrack,
    /// The demuxer or the decoder failed.
    Codec { error: CodecError },
}

/// What happens to the decoder thread.
#[derive(Debug)]
pub enum DecodeEvent<'a, T> {
    /// Decoding begins.
    Started,
    /// A packet was read.
    Packet { track_id: u32 },
    /// No packet could be read.
    PacketFailed { error: CodecError },
    /// The packet was decoded to interleaved samples.
    Decoded { samples: &'a [T], sample_rate: usize, channels: usize },
    /// The packet could not be decoded.
    DecodeFailed { error: CodecError },
    /// The wait for room in the buffer is over.
    Waited,
}

/// What the decoder thread does next.
#[derive(Debug)]
pub enum DecodeAction {
    /// Read the next packet.
    ReadPacket,
    /// Decode the packet that was read.
    DecodePacket,
    /// Wait for room in the buffer.
    Wait,
    /// End.
    Finish,
    /// End with an error.
    Fail { error: DecodeError },
}

/// The decoding of one stream.
#[derive(Debug)]
pub struct DecodeSession<T> {
    generation: u64,
    track_id: u32,
    pending: Vec<T>,
    offset: usize,
}

/// The state of a [`DecodeSession`].
#[verifier::ext_equal]
pub struct DecodeState<T> {
    /// The stream that is decoded.
    pub generation: u64,
    /// The track of the stream that is played.
    pub track_id: u32,
    /// Converted samples of which those before `offset` are queued.
    pub pending: Seq<T>,
    pub offset: usize,
}

/// What an event leads to.
pub struct DecodeResult<T> {
    pub session: DecodeState<T>,
    pub playback: Playback,
    pub buffer: BufferState<T>,
    pub action: DecodeAction,
}

impl CodecError {
    /// The text of the error.
    pub open spec fn text(self) -> Seq<char> {
        match self {
            CodecError::Io { unexpected_eof, message } => message@,
            CodecError::Decode { message } => message@,
            CodecError::Other { message } => message@,
        }
    }
}

impl DecodeError {
    /// The text of the error.
    pub open spec fn text(self) -> Seq<char> {
        match self {
            DecodeError::NoTrack => "No audio track in radio stream"@,
            DecodeError::Codec { error } => error.text(),
        }
    }

    /// The error in words.
    pub fn message(&self) -> (message: String)
        ensures
            message@ == self.text(),
    {
        match self {
            DecodeError::NoTrack => "No audio track in radio stream".to_owned(),
            DecodeError::Codec { error } => match error {
                CodecError::Io { unexpected_eof, message } => message.clone(),
                CodecError::Decode { message } => message.clone(),
                CodecError::Other { message } => message.clone(),
            },
        }
    }
}

impl<T> DecodeState<T> {
    /// Either nothing is pending, or something of it is not queued yet.
    pub open spec fn wf(self) -> bool {
        self.offset < self.pending.len() || (self.offset == 0 && self.pending.len() == 0)
    }

    /// The session with nothing pending.
    pub open spec fn idle(self) -> DecodeState<T> {
        DecodeState { pending: Seq::empty(), offset: 0, ..self }
    }

    /// Nothing changes but that `action` follows.
    pub open spec fn act(
        self,
        playback: Playback,
        buffer: BufferState<T>,
        action: DecodeAction,
    ) -> DecodeResult<T> {
        DecodeResult { session: self, playback, buffer, action }
    }

    /// The next packet is read, if this stream is still the newest one.
    pub open spec fn resumed(self, playback: Playback, buffer: BufferState<T>) -> DecodeResult<T> {
        self.act(
            playback,
            buffer,
            if playback.stream_generation == self.generation {
                DecodeAction::ReadPacket
            } else {
                DecodeAction::Finish
            },
        )
    }

    /// The pending samples are queued as far as there is room. Once all are
    /// queued they are played, and decoding goes on.
    pub open spec fn queued(self, playback: Playback, buffer: BufferState<T>) -> DecodeResult<T> {
        let pushed = buffer.pushed(self.generation, self.pending, self.offset as nat);
        match push_outcome(buffer, self.generation, self.pending.len(), self.offset) {
            PushOutcome::Finished => self.idle().resumed(playback.fed(), pushed),
            PushOutcome::Stale => self.idle().act(playback, pushed, DecodeAction::Finish),
            PushOutcome::Blocked { offset } => DecodeState { offset, ..self }.act(
                playback,
                pushed,
                DecodeAction::Wait,
            ),
        }
    }

    /// What `event` leads to. Packets of other tracks, packets without samples
    /// and malformed packets are skipped; the end of the source is the end of
    /// the stream.
    pub open spec fn stepped(
        self,
        event: DecodeEvent<T>,
        playback: Playback,
        buffer: BufferState<T>,
    ) -> DecodeResult<T> {
        match event {
            DecodeEvent::Started => self.resumed(playback, buffer),
            DecodeEvent::Packet { track_id } => if track_id == self.track_id {
                self.act(playback, buffer, DecodeAction::DecodePacket)
            } else {
                self.resumed(playback, buffer)
            },
            DecodeEvent::PacketFailed { error } => self.act(
                playback,
                buffer,
                match error {
                    CodecError::Io { unexpected_eof: true, message } => DecodeAction::Finish,
                    error => DecodeAction::Fail { error: DecodeError::Codec { error } },
                },
            ),
            DecodeEvent::Decoded { samples, sample_rate, channels } => {
                let output = output_stereo(samples@, sample_rate as nat, channels as nat);
                if output.len() == 0 {
                    self.resumed(playback, buffer)
                } else {
                    DecodeState { pending: output, offset: 0, ..self }.queued(playback, buffer)
                }
            },
            DecodeEvent::DecodeFailed { error } => match error {
                CodecError::Decode { message } => self.resumed(playback, buffer),
                error => self.act(
                    playback,
                    buffer,
                    DecodeAction::Fail { error: DecodeError::Codec { error } },
                ),
            },
            DecodeEvent::Waited => if self.pending.len() == 0 {
                self.resumed(playback, buffer)
            } else {
                self.queued(playback, buffer)
            },
        }
    }
}

impl<T> View for DecodeSession<T> {
    type V = DecodeState<T>;

    closed spec fn view(&self) -> DecodeState<T> {
        DecodeState {
            generation: self.generation,
            track_id: self.track_id,
            pending: self.pending@,
            offset: self.offset,
        }
    }
}

impl<T: Copy> DecodeSession<T> {
    /// Begins to decode the default track of the stream of `generation`.
    pub fn start(generation: u64, default_track: Option<u32>) -> (session: Result<
        DecodeSession<T>,
        DecodeError,
    >)
        ensures
            match default_track {
                Some(track_id) => session matches Ok(session) && session@ == (DecodeState {
                    generation,
                    track_id,
                    pending: Seq::<T>::empty(),
                    offset: 0,
                }),
                None => session == Err::<DecodeSession<T>, DecodeError>(DecodeError::NoTrack),
            },
    {
        match default_track {
            Some(track_id) => Ok(
                DecodeSession { generation, track_id, pending: Vec::new(), offset: 0 },
            ),
            None => Err(DecodeError::NoTrack),
        }
    }

    /// Goes on with the next packet while this stream is the newest one.
    fn resume(&self, playback: &Playback) -> (action: DecodeAction)
        ensures
            forall|buffer: BufferState<T>|
                action == (#[trigger] self@.resumed(*playback, buffer)).action,
    {
        if playback.stream_generation != self.generation {
            DecodeAction::Finish
        } else {
            DecodeAction::ReadPacket
        }
    }

    /// Queues the pending samples as far as there is room.
    fn queue(&mut self, playback: &mut Playback, buffer: &mut RadioBuffer<T>) -> (action:
        DecodeAction)
        ensures
            old(self)@.queued(*old(playback), old(buffer)@) == (DecodeResult {
                session: final(self)@,
                playback: *final(playback),
                buffer: final(buffer)@,
                action,
            }),
    {
        match buffer.push_samples(self.generation, self.pending.as_slice(), self.offset) {
            PushOutcome::Finished => {
                self.pending = Vec::new();
                self.offset = 0;
                playback.has_buffer = true;
                playback.is_buffering = false;
                playback.is_playing = true;
                self.resume(playback)
            },
            PushOutcome::Stale => {
                self.pending = Vec::new();
                self.offset = 0;
                DecodeAction::Finish
            },
            PushOutcome::Blocked { offset } => {
                self.offset = offset;
                DecodeAction::Wait
            },
        }
    }

    /// Takes note of `event` and says what to do next. Decoded samples are
    /// converted for the output device and queued.
    pub fn step(
        &mut self,
        event: DecodeEvent<T>,
        playback: &mut Playback,
        buffer: &mut RadioBuffer<T>,
    ) -> (action: DecodeAction)
        requires
            event matches DecodeEvent::Decoded { samples, sample_rate, channels }
                ==> output_stereo_fits(samples@.len(), sample_rate as nat, channels as nat),
        ensures
            old(self)@.stepped(event, *old(playback), old(buffer)@) == (DecodeResult {
                session: final(self)@,
                playback: *final(playback),
                buffer: final(buffer)@,
                action,
            }),
    {
        match event {
            DecodeEvent::Started => self.resume(playback),
            DecodeEvent::Packet { track_id } => if track_id != self.track_id {
                self.resume(playback)
            } else {
                DecodeAction::DecodePacket
            },
            DecodeEvent::PacketFailed { error } => match error {
                CodecError::Io { unexpected_eof: true, message } => DecodeAction::Finish,
                error => DecodeAction::Fail { error: DecodeError::Codec { error } },
            },
            DecodeEvent::Decoded { samples, sample_rate, channels } => {
                let output: Vec<T> = to_output_stereo(samples, sample_rate, channels);
                if output.len() == 0 {
                    self.resume(playback)
                } else {
                    self.pending = output;
                    self.offset = 0;
                    self.queue(playback, buffer)
                }
            },
            DecodeEvent::DecodeFailed { error } => match error {
                CodecError::Decode { message } => self.resume(playback),
                error => DecodeAction::Fail { error: DecodeError::Codec { error } },
            },
            DecodeEvent::Waited => if self.pending.len() == 0 {
                self.resume(playback)
            } else {
                self.queue(playback, buffer)
            },
        }
    }
}

/// A stream that has lost the buffer to another one changes nothing any more:
/// no sample of it gets into the buffer, and playback is left alone.
pub proof fn law_stale_stream_is_silent<T>(
    session: DecodeState<T>,
    event: DecodeEvent<T>,
    playback: Playback,
    buffer: BufferState<T>,
)
    requires
        session.wf(),
        session.generation != buffer.generation,
    ensures
        session.stepped(event, playback, buffer).buffer == buffer,
        session.stepped(event, playback, buffer).playback == playback,
        !(session.stepped(event, playback, buffer).action is Wait),
{
}

/// No packet is read for a stream that is not the newest one.
pub proof fn law_only_the_newest_stream_reads<T>(
    session: DecodeState<T>,
    event: DecodeEvent<T>,
    playback: Playback,
    buffer: BufferState<T>,
)
    ensures
        session.stepped(event, playback, buffer).action is ReadPacket
            ==> playback.stream_generation == session.generation,
{
}

/// What every step keeps: the session stays well-formed and with its stream,
/// the buffer is not overfull, and nothing plays without samples.
pub proof fn law_decoding_keeps_invariants<T>(
    session: DecodeState<T>,
    event: DecodeEvent<T>,
    playback: Playback,
    buffer: BufferState<T>,
)
    requires
        session.wf(),
        buffer.wf(),
        playback.coherent(),
    ensures
        ({
            let after = session.stepped(event, playback, buffer);
            &&& after.session.wf()
            &&& after.session.generation == session.generation
            &&& after.session.track_id == session.track_id
            &&& after.buffer.wf()
            &&& after.buffer.generation == buffer.generation
            &&& after.playback.coherent()
            &&& after.playback.stream_generation == playback.stream_generation
        }),
{
}

/// Decoded samples are queued completely and in order before the next packet
/// is read: when there is room for all of them, the buffer ends with the
/// converted packet, and it plays.
pub proof fn law_decoded_packet_is_queued<T>(
    session: DecodeState<T>,
    samples: &[T],
    sample_rate: usize,
    channels: usize,
    playback: Playback,
    buffer: BufferState<T>,
)
    requires
        buffer.wf(),
        session.generation == buffer.generation == playback.stream_generation,
        0 < output_stereo(samples@, sample_rate as nat, channels as nat).len() <= buffer.space(),
    ensures
        ({
            let output = output_stereo(samples@, sample_rate as nat, channels as nat);
            let read = session.stepped(
                DecodeEvent::Packet { track_id: session.track_id },
                playback,
                buffer,
            );
            let after = read.session.stepped(
                DecodeEvent::Decoded { samples, sample_rate, channels },
                read.playback,
                read.buffer,
            );
            &&& read.action is DecodePacket
            &&& after.buffer.samples == buffer.samples + output
            &&& after.playback == playback.fed()
            &&& after.action is ReadPacket
        }),
{
    let output = output_stereo(samples@, sample_rate as nat, channels as nat);
    assert(output.subrange(0, output.len() as int) =~= output);
}

/// Where a decoder that waits gets: `waits` are the sizes of the outputs in
/// the meantime, each with the state of playback after it. It stops waiting as
/// soon as its samples are queued.
pub open spec fn waited<T>(at: DecodeResult<T>, waits: Seq<(nat, Playback)>) -> DecodeResult<T>
    decreases waits.len(),
{
    if waits.len() == 0 || !(at.action is Wait) {
        at
    } else {
        let (len, playback) = waits[0];
        waited(
            at.session.stepped(DecodeEvent::Waited, playback, at.buffer.drained(len)),
            waits.skip(1),
        )
    }
}

/// What is heard during [`waited`].
pub open spec fn heard_waiting<T>(at: DecodeResult<T>, waits: Seq<(nat, Playback)>) -> Seq<T>
    decreases waits.len(),
{
    if waits.len() == 0 || !(at.action is Wait) {
        Seq::empty()
    } else {
        let (len, playback) = waits[0];
        at.buffer.samples.take(at.buffer.taken(len) as int) + heard_waiting(
            at.session.stepped(DecodeEvent::Waited, playback, at.buffer.drained(len)),
            waits.skip(1),
        )
    }
}

/// What a session has still to queue.
pub open spec fn unqueued<T>(session: DecodeState<T>) -> Seq<T> {
    session.pending.skip(session.offset as int)
}

/// One wait loses, repeats and reorders nothing.
proof fn lemma_wait_keeps_order<T>(at: DecodeResult<T>, len: nat, playback: Playback)
    requires
        at.session.offset < at.session.pending.len() <= usize::MAX,
        at.session.generation == at.buffer.generation,
        at.buffer.wf(),
    ensures
        ({
            let first = at.buffer.samples.take(at.buffer.taken(len) as int);
            let next = at.session.stepped(DecodeEvent::Waited, playback, at.buffer.drained(len));
            &&& at.buffer.samples + unqueued(at.session) == first + (next.buffer.samples + unqueued(
                next.session,
            ))
            &&& next.action is Wait ==> {
                &&& next.session.offset < next.session.pending.len() <= usize::MAX
                &&& next.session.idle() == at.session.idle()
            }
            &&& !(next.action is Wait) ==> next.session == at.session.idle() && (
            next.action is ReadPacket || next.action is Finish)
            &&& next.session.generation == next.buffer.generation
            &&& next.buffer.wf()
            &&& next.buffer.generation == at.buffer.generation
            &&& next.buffer.capacity == at.buffer.capacity
        }),
{
    let pending = at.session.pending;
    let offset = at.session.offset as int;
    let room = at.buffer.drained(len);
    let next = at.session.stepped(DecodeEvent::Waited, playback, room);
    let end = room.push_end(at.session.generation, pending.len(), offset as nat) as int;
    let first = at.buffer.samples.take(at.buffer.taken(len) as int);
    assert(at.buffer.samples =~= first + room.samples);
    assert(next.buffer.samples =~= room.samples + pending.subrange(offset, end));
    assert(pending.skip(offset) =~= pending.subrange(offset, end) + pending.skip(end));
    assert(unqueued(next.session) =~= pending.skip(end));
    assert(at.buffer.samples + unqueued(at.session) =~= first + (next.buffer.samples + unqueued(
        next.session,
    )));
}

/// A decoder that waits loses, repeats and reorders nothing, however long it
/// waits: what was waiting in the buffer and what it had still to queue is what
/// is heard, what waits in the buffer now, and what it has still to queue.
proof fn lemma_waiting_keeps_order<T>(at: DecodeResult<T>, waits: Seq<(nat, Playback)>)
    requires
        at.action is Wait,
        at.session.offset < at.session.pending.len() <= usize::MAX,
        at.session.generation == at.buffer.generation,
        at.buffer.wf(),
    ensures
        ({
            let end = waited(at, waits);
            &&& at.buffer.samples + unqueued(at.session) == heard_waiting(at, waits) + (
            end.buffer.samples + unqueued(end.session))
            &&& end.action is Wait || (end.session == at.session.idle() && (end.action is ReadPacket
                || end.action is Finish))
            &&& end.buffer.wf()
            &&& end.buffer.generation == at.buffer.generation
            &&& end.buffer.capacity == at.buffer.capacity
        }),
    decreases waits.len(),
{
    if waits.len() == 0 {
        assert(Seq::<T>::empty() + (at.buffer.samples + unqueued(at.session))
            =~= at.buffer.samples + unqueued(at.session));
    } else {
        let (len, playback) = waits[0];
        let next = at.session.stepped(DecodeEvent::Waited, playback, at.buffer.drained(len));
        let rest = waits.skip(1);
        let first = at.buffer.samples.take(at.buffer.taken(len) as int);
        lemma_wait_keeps_order(at, len, playback);
        if next.action is Wait {
            lemma_waiting_keeps_order(next, rest);
            let last = waited(next, rest);
            let after = last.buffer.samples + unqueued(last.session);
            assert(first + (heard_waiting(next, rest) + after) =~= (first + heard_waiting(
                next,
                rest,
            )) + after);
        } else {
            assert(first + Seq::<T>::empty() =~= first);
        }
    }
}

/// A decoder whose buffer is full stops waiting, and then plays, if at least
/// one sample per missing sample is played.
proof fn lemma_waiting_ends<T>(at: DecodeResult<T>, waits: Seq<(nat, Playback)>)
    requires
        at.action is Wait,
        at.session.offset < at.session.pending.len() <= usize::MAX,
        at.session.generation == at.buffer.generation,
        at.buffer.samples.len() == at.buffer.capacity > 0,
        forall|i: int| 0 <= i < waits.len() ==> (#[trigger] waits[i]).0 > 0,
        waits.len() >= at.session.pending.len() - at.session.offset,
    ensures
        !(waited(at, waits).action is Wait),
        waited(at, waits).playback.is_playing,
        (forall|i: int|
            0 <= i < waits.len() ==> (#[trigger] waits[i]).1.stream_generation
                == at.session.generation) ==> waited(at, waits).action is ReadPacket,
    decreases waits.len(),
{
    let (len, playback) = waits[0];
    let room = at.buffer.drained(len);
    let next = at.session.stepped(DecodeEvent::Waited, playback, room);
    let rest = waits.skip(1);
    assert(waited(at, waits) == waited(next, rest));
    if next.action is Wait {
        assert forall|i: int| 0 <= i < rest.len() implies (#[trigger] rest[i]).0 > 0 by {
            assert(rest[i] == waits[i + 1]);
        }
        lemma_waiting_ends(next, rest);
        if forall|i: int|
            0 <= i < waits.len() ==> (#[trigger] waits[i]).1.stream_generation
                == at.session.generation {
            assert forall|i: int| 0 <= i < rest.len() implies (
            #[trigger] rest[i]).1.stream_generation == next.session.generation by {
                assert(rest[i] == waits[i + 1]);
            }
        }
    }
}

/// Every packet is queued completely and in order, also when the buffer is too
/// full for it: the decoder waits while the output device plays, and then goes
/// on playing and reading. Nothing is lost, repeated or reordered on the way.
pub proof fn law_every_packet_is_queued<T>(
    session: DecodeState<T>,
    samples: &[T],
    sample_rate: usize,
    channels: usize,
    playback: Playback,
    buffer: BufferState<T>,
    waits: Seq<(nat, Playback)>,
)
    requires
        buffer.wf(),
        buffer.capacity > 0,
        session.generation == buffer.generation,
        output_stereo_fits(samples@.len(), sample_rate as nat, channels as nat),
        output_stereo(samples@, sample_rate as nat, channels as nat).len() > 0,
        forall|i: int| 0 <= i < waits.len() ==> (#[trigger] waits[i]).0 > 0,
        waits.len() >= output_stereo(samples@, sample_rate as nat, channels as nat).len(),
    ensures
        ({
            let output = output_stereo(samples@, sample_rate as nat, channels as nat);
            let read = session.stepped(
                DecodeEvent::Packet { track_id: session.track_id },
                playback,
                buffer,
            );
            let at = read.session.stepped(
                DecodeEvent::Decoded { samples, sample_rate, channels },
                read.playback,
                read.buffer,
            );
            let end = waited(at, waits);
            &&& read.action is DecodePacket
            &&& end.action is ReadPacket || end.action is Finish
            &&& end.session == session.idle()
            &&& end.playback.is_playing
            &&& buffer.samples + output == heard_waiting(at, waits) + end.buffer.samples
        }),
{
    let decoded = DecodeEvent::Decoded { samples, sample_rate, channels };
    let at = session.stepped(decoded, playback, buffer);
    lemma_decoded_packet(session, samples, sample_rate, channels, playback, buffer, waits);
    if at.action is Wait {
        lemma_waiting_ends(at, waits);
    }
    let end = waited(at, waits);
    assert(unqueued(end.session) =~= Seq::<T>::empty());
    assert(end.buffer.samples + unqueued(end.session) =~= end.buffer.samples);
}

/// What a decoded packet leads to, however long the decoder waits for room.
proof fn lemma_decoded_packet<T>(
    session: DecodeState<T>,
    samples: &[T],
    sample_rate: usize,
    channels: usize,
    playback: Playback,
    buffer: BufferState<T>,
    waits: Seq<(nat, Playback)>,
)
    requires
        buffer.wf(),
        session.generation == buffer.generation,
        output_stereo_fits(samples@.len(), sample_rate as nat, channels as nat),
        output_stereo(samples@, sample_rate as nat, channels as nat).len() > 0,
    ensures
        ({
            let output = output_stereo(samples@, sample_rate as nat, channels as nat);
            let at = session.stepped(
                DecodeEvent::Decoded { samples, sample_rate, channels },
                playback,
                buffer,
            );
            let end = waited(at, waits);
            &&& buffer.samples + output == heard_waiting(at, waits) + (end.buffer.samples
                + unqueued(end.session))
            &&& end.action is Wait || (end.session == session.idle() && (end.action is ReadPacket
                || end.action is Finish))
            &&& end.buffer.wf()
            &&& end.buffer.generation == buffer.generation
            &&& end.buffer.capacity == buffer.capacity
        }),
{
    let output = output_stereo(samples@, sample_rate as nat, channels as nat);
    let decoded = DecodeEvent::Decoded { samples, sample_rate, channels };
    let at = session.stepped(decoded, playback, buffer);
    let end = buffer.push_end(session.generation, output.len(), 0) as int;
    assert(at.buffer.samples =~= buffer.samples + output.subrange(0, end));
    assert(output =~= output.subrange(0, end) + output.skip(end));
    assert(buffer.samples + output =~= at.buffer.samples + output.skip(end));
    if at.action is Wait {
        lemma_waiting_keeps_order(at, waits);
        assert(at.session.idle() =~= session.idle());
    } else {
        assert(output.skip(end) =~= Seq::<T>::empty());
        assert(unqueued(at.session) =~= Seq::<T>::empty());
        assert(at.buffer.samples + output.skip(end) =~= at.buffer.samples + unqueued(at.session));
        assert(Seq::<T>::empty() + (at.buffer.samples + unqueued(at.session))
            =~= at.buffer.samples + unqueued(at.session));
    }
}

/// What a packet turns out to be.
pub enum PacketContent<'a, T> {
    /// It belongs to another track.
    OtherTrack { track_id: u32 },
    /// It cannot be decoded because it is malformed.
    Malformed { message: String },
    /// It is decoded to `samples`.
    Decoded { samples: &'a [T], sample_rate: usize, channels: usize },
}

/// A packet, and what happens around it: the output of `output` samples and the
/// state of playback before it, and the waits for room after it.
pub struct PacketRun<'a, T> {
    pub output: nat,
    pub playback: Playback,
    pub content: PacketContent<'a, T>,
    pub waits: Seq<(nat, Playback)>,
}

impl<'a, T> PacketRun<'a, T> {
    /// What the packet adds to the sound.
    pub open spec fn sound(self) -> Seq<T> {
        match self.content {
            PacketContent::Decoded { samples, sample_rate, channels } => output_stereo(
                samples@,
                sample_rate as nat,
                channels as nat,
            ),
            _ => Seq::empty(),
        }
    }

    /// The packet is one that a session for the track `track_id` can meet.
    pub open spec fn wf(self, track_id: u32) -> bool {
        match self.content {
            PacketContent::OtherTrack { track_id: other } => other != track_id,
            PacketContent::Malformed { message } => true,
            PacketContent::Decoded { samples, sample_rate, channels } => output_stereo_fits(
                samples@.len(),
                sample_rate as nat,
                channels as nat,
            ),
        }
    }

    /// Where a decoder that has read the packet stands before it waits. A packet
    /// is decoded only if the decoder asks for that.
    pub open spec fn met(self, session: DecodeState<T>, buffer: BufferState<T>) -> DecodeResult<T> {
        let room = buffer.drained(self.output);
        match self.content {
            PacketContent::OtherTrack { track_id } => session.stepped(
                DecodeEvent::Packet { track_id },
                self.playback,
                room,
            ),
            PacketContent::Malformed { message } => {
                let read = session.stepped(
                    DecodeEvent::Packet { track_id: session.track_id },
                    self.playback,
                    room,
                );
                if read.action is DecodePacket {
                    read.session.stepped(
                        DecodeEvent::DecodeFailed { error: CodecError::Decode { message } },
                        read.playback,
                        read.buffer,
                    )
                } else {
                    read
                }
            },
            PacketContent::Decoded { samples, sample_rate, channels } => {
                let read = session.stepped(
                    DecodeEvent::Packet { track_id: session.track_id },
                    self.playback,
                    room,
                );
                if read.action is DecodePacket {
                    read.session.stepped(
                        DecodeEvent::Decoded { samples, sample_rate, channels },
                        read.playback,
                        read.buffer,
                    )
                } else {
                    read
                }
            },
        }
    }

    /// What is heard from before the packet until the decoder is done with it.
    pub open spec fn heard(self, session: DecodeState<T>, buffer: BufferState<T>) -> Seq<T> {
        buffer.samples.take(buffer.taken(self.output) as int) + heard_waiting(
            self.met(session, buffer),
            self.waits,
        )
    }
}

/// Where a decoder gets with `packets`, one after the other, as long as it goes
/// on reading.
pub open spec fn decoded<T>(at: DecodeResult<T>, packets: Seq<PacketRun<T>>) -> DecodeResult<T>
    decreases packets.len(),
{
    if packets.len() == 0 {
        at
    } else {
        let before = decoded(at, packets.drop_last());
        if before.action is ReadPacket {
            waited(packets.last().met(before.session, before.buffer), packets.last().waits)
        } else {
            before
        }
    }
}

/// What is heard during [`decoded`].
pub open spec fn heard_decoding<T>(at: DecodeResult<T>, packets: Seq<PacketRun<T>>) -> Seq<T>
    decreases packets.len(),
{
    if packets.len() == 0 {
        Seq::empty()
    } else {
        let before = decoded(at, packets.drop_last());
        let earlier = heard_decoding(at, packets.drop_last());
        if before.action is ReadPacket {
            earlier + packets.last().heard(before.session, before.buffer)
        } else {
            earlier
        }
    }
}

/// The sound of `packets`, one after the other.
pub open spec fn sound<T>(packets: Seq<PacketRun<T>>) -> Seq<T>
    decreases packets.len(),
{
    if packets.len() == 0 {
        Seq::empty()
    } else {
        sound(packets.drop_last()) + packets.last().sound()
    }
}

/// What one packet leads to.
proof fn lemma_packet<T>(session: DecodeState<T>, buffer: BufferState<T>, packet: PacketRun<T>)
    requires
        packet.wf(session.track_id),
        session == session.idle(),
        session.generation == buffer.generation,
        buffer.wf(),
    ensures
        ({
            let end = waited(packet.met(session, buffer), packet.waits);
            &&& buffer.samples + packet.sound() == packet.heard(session, buffer) + (
            end.buffer.samples + unqueued(end.session))
            &&& end.action is Wait || (end.session == session && (end.action is ReadPacket
                || end.action is Finish))
            &&& end.buffer.wf()
            &&& end.buffer.generation == buffer.generation
            &&& end.buffer.capacity == buffer.capacity
        }),
{
    let room = buffer.drained(packet.output);
    let first = buffer.samples.take(buffer.taken(packet.output) as int);
    let at = packet.met(session, buffer);
    let end = waited(at, packet.waits);
    let after = end.buffer.samples + unqueued(end.session);
    assert(buffer.samples =~= first + room.samples);
    if packet.sound().len() > 0 {
        if let PacketContent::Decoded { samples, sample_rate, channels } = packet.content {
            lemma_decoded_packet(
                session,
                samples,
                sample_rate,
                channels,
                packet.playback,
                room,
                packet.waits,
            );
        }
    } else {
        assert(unqueued(session) =~= Seq::<T>::empty());
        assert(room.samples + packet.sound() =~= heard_waiting(at, packet.waits) + after);
    }
    assert(buffer.samples + packet.sound() =~= first + (room.samples + packet.sound()));
    assert(first + (heard_waiting(at, packet.waits) + after) =~= (first + heard_waiting(
        at,
        packet.waits,
    )) + after);
}

/// A stream is heard as it was sent: over any list of packets, what was waiting
/// and the converted packets of the track, in order, is what is heard, what
/// waits in the buffer, and what of the last packet is still to be queued.
/// Packets of other tracks, malformed ones and empty ones add nothing. When the
/// decoder is about to read again, nothing is still to be queued.
pub proof fn law_packets_are_heard_in_order<T>(at: DecodeResult<T>, packets: Seq<PacketRun<T>>)
    requires
        at.action is ReadPacket,
        at.session == at.session.idle(),
        at.session.generation == at.buffer.generation,
        at.buffer.wf(),
        forall|i: int|
            0 <= i < packets.len() ==> (#[trigger] packets[i]).wf(at.session.track_id),
        packets.len() > 0 ==> decoded(at, packets.drop_last()).action is ReadPacket,
    ensures
        ({
            let end = decoded(at, packets);
            &&& at.buffer.samples + sound(packets) == heard_decoding(at, packets) + (
            end.buffer.samples + unqueued(end.session))
            &&& end.action is ReadPacket ==> at.buffer.samples + sound(packets) == heard_decoding(
                at,
                packets,
            ) + end.buffer.samples
            &&& end.action is Wait || (end.session == at.session && (end.action is ReadPacket
                || end.action is Finish))
            &&& end.buffer.wf()
            &&& end.buffer.generation == at.buffer.generation
            &&& end.buffer.capacity == at.buffer.capacity
        }),
    decreases packets.len(),
{
    let end = decoded(at, packets);
    let after = end.buffer.samples + unqueued(end.session);
    if packets.len() == 0 {
        assert(unqueued(at.session) =~= Seq::<T>::empty());
        assert(at.buffer.samples + sound(packets) =~= Seq::<T>::empty() + after);
    } else {
        let earlier = packets.drop_last();
        let packet = packets.last();
        let before = decoded(at, earlier);
        assert forall|i: int| 0 <= i < earlier.len() implies (#[trigger] earlier[i]).wf(
            at.session.track_id,
        ) by {
            assert(earlier[i] == packets[i]);
        }
        law_packets_are_heard_in_order(at, earlier);
        assert(packets[packets.len() - 1].wf(at.session.track_id));
        lemma_packet(before.session, before.buffer, packet);
        let heard = heard_decoding(at, earlier);
        let now = packet.heard(before.session, before.buffer);
        assert(at.buffer.samples + (sound(earlier) + packet.sound()) =~= (at.buffer.samples
            + sound(earlier)) + packet.sound());
        assert((heard + before.buffer.samples) + packet.sound() =~= heard + (before.buffer.samples
            + packet.sound()));
        assert(heard + (now + after) =~= (heard + now) + after);
    }
    if end.action is ReadPacket {
        assert(unqueued(end.session) =~= Seq::<T>::empty());
        assert(after =~= end.buffer.samples);
    }
}

/// A decoder gets through every list of packets, as long as its stream is the
/// newest one and, while it waits, at least one sample is played per sample of
/// the packet.
pub proof fn law_decoding_goes_on<T>(at: DecodeResult<T>, packets: Seq<PacketRun<T>>)
    requires
        at.action is ReadPacket,
        at.session == at.session.idle(),
        at.session.generation == at.buffer.generation,
        at.buffer.wf(),
        at.buffer.capacity > 0,
        forall|i: int|
            0 <= i < packets.len() ==> {
                &&& (#[trigger] packets[i]).wf(at.session.track_id)
                &&& packets[i].playback.stream_generation == at.session.generation
                &&& packets[i].waits.len() >= packets[i].sound().len()
                &&& forall|j: int|
                    0 <= j < packets[i].waits.len() ==> {
                        &&& (#[trigger] packets[i].waits[j]).0 > 0
                        &&& packets[i].waits[j].1.stream_generation == at.session.generation
                    }
            },
    ensures
        decoded(at, packets).action is ReadPacket,
    decreases packets.len(),
{
    if packets.len() > 0 {
        let earlier = packets.drop_last();
        let packet = packets.last();
        let before = decoded(at, earlier);
        assert forall|i: int| 0 <= i < earlier.len() implies {
            &&& (#[trigger] earlier[i]).wf(at.session.track_id)
            &&& earlier[i].playback.stream_generation == at.session.generation
            &&& earlier[i].waits.len() >= earlier[i].sound().len()
            &&& forall|j: int|
                0 <= j < earlier[i].waits.len() ==> {
                    &&& (#[trigger] earlier[i].waits[j]).0 > 0
                    &&& earlier[i].waits[j].1.stream_generation == at.session.generation
                }
        } by {
            assert(earlier[i] == packets[i]);
        }
        law_decoding_goes_on(at, earlier);
        law_packets_are_heard_in_order(at, earlier);
        assert(packet == packets[packets.len() - 1]);
        let met = packet.met(before.session, before.buffer);
        if met.action is Wait {
            lemma_waiting_ends(met, packet.waits);
        }
    }
}

/// A packet of the session's own track is always decoded, and nothing else ever
/// is. Reading a packet, of whatever track, changes nothing.
pub proof fn law_exactly_own_packets_are_decoded<T>(
    session: DecodeState<T>,
    event: DecodeEvent<T>,
    playback: Playback,
    buffer: BufferState<T>,
)
    ensures
        ({
            let after = session.stepped(event, playback, buffer);
            &&& after.action is DecodePacket <==> (event matches DecodeEvent::Packet { track_id }
                && track_id == session.track_id)
            &&& event is Packet ==> {
                &&& after.session == session
                &&& after.playback == playback
                &&& after.buffer == buffer
            }
        }),
{
}

/// What is skipped leaves no trace: after the start, a packet of another track,
/// a malformed packet, a packet without samples and a wait for nothing, the next
/// packet is read if the stream is the newest one, and the stream ends if it is
/// not.
pub proof fn law_skipped_packets_leave_no_trace<T>(
    session: DecodeState<T>,
    event: DecodeEvent<T>,
    playback: Playback,
    buffer: BufferState<T>,
)
    requires
        match event {
            DecodeEvent::Started => true,
            DecodeEvent::Packet { track_id } => track_id != session.track_id,
            DecodeEvent::DecodeFailed { error } => error is Decode,
            DecodeEvent::Decoded { samples, sample_rate, channels } => output_stereo(
                samples@,
                sample_rate as nat,
                channels as nat,
            ).len() == 0,
            DecodeEvent::Waited => session.pending.len() == 0,
            DecodeEvent::PacketFailed { error } => false,
        },
    ensures
        ({
            let after = session.stepped(event, playback, buffer);
            &&& after.session == session
            &&& after.playback == playback
            &&& after.buffer == buffer
            &&& playback.stream_generation == session.generation ==> after.action is ReadPacket
            &&& playback.stream_generation != session.generation ==> after.action is Finish
        }),
{
}

/// Only errors end a stream with an error, and they are passed on as they are:
/// every error of the source but its end, and every error of the decoder but a
/// malformed packet. The end of the source ends the stream without one.
pub proof fn law_errors_are_passed_on<T>(
    session: DecodeState<T>,
    event: DecodeEvent<T>,
    playback: Playback,
    buffer: BufferState<T>,
)
    ensures
        ({
            let after = session.stepped(event, playback, buffer);
            &&& after.action is Fail ==> event is PacketFailed || event is DecodeFailed
            &&& event matches DecodeEvent::PacketFailed { error } ==> {
                let ended = error matches CodecError::Io { unexpected_eof, message }
                    && unexpected_eof;
                &&& ended ==> after.action is Finish
                &&& !ended ==> after.action == (DecodeAction::Fail {
                    error: DecodeError::Codec { error },
                })
                &&& after.session == session && after.playback == playback && after.buffer == buffer
            }
            &&& event matches DecodeEvent::DecodeFailed { error } ==> {
                &&& after.action is Fail <==> !(error is Decode)
                &&& after.action matches DecodeAction::Fail { error: told } ==> told == (
                DecodeError::Codec { error })
                &&& after.session == session && after.playback == playback && after.buffer == buffer
            }
        }),
{
}

/// What a step has to queue: a decoded packet, converted, or what was left over
/// when the decoder began to wait.
pub open spec fn to_queue<T>(session: DecodeState<T>, event: DecodeEvent<T>) -> Seq<T> {
    match event {
        DecodeEvent::Decoded { samples, sample_rate, channels } => output_stereo(
            samples@,
            sample_rate as nat,
            channels as nat,
        ),
        DecodeEvent::Waited => session.pending.skip(session.offset as int),
        _ => Seq::empty(),
    }
}

/// Samples are queued as far as there is room, in their own stream's buffer.
/// If all fit, they are played, buffering is over, and decoding goes on or, for
/// an outdated stream, ends. If not, the buffer is full, the rest is kept, and
/// the decoder waits with playback untouched. A stream that has lost the buffer
/// ends, queues nothing and drops what it had to queue.
pub proof fn law_samples_are_queued_as_room_allows<T>(
    session: DecodeState<T>,
    event: DecodeEvent<T>,
    playback: Playback,
    buffer: BufferState<T>,
)
    requires
        event is Waited ==> session.offset < session.pending.len() <= usize::MAX,
        buffer.samples.len() <= buffer.capacity,
        event matches DecodeEvent::Decoded { samples, sample_rate, channels } ==> output_stereo_fits(
            samples@.len(),
            sample_rate as nat,
            channels as nat,
        ),
        to_queue(session, event).len() > 0,
    ensures
        ({
            let after = session.stepped(event, playback, buffer);
            let samples = to_queue(session, event);
            let room = buffer.capacity - buffer.samples.len();
            &&& after.session.generation == session.generation
            &&& after.session.track_id == session.track_id
            &&& after.buffer.generation == buffer.generation
            &&& after.buffer.capacity == buffer.capacity
            &&& after.playback.stream_generation == playback.stream_generation
            &&& session.generation != buffer.generation ==> {
                &&& after.session.pending.len() == 0 && after.session.offset == 0
                &&& after.buffer == buffer
                &&& after.playback == playback
                &&& after.action is Finish
            }
            &&& session.generation == buffer.generation && samples.len() <= room ==> {
                &&& after.buffer.samples == buffer.samples + samples
                &&& after.session.pending.len() == 0 && after.session.offset == 0
                &&& after.playback.is_playing && after.playback.has_buffer
                &&& !after.playback.is_buffering
                &&& playback.stream_generation == session.generation ==> after.action is ReadPacket
                &&& playback.stream_generation != session.generation ==> after.action is Finish
            }
            &&& session.generation == buffer.generation && samples.len() > room ==> {
                &&& after.buffer.samples == buffer.samples + samples.take(room)
                &&& after.session.pending.skip(after.session.offset as int) == samples.skip(room)
                &&& after.playback == playback
                &&& after.action is Wait
            }
        }),
{
    let samples = to_queue(session, event);
    let room = buffer.capacity - buffer.samples.len();
    let after = session.stepped(event, playback, buffer);
    if session.generation == buffer.generation {
        if samples.len() <= room {
            assert(after.buffer.samples =~= buffer.samples + samples);
        } else {
            assert(after.buffer.samples =~= buffer.samples + samples.take(room));
            assert(after.session.pending.skip(after.session.offset as int) =~= samples.skip(room));
        }
    }
}

/// The text of a codec's error is the codec's own message.
pub proof fn law_codec_errors_keep_their_text(message: String, unexpected_eof: bool)
    ensures
        (DecodeError::Codec { error: (CodecError::Io { unexpected_eof, message }) }).text()
            == message@,
        (DecodeError::Codec { error: (CodecError::Decode { message }) }).text() == message@,
        (DecodeError::Codec { error: (CodecError::Other { message }) }).text() == message@,
{
}

/// A call of `step` asks for a packet to be decoded exactly when it is one of
/// the session's own track, asks to read on only for the newest stream, fails
/// only after an error, and keeps the session with its stream, the buffer with
/// its own, and the generation.
pub proof fn law_step_decodes_exactly_own_packets<T: Copy>(
    event: DecodeEvent<T>,
    action: DecodeAction,
)
    ensures
        forall|
            session: &mut DecodeSession<T>,
            playback: &mut Playback,
            buffer: &mut RadioBuffer<T>,
        |
            #[trigger] call_ensures(
                DecodeSession::<T>::step,
                (session, event, playback, buffer),
                action,
            ) ==> {
                &&& action is DecodePacket <==> (event matches DecodeEvent::Packet { track_id }
                    && track_id == session@.track_id)
                &&& event is Packet || event is Started || event is PacketFailed
                    || event is DecodeFailed ==> final(session)@ == session@ && *final(playback)
                    == *playback && final(buffer)@ == buffer@
                &&& action is ReadPacket ==> playback.stream_generation == session@.generation
                &&& action is Fail ==> event is PacketFailed || event is DecodeFailed
                &&& action is Wait ==> event is Decoded || event is Waited
                &&& final(session)@.generation == session@.generation
                &&& final(session)@.track_id == session@.track_id
                &&& final(buffer)@.generation == buffer@.generation
                &&& final(buffer)@.capacity == buffer@.capacity
                &&& final(playback).stream_generation == playback.stream_generation
            },
{
}

/// A call of `start` begins with the default track of the stream, with nothing
/// pending, and refuses exactly a stream without one.
pub proof fn law_start_takes_the_default_track<T: Copy>(
    generation: u64,
    default_track: Option<u32>,
    session: Result<DecodeSession<T>, DecodeError>,
)
    requires
        call_ensures(DecodeSession::<T>::start, (generation, default_track), session),
    ensures
        default_track is None <==> session is Err,
        session matches Err(error) ==> error is NoTrack,
        session matches Ok(session) ==> {
            &&& Some(session@.track_id) == default_track
            &&& session@.generation == generation
            &&& session@.pending.len() == 0
            &&& session@.offset == 0
        },
{
}

/// A call of `step` goes on behind what is skipped exactly for the newest
/// stream, ends at the end of the source, and passes every other error on as it
/// is, but for a malformed packet.
pub proof fn law_step_goes_on_or_ends<T: Copy>(event: DecodeEvent<T>, action: DecodeAction)
    ensures
        forall|
            session: &mut DecodeSession<T>,
            playback: &mut Playback,
            buffer: &mut RadioBuffer<T>,
        |
            #[trigger] call_ensures(
                DecodeSession::<T>::step,
                (session, event, playback, buffer),
                action,
            ) ==> {
                let newest = playback.stream_generation == session@.generation;
                let goes_on = if newest {
                    action is ReadPacket
                } else {
                    action is Finish
                };
                match event {
                    DecodeEvent::Started => goes_on,
                    DecodeEvent::Packet { track_id } => track_id != session@.track_id ==> goes_on,
                    DecodeEvent::PacketFailed { error } => match error {
                        CodecError::Io { unexpected_eof: true, message } => action is Finish,
                        _ => action == (DecodeAction::Fail { error: DecodeError::Codec { error } }),
                    },
                    DecodeEvent::DecodeFailed { error } => if error is Decode {
                        goes_on
                    } else {
                        action == (DecodeAction::Fail { error: DecodeError::Codec { error } })
                    },
                    DecodeEvent::Decoded { samples, sample_rate, channels } => samples@.len() == 0
                        ==> goes_on && final(buffer)@ == buffer@ && *final(playback) == *playback,
                    DecodeEvent::Waited => session@.pending.len() == 0 ==> {
                        &&& goes_on
                        &&& final(buffer)@ == buffer@
                        &&& *final(playback) == *playback
                    },
                }
            },
{
    if let DecodeEvent::Decoded { samples, sample_rate, channels } = event {
        if samples@.len() == 0 && sample_rate > 0 && channels > 0 {
            assert(0 * channels == 0 && (0 + 1) * channels == channels) by (nonlinear_arith);
            law_output_has_the_length_of_the_source(
                samples@,
                sample_rate as nat,
                channels as nat,
                0,
            );
            let len = output_stereo(samples@, sample_rate as nat, channels as nat).len();
            assert(len / 2 == 0) by (nonlinear_arith)
                requires
                    (len / 2) * sample_rate < sample_rate,
            ;
        }
    }
}

} // verus!
