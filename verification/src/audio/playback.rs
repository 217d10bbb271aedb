//! The state of playback, and what changes it.

use crate::audio::radio_buffer::RadioBuffer;
use vstd::prelude::*;

verus! {

/// The state that the player, the audio thread, the decoder and the output
/// device share.
#[derive(Debug, Clone, Copy, PartialEq, Eq, Structural)]
pub struct Playback {
    /// A connection is being made.
    pub is_buffering: bool,
    /// There are samples to play.
    pub has_buffer: bool,
    /// The output device plays.
    pub is_playing: bool,
    /// The newest stream. Work for another one is dropped.
    pub stream_generation: u64,
}

/// What the audio thread can be told.
#[derive(Debug, Clone, Copy, PartialEq, Eq, Structural)]
pub enum AudioCommand {
    /// Decode the connected stream of `generation`.
    Append { generation: u64 },
    /// Drop all samples and make room for the stream of `generation`.
    Clear { generation: u64 },
    /// Go on playing.
    Play,
    /// Stop playing, and keep the samples.
    Pause,
}

/// What the audio thread does after a command.
#[derive(Debug, Clone, Copy, PartialEq, Eq, Structural)]
pub enum LoopStep {
    /// Close the device and end.
    Shutdown,
    /// Wait for the next command.
    Next,
    /// Start to decode the stream of `generation`, then wait for the next
    /// command.
    Decode { generation: u64 },
}

/// The generation after `generation`.
pub open spec fn next_generation(generation: u64) -> u64 {
    if generation == u64::MAX {
        0
    } else {
        (generation + 1) as u64
    }
}

/// What the audio thread does after `command` while `current` is the newest
/// stream.
pub open spec fn loop_step(command: AudioCommand, current: u64) -> LoopStep {
    match command {
        AudioCommand::Append { generation } => if generation == current {
            LoopStep::Decode { generation }
        } else {
            LoopStep::Next
        },
        _ => LoopStep::Next,
    }
}

impl Playback {
    /// Playback has something to play.
    pub open spec fn coherent(self) -> bool {
        self.is_playing ==> self.has_buffer
    }

    /// The state after `command`.
    pub open spec fn commanded(self, command: AudioCommand) -> Playback {
        match command {
            AudioCommand::Append { generation } => self,
            AudioCommand::Clear { generation } => self.silenced(),
            AudioCommand::Play => Playback {
                is_playing: self.is_playing || self.has_buffer,
                ..self
            },
            AudioCommand::Pause => Playback { is_playing: false, ..self },
        }
    }

    /// The state in which nothing is played or awaited.
    pub open spec fn silenced(self) -> Playback {
        Playback { is_buffering: false, has_buffer: false, is_playing: false, ..self }
    }

    /// The state while a connection is being made, or after it ended.
    pub open spec fn buffering(self, is_buffering: bool) -> Playback {
        Playback { is_buffering, ..self }
    }

    /// The state after decoded samples were queued.
    pub open spec fn fed(self) -> Playback {
        Playback { is_buffering: false, has_buffer: true, is_playing: true, ..self }
    }

    /// The state after the output device, while it plays, has taken its
    /// samples.
    pub open spec fn output_filled(self, has_samples: bool) -> Playback {
        Playback { has_buffer: has_samples, is_playing: self.is_playing && has_samples, ..self }
    }

    /// The state after decoding the stream of `generation` failed.
    pub open spec fn failed(self, generation: u64) -> Playback {
        if generation == self.stream_generation {
            self.silenced()
        } else {
            self
        }
    }

    /// The state with the next generation.
    pub open spec fn advanced(self) -> Playback {
        Playback { stream_generation: next_generation(self.stream_generation), ..self }
    }

    /// Nothing is played, no stream was started.
    pub fn new() -> (playback: Playback)
        ensures
            playback == (Playback {
                is_buffering: false,
                has_buffer: false,
                is_playing: false,
                stream_generation: 0,
            }),
    {
        Playback { is_buffering: false, has_buffer: false, is_playing: false, stream_generation: 0 }
    }

    /// Starts a new generation: work for all earlier ones is void.
    pub fn next_generation(&mut self) -> (generation: u64)
        ensures
            *final(self) == old(self).advanced(),
            generation == final(self).stream_generation,
    {
        self.stream_generation = self.stream_generation.wrapping_add(1);
        self.stream_generation
    }

    /// Carries out a command on the audio thread. Once `cancelled` is set, a
    /// command only ends the thread.
    pub fn handle_command<T>(
        &mut self,
        command: AudioCommand,
        cancelled: bool,
        buffer: &mut RadioBuffer<T>,
    ) -> (step: LoopStep)
        ensures
            cancelled ==> {
                &&& step == LoopStep::Shutdown
                &&& *final(self) == *old(self)
                &&& final(buffer)@ == old(buffer)@
            },
            !cancelled ==> {
                &&& step == loop_step(command, old(self).stream_generation)
                &&& *final(self) == old(self).commanded(command)
                &&& final(buffer)@ == match command {
                    AudioCommand::Clear { generation } => old(buffer)@.cleared(generation),
                    _ => old(buffer)@,
                }
            },
    {
        if cancelled {
            return LoopStep::Shutdown;
        }
        match command {
            AudioCommand::Append { generation } => {
                if self.stream_generation == generation {
                    return LoopStep::Decode { generation };
                }
            },
            AudioCommand::Play => {
                if self.has_buffer {
                    self.is_playing = true;
                }
            },
            AudioCommand::Pause => {
                self.is_playing = false;
            },
            AudioCommand::Clear { generation } => {
                buffer.clear(generation);
                self.has_buffer = false;
                self.is_playing = false;
                self.is_buffering = false;
            },
        }
        LoopStep::Next
    }

    /// Takes note that decoding the stream of `generation` failed. If it is
    /// still the newest one, nothing is left to play, and the failure is worth
    /// a report.
    pub fn decode_failed(&mut self, generation: u64) -> (report: bool)
        ensures
            report == (generation == old(self).stream_generation),
            *final(self) == old(self).failed(generation),
    {
        if self.stream_generation != generation {
            return false;
        }
        self.is_buffering = false;
        self.has_buffer = false;
        self.is_playing = false;
        true
    }
}

/// Whatever happens, the player never claims to play without a buffer.
pub proof fn law_playing_needs_a_buffer(
    playback: Playback,
    command: AudioCommand,
    has_samples: bool,
    is_buffering: bool,
    generation: u64,
)
    requires
        playback.coherent(),
    ensures
        playback.buffering(is_buffering).coherent(),
        playback.commanded(command).coherent(),
        playback.output_filled(has_samples).coherent(),
        playback.failed(generation).coherent(),
        playback.fed().coherent(),
        playback.advanced().coherent(),
{
}

/// A stopped stream goes on where it was: pausing and playing again brings
/// back the state, and pausing alone keeps the buffer.
pub proof fn law_play_undoes_pause(playback: Playback)
    requires
        playback.coherent(),
        playback.is_playing,
    ensures
        !playback.commanded(AudioCommand::Pause).is_playing,
        playback.commanded(AudioCommand::Pause).has_buffer,
        playback.commanded(AudioCommand::Pause).commanded(AudioCommand::Play) == playback,
{
}

/// The generation `steps` steps after `generation`.
pub open spec fn later_generation(generation: u64, steps: nat) -> u64
    decreases steps,
{
    if steps == 0 {
        generation
    } else {
        next_generation(later_generation(generation, (steps - 1) as nat))
    }
}

/// The counter of generations runs through all its values before one comes
/// back.
proof fn lemma_later_generation(generation: u64, steps: nat)
    requires
        steps <= u64::MAX,
    ensures
        later_generation(generation, steps) == if generation + steps <= u64::MAX {
            generation + steps
        } else {
            generation + steps - u64::MAX - 1
        },
    decreases steps,
{
    if steps > 0 {
        lemma_later_generation(generation, (steps - 1) as nat);
    }
}

/// Work for an earlier stream is void: however many streams were started since
/// (short of a full turn of the counter), the connection of the old one is not
/// decoded, and its failure changes nothing.
pub proof fn law_earlier_streams_are_void(playback: Playback, generation: u64, steps: nat)
    requires
        0 < steps <= u64::MAX,
        playback.stream_generation == later_generation(generation, steps),
    ensures
        playback.stream_generation != generation,
        loop_step(AudioCommand::Append { generation }, playback.stream_generation)
            == LoopStep::Next,
        playback.failed(generation) == playback,
{
    lemma_later_generation(generation, steps);
}

/// A command does its own job and no other: pausing stops, playing starts only
/// what there is, clearing leaves nothing to play or to wait for, and a stream
/// that is handed over changes nothing yet. No command starts a generation.
pub proof fn law_commands_do_their_own_job(playback: Playback, command: AudioCommand)
    ensures
        ({
            let after = playback.commanded(command);
            &&& after.stream_generation == playback.stream_generation
            &&& command is Pause || command is Play ==> {
                &&& after.has_buffer == playback.has_buffer
                &&& after.is_buffering == playback.is_buffering
            }
            &&& command is Pause ==> !after.is_playing
            &&& command is Play && playback.has_buffer ==> after.is_playing
            &&& command is Play && !playback.has_buffer ==> after.is_playing == playback.is_playing
            &&& command is Clear ==> !after.is_playing && !after.has_buffer && !after.is_buffering
            &&& command is Append ==> after == playback
        }),
{
}

/// A stream is decoded exactly when it is handed over as the newest one, and
/// no command ends the audio thread by itself.
pub proof fn law_exactly_the_newest_stream_is_decoded(
    command: AudioCommand,
    current: u64,
    generation: u64,
)
    ensures
        loop_step(command, current) == (LoopStep::Decode { generation }) <==> (command == (
        AudioCommand::Append { generation }) && generation == current),
        !(loop_step(command, current) is Shutdown),
{
}

/// Generations are counted one by one, and no two have the same successor.
pub proof fn law_generations_are_counted(generation: u64, other: u64)
    ensures
        generation < u64::MAX ==> next_generation(generation) == generation + 1,
        next_generation(u64::MAX) == 0,
        next_generation(generation) == next_generation(other) ==> generation == other,
{
}

/// What each part of the radio may touch: an attempt to connect touches only
/// the mark of buffering; queued samples end buffering and are played; the
/// output device stops exactly when nothing is left; a failure silences its own
/// stream and no other; and a new generation touches only the counter.
pub proof fn law_every_part_touches_its_own_flags(
    playback: Playback,
    has_samples: bool,
    is_buffering: bool,
    generation: u64,
)
    ensures
        ({
            let after = playback.buffering(is_buffering);
            &&& after.is_buffering == is_buffering
            &&& after.has_buffer == playback.has_buffer
            &&& after.is_playing == playback.is_playing
            &&& after.stream_generation == playback.stream_generation
        }),
        ({
            let after = playback.fed();
            &&& !after.is_buffering && after.has_buffer && after.is_playing
            &&& after.stream_generation == playback.stream_generation
        }),
        ({
            let after = playback.output_filled(has_samples);
            &&& after.has_buffer == has_samples
            &&& !has_samples ==> !after.is_playing
            &&& has_samples ==> after.is_playing == playback.is_playing
            &&& after.is_buffering == playback.is_buffering
            &&& after.stream_generation == playback.stream_generation
        }),
        ({
            let after = playback.failed(generation);
            &&& generation != playback.stream_generation ==> after == playback
            &&& generation == playback.stream_generation ==> !after.is_playing && !after.has_buffer
                && !after.is_buffering
            &&& after.stream_generation == playback.stream_generation
        }),
        ({
            let after = playback.advanced();
            &&& after.stream_generation != playback.stream_generation
            &&& after.is_buffering == playback.is_buffering
            &&& after.has_buffer == playback.has_buffer
            &&& after.is_playing == playback.is_playing
        }),
{
}

/// A call of `handle_command` ends the audio thread exactly when it is
/// cancelled, and touches nothing then. Otherwise it starts to decode exactly
/// the newest stream when it is handed over, empties the buffer for the stream
/// that it is cleared for and at no other command, and leaves the generation
/// alone.
pub proof fn law_handle_command_obeys<T>(command: AudioCommand, cancelled: bool, step: LoopStep)
    ensures
        forall|playback: &mut Playback, buffer: &mut RadioBuffer<T>|
            #[trigger] call_ensures(
                Playback::handle_command::<T>,
                (playback, command, cancelled, buffer),
                step,
            ) ==> {
                &&& step is Shutdown <==> cancelled
                &&& final(playback).stream_generation == playback.stream_generation
                &&& final(buffer)@.capacity == buffer@.capacity
                &&& cancelled ==> *final(playback) == *playback && final(buffer)@ == buffer@
                &&& step is Decode <==> !cancelled && command == (AudioCommand::Append {
                    generation: playback.stream_generation,
                })
                &&& step matches LoopStep::Decode { generation } ==> generation
                    == playback.stream_generation
                &&& !cancelled ==> match command {
                    AudioCommand::Append { generation } => *final(playback) == *playback
                        && final(buffer)@ == buffer@,
                    AudioCommand::Clear { generation } => {
                        &&& final(buffer)@.generation == generation
                        &&& final(buffer)@.samples.len() == 0
                        &&& !final(playback).is_playing && !final(playback).has_buffer
                        &&& !final(playback).is_buffering
                    },
                    AudioCommand::Play => {
                        &&& final(buffer)@ == buffer@
                        &&& final(playback).is_playing == (playback.is_playing
                            || playback.has_buffer)
                        &&& final(playback).has_buffer == playback.has_buffer
                        &&& final(playback).is_buffering == playback.is_buffering
                    },
                    AudioCommand::Pause => {
                        &&& final(buffer)@ == buffer@
                        &&& !final(playback).is_playing
                        &&& final(playback).has_buffer == playback.has_buffer
                        &&& final(playback).is_buffering == playback.is_buffering
                    },
                }
            },
{
}

/// A call of `decode_failed` reports and silences exactly the newest stream; the
/// failure of an older one is nobody's concern.
pub proof fn law_decode_failed_silences_the_newest_stream(generation: u64, report: bool)
    ensures
        forall|playback: &mut Playback|
            #[trigger] call_ensures(Playback::decode_failed, (playback, generation), report) ==> {
                &&& report <==> generation == playback.stream_generation
                &&& !report ==> *final(playback) == *playback
                &&& report ==> !final(playback).is_playing && !final(playback).has_buffer
                    && !final(playback).is_buffering
                &&& final(playback).stream_generation == playback.stream_generation
            },
{
}

} // verus!
