//! The player: stations, and what the listener asks for.

use crate::audio::decode::{DecodeEvent, DecodeState};
use crate::audio::error::PlayerError;
use crate::audio::playback::{loop_step, AudioCommand, LoopStep, Playback};
use crate::audio::radio_buffer::BufferState;
use crate::audio::resample::{
    output_stereo, OUTPUT_CHANNELS, OUTPUT_CHANNEL_SAMPLE_COUNT, OUTPUT_SAMPLE_RATE,
};
use crate::audio::stream::{
    playable_url, stream_texts, supported_scheme, url_parse, Stream, StreamCheck, StreamText,
    StreamUrl, UrlText,
};
use vstd::arithmetic::div_mod::{lemma_fundamental_div_mod_converse, lemma_small_mod};
use vstd::prelude::*;

verus! {

/// What the player tells the application.
#[derive(Debug)]
pub enum MusicPlayerEvent {
    StreamOk,
    StreamErr { error_message: String },
}

/// Whether the audio thread has been started.
#[derive(Debug, Clone, Copy, PartialEq, Eq, Structural)]
pub enum StreamStatus {
    Uninitialized,
    Ready,
}

/// How the output device is to be opened.
#[derive(Debug, Clone, Copy, PartialEq, Eq, Structural)]
pub struct OutputParameters {
    pub sample_rate: usize,
    pub channels_count: usize,
    pub channel_sample_count: usize,
}

/// A stream to connect to.
#[derive(Debug)]
pub struct Connection {
    pub url: StreamUrl,
    pub generation: u64,
}

/// What a request of the listener calls for: first the command, to the audio
/// thread, then the connection.
#[derive(Debug)]
pub struct PlayerAction {
    pub command: Option<AudioCommand>,
    pub connect: Option<Connection>,
}

/// What a [`PlayerAction`] says.
pub struct ActionText {
    pub command: Option<AudioCommand>,
    pub connect: Option<(UrlText, u64)>,
}

impl View for PlayerAction {
    type V = ActionText;

    open spec fn view(&self) -> ActionText {
        ActionText {
            command: self.command,
            connect: match self.connect {
                Some(connection) => Some((connection.url@, connection.generation)),
                None => None,
            },
        }
    }
}

/// A radio with a list of stations, one of which is selected.
#[derive(Debug)]
pub struct MusicPlayer {
    stream_status: StreamStatus,
    playback: Playback,
    streams: Vec<Stream>,
    index: usize,
}

/// The state of a [`MusicPlayer`].
#[verifier::ext_equal]
pub struct PlayerState {
    pub status: StreamStatus,
    pub playback: Playback,
    pub streams: Seq<StreamText>,
    pub index: nat,
}

/// The station after `index` of `len` stations; the first follows the last.
pub open spec fn next_index(index: nat, len: nat) -> nat {
    (index + 1) % len
}

/// The station before `index` of `len` stations; the last precedes the first.
pub open spec fn previous_index(index: nat, len: nat) -> nat {
    ((index + len - 1) % len as int) as nat
}

/// The parsed URL of a station that can be played.
pub open spec fn station_url(stream: StreamText) -> UrlText {
    let (scheme, text) = url_parse(stream.url_string)->Ok_0;
    UrlText { scheme, text }
}

impl PlayerState {
    /// The selected station exists, if there are any, and every station can be
    /// played.
    pub open spec fn wf(self) -> bool {
        &&& self.index < self.streams.len() || self.index == 0
        &&& forall|i: int|
            0 <= i < self.streams.len() ==> playable_url(#[trigger] self.streams[i].url_string)
    }

    /// The state after a new stream was started or the old one dropped.
    pub open spec fn advanced(self) -> PlayerState {
        PlayerState { playback: self.playback.advanced(), ..self }
    }

    /// What it takes to start the selected station in this state.
    pub open spec fn start_action(self) -> ActionText {
        let generation = self.playback.advanced().stream_generation;
        ActionText {
            command: Some(AudioCommand::Clear { generation }),
            connect: Some((station_url(self.streams[self.index as int]), generation)),
        }
    }

    /// What it takes to drop the stream in this state: without an audio thread
    /// there is none to tell.
    pub open spec fn clear_action(self) -> ActionText {
        let generation = self.playback.advanced().stream_generation;
        ActionText {
            command: match self.status {
                StreamStatus::Uninitialized => None,
                StreamStatus::Ready => Some(AudioCommand::Clear { generation }),
            },
            connect: None,
        }
    }

    /// What follows when the listener turns to the station `index`: a radio
    /// that plays goes on with the new station, any other drops what it has of
    /// the old one.
    pub open spec fn selected(self, index: nat) -> Result<(PlayerState, ActionText), PlayerError> {
        if self.status is Uninitialized {
            Err(PlayerError::NotInitialized)
        } else if self.streams.len() == 0 {
            Err(PlayerError::NoStreams)
        } else {
            let turned = PlayerState { index, ..self };
            Ok(
                (
                    turned.advanced(),
                    if self.playback.is_playing {
                        turned.start_action()
                    } else {
                        turned.clear_action()
                    },
                ),
            )
        }
    }

    /// What follows when the listener presses play or pause.
    pub open spec fn toggled(self) -> Result<(PlayerState, ActionText), PlayerError> {
        if self.status is Uninitialized {
            Err(PlayerError::NotInitialized)
        } else if self.playback.is_playing {
            Ok((self, ActionText { command: Some(AudioCommand::Pause), connect: None }))
        } else if self.playback.has_buffer {
            Ok((self, ActionText { command: Some(AudioCommand::Play), connect: None }))
        } else if self.playback.is_buffering {
            Ok((self, ActionText { command: None, connect: None }))
        } else if self.streams.len() == 0 {
            Err(PlayerError::NoStreams)
        } else {
            Ok((self.advanced(), self.start_action()))
        }
    }
}

impl View for MusicPlayer {
    type V = PlayerState;

    closed spec fn view(&self) -> PlayerState {
        PlayerState {
            status: self.stream_status,
            playback: self.playback,
            streams: stream_texts(self.streams@),
            index: self.index as nat,
        }
    }
}

impl Default for MusicPlayer {
    /// A radio without stations.
    fn default() -> (player: MusicPlayer)
        ensures
            player@ == (PlayerState {
                status: StreamStatus::Uninitialized,
                playback: Playback {
                    is_buffering: false,
                    has_buffer: false,
                    is_playing: false,
                    stream_generation: 0,
                },
                streams: Seq::empty(),
                index: 0,
            }),
    {
        MusicPlayer {
            stream_status: StreamStatus::Uninitialized,
            playback: Playback::new(),
            streams: Vec::new(),
            index: 0,
        }
    }
}

impl MusicPlayer {
    #[verifier::type_invariant]
    spec fn inv(self) -> bool {
        self@.wf()
    }

    /// The selected station's URL.
    fn current_url(&self) -> (url: Result<StreamUrl, PlayerError>)
        ensures
            match url {
                Ok(url) => {
                    &&& self@.streams.len() > 0
                    &&& url@ == station_url(self@.streams[self@.index as int])
                },
                Err(error) => self@.streams.len() == 0 && error == PlayerError::NoStreams,
            },
    {
        proof {
            use_type_invariant(self);
        }
        if self.index >= self.streams.len() {
            return Err(PlayerError::NoStreams);
        }
        assert(self@.streams[self.index as int] == self.streams@[self.index as int]@);
        assert(playable_url(self@.streams[self.index as int].url_string));
        self.streams[self.index].url()
    }

    /// Voids the current stream.
    fn next_generation(&mut self) -> (generation: u64)
        ensures
            final(self)@ == old(self)@.advanced(),
            generation == final(self)@.playback.stream_generation,
    {
        proof {
            use_type_invariant(&*self);
        }
        let mut playback: Playback = self.playback;
        let generation: u64 = playback.next_generation();
        self.playback = playback;
        generation
    }

    /// Drops the current stream.
    fn clear_current_stream(&mut self) -> (action: PlayerAction)
        ensures
            final(self)@ == old(self)@.advanced(),
            action@ == old(self)@.clear_action(),
    {
        let generation: u64 = self.next_generation();
        let command: Option<AudioCommand> = match self.stream_status {
            StreamStatus::Uninitialized => None,
            StreamStatus::Ready => Some(AudioCommand::Clear { generation }),
        };
        PlayerAction { command, connect: None }
    }

    /// Starts the stream at `url`, once the audio thread has been started.
    fn start_streaming(&mut self, url: StreamUrl) -> (action: PlayerAction)
        requires
            old(self)@.status is Ready,
        ensures
            final(self)@ == old(self)@.advanced(),
            action.command == Some(
                AudioCommand::Clear { generation: final(self)@.playback.stream_generation },
            ),
            action@.connect == Some((url@, final(self)@.playback.stream_generation)),
    {
        let generation: u64 = self.next_generation();
        PlayerAction {
            command: Some(AudioCommand::Clear { generation }),
            connect: Some(Connection { url, generation }),
        }
    }

    /// A radio with those of `streams` that can be played, in their order.
    pub fn new(streams: Vec<Stream>) -> (player: MusicPlayer)
        ensures
            player@ == (PlayerState {
                status: StreamStatus::Uninitialized,
                playback: Playback {
                    is_buffering: false,
                    has_buffer: false,
                    is_playing: false,
                    stream_generation: 0,
                },
                streams: stream_texts(streams@).filter(
                    |stream: StreamText| playable_url(stream.url_string),
                ),
                index: 0,
            }),
            player@.wf(),
    {
        let ghost texts = stream_texts(streams@);
        let ghost playable = |stream: StreamText| playable_url(stream.url_string);
        let mut kept: Vec<Stream> = Vec::new();
        let mut next: usize = 0;
        assert(texts.take(0).filter(playable) =~= Seq::<StreamText>::empty());
        while next < streams.len()
            invariant
                next <= streams@.len(),
                texts == stream_texts(streams@),
                playable == (|stream: StreamText| playable_url(stream.url_string)),
                stream_texts(kept@) == texts.take(next as int).filter(playable),
            decreases streams.len() - next,
        {
            let stream: &Stream = &streams[next];
            proof {
                assert(texts.take(next + 1).drop_last() =~= texts.take(next as int));
                assert(texts.take(next + 1).last() == stream@);
                reveal(Seq::filter);
            }
            if let StreamCheck::Playable = stream.check() {
                let ghost before = kept@;
                kept.push(
                    Stream { name: stream.name.clone(), url_string: stream.url_string.clone() },
                );
                assert(stream_texts(kept@) =~= stream_texts(before).push(stream@));
            }
            next += 1;
        }
        proof {
            assert(texts.take(next as int) =~= texts);
            assert forall|i: int| 0 <= i < kept@.len() implies playable_url(
                #[trigger] stream_texts(kept@)[i].url_string,
            ) by {
                texts.lemma_filter_pred(playable, i);
            }
        }
        MusicPlayer {
            stream_status: StreamStatus::Uninitialized,
            playback: Playback::new(),
            streams: kept,
            index: 0,
        }
    }

    /// Takes note that the audio thread is being started, and says how it has
    /// to open the output device.
    pub fn start_audio_event_loop(&mut self) -> (parameters: OutputParameters)
        ensures
            final(self)@ == (PlayerState { status: StreamStatus::Ready, ..old(self)@ }),
            parameters == (OutputParameters {
                sample_rate: 44_100,
                channels_count: 2,
                channel_sample_count: 2_048,
            }),
    {
        proof {
            use_type_invariant(&*self);
        }
        self.stream_status = StreamStatus::Ready;
        OutputParameters {
            sample_rate: OUTPUT_SAMPLE_RATE,
            channels_count: OUTPUT_CHANNELS,
            channel_sample_count: OUTPUT_CHANNEL_SAMPLE_COUNT,
        }
    }

    /// The state of playback.
    pub fn playback(&self) -> (playback: Playback)
        ensures
            playback == self@.playback,
    {
        self.playback
    }

    /// Takes over a state of playback that the audio thread, the decoder or
    /// the output device has changed.
    pub fn set_playback(&mut self, playback: Playback)
        ensures
            final(self)@ == (PlayerState { playback, ..old(self)@ }),
    {
        proof {
            use_type_invariant(&*self);
        }
        self.playback = playback;
    }

    /// Whether a connection is being made.
    pub fn is_buffering(&self) -> (is_buffering: bool)
        ensures
            is_buffering == self@.playback.is_buffering,
    {
        self.playback.is_buffering
    }

    /// Whether the radio plays.
    pub fn is_playing(&self) -> (is_playing: bool)
        ensures
            is_playing == self@.playback.is_playing,
    {
        self.playback.is_playing
    }

    /// Turns to the station `index`.
    fn select(&mut self, index: usize) -> (action: PlayerAction)
        requires
            old(self)@.status is Ready,
            index < old(self)@.streams.len(),
        ensures
            old(self)@.selected(index as nat) == Ok::<(PlayerState, ActionText), PlayerError>(
                (final(self)@, action@),
            ),
    {
        proof {
            use_type_invariant(&*self);
        }
        self.index = index;
        if self.is_playing() {
            if let Ok(url) = self.current_url() {
                return self.start_streaming(url);
            }
        }
        self.clear_current_stream()
    }

    /// Turns to the station before the selected one.
    pub fn previous_radio_stream(&mut self) -> (action: Result<PlayerAction, PlayerError>)
        ensures
            match old(self)@.selected(previous_index(old(self)@.index, old(self)@.streams.len())) {
                Ok((state, text)) => {
                    &&& action matches Ok(action) && action@ == text
                    &&& final(self)@ == state
                },
                Err(error) => {
                    &&& action == Err::<PlayerAction, PlayerError>(error)
                    &&& final(self)@ == old(self)@
                },
            },
    {
        proof {
            use_type_invariant(&*self);
        }
        if let StreamStatus::Uninitialized = self.stream_status {
            return Err(PlayerError::NotInitialized);
        }
        if self.streams.len() == 0 {
            return Err(PlayerError::NoStreams);
        }
        let index: usize = if self.index == 0 {
            self.streams.len() - 1
        } else {
            self.index - 1
        };
        proof {
            lemma_previous_index(self@.index, self@.streams.len());
        }
        Ok(self.select(index))
    }

    /// Turns to the station after the selected one.
    pub fn next_radio_stream(&mut self) -> (action: Result<PlayerAction, PlayerError>)
        ensures
            match old(self)@.selected(next_index(old(self)@.index, old(self)@.streams.len())) {
                Ok((state, text)) => {
                    &&& action matches Ok(action) && action@ == text
                    &&& final(self)@ == state
                },
                Err(error) => {
                    &&& action == Err::<PlayerAction, PlayerError>(error)
                    &&& final(self)@ == old(self)@
                },
            },
    {
        proof {
            use_type_invariant(&*self);
        }
        if let StreamStatus::Uninitialized = self.stream_status {
            return Err(PlayerError::NotInitialized);
        }
        if self.streams.len() == 0 {
            return Err(PlayerError::NoStreams);
        }
        let index: usize = (self.index + 1) % self.streams.len();
        Ok(self.select(index))
    }

    /// Plays or pauses. A radio without samples starts the selected station,
    /// unless that is under way.
    pub fn toggle_state(&mut self) -> (action: Result<PlayerAction, PlayerError>)
        ensures
            match old(self)@.toggled() {
                Ok((state, text)) => {
                    &&& action matches Ok(action) && action@ == text
                    &&& final(self)@ == state
                },
                Err(error) => {
                    &&& action == Err::<PlayerAction, PlayerError>(error)
                    &&& final(self)@ == old(self)@
                },
            },
    {
        if let StreamStatus::Uninitialized = self.stream_status {
            return Err(PlayerError::NotInitialized);
        }
        if self.is_playing() {
            return Ok(PlayerAction { command: Some(AudioCommand::Pause), connect: None });
        }
        if self.playback.has_buffer {
            return Ok(PlayerAction { command: Some(AudioCommand::Play), connect: None });
        }
        if self.is_buffering() {
            return Ok(PlayerAction { command: None, connect: None });
        }
        match self.current_url() {
            Ok(url) => Ok(self.start_streaming(url)),
            Err(error) => Err(error),
        }
    }

    /// The name of the selected station, if there is one.
    pub fn currently_playing(&self) -> (name: Option<String>)
        ensures
            match name {
                Some(name) => {
                    &&& self@.streams.len() > 0
                    &&& name@ == self@.streams[self@.index as int].name
                },
                None => self@.streams.len() == 0,
            },
    {
        proof {
            use_type_invariant(self);
        }
        if self.index >= self.streams.len() {
            return None;
        }
        assert(self@.streams[self.index as int] == self.streams@[self.index as int]@);
        Some(self.streams[self.index].name.clone())
    }
}

/// Going back from a station other than the first is one step down.
proof fn lemma_previous_index(index: nat, len: nat)
    requires
        index < len,
    ensures
        previous_index(index, len) == if index == 0 {
            len - 1
        } else {
            index - 1
        },
{
    if index == 0 {
        lemma_small_mod((len - 1) as nat, len);
    } else {
        lemma_fundamental_div_mod_converse(index + len - 1, len as int, 1, index - 1);
    }
}

/// Going on and coming back leads to the same station, and so does going back
/// and on.
pub proof fn law_next_and_previous_are_inverse(index: nat, len: nat)
    requires
        index < len,
    ensures
        previous_index(next_index(index, len), len) == index,
        next_index(previous_index(index, len), len) == index,
{
    lemma_previous_index(index, len);
    lemma_next_index(index, len);
    lemma_previous_index(next_index(index, len), len);
    lemma_next_index(previous_index(index, len), len);
}

/// Going on from a station other than the last is one step up.
proof fn lemma_next_index(index: nat, len: nat)
    requires
        index < len,
    ensures
        next_index(index, len) == if index + 1 == len {
            0
        } else {
            index + 1
        },
{
    if index + 1 == len {
        lemma_fundamental_div_mod_converse(len as int, len as int, 1, 0);
    } else {
        lemma_small_mod(index + 1, len);
    }
}

/// The station that is reached by going on `steps` times.
pub open spec fn later_index(index: nat, len: nat, steps: nat) -> nat
    decreases steps,
{
    if steps == 0 {
        index
    } else {
        next_index(later_index(index, len, (steps - 1) as nat), len)
    }
}

/// Going on reaches every station, and after as many steps as there are
/// stations the first one comes back.
pub proof fn law_going_on_visits_all_stations(index: nat, len: nat, target: nat)
    requires
        index < len,
        target < len,
    ensures
        exists|steps: nat| steps < len && #[trigger] later_index(index, len, steps) == target,
        later_index(index, len, len) == index,
{
    lemma_later_index(index, len, len);
    let steps = if index <= target {
        (target - index) as nat
    } else {
        (target + len - index) as nat
    };
    lemma_later_index(index, len, steps);
    assert(later_index(index, len, steps) == target);
}

/// Where going on at most once around leads.
proof fn lemma_later_index(index: nat, len: nat, steps: nat)
    requires
        index < len,
        steps <= len,
    ensures
        later_index(index, len, steps) == if index + steps < len {
            (index + steps) as int
        } else {
            index + steps - len
        },
    decreases steps,
{
    if steps > 0 {
        lemma_later_index(index, len, (steps - 1) as nat);
        lemma_next_index(later_index(index, len, (steps - 1) as nat), len);
    }
}

/// Turning to a station or toggling keeps the player well-formed, with its
/// stations, and coherent.
pub proof fn law_requests_keep_invariants(state: PlayerState, index: nat)
    requires
        state.wf(),
        state.playback.coherent(),
        index < state.streams.len(),
    ensures
        state.selected(index) matches Ok((after, action)) ==> {
            &&& after.wf()
            &&& after.streams == state.streams
            &&& after.playback.coherent()
        },
        state.toggled() matches Ok((after, action)) ==> {
            &&& after.wf()
            &&& after.streams == state.streams
            &&& after.index == state.index
            &&& after.playback.coherent()
        },
{
}

/// A running player with stations refuses nothing, and it only ever connects
/// to URLs over which a stream can be fetched.
pub proof fn law_running_player_serves_requests(state: PlayerState, index: nat)
    requires
        state.wf(),
        state.status is Ready,
        index < state.streams.len(),
    ensures
        state.selected(index) matches Ok((after, action)) && (action.connect matches Some((url, g))
            ==> supported_scheme(url.scheme)),
        state.toggled() matches Ok((after, action)) && (action.connect matches Some((url, g))
            ==> supported_scheme(url.scheme)),
{
    assert(playable_url(state.streams[index as int].url_string));
    assert(playable_url(state.streams[state.index as int].url_string));
}

/// A change of station voids the old stream: the new stream has another
/// generation, the audio thread is told to make room for it, and once it has,
/// the buffer takes no sample of the old one.
pub proof fn law_change_of_station_voids_old_stream<T>(
    state: PlayerState,
    index: nat,
    buffer: BufferState<T>,
    samples: Seq<T>,
)
    ensures
        state.selected(index) matches Ok((after, action)) ==> {
            let old_generation = state.playback.stream_generation;
            let generation = after.playback.stream_generation;
            &&& generation != old_generation
            &&& action.command == Some(AudioCommand::Clear { generation })
            &&& buffer.cleared(generation).samples.len() == 0
            &&& buffer.cleared(generation).pushed(old_generation, samples, 0) == buffer.cleared(
                generation,
            )
        },
{
}

/// Pressing the button twice, with the commands carried out, changes nothing
/// for a radio that plays: it pauses, keeps its samples, and plays again.
pub proof fn law_toggling_twice_resumes(state: PlayerState)
    requires
        state.status is Ready,
        state.playback.is_playing,
        state.playback.coherent(),
    ensures
        state.toggled() matches Ok((same, action)) && same == state && action.command == Some(
            AudioCommand::Pause,
        ),
        ({
            let paused = PlayerState {
                playback: state.playback.commanded(AudioCommand::Pause),
                ..state
            };
            &&& !paused.playback.is_playing
            &&& paused.toggled() matches Ok((same, action)) && same == paused && action.command
                == Some(AudioCommand::Play)
            &&& (PlayerState {
                playback: paused.playback.commanded(AudioCommand::Play),
                ..paused
            }) == state
        }),
{
}

/// A station that is started is heard. The listener presses play on a silent
/// radio; the audio thread makes room, the connection stands and is handed on,
/// and its first packet is read and decoded: then the buffer holds just that
/// packet, the radio plays, and the next packet is read.
pub proof fn law_started_station_is_heard<T>(
    state: PlayerState,
    buffer: BufferState<T>,
    track_id: u32,
    samples: &[T],
    sample_rate: usize,
    channels: usize,
)
    requires
        state.wf(),
        state.status is Ready,
        state.streams.len() > 0,
        !state.playback.is_playing && !state.playback.has_buffer && !state.playback.is_buffering,
        0 < output_stereo(samples@, sample_rate as nat, channels as nat).len() <= buffer.capacity,
    ensures
        state.toggled() matches Ok((started, action)) && {
            let output = output_stereo(samples@, sample_rate as nat, channels as nat);
            let generation = started.playback.stream_generation;
            let clear = AudioCommand::Clear { generation };
            let append = AudioCommand::Append { generation };
            let playback = started.playback.commanded(clear).buffering(true).commanded(append);
            let session = DecodeState {
                generation,
                track_id,
                pending: Seq::<T>::empty(),
                offset: 0,
            };
            let begun = session.stepped(
                DecodeEvent::Started,
                playback,
                buffer.cleared(generation),
            );
            let read = begun.session.stepped(
                DecodeEvent::Packet { track_id },
                begun.playback,
                begun.buffer,
            );
            let after = read.session.stepped(
                DecodeEvent::Decoded { samples, sample_rate, channels },
                read.playback,
                read.buffer,
            );
            &&& begun.action is ReadPacket
            &&& read.action is DecodePacket
            &&& action.command == Some(clear)
            &&& action.connect == Some(
                (station_url(state.streams[state.index as int]), generation),
            )
            &&& loop_step(append, playback.stream_generation) == (LoopStep::Decode { generation })
            &&& after.buffer.samples == output
            &&& after.playback.is_playing && !after.playback.is_buffering
            &&& after.action is ReadPacket
        },
{
    let output = output_stereo(samples@, sample_rate as nat, channels as nat);
    assert(Seq::<T>::empty() + output.subrange(0, output.len() as int) =~= output);
}

/// A toggle connects only from silence: when nothing is played, buffered or
/// being connected, and then always, to the selected station and under a new
/// generation, for which the audio thread first makes room. Whenever the radio
/// plays, has samples or is connecting, a toggle makes no connection and leaves
/// the player as it is.
pub proof fn law_toggle_connects_only_from_silence(state: PlayerState)
    ensures
        state.toggled() matches Ok((after, action)) ==> {
            let silent = !state.playback.is_playing && !state.playback.has_buffer
                && !state.playback.is_buffering;
            &&& action.connect is Some <==> silent
            &&& !silent ==> after == state
            &&& action.connect matches Some((url, generation)) ==> {
                &&& generation != state.playback.stream_generation
                &&& generation == after.playback.stream_generation
                &&& action.command == Some(AudioCommand::Clear { generation })
                &&& url_parse(state.streams[state.index as int].url_string) matches Ok(
                    (scheme, text),
                ) ==> url.scheme == scheme && url.text == text
                &&& after.status == state.status
                &&& after.streams == state.streams
                &&& after.index == state.index
                &&& !after.playback.is_playing && !after.playback.has_buffer
                &&& !after.playback.is_buffering
            }
        },
{
}

/// One button pauses and plays: a radio that plays is paused, one that is
/// stopped with samples plays, and one that is connecting is left alone.
pub proof fn law_one_button_pauses_and_plays(state: PlayerState)
    requires
        state.status is Ready,
    ensures
        state.playback.is_playing ==> (state.toggled() matches Ok((after, action)) && action.command
            == Some(AudioCommand::Pause)),
        !state.playback.is_playing && state.playback.has_buffer ==> (state.toggled() matches Ok(
            (after, action),
        ) && action.command == Some(AudioCommand::Play)),
        !state.playback.is_playing && !state.playback.has_buffer && state.playback.is_buffering
            ==> (state.toggled() matches Ok((after, action)) && action.command is None),
{
}

/// When requests are refused: all of them before the audio thread is started;
/// a change of station without stations; and a toggle without stations, but
/// only where it would have to start one.
pub proof fn law_requests_are_refused_only_for_a_reason(state: PlayerState, index: nat)
    ensures
        state.status is Uninitialized ==> {
            &&& state.selected(index) == Err::<(PlayerState, ActionText), PlayerError>(
                PlayerError::NotInitialized,
            )
            &&& state.toggled() == Err::<(PlayerState, ActionText), PlayerError>(
                PlayerError::NotInitialized,
            )
        },
        state.status is Ready ==> {
            let silent = !state.playback.is_playing && !state.playback.has_buffer
                && !state.playback.is_buffering;
            &&& state.selected(index) is Err <==> state.streams.len() == 0
            &&& state.toggled() is Err <==> silent && state.streams.len() == 0
            &&& state.selected(index) matches Err(error) ==> error == PlayerError::NoStreams
            &&& state.toggled() matches Err(error) ==> error == PlayerError::NoStreams
        },
{
}

/// A change of station selects the station turned to, whatever the state of
/// playback, and starts a new generation for which the audio thread makes room.
/// A radio that plays connects to that very station under that generation; one
/// that does not play makes no connection. The stations, and what is played and
/// buffered until the command is carried out, stay.
pub proof fn law_change_of_station_selects_it(state: PlayerState, index: nat)
    ensures
        state.selected(index) matches Ok((after, action)) ==> {
            let generation = after.playback.stream_generation;
            &&& after.index == index
            &&& after.streams == state.streams
            &&& after.status == state.status
            &&& generation != state.playback.stream_generation
            &&& after.playback.is_playing == state.playback.is_playing
            &&& after.playback.has_buffer == state.playback.has_buffer
            &&& after.playback.is_buffering == state.playback.is_buffering
            &&& action.command == Some(AudioCommand::Clear { generation })
            &&& action.connect is Some <==> state.playback.is_playing
            &&& action.connect matches Some((url, connected)) ==> {
                &&& connected == generation
                &&& url_parse(state.streams[index as int].url_string) matches Ok((scheme, text))
                    ==> url.scheme == scheme && url.text == text
            }
        },
{
}

/// Stations are turned to one by one: the next one is the neighbour above, the
/// previous one the neighbour below, and the first and the last are neighbours.
pub proof fn law_stations_are_turned_to_one_by_one(index: nat, len: nat)
    requires
        index < len,
    ensures
        index + 1 < len ==> next_index(index, len) == index + 1,
        next_index((len - 1) as nat, len) == 0,
        index > 0 ==> previous_index(index, len) == index - 1,
        previous_index(0, len) == len - 1,
{
    lemma_next_index(index, len);
    lemma_next_index((len - 1) as nat, len);
    lemma_previous_index(index, len);
    lemma_previous_index(0, len);
}

/// What is told of an action is what it holds, and no command and no connection
/// is passed over.
pub proof fn law_action_tells_what_it_holds(action: PlayerAction)
    ensures
        action@.command == action.command,
        action.connect is None ==> action@.connect is None,
        action.connect matches Some(connection) ==> {
            &&& action@.connect matches Some((url, generation))
            &&& url.scheme == connection.url.scheme@
            &&& url.text == connection.url.text@
            &&& generation == connection.generation
        },
{
}

/// Turning on and back, whatever the radio does in between, ends at the station
/// where it began, with the same stations; and so does turning back and on.
pub proof fn law_turning_on_and_back_returns(state: PlayerState, between: Playback)
    requires
        state.status is Ready,
        state.index < state.streams.len(),
    ensures
        state.selected(next_index(state.index, state.streams.len())) matches Ok((next, action)) && (
        PlayerState { playback: between, ..next }.selected(
            previous_index(next.index, next.streams.len()),
        ) matches Ok((end, answer)) && end.index == state.index && end.streams == state.streams),
        state.selected(previous_index(state.index, state.streams.len())) matches Ok((next, action))
            && (PlayerState { playback: between, ..next }.selected(
            next_index(next.index, next.streams.len()),
        ) matches Ok((end, answer)) && end.index == state.index && end.streams == state.streams),
{
    law_next_and_previous_are_inverse(state.index, state.streams.len());
}

/// A dropped stream is not replaced, and the audio thread is told of it if there
/// is one.
pub proof fn law_dropping_makes_no_connection(state: PlayerState)
    ensures
        state.clear_action().connect is None,
        state.clear_action().command is None <==> state.status is Uninitialized,
        state.clear_action().command matches Some(command) ==> command == (AudioCommand::Clear {
            generation: state.advanced().playback.stream_generation,
        }),
        state.advanced().playback.stream_generation != state.playback.stream_generation,
        state.advanced().streams == state.streams && state.advanced().index == state.index,
        state.advanced().status == state.status,
{
}

/// A call of `toggle_state` pauses a radio that plays, lets one play that has
/// samples, leaves one alone that is connecting, and connects only from silence,
/// to the selected station and under a new generation. It never changes the
/// stations or the selection, and an error changes nothing.
pub proof fn law_toggle_state_connects_only_from_silence(
    action: Result<PlayerAction, PlayerError>,
)
    ensures
        forall|player: &mut MusicPlayer|
            #[trigger] call_ensures(MusicPlayer::toggle_state, (player,), action) ==> {
                let before = player@;
                let after = final(player)@;
                let silent = !before.playback.is_playing && !before.playback.has_buffer
                    && !before.playback.is_buffering;
                &&& after.status == before.status
                &&& after.streams == before.streams
                &&& after.index == before.index
                &&& !silent || action is Err ==> after == before
                &&& action is Err <==> before.status is Uninitialized || (silent
                    && before.streams.len() == 0)
                &&& action matches Err(error) ==> if before.status is Uninitialized {
                    error is NotInitialized
                } else {
                    error is NoStreams
                }
                &&& action matches Ok(action) ==> {
                    let generation = after.playback.stream_generation;
                    &&& action.connect is Some <==> silent
                    &&& before.playback.is_playing ==> action.command == Some(AudioCommand::Pause)
                    &&& !before.playback.is_playing && before.playback.has_buffer ==> action.command
                        == Some(AudioCommand::Play)
                    &&& !before.playback.is_playing && !before.playback.has_buffer
                        && before.playback.is_buffering ==> action.command is None
                    &&& silent ==> {
                        &&& generation != before.playback.stream_generation
                        &&& action.command == Some(AudioCommand::Clear { generation })
                    }
                    &&& action.connect matches Some(connection) ==> {
                        &&& connection.generation == generation
                        &&& url_parse(before.streams[before.index as int].url_string) matches Ok(
                            (scheme, text),
                        ) ==> connection.url.scheme@ == scheme && connection.url.text@ == text
                    }
                }
            },
{
}

/// What turning to the station `index` does to a player, whichever way it is
/// turned: the station is selected whatever the radio does, the audio thread is
/// told to make room for a new generation, and exactly a radio that plays
/// connects, to that station. It is refused exactly before the start and without
/// stations, and changes nothing then.
pub open spec fn turns_to(
    before: PlayerState,
    after: PlayerState,
    action: Result<PlayerAction, PlayerError>,
    index: int,
) -> bool {
    &&& after.status == before.status
    &&& after.streams == before.streams
    &&& action is Err <==> before.status is Uninitialized || before.streams.len() == 0
    &&& action matches Err(error) ==> after == before && if before.status is Uninitialized {
        error is NotInitialized
    } else {
        error is NoStreams
    }
    &&& action matches Ok(action) ==> {
        let generation = after.playback.stream_generation;
        &&& after.index == index
        &&& generation != before.playback.stream_generation
        &&& after.playback.is_playing == before.playback.is_playing
        &&& after.playback.has_buffer == before.playback.has_buffer
        &&& after.playback.is_buffering == before.playback.is_buffering
        &&& action.command == Some(AudioCommand::Clear { generation })
        &&& action.connect is Some <==> before.playback.is_playing
        &&& action.connect matches Some(connection) ==> {
            &&& connection.generation == generation
            &&& url_parse(before.streams[index].url_string) matches Ok((scheme, text))
                ==> connection.url.scheme@ == scheme && connection.url.text@ == text
        }
    }
}

/// A call of `next_radio_stream` turns to the neighbour above, and from the last
/// station to the first.
pub proof fn law_next_radio_stream_turns_on(action: Result<PlayerAction, PlayerError>)
    ensures
        forall|player: &mut MusicPlayer|
            #[trigger] call_ensures(MusicPlayer::next_radio_stream, (player,), action)
                && player@.wf() ==> turns_to(
                player@,
                final(player)@,
                action,
                if player@.index + 1 < player@.streams.len() {
                    player@.index + 1int
                } else {
                    0
                },
            ),
{
    assert forall|player: &mut MusicPlayer|
        #[trigger] call_ensures(MusicPlayer::next_radio_stream, (player,), action)
            && player@.wf() implies turns_to(
        player@,
        final(player)@,
        action,
        if player@.index + 1 < player@.streams.len() {
            player@.index + 1int
        } else {
            0
        },
    ) by {
        if player@.streams.len() > 0 {
            lemma_next_index(player@.index, player@.streams.len());
        }
    }
}

/// A call of `previous_radio_stream` turns to the neighbour below, and from the
/// first station to the last.
pub proof fn law_previous_radio_stream_turns_back(action: Result<PlayerAction, PlayerError>)
    ensures
        forall|player: &mut MusicPlayer|
            #[trigger] call_ensures(MusicPlayer::previous_radio_stream, (player,), action)
                && player@.wf() ==> turns_to(
                player@,
                final(player)@,
                action,
                if player@.index > 0 {
                    player@.index - 1
                } else {
                    player@.streams.len() - 1
                },
            ),
{
    assert forall|player: &mut MusicPlayer|
        #[trigger] call_ensures(MusicPlayer::previous_radio_stream, (player,), action)
            && player@.wf() implies turns_to(
        player@,
        final(player)@,
        action,
        if player@.index > 0 {
            player@.index - 1
        } else {
            player@.streams.len() - 1
        },
    ) by {
        if player@.streams.len() > 0 {
            lemma_previous_index(player@.index, player@.streams.len());
        }
    }
}

/// A call of `new` keeps every station that can be played and no other, each as
/// it is and as often as it is listed, and starts with the first one selected
/// and nothing played.
pub proof fn law_new_keeps_playable_stations(
    streams: Vec<Stream>,
    player: MusicPlayer,
    station: StreamText,
)
    requires
        call_ensures(MusicPlayer::new, (streams,), player),
    ensures
        player@.status is Uninitialized,
        player@.index == 0,
        !player@.playback.is_playing && !player@.playback.has_buffer
            && !player@.playback.is_buffering,
        playable_url(station.url_string) ==> player@.streams.to_multiset().count(station)
            == stream_texts(streams@).to_multiset().count(station),
        !playable_url(station.url_string) ==> !player@.streams.contains(station),
        (forall|i: int|
            0 <= i < streams@.len() ==> playable_url((#[trigger] streams@[i]).url_string@))
            ==> player@.streams == stream_texts(streams@),
{
    let texts = stream_texts(streams@);
    lemma_playable_stations(texts, station);
    if forall|i: int|
        0 <= i < streams@.len() ==> playable_url((#[trigger] streams@[i]).url_string@) {
        assert forall|i: int| 0 <= i < texts.len() implies playable_url(
            (#[trigger] texts[i]).url_string,
        ) by {
            assert(texts[i] == streams@[i]@);
        }
    }
}

/// What is left of a list when only the playable stations are kept.
proof fn lemma_playable_stations(texts: Seq<StreamText>, station: StreamText)
    ensures
        ({
            let kept = texts.filter(|stream: StreamText| playable_url(stream.url_string));
            &&& playable_url(station.url_string) ==> kept.to_multiset().count(station)
                == texts.to_multiset().count(station)
            &&& !playable_url(station.url_string) ==> !kept.contains(station)
            &&& (forall|i: int|
                0 <= i < texts.len() ==> playable_url((#[trigger] texts[i]).url_string)) ==> kept
                == texts
        }),
    decreases texts.len(),
{
    broadcast use vstd::seq_lib::group_to_multiset_ensures;

    reveal(Seq::filter);
    let playable = |stream: StreamText| playable_url(stream.url_string);
    if texts.len() > 0 {
        let before = texts.drop_last();
        lemma_playable_stations(before, station);
        assert(texts =~= before.push(texts.last()));
        let kept = texts.filter(playable);
        if !playable_url(station.url_string) && kept.contains(station) {
            let i = choose|i: int| 0 <= i < kept.len() && kept[i] == station;
            texts.lemma_filter_pred(playable, i);
        }
    }
}

/// A call of `currently_playing` names the selected station, and none only where
/// there are no stations.
pub proof fn law_currently_playing_names_the_selection(player: MusicPlayer, name: Option<String>)
    requires
        call_ensures(MusicPlayer::currently_playing, (&player,), name),
    ensures
        name is None <==> player@.streams.len() == 0,
        name matches Some(name) ==> name@ == player@.streams[player@.index as int].name,
{
}

/// A call of `start_audio_event_loop` makes the player ready and opens a stereo
/// device at the rate that the decoder converts to; the stations, the selection
/// and playback stay. A call of `set_playback` takes over the playback and
/// nothing else.
pub proof fn law_start_and_playback_touch_nothing_else(
    parameters: OutputParameters,
    playback: Playback,
)
    ensures
        forall|player: &mut MusicPlayer|
            #[trigger] call_ensures(MusicPlayer::start_audio_event_loop, (player,), parameters)
                ==> {
                &&& final(player)@.status is Ready
                &&& final(player)@.playback == player@.playback
                &&& final(player)@.streams == player@.streams
                &&& final(player)@.index == player@.index
                &&& parameters.sample_rate == OUTPUT_SAMPLE_RATE
                &&& parameters.channels_count == OUTPUT_CHANNELS
                &&& parameters.channel_sample_count == OUTPUT_CHANNEL_SAMPLE_COUNT
            },
        forall|player: &mut MusicPlayer|
            #[trigger] call_ensures(MusicPlayer::set_playback, (player, playback), ()) ==> {
                &&& final(player)@.playback == playback
                &&& final(player)@.status == player@.status
                &&& final(player)@.streams == player@.streams
                &&& final(player)@.index == player@.index
            },
{
}

/// Stations are taken one by one and in their order: without stations there are
/// none, and a list with one more station makes a player with that station
/// behind the others if it can be played, and with the same stations if not.
pub proof fn law_new_takes_stations_in_order(
    streams: Vec<Stream>,
    player: MusicPlayer,
    longer: Vec<Stream>,
    other: MusicPlayer,
    station: Stream,
)
    requires
        call_ensures(MusicPlayer::new, (streams,), player),
        call_ensures(MusicPlayer::new, (longer,), other),
        longer@ == streams@.push(station),
    ensures
        streams@.len() == 0 ==> player@.streams.len() == 0,
        playable_url(station.url_string@) ==> other@.streams == player@.streams.push(station@),
        !playable_url(station.url_string@) ==> other@.streams == player@.streams,
{
    reveal(Seq::filter);
    assert(stream_texts(longer@).drop_last() =~= stream_texts(streams@));
    assert(stream_texts(longer@).last() == station@);
}

} // verus!
