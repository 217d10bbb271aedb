use rebels::audio::connection::{ConnectAction, ConnectOutcome};
use rebels::audio::decode::{DecodeAction, DecodeEvent, DecodeSession};
use rebels::audio::error::PlayerError;
use rebels::audio::music_player::{MusicPlayer, OutputParameters, PlayerAction};
use rebels::audio::playback::{AudioCommand, LoopStep, Playback};
use rebels::audio::radio_buffer::{PushOutcome, RadioBuffer};
use rebels::audio::stream::Stream;

fn stream(name: &str, url: &str) -> Stream {
    Stream {
        name: name.to_string(),
        url_string: url.to_string(),
    }
}

fn player() -> MusicPlayer {
    let mut player: MusicPlayer = MusicPlayer::new(vec![
        stream("One", "http://one.example.com/live"),
        stream("Bad", "not a url"),
        stream("Two", "https://Two.example.com"),
        stream("File", "file:///tmp/radio.mp3"),
        stream("Three", "HTTP://three.example.com/"),
    ]);
    player.start_audio_event_loop();
    player
}

fn playing(player: &mut MusicPlayer) {
    let playback: Playback = Playback {
        is_buffering: false,
        has_buffer: true,
        is_playing: true,
        ..player.playback()
    };
    player.set_playback(playback);
}

fn name(player: &MusicPlayer) -> String {
    player.currently_playing().unwrap()
}

fn url(action: &PlayerAction) -> (String, u64) {
    let connection = action.connect.as_ref().unwrap();
    (connection.url.text.clone(), connection.generation)
}

#[test]
fn only_playable_stations_are_kept_in_order() {
    let mut player: MusicPlayer = player();
    assert_eq!(name(&player), "One");
    player.next_radio_stream().unwrap();
    assert_eq!(name(&player), "Two");
    player.next_radio_stream().unwrap();
    assert_eq!(name(&player), "Three");
    player.next_radio_stream().unwrap();
    assert_eq!(name(&player), "One");
}

#[test]
fn previous_undoes_next() {
    let mut player: MusicPlayer = player();
    player.previous_radio_stream().unwrap();
    assert_eq!(name(&player), "Three");
    player.next_radio_stream().unwrap();
    assert_eq!(name(&player), "One");
    player.next_radio_stream().unwrap();
    player.previous_radio_stream().unwrap();
    assert_eq!(name(&player), "One");
}

#[test]
fn the_output_device_is_opened_for_stereo() {
    let mut player: MusicPlayer = MusicPlayer::new(Vec::new());
    assert_eq!(
        player.start_audio_event_loop(),
        OutputParameters {
            sample_rate: 44_100,
            channels_count: 2,
            channel_sample_count: 2_048
        }
    );
}

#[test]
fn an_unstarted_player_refuses_requests() {
    let mut player: MusicPlayer = MusicPlayer::new(vec![stream("One", "http://one.example.com")]);
    for refused in [
        player.next_radio_stream(),
        player.previous_radio_stream(),
        player.toggle_state(),
    ] {
        let error: PlayerError = refused.unwrap_err();
        assert!(matches!(error, PlayerError::NotInitialized));
        assert_eq!(error.message(), "Stream is not initialized.");
    }
    assert_eq!(name(&player), "One");
    assert_eq!(player.playback(), Playback::new());
}

#[test]
fn a_player_without_stations_refuses_requests() {
    let mut player: MusicPlayer = MusicPlayer::new(vec![stream("Bad", "gopher://example.com")]);
    player.start_audio_event_loop();
    for refused in [
        player.next_radio_stream(),
        player.previous_radio_stream(),
        player.toggle_state(),
    ] {
        let error: PlayerError = refused.unwrap_err();
        assert!(matches!(error, PlayerError::NoStreams));
        assert_eq!(error.message(), "No streams available");
    }
    assert_eq!(player.currently_playing(), None);
    assert_eq!(player.playback(), Playback::new());
}

#[test]
fn a_silent_radio_only_drops_the_old_station() {
    let mut player: MusicPlayer = player();
    let action: PlayerAction = player.next_radio_stream().unwrap();
    assert_eq!(action.command, Some(AudioCommand::Clear { generation: 1 }));
    assert!(action.connect.is_none());
    assert_eq!(player.playback().stream_generation, 1);
}

#[test]
fn a_playing_radio_goes_on_with_the_new_station() {
    let mut player: MusicPlayer = player();
    playing(&mut player);
    let action: PlayerAction = player.next_radio_stream().unwrap();
    assert_eq!(action.command, Some(AudioCommand::Clear { generation: 1 }));
    assert_eq!(url(&action), ("https://two.example.com/".to_string(), 1));
    let action: PlayerAction = player.previous_radio_stream().unwrap();
    assert_eq!(action.command, Some(AudioCommand::Clear { generation: 2 }));
    assert_eq!(url(&action), ("http://one.example.com/live".to_string(), 2));
}

#[test]
fn the_first_toggle_starts_the_station() {
    let mut player: MusicPlayer = player();
    let action: PlayerAction = player.toggle_state().unwrap();
    assert_eq!(action.command, Some(AudioCommand::Clear { generation: 1 }));
    assert_eq!(url(&action), ("http://one.example.com/live".to_string(), 1));
}

#[test]
fn a_toggle_while_connecting_does_nothing() {
    let mut player: MusicPlayer = player();
    let mut playback: Playback = player.playback();
    playback.connect_started();
    player.set_playback(playback);
    assert!(player.is_buffering());
    let action: PlayerAction = player.toggle_state().unwrap();
    assert_eq!(action.command, None);
    assert!(action.connect.is_none());
    assert_eq!(player.playback(), playback);
}

#[test]
fn toggling_twice_pauses_and_plays_again() {
    let mut player: MusicPlayer = player();
    let mut buffer: RadioBuffer<f32> = RadioBuffer::new();
    playing(&mut player);
    let before: Playback = player.playback();
    let action: PlayerAction = player.toggle_state().unwrap();
    assert_eq!(action.command, Some(AudioCommand::Pause));
    let mut playback: Playback = player.playback();
    playback.handle_command(AudioCommand::Pause, false, &mut buffer);
    player.set_playback(playback);
    assert!(!player.is_playing());
    let action: PlayerAction = player.toggle_state().unwrap();
    assert_eq!(action.command, Some(AudioCommand::Play));
    let mut playback: Playback = player.playback();
    playback.handle_command(AudioCommand::Play, false, &mut buffer);
    player.set_playback(playback);
    assert!(player.is_playing());
    assert_eq!(player.playback(), before);
}

#[test]
fn a_change_of_station_voids_the_old_stream() {
    let mut player: MusicPlayer = player();
    let mut buffer: RadioBuffer<f32> = RadioBuffer::new();
    let old_generation: u64 = player.playback().stream_generation;
    buffer.push_samples(old_generation, &[1.0], 0);
    let action: PlayerAction = player.next_radio_stream().unwrap();
    let mut playback: Playback = player.playback();
    playback.handle_command(action.command.unwrap(), false, &mut buffer);
    assert_eq!(
        buffer.push_samples(old_generation, &[1.0], 0),
        PushOutcome::Stale
    );
    assert_eq!(
        buffer.push_samples(playback.stream_generation, &[1.0], 0),
        PushOutcome::Finished
    );
}

#[test]
fn a_started_station_is_heard() {
    let mut player: MusicPlayer = player();
    let mut buffer: RadioBuffer<f32> = RadioBuffer::new();
    let action: PlayerAction = player.toggle_state().unwrap();
    let generation: u64 = action.connect.as_ref().unwrap().generation;
    let mut playback: Playback = player.playback();
    playback.handle_command(action.command.unwrap(), false, &mut buffer);
    playback.connect_started();
    let command: AudioCommand = match playback.connect_finished(generation, ConnectOutcome::Connected) {
        ConnectAction::Send { command } => command,
        ConnectAction::Report { .. } => panic!("the stream was not handed on"),
    };
    assert_eq!(
        playback.handle_command(command, false, &mut buffer),
        LoopStep::Decode { generation }
    );
    let mut session: DecodeSession<f32> = DecodeSession::start(generation, Some(0)).unwrap();
    let event: DecodeEvent<f32> = DecodeEvent::Decoded {
        samples: &[0.5, 0.25],
        sample_rate: 44_100,
        channels: 2,
    };
    assert!(matches!(
        session.step(event, &mut playback, &mut buffer),
        DecodeAction::ReadPacket
    ));
    player.set_playback(playback);
    assert!(player.is_playing() && !player.is_buffering());
    let mut output: Vec<f32> = vec![0.0; 2];
    buffer.fill_output(&mut output, 0.0, &mut playback);
    assert_eq!(output, vec![0.5, 0.25]);
}

#[test]
fn a_default_player_has_no_stations() {
    let mut player: MusicPlayer = MusicPlayer::default();
    assert_eq!(player.currently_playing(), None);
    assert_eq!(player.playback(), Playback::new());
    assert!(matches!(player.toggle_state(), Err(PlayerError::NotInitialized)));
    player.start_audio_event_loop();
    assert!(matches!(player.toggle_state(), Err(PlayerError::NoStreams)));
}
