use rebels::audio::playback::{AudioCommand, LoopStep, Playback};
use rebels::audio::radio_buffer::{PushOutcome, RadioBuffer};

fn playing() -> Playback {
    Playback {
        is_buffering: false,
        has_buffer: true,
        is_playing: true,
        stream_generation: 4,
    }
}

#[test]
fn play_undoes_pause() {
    let mut buffer: RadioBuffer<f32> = RadioBuffer::new();
    let mut playback: Playback = playing();
    assert_eq!(
        playback.handle_command(AudioCommand::Pause, false, &mut buffer),
        LoopStep::Next
    );
    assert!(!playback.is_playing && playback.has_buffer);
    assert_eq!(
        playback.handle_command(AudioCommand::Play, false, &mut buffer),
        LoopStep::Next
    );
    assert_eq!(playback, playing());
}

#[test]
fn without_samples_there_is_nothing_to_play() {
    let mut buffer: RadioBuffer<f32> = RadioBuffer::new();
    let mut playback: Playback = Playback::new();
    playback.handle_command(AudioCommand::Play, false, &mut buffer);
    assert_eq!(playback, Playback::new());
}

#[test]
fn clear_silences_and_hands_the_buffer_over() {
    let mut buffer: RadioBuffer<f32> = RadioBuffer::new();
    buffer.push_samples(0, &[1.0], 0);
    let mut playback: Playback = Playback {
        is_buffering: true,
        ..playing()
    };
    let step: LoopStep =
        playback.handle_command(AudioCommand::Clear { generation: 5 }, false, &mut buffer);
    assert_eq!(step, LoopStep::Next);
    assert_eq!(
        playback,
        Playback {
            is_buffering: false,
            has_buffer: false,
            is_playing: false,
            stream_generation: 4
        }
    );
    assert_eq!(buffer.push_samples(0, &[2.0], 0), PushOutcome::Stale);
    assert_eq!(buffer.push_samples(5, &[2.0], 0), PushOutcome::Finished);
}

#[test]
fn only_the_newest_stream_is_decoded() {
    let mut buffer: RadioBuffer<f32> = RadioBuffer::new();
    let mut playback: Playback = playing();
    assert_eq!(
        playback.handle_command(AudioCommand::Append { generation: 4 }, false, &mut buffer),
        LoopStep::Decode { generation: 4 }
    );
    assert_eq!(playback.next_generation(), 5);
    assert_eq!(
        playback.handle_command(AudioCommand::Append { generation: 4 }, false, &mut buffer),
        LoopStep::Next
    );
    assert_eq!(
        playback.handle_command(AudioCommand::Append { generation: 5 }, false, &mut buffer),
        LoopStep::Decode { generation: 5 }
    );
}

#[test]
fn a_cancelled_loop_carries_out_nothing() {
    let mut buffer: RadioBuffer<f32> = RadioBuffer::new();
    buffer.push_samples(0, &[1.0], 0);
    let mut playback: Playback = playing();
    for command in [
        AudioCommand::Clear { generation: 9 },
        AudioCommand::Pause,
        AudioCommand::Append { generation: 4 },
    ] {
        assert_eq!(
            playback.handle_command(command, true, &mut buffer),
            LoopStep::Shutdown
        );
        assert_eq!(playback, playing());
    }
    assert_eq!(buffer.push_samples(0, &[2.0], 0), PushOutcome::Finished);
}

#[test]
fn generations_turn_over_at_the_end() {
    let mut playback: Playback = Playback {
        stream_generation: u64::MAX,
        ..playing()
    };
    assert_eq!(playback.next_generation(), 0);
    assert_eq!(playback.stream_generation, 0);
}

#[test]
fn a_failure_counts_only_for_the_newest_stream() {
    let mut playback: Playback = playing();
    assert!(!playback.decode_failed(3));
    assert_eq!(playback, playing());
    assert!(playback.decode_failed(4));
    assert_eq!(
        playback,
        Playback {
            stream_generation: 4,
            ..Playback::new()
        }
    );
}
