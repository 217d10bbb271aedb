use rebels::audio::decode::{
    CodecError, DecodeAction, DecodeError, DecodeEvent, DecodeSession, STREAM_EXTENSION,
};
use rebels::audio::playback::Playback;
use rebels::audio::radio_buffer::{PushOutcome, RadioBuffer};

const CAPACITY: usize = 705_600;

fn session() -> DecodeSession<f32> {
    DecodeSession::start(0, Some(7)).unwrap()
}

fn step(session: &mut DecodeSession<f32>, event: DecodeEvent<f32>) -> DecodeAction {
    let mut playback: Playback = Playback::new();
    let mut buffer: RadioBuffer<f32> = RadioBuffer::new();
    session.step(event, &mut playback, &mut buffer)
}

fn played(buffer: &mut RadioBuffer<f32>, len: usize) -> Vec<f32> {
    let mut output: Vec<f32> = vec![9.0; len];
    let mut playback: Playback = Playback {
        is_playing: true,
        ..Playback::new()
    };
    buffer.fill_output(&mut output, 0.0, &mut playback);
    output
}

#[test]
fn a_stream_without_a_track_is_an_error() {
    let error: DecodeError = DecodeSession::<f32>::start(0, None).unwrap_err();
    assert_eq!(error.message(), "No audio track in radio stream");
    assert_eq!(STREAM_EXTENSION, "mp3");
}

#[test]
fn a_packet_of_the_track_is_decoded_and_others_are_skipped() {
    assert!(matches!(step(&mut session(), DecodeEvent::Started), DecodeAction::ReadPacket));
    assert!(matches!(
        step(&mut session(), DecodeEvent::Packet { track_id: 7 }),
        DecodeAction::DecodePacket
    ));
    assert!(matches!(
        step(&mut session(), DecodeEvent::Packet { track_id: 8 }),
        DecodeAction::ReadPacket
    ));
}

#[test]
fn the_end_of_the_source_ends_the_stream() {
    let eof: CodecError = CodecError::Io {
        unexpected_eof: true,
        message: "end".to_string(),
    };
    assert!(matches!(
        step(&mut session(), DecodeEvent::PacketFailed { error: eof }),
        DecodeAction::Finish
    ));
}

#[test]
fn errors_of_the_source_are_fatal() {
    for error in [
        CodecError::Io {
            unexpected_eof: false,
            message: "boom".to_string(),
        },
        CodecError::Decode {
            message: "boom".to_string(),
        },
        CodecError::Other {
            message: "boom".to_string(),
        },
    ] {
        let action: DecodeAction = step(&mut session(), DecodeEvent::PacketFailed { error });
        assert!(matches!(action, DecodeAction::Fail { error } if error.message() == "boom"));
    }
}

#[test]
fn malformed_packets_are_skipped_and_other_decoder_errors_are_fatal() {
    let malformed: CodecError = CodecError::Decode {
        message: "bad frame".to_string(),
    };
    assert!(matches!(
        step(&mut session(), DecodeEvent::DecodeFailed { error: malformed }),
        DecodeAction::ReadPacket
    ));
    for error in [
        CodecError::Io {
            unexpected_eof: true,
            message: "boom".to_string(),
        },
        CodecError::Other {
            message: "boom".to_string(),
        },
    ] {
        let action: DecodeAction = step(&mut session(), DecodeEvent::DecodeFailed { error });
        assert!(matches!(action, DecodeAction::Fail { error } if error.message() == "boom"));
    }
}

#[test]
fn decoded_samples_are_converted_queued_and_played() {
    let mut session: DecodeSession<f32> = session();
    let mut playback: Playback = Playback {
        is_buffering: true,
        ..Playback::new()
    };
    let mut buffer: RadioBuffer<f32> = RadioBuffer::new();
    let event: DecodeEvent<f32> = DecodeEvent::Decoded {
        samples: &[0.5, 0.25],
        sample_rate: 44_100,
        channels: 1,
    };
    assert!(matches!(
        session.step(event, &mut playback, &mut buffer),
        DecodeAction::ReadPacket
    ));
    assert_eq!(
        playback,
        Playback {
            is_buffering: false,
            has_buffer: true,
            is_playing: true,
            stream_generation: 0
        }
    );
    assert_eq!(played(&mut buffer, 5), vec![0.5, 0.5, 0.25, 0.25, 0.0]);
}

#[test]
fn a_packet_without_samples_is_skipped() {
    let mut session: DecodeSession<f32> = session();
    let mut playback: Playback = Playback::new();
    let mut buffer: RadioBuffer<f32> = RadioBuffer::new();
    let event: DecodeEvent<f32> = DecodeEvent::Decoded {
        samples: &[],
        sample_rate: 44_100,
        channels: 2,
    };
    assert!(matches!(
        session.step(event, &mut playback, &mut buffer),
        DecodeAction::ReadPacket
    ));
    assert_eq!(playback, Playback::new());
}

#[test]
fn an_outdated_stream_ends() {
    let mut session: DecodeSession<f32> = session();
    let mut buffer: RadioBuffer<f32> = RadioBuffer::new();
    let newer: Playback = Playback {
        stream_generation: 1,
        ..Playback::new()
    };
    let mut playback: Playback = newer;
    for event in [
        DecodeEvent::Started,
        DecodeEvent::Packet { track_id: 8 },
        DecodeEvent::Waited,
    ] {
        assert!(matches!(
            session.step(event, &mut playback, &mut buffer),
            DecodeAction::Finish
        ));
    }
    buffer.clear(1);
    let event: DecodeEvent<f32> = DecodeEvent::Decoded {
        samples: &[0.5, 0.25],
        sample_rate: 44_100,
        channels: 2,
    };
    assert!(matches!(
        session.step(event, &mut playback, &mut buffer),
        DecodeAction::Finish
    ));
    assert_eq!(playback, newer);
    assert_eq!(played(&mut buffer, 1), vec![0.0]);
}

#[test]
fn a_full_buffer_makes_the_decoder_wait() {
    let mut session: DecodeSession<f32> = session();
    let mut playback: Playback = Playback::new();
    let mut buffer: RadioBuffer<f32> = RadioBuffer::new();
    let filling: Vec<f32> = vec![0.125; CAPACITY - 2];
    assert_eq!(buffer.push_samples(0, &filling, 0), PushOutcome::Finished);
    let event: DecodeEvent<f32> = DecodeEvent::Decoded {
        samples: &[1.0, 2.0, 3.0, 4.0],
        sample_rate: 44_100,
        channels: 2,
    };
    assert!(matches!(
        session.step(event, &mut playback, &mut buffer),
        DecodeAction::Wait
    ));
    assert_eq!(playback, Playback::new());
    assert!(matches!(
        session.step(DecodeEvent::Waited, &mut playback, &mut buffer),
        DecodeAction::Wait
    ));
    played(&mut buffer, CAPACITY - 2);
    assert!(matches!(
        session.step(DecodeEvent::Waited, &mut playback, &mut buffer),
        DecodeAction::ReadPacket
    ));
    assert!(playback.is_playing);
    assert_eq!(played(&mut buffer, 5), vec![1.0, 2.0, 3.0, 4.0, 0.0]);
}

#[test]
fn a_list_of_packets_is_heard_in_order() {
    let mut session: DecodeSession<f32> = session();
    let mut playback: Playback = Playback::new();
    let mut buffer: RadioBuffer<f32> = RadioBuffer::new();
    buffer.push_samples(0, &[9.0, 8.0], 0);
    let mut heard: Vec<f32> = Vec::new();
    let events: Vec<DecodeEvent<f32>> = vec![
        DecodeEvent::Started,
        DecodeEvent::Packet { track_id: 3 },
        DecodeEvent::Packet { track_id: 7 },
        DecodeEvent::Decoded { samples: &[1.0, 2.0], sample_rate: 44_100, channels: 2 },
        DecodeEvent::Packet { track_id: 7 },
        DecodeEvent::DecodeFailed {
            error: CodecError::Decode { message: "bad frame".to_string() },
        },
        DecodeEvent::Packet { track_id: 7 },
        DecodeEvent::Decoded { samples: &[], sample_rate: 44_100, channels: 2 },
        DecodeEvent::Packet { track_id: 7 },
        DecodeEvent::Decoded { samples: &[3.0], sample_rate: 22_050, channels: 1 },
    ];
    for event in events {
        let own: bool = matches!(&event, DecodeEvent::Packet { track_id: 7 });
        let action: DecodeAction = session.step(event, &mut playback, &mut buffer);
        if own {
            assert!(matches!(action, DecodeAction::DecodePacket));
        } else {
            assert!(matches!(action, DecodeAction::ReadPacket));
        }
        if heard.is_empty() {
            heard.extend(played(&mut buffer, 1));
        }
    }
    heard.extend(played(&mut buffer, 8));
    assert_eq!(heard, vec![9.0, 8.0, 1.0, 2.0, 3.0, 3.0, 3.0, 3.0, 0.0]);
}
