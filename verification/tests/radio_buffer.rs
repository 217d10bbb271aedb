use rebels::audio::playback::Playback;
use rebels::audio::radio_buffer::{PushOutcome, RadioBuffer, BUFFER_SECONDS, PUSH_WAIT_MILLIS};

const CAPACITY: usize = 705_600;

fn playing() -> Playback {
    Playback {
        is_buffering: false,
        has_buffer: true,
        is_playing: true,
        stream_generation: 0,
    }
}

fn play(buffer: &mut RadioBuffer<f32>, len: usize) -> Vec<f32> {
    let mut output: Vec<f32> = vec![9.0; len];
    let mut playback: Playback = playing();
    buffer.fill_output(&mut output, 0.0, &mut playback);
    output
}

#[test]
fn samples_come_out_in_order() {
    let mut buffer: RadioBuffer<f32> = RadioBuffer::new();
    assert_eq!(buffer.push_samples(0, &[1.0, 2.0, 3.0], 0), PushOutcome::Finished);
    assert_eq!(play(&mut buffer, 2), vec![1.0, 2.0]);
    assert_eq!(buffer.push_samples(0, &[4.0, 5.0], 0), PushOutcome::Finished);
    assert_eq!(play(&mut buffer, 3), vec![3.0, 4.0, 5.0]);
}

#[test]
fn a_short_buffer_is_followed_by_silence_and_stops_playback() {
    let mut buffer: RadioBuffer<f32> = RadioBuffer::new();
    buffer.push_samples(0, &[1.0, 2.0], 0);
    let mut output: Vec<f32> = vec![9.0; 4];
    let mut playback: Playback = playing();
    buffer.fill_output(&mut output, 0.0, &mut playback);
    assert_eq!(output, vec![1.0, 2.0, 0.0, 0.0]);
    assert!(!playback.is_playing);
    assert!(!playback.has_buffer);
}

#[test]
fn playback_goes_on_while_there_are_samples() {
    let mut buffer: RadioBuffer<f32> = RadioBuffer::new();
    buffer.push_samples(0, &[1.0, 2.0, 3.0], 0);
    let mut output: Vec<f32> = vec![9.0; 2];
    let mut playback: Playback = playing();
    buffer.fill_output(&mut output, 0.0, &mut playback);
    assert_eq!(playback, playing());
    let mut output: Vec<f32> = vec![9.0; 1];
    buffer.fill_output(&mut output, 0.0, &mut playback);
    assert_eq!(output, vec![3.0]);
    assert!(!playback.is_playing);
}

#[test]
fn a_paused_radio_is_silent_and_keeps_its_samples() {
    let mut buffer: RadioBuffer<f32> = RadioBuffer::new();
    buffer.push_samples(0, &[1.0, 2.0], 0);
    let mut output: Vec<f32> = vec![9.0; 2];
    let paused: Playback = Playback {
        is_playing: false,
        ..playing()
    };
    let mut playback: Playback = paused;
    buffer.fill_output(&mut output, 0.0, &mut playback);
    assert_eq!(output, vec![0.0, 0.0]);
    assert_eq!(playback, paused);
    assert_eq!(play(&mut buffer, 2), vec![1.0, 2.0]);
}

#[test]
fn samples_of_another_stream_are_refused() {
    let mut buffer: RadioBuffer<f32> = RadioBuffer::new();
    assert_eq!(buffer.push_samples(1, &[1.0], 0), PushOutcome::Stale);
    assert_eq!(play(&mut buffer, 1), vec![0.0]);
    buffer.push_samples(0, &[1.0], 0);
    buffer.clear(1);
    assert_eq!(buffer.push_samples(0, &[2.0], 0), PushOutcome::Stale);
    assert_eq!(buffer.push_samples(1, &[3.0], 0), PushOutcome::Finished);
    assert_eq!(play(&mut buffer, 2), vec![3.0, 0.0]);
}

#[test]
fn a_push_without_samples_is_finished_at_once() {
    let mut buffer: RadioBuffer<f32> = RadioBuffer::new();
    assert_eq!(buffer.push_samples(7, &[], 0), PushOutcome::Finished);
    assert_eq!(buffer.push_samples(7, &[1.0], 1), PushOutcome::Finished);
}

#[test]
fn a_full_buffer_blocks_and_the_push_goes_on() {
    let mut buffer: RadioBuffer<u32> = RadioBuffer::new();
    let samples: Vec<u32> = (0..CAPACITY as u32 + 5).collect();
    assert_eq!(
        buffer.push_samples(0, &samples, 0),
        PushOutcome::Blocked { offset: CAPACITY }
    );
    assert_eq!(
        buffer.push_samples(0, &samples, CAPACITY),
        PushOutcome::Blocked { offset: CAPACITY }
    );
    let mut heard: Vec<u32> = vec![0; 2];
    let mut playback: Playback = playing();
    buffer.fill_output(&mut heard, 0, &mut playback);
    assert_eq!(
        buffer.push_samples(0, &samples, CAPACITY),
        PushOutcome::Blocked { offset: CAPACITY + 2 }
    );
    let mut more: Vec<u32> = vec![0; 100];
    buffer.fill_output(&mut more, 0, &mut playback);
    assert_eq!(
        buffer.push_samples(0, &samples, CAPACITY + 2),
        PushOutcome::Finished
    );
    let mut rest: Vec<u32> = vec![0; CAPACITY + 5 - 102];
    buffer.fill_output(&mut rest, 0, &mut playback);
    heard.extend(more);
    heard.extend(rest);
    assert_eq!(heard, samples);
    assert!(!playback.is_playing);
}

#[test]
fn a_blocked_push_ends_when_the_stream_is_replaced() {
    let mut buffer: RadioBuffer<u32> = RadioBuffer::new();
    let samples: Vec<u32> = vec![1; CAPACITY + 1];
    assert_eq!(
        buffer.push_samples(0, &samples, 0),
        PushOutcome::Blocked { offset: CAPACITY }
    );
    buffer.clear(1);
    assert_eq!(
        buffer.push_samples(0, &samples, CAPACITY),
        PushOutcome::Stale
    );
}

#[test]
fn the_buffer_holds_eight_seconds() {
    assert_eq!(BUFFER_SECONDS, 8);
    assert_eq!(PUSH_WAIT_MILLIS, 50);
}

#[test]
fn a_cleared_buffer_keeps_its_capacity_and_only_the_new_samples() {
    let mut buffer: RadioBuffer<u32> = RadioBuffer::new();
    let mut playback: Playback = playing();
    buffer.push_samples(0, &[1, 2, 3], 0);
    let mut heard: Vec<u32> = vec![0; 1];
    buffer.fill_output(&mut heard, 0, &mut playback);
    buffer.clear(3);
    buffer.clear(5);
    assert_eq!(buffer.push_samples(3, &[4], 0), PushOutcome::Stale);
    let samples: Vec<u32> = (10..10 + CAPACITY as u32 + 1).collect();
    assert_eq!(
        buffer.push_samples(5, &samples, 0),
        PushOutcome::Blocked { offset: CAPACITY }
    );
    let mut heard: Vec<u32> = vec![0; CAPACITY];
    buffer.fill_output(&mut heard, 0, &mut playback);
    assert_eq!(heard, samples[..CAPACITY].to_vec());
}
