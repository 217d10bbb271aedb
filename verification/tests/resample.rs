use rebels::audio::resample::to_output_stereo;

#[test]
fn stereo_at_the_output_rate_is_unchanged() {
    let samples: Vec<f32> = vec![0.1, -0.1, 0.2, -0.2, 0.3, -0.3];
    assert_eq!(to_output_stereo(&samples, 44_100, 2), samples);
}

#[test]
fn half_a_frame_at_the_end_is_dropped() {
    let samples: Vec<f32> = vec![0.1, -0.1, 0.2];
    assert_eq!(to_output_stereo(&samples, 44_100, 2), vec![0.1, -0.1]);
}

#[test]
fn mono_plays_on_both_sides() {
    let samples: Vec<f32> = vec![0.5, 0.25];
    assert_eq!(to_output_stereo(&samples, 44_100, 1), vec![0.5, 0.5, 0.25, 0.25]);
}

#[test]
fn channels_beyond_the_second_are_left_out() {
    let samples: Vec<u8> = vec![1, 2, 3, 4, 5, 6, 7, 8, 9, 10, 11, 12];
    assert_eq!(to_output_stereo(&samples, 44_100, 6), vec![1, 2, 7, 8]);
}

#[test]
fn half_the_rate_plays_every_frame_twice() {
    let samples: Vec<u8> = vec![1, 2, 3, 4];
    assert_eq!(
        to_output_stereo(&samples, 22_050, 2),
        vec![1, 2, 1, 2, 3, 4, 3, 4]
    );
}

#[test]
fn twice_the_rate_plays_every_second_frame() {
    let samples: Vec<u8> = vec![1, 2, 3, 4, 5, 6];
    assert_eq!(to_output_stereo(&samples, 88_200, 2), vec![1, 2, 5, 6]);
}

#[test]
fn the_number_of_output_frames_is_rounded_up() {
    let samples: Vec<u16> = (0..480).collect();
    let output: Vec<u16> = to_output_stereo(&samples, 48_000, 1);
    assert_eq!(output.len(), 2 * 441);
    assert_eq!(output[2 * 440], 478);
    let output: Vec<u16> = to_output_stereo(&samples[..1], 48_000, 1);
    assert_eq!(output, vec![0, 0]);
}

#[test]
fn nothing_comes_of_nothing() {
    let empty: Vec<f32> = Vec::new();
    let one: Vec<f32> = vec![1.0];
    assert!(to_output_stereo(&empty, 44_100, 2).is_empty());
    assert!(to_output_stereo(&one, 0, 1).is_empty());
    assert!(to_output_stereo(&one, 44_100, 0).is_empty());
    assert!(to_output_stereo(&one, 44_100, 2).is_empty());
}

#[test]
fn source_order_is_kept_and_samples_come_from_the_source() {
    let samples: Vec<u16> = (100..163).collect();
    let output: Vec<u16> = to_output_stereo(&samples, 32_000, 1);
    assert_eq!(output.len(), 2 * 87);
    for pair in output.windows(2) {
        assert!(pair[0] <= pair[1]);
    }
    for sample in &output {
        assert!(samples.contains(sample));
    }
}
