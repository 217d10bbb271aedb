use rebels::{app_version, AudioPlayerState};

#[test]
fn the_version_has_three_numbers() {
    assert_eq!(app_version("1", "20", "304"), [1, 20, 304]);
    assert_eq!(app_version("0", "007", "+8"), [0, 7, 8]);
}

#[test]
fn a_part_that_is_not_a_number_counts_as_zero() {
    for bad in ["", "+", "-1", "1a", " 1", "1 ", "1_0", "0x1", "++1", "\u{663}", "99999999999999999999999999"] {
        assert_eq!(app_version(bad, "1", "2"), [0, 1, 2]);
        assert_eq!(bad.parse::<usize>().unwrap_or_default(), 0);
    }
}

#[test]
fn the_largest_number_is_read() {
    let max: String = usize::MAX.to_string();
    assert_eq!(app_version(&max, "0", "1"), [usize::MAX, 0, 1]);
    let mut over: String = max.clone();
    over.push('0');
    assert_eq!(app_version("0", &over, "1"), [0, 0, 1]);
    let next: String = (usize::MAX as u128 + 1).to_string();
    assert_eq!(app_version(&next, "0", "1"), [0, 0, 1]);
}

#[test]
fn written_numbers_are_read_back() {
    for number in [0usize, 9, 10, 99, 100, 1_234_567] {
        let text: String = number.to_string();
        assert_eq!(app_version(&text, &text, &text), [number; 3]);
    }
}

#[test]
fn player_states_differ() {
    assert_ne!(AudioPlayerState::Playing, AudioPlayerState::Paused);
    assert_ne!(AudioPlayerState::Paused, AudioPlayerState::Disabled);
    let copy: AudioPlayerState = AudioPlayerState::Disabled;
    assert_eq!(copy, AudioPlayerState::Disabled);
}
