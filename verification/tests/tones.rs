use nvda_rust::tones::{beep_bytes, padded_sample_count};

#[test]
fn padded_count_rounds_up_to_whole_cycles() {
    // 100 ms at 44100 Hz with a 100-sample cycle (440 Hz)
    assert_eq!(padded_sample_count(4410, 100), 4500);
    assert_eq!(beep_bytes(4500), 18000);
}

#[test]
fn padded_count_with_uneven_cycle() {
    // 50 ms at 44100 Hz with a 44-sample cycle (1000 Hz)
    assert_eq!(padded_sample_count(2205, 44), 2244);
    assert_eq!(beep_bytes(2244), 8976);
}

#[test]
fn padded_count_adds_a_cycle_when_already_whole() {
    assert_eq!(padded_sample_count(4400, 100), 4500);
    assert_eq!(padded_sample_count(0, 7), 7);
}

#[test]
fn padded_count_is_a_multiple_of_the_cycle() {
    for total in [1u32, 99, 100, 101, 4409, 4410] {
        let padded = padded_sample_count(total, 100);
        assert_eq!(padded % 100, 0);
        assert!(padded > total && padded <= total + 100);
    }
}
