use d1flash::pin::OpenDrainState;
use d1flash::sequence::{
    delayed_reset_sequence, entry_sequence, exit_sequence, pulse_count, run_sequence, start_time,
    Line, Step, BOOT_SETTLE_MILLIS, DEFAULT_RESET_DELAY_MILLIS, RESET_PULSE_MILLIS,
};

const LOW: OpenDrainState = OpenDrainState::Low;
const OPEN: OpenDrainState = OpenDrainState::Open;

#[test]
fn the_delays_are_fixed() {
    assert_eq!(BOOT_SETTLE_MILLIS, 20);
    assert_eq!(RESET_PULSE_MILLIS, 100);
    assert_eq!(DEFAULT_RESET_DELAY_MILLIS, 2000);
}

#[test]
fn the_entry_sequence_is_fixed() {
    assert_eq!(
        entry_sequence(),
        vec![
            Step::Switch(Line::Boot, LOW),
            Step::Wait(20),
            Step::Switch(Line::Reset, LOW),
            Step::Wait(100),
            Step::Switch(Line::Reset, OPEN),
            Step::Wait(100),
        ]
    );
}

#[test]
fn the_exit_sequence_is_fixed() {
    assert_eq!(
        exit_sequence(),
        vec![
            Step::Switch(Line::Boot, OPEN),
            Step::Wait(20),
            Step::Switch(Line::Reset, LOW),
            Step::Wait(100),
            Step::Switch(Line::Reset, OPEN),
        ]
    );
}

#[test]
fn no_delayed_reset_unless_asked_for() {
    assert!(delayed_reset_sequence(None).is_empty());
}

#[test]
fn the_delayed_reset_waits_then_releases_boot_and_pulses_reset() {
    assert_eq!(
        delayed_reset_sequence(Some(2000)),
        vec![
            Step::Wait(2000),
            Step::Switch(Line::Boot, OPEN),
            Step::Switch(Line::Reset, LOW),
            Step::Wait(100),
            Step::Switch(Line::Reset, OPEN),
            Step::Wait(100),
        ]
    );
    assert_eq!(delayed_reset_sequence(Some(0))[0], Step::Wait(0));
}

#[test]
fn a_run_is_entry_then_delayed_reset_then_exit() {
    for delay in [None, Some(0), Some(750), Some(u64::MAX)] {
        let mut expected = entry_sequence();
        expected.extend(delayed_reset_sequence(delay));
        expected.extend(exit_sequence());
        assert_eq!(run_sequence(delay), expected);
    }
    assert_eq!(run_sequence(None).len(), 11);
    assert_eq!(run_sequence(Some(1)).len(), 17);
}

#[test]
fn entry_timing_follows_the_schedule() {
    for delay in [None, Some(2000), Some(5)] {
        let run = run_sequence(delay);
        assert_eq!(run[0], Step::Switch(Line::Boot, LOW));
        assert_eq!(start_time(&run, 0), Some(0));
        assert_eq!(run[2], Step::Switch(Line::Reset, LOW));
        assert_eq!(start_time(&run, 2), Some(20));
        assert_eq!(run[4], Step::Switch(Line::Reset, OPEN));
        assert_eq!(start_time(&run, 4), Some(120));
    }
}

#[test]
fn the_sequences_take_their_waits() {
    let entry = entry_sequence();
    assert_eq!(start_time(&entry, entry.len()), Some(220));
    let exit = exit_sequence();
    assert_eq!(start_time(&exit, exit.len()), Some(120));
    let delayed = delayed_reset_sequence(Some(2000));
    assert_eq!(start_time(&delayed, delayed.len()), Some(2200));
    assert_eq!(start_time(&Vec::new(), 0), Some(0));
}

#[test]
fn exit_timing_follows_the_schedule() {
    let exit = exit_sequence();
    assert_eq!(start_time(&exit, 0), Some(0));
    assert_eq!(start_time(&exit, 2), Some(20));
    assert_eq!(start_time(&exit, 4), Some(120));
}

#[test]
fn start_time_of_a_missing_step_is_none() {
    let entry = entry_sequence();
    assert_eq!(start_time(&entry, entry.len() + 1), None);
    assert_eq!(start_time(&Vec::new(), 1), None);
}

#[test]
fn start_time_that_does_not_fit_is_none() {
    let steps = vec![Step::Wait(u64::MAX), Step::Wait(1), Step::Switch(Line::Boot, LOW)];
    assert_eq!(start_time(&steps, 1), Some(u64::MAX));
    assert_eq!(start_time(&steps, 2), None);
    assert_eq!(start_time(&steps, 3), None);

    let run = run_sequence(Some(u64::MAX));
    assert_eq!(start_time(&run, 6), Some(220));
    assert_eq!(start_time(&run, 7), None);
}

#[test]
fn a_pulse_is_a_release_after_low() {
    let pulse = vec![Step::Switch(Line::Reset, LOW), Step::Switch(Line::Reset, OPEN)];
    assert_eq!(pulse_count(&pulse, Line::Reset, OPEN), 1);
    assert_eq!(pulse_count(&pulse, Line::Boot, OPEN), 0);

    let release_only = vec![Step::Switch(Line::Reset, OPEN)];
    assert_eq!(pulse_count(&release_only, Line::Reset, OPEN), 0);
    assert_eq!(pulse_count(&release_only, Line::Reset, LOW), 1);

    let low_only = vec![Step::Switch(Line::Reset, LOW), Step::Switch(Line::Reset, LOW)];
    assert_eq!(pulse_count(&low_only, Line::Reset, OPEN), 0);

    assert_eq!(pulse_count(&Vec::new(), Line::Reset, LOW), 0);
}

#[test]
fn a_run_without_delayed_reset_pulses_reset_twice() {
    let run = run_sequence(None);
    assert_eq!(pulse_count(&run, Line::Reset, OPEN), 2);
    assert_eq!(pulse_count(&run, Line::Boot, OPEN), 1);
}

#[test]
fn a_delayed_reset_adds_exactly_one_pulse() {
    for delay in [0, 1, 2000, 60_000, u64::MAX] {
        for start in [LOW, OPEN] {
            let with = pulse_count(&run_sequence(Some(delay)), Line::Reset, start);
            let without = pulse_count(&run_sequence(None), Line::Reset, start);
            assert_eq!(with, without + 1);
            assert_eq!(with, 3);
        }
    }
}

#[test]
fn the_delayed_pulse_begins_after_the_delay_and_ends_before_the_exit() {
    for delay in [0, 1, 2000, 60_000] {
        let run = run_sequence(Some(delay));
        let entry = entry_sequence();
        let after_entry = start_time(&entry, entry.len()).unwrap();
        assert_eq!(after_entry, 220);

        assert_eq!(run[8], Step::Switch(Line::Reset, LOW));
        assert_eq!(start_time(&run, 8), Some(after_entry + delay));
        assert_eq!(run[10], Step::Switch(Line::Reset, OPEN));
        assert_eq!(start_time(&run, 10), Some(after_entry + delay + 100));

        assert_eq!(run[12..].to_vec(), exit_sequence());
        assert_eq!(start_time(&run, 12), Some(after_entry + delay + 200));
    }
}

#[test]
fn the_delayed_reset_releases_boot_before_it_pulses_reset() {
    let delayed = delayed_reset_sequence(Some(2000));
    assert_eq!(delayed[1], Step::Switch(Line::Boot, OPEN));
    assert_eq!(delayed[2], Step::Switch(Line::Reset, LOW));
    assert_eq!(start_time(&delayed, 1), Some(2000));
    assert_eq!(start_time(&delayed, 2), Some(2000));
    assert_eq!(start_time(&delayed, 4), Some(2100));
}
