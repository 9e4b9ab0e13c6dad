//! The timed sequence that puts the microcontroller into boot mode, keeps it
//! there while a recipe runs, and takes it out again.
//!
//! A sequence is a list of [`Step`]s: a line is driven low or released, or
//! time passes. Three sequences make up a run. The entry sequence holds the
//! boot line low and pulses the reset line. The delayed reset, where one is
//! asked for, waits, releases the boot line and pulses the reset line once
//! more; it runs beside the recipe. The exit sequence follows when both are
//! done: it releases the boot line and pulses the reset line a last time.

use vstd::prelude::*;

use crate::pin::OpenDrainState;

verus! {

/// How long the boot line is given to settle before the reset line moves, in
/// milliseconds.
pub const BOOT_SETTLE_MILLIS: u64 = 20;

/// How long the reset line is held low, and how long the microcontroller is
/// given to come up after it, in milliseconds.
pub const RESET_PULSE_MILLIS: u64 = 100;

/// How long a delayed reset waits where no delay is named, in milliseconds.
pub const DEFAULT_RESET_DELAY_MILLIS: u64 = 2000;

/// One of the two lines to the microcontroller.
#[derive(Clone, Copy, Debug, PartialEq, Eq, Structural)]
pub enum Line {
    /// The boot-select line: held low, the microcontroller starts in boot
    /// mode.
    Boot,
    /// The reset line: held low, the microcontroller is in reset.
    Reset,
}

/// One step of a sequence.
#[derive(Clone, Copy, Debug, PartialEq, Eq, Structural)]
pub enum Step {
    /// Bring a line into a state.
    Switch(Line, OpenDrainState),
    /// Let this many milliseconds pass.
    Wait(u64),
}

/// The entry sequence.
pub open spec fn entry_steps() -> Seq<Step> {
    seq![
        Step::Switch(Line::Boot, OpenDrainState::Low),
        Step::Wait(BOOT_SETTLE_MILLIS),
        Step::Switch(Line::Reset, OpenDrainState::Low),
        Step::Wait(RESET_PULSE_MILLIS),
        Step::Switch(Line::Reset, OpenDrainState::Open),
        Step::Wait(RESET_PULSE_MILLIS),
    ]
}

/// The delayed reset after `delay` milliseconds; nothing at all where none is
/// asked for.
pub open spec fn delayed_reset_steps(delay: Option<u64>) -> Seq<Step> {
    match delay {
        None => Seq::empty(),
        Some(millis) => seq![
            Step::Wait(millis),
            Step::Switch(Line::Boot, OpenDrainState::Open),
            Step::Switch(Line::Reset, OpenDrainState::Low),
            Step::Wait(RESET_PULSE_MILLIS),
            Step::Switch(Line::Reset, OpenDrainState::Open),
            Step::Wait(RESET_PULSE_MILLIS),
        ],
    }
}

/// The exit sequence.
pub open spec fn exit_steps() -> Seq<Step> {
    seq![
        Step::Switch(Line::Boot, OpenDrainState::Open),
        Step::Wait(BOOT_SETTLE_MILLIS),
        Step::Switch(Line::Reset, OpenDrainState::Low),
        Step::Wait(RESET_PULSE_MILLIS),
        Step::Switch(Line::Reset, OpenDrainState::Open),
    ]
}

/// All steps of a run in the order in which they are taken: the entry
/// sequence, the delayed reset, the exit sequence.
pub open spec fn run_steps(delay: Option<u64>) -> Seq<Step> {
    entry_steps() + delayed_reset_steps(delay) + exit_steps()
}

/// The time that a sequence takes, in milliseconds: the sum of its waits.
/// What runs beside the sequence, such as the recipe, is not counted.
pub open spec fn elapsed(steps: Seq<Step>) -> nat
    decreases steps.len(),
{
    if steps.len() == 0 {
        0
    } else {
        elapsed(steps.drop_last()) + match steps.last() {
            Step::Wait(millis) => millis as nat,
            Step::Switch(_, _) => 0,
        }
    }
}

/// The state of a line after a sequence, given the state it started in: the
/// state that the sequence set it to last.
pub open spec fn state_after(steps: Seq<Step>, line: Line, start: OpenDrainState) -> OpenDrainState
    decreases steps.len(),
{
    if steps.len() == 0 {
        start
    } else {
        match steps.last() {
            Step::Switch(l, state) if l == line => state,
            _ => state_after(steps.drop_last(), line, start),
        }
    }
}

/// How many pulses a sequence sends on a line, given the state that the line
/// started in. A pulse is complete when the line is released after it was
/// low.
pub open spec fn pulses(steps: Seq<Step>, line: Line, start: OpenDrainState) -> nat
    decreases steps.len(),
{
    if steps.len() == 0 {
        0
    } else {
        let before = steps.drop_last();
        let completes = steps.last() == Step::Switch(line, OpenDrainState::Open) && state_after(
            before,
            line,
            start,
        ) == OpenDrainState::Low;
        pulses(before, line, start) + if completes {
            1nat
        } else {
            0nat
        }
    }
}

/// The entry sequence.
pub fn entry_sequence() -> (steps: Vec<Step>)
    ensures
        steps@ == entry_steps(),
{
    let steps = vec![
        Step::Switch(Line::Boot, OpenDrainState::Low),
        Step::Wait(BOOT_SETTLE_MILLIS),
        Step::Switch(Line::Reset, OpenDrainState::Low),
        Step::Wait(RESET_PULSE_MILLIS),
        Step::Switch(Line::Reset, OpenDrainState::Open),
        Step::Wait(RESET_PULSE_MILLIS),
    ];
    assert(steps@ =~= entry_steps());
    steps
}

/// The delayed reset after `delay` milliseconds; no step at all where none is
/// asked for.
pub fn delayed_reset_sequence(delay: Option<u64>) -> (steps: Vec<Step>)
    ensures
        steps@ == delayed_reset_steps(delay),
{
    match delay {
        None => {
            let steps: Vec<Step> = Vec::new();
            assert(steps@ =~= delayed_reset_steps(delay));
            steps
        },
        Some(millis) => {
            let steps = vec![
                Step::Wait(millis),
                Step::Switch(Line::Boot, OpenDrainState::Open),
                Step::Switch(Line::Reset, OpenDrainState::Low),
                Step::Wait(RESET_PULSE_MILLIS),
                Step::Switch(Line::Reset, OpenDrainState::Open),
                Step::Wait(RESET_PULSE_MILLIS),
            ];
            assert(steps@ =~= delayed_reset_steps(delay));
            steps
        },
    }
}

/// The exit sequence.
pub fn exit_sequence() -> (steps: Vec<Step>)
    ensures
        steps@ == exit_steps(),
{
    let steps = vec![
        Step::Switch(Line::Boot, OpenDrainState::Open),
        Step::Wait(BOOT_SETTLE_MILLIS),
        Step::Switch(Line::Reset, OpenDrainState::Low),
        Step::Wait(RESET_PULSE_MILLIS),
        Step::Switch(Line::Reset, OpenDrainState::Open),
    ];
    assert(steps@ =~= exit_steps());
    steps
}

/// All steps of a run in the order in which they are taken: the entry
/// sequence, the delayed reset after `delay` milliseconds if one is asked
/// for, and the exit sequence.
pub fn run_sequence(delay: Option<u64>) -> (steps: Vec<Step>)
    ensures
        steps@ == run_steps(delay),
{
    let mut steps = entry_sequence();
    let mut delayed = delayed_reset_sequence(delay);
    let mut exit = exit_sequence();
    steps.append(&mut delayed);
    steps.append(&mut exit);
    steps
}

/// How many pulses a sequence sends on a line that starts in state `start`.
pub fn pulse_count(steps: &Vec<Step>, line: Line, start: OpenDrainState) -> (count: usize)
    ensures
        count == pulses(steps@, line, start),
{
    let mut count: usize = 0;
    let mut state = start;
    let mut i: usize = 0;
    assert(steps@.take(0) =~= Seq::<Step>::empty());
    while i < steps.len()
        invariant
            i <= steps.len(),
            count <= i,
            count == pulses(steps@.take(i as int), line, start),
            state == state_after(steps@.take(i as int), line, start),
        decreases steps.len() - i,
    {
        proof {
            let next = steps@.take(i + 1);
            assert(next.drop_last() =~= steps@.take(i as int));
            assert(next.last() == steps@[i as int]);
        }
        match steps[i] {
            Step::Switch(switched, next) => {
                if switched == line {
                    if next == OpenDrainState::Open && state == OpenDrainState::Low {
                        count = count + 1;
                    }
                    state = next;
                }
            },
            Step::Wait(_) => {},
        }
        i = i + 1;
    }
    assert(steps@.take(i as int) =~= steps@);
    count
}

/// The time at which step `index` of a sequence begins, in milliseconds from
/// the start of the sequence: the time that the steps before it take. An
/// `index` equal to the length asks for the time that the whole sequence
/// takes. `None` where the sequence has no such step, or the time does not
/// fit.
pub fn start_time(steps: &Vec<Step>, index: usize) -> (time: Option<u64>)
    ensures
        time is Some <==> index <= steps.len() && elapsed(steps@.take(index as int)) <= u64::MAX,
        time matches Some(millis) ==> millis == elapsed(steps@.take(index as int)),
{
    if index > steps.len() {
        return None;
    }
    let mut total: u64 = 0;
    let mut i: usize = 0;
    assert(steps@.take(0) =~= Seq::<Step>::empty());
    while i < index
        invariant
            i <= index <= steps.len(),
            total == elapsed(steps@.take(i as int)),
        decreases index - i,
    {
        proof {
            let next = steps@.take(i + 1);
            assert(next.drop_last() =~= steps@.take(i as int));
            assert(next.last() == steps@[i as int]);
            lemma_elapsed_grows(steps@.take(index as int), i + 1);
            assert(steps@.take(index as int).take(i + 1) =~= next);
        }
        match steps[i] {
            Step::Wait(millis) => {
                match total.checked_add(millis) {
                    Some(sum) => {
                        total = sum;
                    },
                    None => {
                        return None;
                    },
                }
            },
            Step::Switch(_, _) => {},
        }
        i = i + 1;
    }
    Some(total)
}

/// Time only moves forward: a part of a sequence, from its start, takes no
/// longer than the whole.
pub proof fn lemma_elapsed_grows(steps: Seq<Step>, done: int)
    requires
        0 <= done <= steps.len(),
    ensures
        elapsed(steps.take(done)) <= elapsed(steps),
    decreases steps.len(),
{
    if done == steps.len() {
        assert(steps.take(done) =~= steps);
    } else {
        lemma_elapsed_grows(steps.drop_last(), done);
        assert(steps.drop_last().take(done) =~= steps.take(done));
    }
}

/// Two sequences taken one after the other take the sum of their times.
pub proof fn lemma_elapsed_concat(first: Seq<Step>, second: Seq<Step>)
    ensures
        elapsed(first + second) == elapsed(first) + elapsed(second),
    decreases second.len(),
{
    if second.len() == 0 {
        assert(first + second =~= first);
    } else {
        lemma_elapsed_concat(first, second.drop_last());
        assert((first + second).drop_last() =~= first + second.drop_last());
        assert((first + second).last() == second.last());
    }
}

/// Of two sequences taken one after the other, the second finds each line as
/// the first left it, and the pulses of both add up.
pub proof fn lemma_pulses_concat(
    first: Seq<Step>,
    second: Seq<Step>,
    line: Line,
    start: OpenDrainState,
)
    ensures
        state_after(first + second, line, start) == state_after(
            second,
            line,
            state_after(first, line, start),
        ),
        pulses(first + second, line, start) == pulses(first, line, start) + pulses(
            second,
            line,
            state_after(first, line, start),
        ),
    decreases second.len(),
{
    if second.len() == 0 {
        assert(first + second =~= first);
    } else {
        lemma_pulses_concat(first, second.drop_last(), line, start);
        assert((first + second).drop_last() =~= first + second.drop_last());
        assert((first + second).last() == second.last());
    }
}

/// What the entry sequence does, whatever state the lines are in before it:
/// it takes 220 ms, leaves the boot line low and the reset line released,
/// and pulses the reset line once and the boot line not at all.
pub proof fn lemma_entry_sequence(start: OpenDrainState)
    ensures
        elapsed(entry_steps()) == 220,
        state_after(entry_steps(), Line::Boot, start) == OpenDrainState::Low,
        state_after(entry_steps(), Line::Reset, start) == OpenDrainState::Open,
        pulses(entry_steps(), Line::Reset, start) == 1,
        pulses(entry_steps(), Line::Boot, start) == 0,
{
    reveal_with_fuel(elapsed, 7);
    reveal_with_fuel(state_after, 7);
    reveal_with_fuel(pulses, 7);
}

/// What a delayed reset does, whatever state the lines are in before it: it
/// takes its delay and 200 ms more, leaves both lines released, and pulses
/// the reset line once and the boot line at most once.
pub proof fn lemma_delayed_reset_sequence(delay: u64, start: OpenDrainState)
    ensures
        elapsed(delayed_reset_steps(Some(delay))) == delay + 200,
        state_after(delayed_reset_steps(Some(delay)), Line::Boot, start) == OpenDrainState::Open,
        state_after(delayed_reset_steps(Some(delay)), Line::Reset, start) == OpenDrainState::Open,
        pulses(delayed_reset_steps(Some(delay)), Line::Reset, start) == 1,
        pulses(delayed_reset_steps(Some(delay)), Line::Boot, start) == if start
            == OpenDrainState::Low {
            1nat
        } else {
            0nat
        },
{
    reveal_with_fuel(elapsed, 7);
    reveal_with_fuel(state_after, 7);
    reveal_with_fuel(pulses, 7);
}

/// What the exit sequence does, whatever state the lines are in before it:
/// it takes 120 ms, leaves both lines released, and pulses the reset line
/// once and the boot line at most once.
pub proof fn lemma_exit_sequence(start: OpenDrainState)
    ensures
        elapsed(exit_steps()) == 120,
        state_after(exit_steps(), Line::Boot, start) == OpenDrainState::Open,
        state_after(exit_steps(), Line::Reset, start) == OpenDrainState::Open,
        pulses(exit_steps(), Line::Reset, start) == 1,
        pulses(exit_steps(), Line::Boot, start) == if start == OpenDrainState::Low {
            1nat
        } else {
            0nat
        },
{
    reveal_with_fuel(elapsed, 6);
    reveal_with_fuel(state_after, 6);
    reveal_with_fuel(pulses, 6);
}

/// The schedule of the entry sequence. Whatever delayed reset is asked for, a
/// run begins with the entry sequence: the boot line goes low at once, the
/// reset line goes low 20 ms after the start and is released 120 ms after the
/// start.
pub proof fn lemma_entry_timing(delay: Option<u64>)
    ensures
        run_steps(delay).take(entry_steps().len() as int) == entry_steps(),
        run_steps(delay)[0] == Step::Switch(Line::Boot, OpenDrainState::Low),
        elapsed(run_steps(delay).take(0)) == 0,
        run_steps(delay)[2] == Step::Switch(Line::Reset, OpenDrainState::Low),
        elapsed(run_steps(delay).take(2)) == 20,
        run_steps(delay)[4] == Step::Switch(Line::Reset, OpenDrainState::Open),
        elapsed(run_steps(delay).take(4)) == 120,
{
    let run = run_steps(delay);
    assert(run.take(6) =~= entry_steps());
    assert(run.take(0) =~= entry_steps().take(0));
    assert(run.take(2) =~= entry_steps().take(2));
    assert(run.take(4) =~= entry_steps().take(4));
    reveal_with_fuel(elapsed, 7);
}

/// A delayed reset adds exactly one pulse on the reset line to a run, and
/// the pulse lies between the entry and the exit sequence.
///
/// With a delayed reset after `delay` milliseconds, the run is the entry
/// sequence, the delayed reset and the exit sequence in this order. The reset
/// line goes low `delay` milliseconds after the entry sequence is over and is
/// released 100 ms later, and only after that does the exit sequence begin.
/// The reset line is pulsed three times in all; without a delayed reset, twice.
pub proof fn lemma_delayed_reset_adds_one_pulse(delay: u64, start: OpenDrainState)
    ensures
        pulses(run_steps(Some(delay)), Line::Reset, start) == pulses(
            run_steps(None),
            Line::Reset,
            start,
        ) + 1,
        pulses(run_steps(None), Line::Reset, start) == 2,
        run_steps(Some(delay)).take(6) == entry_steps(),
        run_steps(Some(delay)).subrange(6, 12) == delayed_reset_steps(Some(delay)),
        run_steps(Some(delay)).skip(12) == exit_steps(),
        run_steps(Some(delay))[8] == Step::Switch(Line::Reset, OpenDrainState::Low),
        elapsed(run_steps(Some(delay)).take(8)) == elapsed(entry_steps()) + delay,
        run_steps(Some(delay))[10] == Step::Switch(Line::Reset, OpenDrainState::Open),
        elapsed(run_steps(Some(delay)).take(10)) == elapsed(entry_steps()) + delay + 100,
        elapsed(run_steps(Some(delay)).take(12)) == elapsed(entry_steps()) + delay + 200,
{
    let entry = entry_steps();
    let delayed = delayed_reset_steps(Some(delay));
    let exit = exit_steps();
    let with = run_steps(Some(delay));
    let without = run_steps(None);
    assert(without =~= entry + exit);
    assert(with.take(6) =~= entry);
    assert(with.subrange(6, 12) =~= delayed);
    assert(with.skip(12) =~= exit);

    lemma_entry_sequence(start);
    lemma_delayed_reset_sequence(delay, OpenDrainState::Open);
    lemma_exit_sequence(OpenDrainState::Open);
    lemma_pulses_concat(entry, exit, Line::Reset, start);
    lemma_pulses_concat(entry, delayed, Line::Reset, start);
    lemma_pulses_concat(entry + delayed, exit, Line::Reset, start);

    assert(with.take(8) =~= entry + delayed.take(2));
    assert(with.take(10) =~= entry + delayed.take(4));
    assert(with.take(12) =~= entry + delayed);
    lemma_elapsed_concat(entry, delayed.take(2));
    lemma_elapsed_concat(entry, delayed.take(4));
    lemma_elapsed_concat(entry, delayed);
    reveal_with_fuel(elapsed, 7);
}

} // verus!
