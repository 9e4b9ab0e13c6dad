//! The two lines to the microcontroller, taken through a sequence.
//!
//! A [`Sequencer`] holds the boot line and the reset line as open-drain pins.
//! It turns [`Step`]s into [`Action`]s, the register writes and pauses that
//! are to be carried out in order, and keeps track of what the lines hold. It
//! does not wait and does not touch the hardware itself.

use vstd::prelude::*;

use crate::config::Configuration;
use crate::pin::{
    lemma_created, lemma_ops_settle, lemma_set_never_drives_high, lemma_set_reaches_state,
    OpenDrainPin, OpenDrainState, PinDropState, PinOp, PinState,
};
use crate::sequence::{entry_steps, exit_steps, state_after, Line, Step};

verus! {

/// One thing to carry out.
#[derive(Clone, Copy, Debug, PartialEq, Eq, Structural)]
pub enum Action {
    /// Write a register of a line.
    Write(Line, PinOp),
    /// Pause for this many milliseconds.
    Sleep(u64),
}

/// The boot line and the reset line.
#[derive(Debug)]
pub struct Sequencer {
    pub boot: OpenDrainPin,
    pub reset: OpenDrainPin,
}

/// Register writes as actions on a line, in the same order.
pub open spec fn writes(line: Line, ops: Seq<PinOp>) -> Seq<Action> {
    Seq::new(ops.len(), |i: int| Action::Write(line, ops[i]))
}

/// The actions of one step: the register writes that bring the line into the
/// state, or one pause.
pub open spec fn step_actions(step: Step) -> Seq<Action> {
    match step {
        Step::Switch(line, state) => writes(line, state.ops()),
        Step::Wait(millis) => seq![Action::Sleep(millis)],
    }
}

/// The actions of a sequence: those of its steps, in order.
pub open spec fn sequence_actions(steps: Seq<Step>) -> Seq<Action>
    decreases steps.len(),
{
    if steps.len() == 0 {
        Seq::empty()
    } else {
        sequence_actions(steps.drop_last()) + step_actions(steps.last())
    }
}

/// What the registers of a line hold after a list of actions is carried out,
/// given what they held before. Only the writes on that line count.
pub open spec fn line_after(actions: Seq<Action>, line: Line, start: PinState) -> PinState
    decreases actions.len(),
{
    if actions.len() == 0 {
        start
    } else {
        let before = line_after(actions.drop_last(), line, start);
        match actions.last() {
            Action::Write(l, op) if l == line => before.after(op),
            _ => before,
        }
    }
}

impl Sequencer {
    /// The pin of a line.
    pub open spec fn pin(&self, line: Line) -> OpenDrainPin {
        match line {
            Line::Boot => self.boot,
            Line::Reset => self.reset,
        }
    }

    /// The sequencer that `new` creates: both lines are taken over and
    /// released.
    pub open spec fn created(
        boot: PinState,
        boot_policy: PinDropState,
        reset: PinState,
        reset_policy: PinDropState,
    ) -> Sequencer {
        Sequencer {
            boot: OpenDrainPin::created(boot, OpenDrainState::Open, boot_policy),
            reset: OpenDrainPin::created(reset, OpenDrainState::Open, reset_policy),
        }
    }

    /// The sequencer after one step. A wait changes nothing; a switch changes
    /// the one line it names.
    pub open spec fn after_step(&self, step: Step) -> Sequencer {
        match step {
            Step::Switch(Line::Boot, state) => Sequencer {
                boot: self.boot.switched(state),
                reset: self.reset,
            },
            Step::Switch(Line::Reset, state) => Sequencer {
                boot: self.boot,
                reset: self.reset.switched(state),
            },
            Step::Wait(_) => *self,
        }
    }

    /// The sequencer after a sequence.
    pub open spec fn after_steps(&self, steps: Seq<Step>) -> Sequencer
        decreases steps.len(),
    {
        if steps.len() == 0 {
            *self
        } else {
            self.after_steps(steps.drop_last()).after_step(steps.last())
        }
    }

    /// The actions of a release: the reset line is given up first, then the
    /// boot line, each as its own policy asks.
    pub open spec fn release_actions(&self) -> Seq<Action> {
        writes(Line::Reset, self.reset.final_state().release_ops(self.reset.initial_state()))
            + writes(Line::Boot, self.boot.final_state().release_ops(self.boot.initial_state()))
    }

    /// Takes over both lines, the boot line first, and releases both at
    /// once.
    ///
    /// `boot` and `reset` are what the lines hold on being taken over; the
    /// policies say what they are left with in the end. The actions to carry
    /// out are returned with the sequencer.
    pub fn new(
        boot: PinState,
        boot_policy: PinDropState,
        reset: PinState,
        reset_policy: PinDropState,
    ) -> (created: (Sequencer, Vec<Action>))
        ensures
            created.0 == Sequencer::created(boot, boot_policy, reset, reset_policy),
            created.1@ == writes(Line::Boot, OpenDrainState::Open.ops()) + writes(
                Line::Reset,
                OpenDrainState::Open.ops(),
            ),
            created.0.boot.state() == OpenDrainState::Open,
            created.0.reset.state() == OpenDrainState::Open,
            created.0.boot.is_settled(),
            created.0.reset.is_settled(),
    {
        let (boot_pin, boot_ops) = OpenDrainPin::new(boot, OpenDrainState::Open, boot_policy);
        let (reset_pin, reset_ops) = OpenDrainPin::new(reset, OpenDrainState::Open, reset_policy);
        let mut actions = writes_on(Line::Boot, &boot_ops);
        let mut rest = writes_on(Line::Reset, &reset_ops);
        actions.append(&mut rest);
        (Sequencer { boot: boot_pin, reset: reset_pin }, actions)
    }

    /// Takes over the two lines of a configuration, each with the policy
    /// that the configuration gives it, and releases both at once.
    ///
    /// `boot` and `reset` are what the lines hold on being taken over.
    pub fn for_configuration(config: &Configuration, boot: PinState, reset: PinState) -> (created:
        (Sequencer, Vec<Action>))
        ensures
            created.0 == Sequencer::created(
                boot,
                config.boot().state,
                reset,
                config.reset().state,
            ),
            created.1@ == writes(Line::Boot, OpenDrainState::Open.ops()) + writes(
                Line::Reset,
                OpenDrainState::Open.ops(),
            ),
            created.0.boot.state() == OpenDrainState::Open,
            created.0.reset.state() == OpenDrainState::Open,
            created.0.boot.is_settled(),
            created.0.reset.is_settled(),
    {
        Sequencer::new(boot, config.boot().state, reset, config.reset().state)
    }

    /// Takes one step, and returns the actions to carry out.
    pub fn step(&mut self, step: Step) -> (actions: Vec<Action>)
        ensures
            *final(self) == old(self).after_step(step),
            actions@ == step_actions(step),
    {
        match step {
            Step::Switch(Line::Boot, state) => {
                let ops = self.boot.set(state);
                writes_on(Line::Boot, &ops)
            },
            Step::Switch(Line::Reset, state) => {
                let ops = self.reset.set(state);
                writes_on(Line::Reset, &ops)
            },
            Step::Wait(millis) => {
                let actions = vec![Action::Sleep(millis)];
                assert(actions@ =~= step_actions(step));
                actions
            },
        }
    }

    /// Takes the steps of a sequence in order, and returns the actions to
    /// carry out.
    pub fn run(&mut self, steps: &Vec<Step>) -> (actions: Vec<Action>)
        ensures
            *final(self) == old(self).after_steps(steps@),
            actions@ == sequence_actions(steps@),
    {
        let mut actions: Vec<Action> = Vec::new();
        let mut i: usize = 0;
        while i < steps.len()
            invariant
                i <= steps.len(),
                *self == old(self).after_steps(steps@.take(i as int)),
                actions@ == sequence_actions(steps@.take(i as int)),
            decreases steps.len() - i,
        {
            proof {
                let next = steps@.take(i + 1);
                assert(next.drop_last() =~= steps@.take(i as int));
                assert(next.last() == steps@[i as int]);
            }
            let mut more = self.step(steps[i]);
            actions.append(&mut more);
            i = i + 1;
        }
        assert(steps@.take(i as int) =~= steps@);
        actions
    }

    /// Gives both lines up, the reset line first, and returns the actions
    /// that leave each as its policy asks.
    pub fn release(self) -> (actions: Vec<Action>)
        ensures
            actions@ == self.release_actions(),
            line_after(actions@, Line::Boot, self.boot.line()) == self.boot.released_line(),
            line_after(actions@, Line::Reset, self.reset.line()) == self.reset.released_line(),
    {
        let ghost boot_line = self.boot.line();
        let ghost reset_line = self.reset.line();
        let Sequencer { boot, reset } = self;
        let reset_ops = reset.release();
        let boot_ops = boot.release();
        let mut actions = writes_on(Line::Reset, &reset_ops);
        let mut rest = writes_on(Line::Boot, &boot_ops);
        actions.append(&mut rest);
        proof {
            let first = writes(Line::Reset, reset_ops@);
            let second = writes(Line::Boot, boot_ops@);
            lemma_line_after_concat(first, second, Line::Boot, boot_line);
            lemma_line_after_concat(first, second, Line::Reset, reset_line);
            lemma_line_after_writes(Line::Reset, reset_ops@, Line::Boot, boot_line);
            lemma_line_after_writes(Line::Reset, reset_ops@, Line::Reset, reset_line);
            lemma_line_after_writes(Line::Boot, boot_ops@, Line::Boot, boot_line);
            lemma_line_after_writes(
                Line::Boot,
                boot_ops@,
                Line::Reset,
                line_after(first, Line::Reset, reset_line),
            );
        }
        actions
    }
}

/// Register writes as actions on a line, in the same order.
pub fn writes_on(line: Line, ops: &Vec<PinOp>) -> (actions: Vec<Action>)
    ensures
        actions@ == writes(line, ops@),
{
    let mut actions: Vec<Action> = Vec::new();
    let mut i: usize = 0;
    while i < ops.len()
        invariant
            i <= ops.len(),
            actions@ == writes(line, ops@.take(i as int)),
        decreases ops.len() - i,
    {
        actions.push(Action::Write(line, ops[i]));
        i = i + 1;
        assert(actions@ =~= writes(line, ops@.take(i as int)));
    }
    assert(ops@.take(i as int) =~= ops@);
    actions
}

/// Carrying out one list of actions and then another is carrying out the two
/// lists joined.
pub proof fn lemma_line_after_concat(
    first: Seq<Action>,
    second: Seq<Action>,
    line: Line,
    start: PinState,
)
    ensures
        line_after(first + second, line, start) == line_after(
            second,
            line,
            line_after(first, line, start),
        ),
    decreases second.len(),
{
    if second.len() == 0 {
        assert(first + second =~= first);
    } else {
        lemma_line_after_concat(first, second.drop_last(), line, start);
        assert((first + second).drop_last() =~= first + second.drop_last());
        assert((first + second).last() == second.last());
    }
}

/// Writes on a line do to that line what the register writes do, and nothing
/// to the other line.
pub proof fn lemma_line_after_writes(written: Line, ops: Seq<PinOp>, line: Line, start: PinState)
    ensures
        line_after(writes(written, ops), line, start) == if written == line {
            start.after_all(ops)
        } else {
            start
        },
    decreases ops.len(),
{
    if ops.len() > 0 {
        lemma_line_after_writes(written, ops.drop_last(), line, start);
        assert(writes(written, ops).drop_last() =~= writes(written, ops.drop_last()));
        assert(writes(written, ops).last() == Action::Write(written, ops.last()));
    }
}

/// The actions of one step do to a line what the step says: a switch of the
/// line brings it into the state, and anything else leaves it as it is.
pub proof fn lemma_step_reaches_line(sequencer: Sequencer, step: Step, line: Line)
    ensures
        line_after(step_actions(step), line, sequencer.pin(line).line()) == sequencer.after_step(
            step,
        ).pin(line).line(),
        sequencer.after_step(step).pin(line).initial_state() == sequencer.pin(
            line,
        ).initial_state(),
        sequencer.after_step(step).pin(line).final_state() == sequencer.pin(line).final_state(),
        sequencer.after_step(step).pin(line).state() == state_after(
            seq![step],
            line,
            sequencer.pin(line).state(),
        ),
        sequencer.pin(line).is_settled() ==> sequencer.after_step(step).pin(line).is_settled(),
{
    let start = sequencer.pin(line).line();
    assert(seq![step].drop_last() =~= Seq::<Step>::empty());
    reveal_with_fuel(state_after, 2);
    match step {
        Step::Switch(written, state) => {
            lemma_line_after_writes(written, state.ops(), line, start);
            lemma_set_reaches_state(sequencer.pin(written), state);
        },
        Step::Wait(millis) => {
            let actions = step_actions(step);
            assert(actions.drop_last() =~= Seq::<Action>::empty());
            reveal_with_fuel(line_after, 2);
        },
    }
}

/// The sequencer keeps track of the lines: the actions of a sequence, carried
/// out on the registers, leave each line holding what the sequencer records
/// for it, in the state that the sequence switched it to last. What was
/// captured of a line and what it is left with on release do not change, and
/// a line that was fully in its state before is fully in its state after.
pub proof fn lemma_run_reaches_lines(sequencer: Sequencer, steps: Seq<Step>, line: Line)
    ensures
        line_after(sequence_actions(steps), line, sequencer.pin(line).line())
            == sequencer.after_steps(steps).pin(line).line(),
        sequencer.after_steps(steps).pin(line).state() == state_after(
            steps,
            line,
            sequencer.pin(line).state(),
        ),
        sequencer.after_steps(steps).pin(line).initial_state() == sequencer.pin(
            line,
        ).initial_state(),
        sequencer.after_steps(steps).pin(line).final_state() == sequencer.pin(line).final_state(),
        sequencer.pin(line).is_settled() ==> sequencer.after_steps(steps).pin(line).is_settled(),
    decreases steps.len(),
{
    if steps.len() > 0 {
        let before = steps.drop_last();
        let step = steps.last();
        let middle = sequencer.after_steps(before);
        lemma_run_reaches_lines(sequencer, before, line);
        lemma_step_reaches_line(middle, step, line);
        lemma_line_after_concat(
            sequence_actions(before),
            step_actions(step),
            line,
            sequencer.pin(line).line(),
        );
        assert(seq![step].drop_last() =~= Seq::<Step>::empty());
        reveal_with_fuel(state_after, 2);
    }
}

/// No sequence ever drives a line high. If a line is not driven high before a
/// sequence, it is not driven high after any of the sequence's actions: not
/// at the end, and at no moment on the way.
pub proof fn lemma_run_never_drives_high(
    steps: Seq<Step>,
    line: Line,
    start: PinState,
    done: int,
)
    requires
        !start.drives_high(),
        0 <= done <= sequence_actions(steps).len(),
    ensures
        !line_after(sequence_actions(steps).take(done), line, start).drives_high(),
    decreases steps.len(),
{
    if steps.len() == 0 {
        assert(sequence_actions(steps).take(done) =~= Seq::<Action>::empty());
    } else {
        let before = sequence_actions(steps.drop_last());
        let step = steps.last();
        let last = step_actions(step);
        if done <= before.len() {
            assert((before + last).take(done) =~= before.take(done));
            lemma_run_never_drives_high(steps.drop_last(), line, start, done);
        } else {
            let more = done - before.len();
            let middle = line_after(before, line, start);
            assert(before.take(before.len() as int) =~= before);
            lemma_run_never_drives_high(steps.drop_last(), line, start, before.len() as int);
            assert((before + last).take(done) =~= before + last.take(more));
            lemma_line_after_concat(before, last.take(more), line, start);
            match step {
                Step::Switch(written, state) => {
                    assert(last.take(more) =~= writes(written, state.ops().take(more)));
                    lemma_line_after_writes(written, state.ops().take(more), line, middle);
                    lemma_set_never_drives_high(middle, state, more);
                },
                Step::Wait(millis) => {
                    assert(last.take(more) =~= last);
                    assert(last.drop_last() =~= Seq::<Action>::empty());
                    reveal_with_fuel(line_after, 2);
                },
            }
        }
    }
}

/// From the moment a line is taken over, in either state, it is never driven
/// high: not after any of the register writes of the creation, whatever the
/// line held before, and not after any action of any sequence that follows.
pub proof fn lemma_never_driven_high(
    taken: PinState,
    state: OpenDrainState,
    policy: PinDropState,
    written: int,
    steps: Seq<Step>,
    line: Line,
    done: int,
)
    requires
        1 <= written <= state.ops().len(),
        0 <= done <= sequence_actions(steps).len(),
    ensures
        !taken.after_all(state.ops().take(written)).drives_high(),
        !line_after(
            sequence_actions(steps).take(done),
            line,
            OpenDrainPin::created(taken, state, policy).line(),
        ).drives_high(),
{
    lemma_set_never_drives_high(taken, state, written);
    lemma_created(taken, state, policy);
    lemma_run_never_drives_high(
        steps,
        line,
        OpenDrainPin::created(taken, state, policy).line(),
        done,
    );
}

/// Whatever sequence a line is taken through between being taken over and
/// being given up, the release goes by what was captured when it was taken
/// over and by its policy alone. With a policy that names nothing, the line
/// is left in the mode and at the level that it had on being taken over.
pub proof fn lemma_run_then_release(
    taken: PinState,
    policy: PinDropState,
    other: OpenDrainPin,
    steps: Seq<Step>,
    line: Line,
)
    ensures
        ({
            let pin = OpenDrainPin::created(taken, OpenDrainState::Open, policy);
            let sequencer = match line {
                Line::Boot => Sequencer { boot: pin, reset: other },
                Line::Reset => Sequencer { boot: other, reset: pin },
            };
            let released = sequencer.after_steps(steps).pin(line).released_line();
            &&& released.mode == policy.target_mode(taken)
            &&& released.level == policy.target_level(taken)
            &&& policy == PinDropState::unset() ==> released.mode == taken.mode && released.level
                == taken.level
        }),
{
    let pin = OpenDrainPin::created(taken, OpenDrainState::Open, policy);
    let sequencer = match line {
        Line::Boot => Sequencer { boot: pin, reset: other },
        Line::Reset => Sequencer { boot: other, reset: pin },
    };
    lemma_created(taken, OpenDrainState::Open, policy);
    lemma_run_reaches_lines(sequencer, steps, line);
}

/// After the entry sequence the microcontroller is held in boot mode: the
/// boot line is driven low and the reset line is released, whatever state the
/// lines were in before. After the exit sequence both lines are released.
pub proof fn lemma_boot_mode(sequencer: Sequencer)
    ensures
        sequencer.after_steps(entry_steps()).boot.state() == OpenDrainState::Low,
        sequencer.after_steps(entry_steps()).reset.state() == OpenDrainState::Open,
        sequencer.after_steps(entry_steps()).boot.is_settled(),
        sequencer.after_steps(entry_steps()).reset.is_settled(),
        sequencer.after_steps(exit_steps()).boot.state() == OpenDrainState::Open,
        sequencer.after_steps(exit_steps()).reset.state() == OpenDrainState::Open,
        sequencer.after_steps(exit_steps()).boot.is_settled(),
        sequencer.after_steps(exit_steps()).reset.is_settled(),
{
    lemma_switched_line_is_settled(sequencer, entry_steps(), Line::Boot, 0);
    lemma_switched_line_is_settled(sequencer, entry_steps(), Line::Reset, 4);
    lemma_switched_line_is_settled(sequencer, exit_steps(), Line::Boot, 0);
    lemma_switched_line_is_settled(sequencer, exit_steps(), Line::Reset, 4);
    crate::sequence::lemma_entry_sequence(sequencer.boot.state());
    crate::sequence::lemma_entry_sequence(sequencer.reset.state());
    crate::sequence::lemma_exit_sequence(sequencer.boot.state());
    crate::sequence::lemma_exit_sequence(sequencer.reset.state());
    lemma_run_reaches_lines(sequencer, entry_steps(), Line::Boot);
    lemma_run_reaches_lines(sequencer, entry_steps(), Line::Reset);
    lemma_run_reaches_lines(sequencer, exit_steps(), Line::Boot);
    lemma_run_reaches_lines(sequencer, exit_steps(), Line::Reset);
}

/// A line that a sequence switches is fully in its state after the sequence,
/// whatever it held before.
pub proof fn lemma_switched_line_is_settled(
    sequencer: Sequencer,
    steps: Seq<Step>,
    line: Line,
    at: int,
)
    requires
        0 <= at < steps.len(),
        steps[at] is Switch,
        steps[at]->Switch_0 == line,
    ensures
        sequencer.after_steps(steps).pin(line).is_settled(),
    decreases steps.len(),
{
    let before = steps.drop_last();
    let middle = sequencer.after_steps(before);
    if at == steps.len() - 1 {
        lemma_ops_settle(middle.pin(line).line(), steps[at]->Switch_1);
        lemma_set_reaches_state(middle.pin(line), steps[at]->Switch_1);
    } else {
        lemma_switched_line_is_settled(sequencer, before, line, at);
        lemma_step_reaches_line(middle, steps.last(), line);
    }
}

} // verus!
