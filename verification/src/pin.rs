//! An open-drain line on a controller that has no open-drain mode.
//!
//! The line is either driven low (output mode, level low) or left open (input
//! mode, pulled up); it is never driven high. [`OpenDrainPin`] decides which
//! registers of the line are written and in what order, and keeps a record of
//! what they hold. It does not touch the hardware: every operation returns
//! the register writes as a list of [`PinOp`], to be carried out in order on
//! the line's handle.

use vstd::prelude::*;
use vstd::std_specs::convert::FromSpecImpl;

use crate::level::LogicLevel;
use crate::mode::PinMode;

verus! {

/// The two states of an open-drain line.
#[derive(Clone, Copy, Debug, PartialEq, Eq, Structural)]
pub enum OpenDrainState {
    /// The line is driven low.
    Low,
    /// The line is released, and pulled up.
    Open,
}

/// One write to a register of a line.
#[derive(Clone, Copy, Debug, PartialEq, Eq, Structural)]
pub enum PinOp {
    /// Switch the line to a mode.
    SetMode(PinMode),
    /// Set the output level.
    Write(LogicLevel),
    /// Switch on the pull resistor: a pull-down for `Low`, a pull-up for
    /// `High`.
    SetPull(LogicLevel),
}

/// What the registers of a line hold: its mode, its output level and, as far
/// as it is known, the pull resistor's setting.
#[derive(Clone, Copy, Debug, PartialEq, Eq)]
pub struct PinState {
    pub mode: PinMode,
    pub level: LogicLevel,
    /// `None` where the setting is not known: it cannot be read back.
    pub pull: Option<LogicLevel>,
}

/// What a line is left with when its pin is released. A field that is `None`
/// falls back to what the line held when the pin was created; for the pull
/// resistor, which cannot be read back, that means it is left as it is.
#[derive(Clone, Copy, Debug, PartialEq, Eq)]
pub struct PinDropState {
    pub mode: Option<PinMode>,
    pub level: Option<LogicLevel>,
    pub pull: Option<LogicLevel>,
}

/// A line by its number on the controller, with what it is left with on
/// release.
#[derive(Clone, Copy, Debug, PartialEq, Eq)]
pub struct PinConfig {
    pub pin: u8,
    pub state: PinDropState,
}

impl OpenDrainState {
    /// The mode that realizes the state: output to drive low, input to leave
    /// open.
    pub open spec fn spec_mode(self) -> PinMode {
        match self {
            OpenDrainState::Low => PinMode::Output,
            OpenDrainState::Open => PinMode::Input,
        }
    }

    /// The register writes that bring a line into the state, in order,
    /// whether the line is taken over in the state or switched to it later.
    ///
    /// For `Low` the level is written before the mode is switched, so that the
    /// line is low from the moment it becomes an output, and once more after
    /// it, in case the controller drops a level written to an input.
    pub open spec fn ops(self) -> Seq<PinOp> {
        match self {
            OpenDrainState::Low => seq![
                PinOp::Write(LogicLevel::Low),
                PinOp::SetMode(PinMode::Output),
                PinOp::Write(LogicLevel::Low),
            ],
            OpenDrainState::Open => seq![
                PinOp::SetMode(PinMode::Input),
                PinOp::SetPull(LogicLevel::High),
            ],
        }
    }

    /// What a line holds once it is in the state. Driving low leaves the pull
    /// resistor as it was; releasing leaves the output level as it was.
    pub open spec fn settle(self, line: PinState) -> PinState {
        match self {
            OpenDrainState::Low => PinState {
                mode: PinMode::Output,
                level: LogicLevel::Low,
                pull: line.pull,
            },
            OpenDrainState::Open => PinState {
                mode: PinMode::Input,
                level: line.level,
                pull: Some(LogicLevel::High),
            },
        }
    }

    /// The mode that realizes the state.
    #[verifier::when_used_as_spec(spec_mode)]
    pub fn mode(self) -> (mode: PinMode)
        ensures
            mode == self.spec_mode(),
    {
        match self {
            OpenDrainState::Low => PinMode::Output,
            OpenDrainState::Open => PinMode::Input,
        }
    }

    /// The register writes that bring a line into the state, in order.
    pub fn writes(self) -> (ops: Vec<PinOp>)
        ensures
            ops@ == self.ops(),
    {
        let ops = match self {
            OpenDrainState::Low => vec![
                PinOp::Write(LogicLevel::Low),
                PinOp::SetMode(PinMode::Output),
                PinOp::Write(LogicLevel::Low),
            ],
            OpenDrainState::Open => vec![
                PinOp::SetMode(PinMode::Input),
                PinOp::SetPull(LogicLevel::High),
            ],
        };
        assert(ops@ =~= self.ops());
        ops
    }
}

impl From<OpenDrainState> for rppal::gpio::Mode {
    fn from(value: OpenDrainState) -> (native: Self) {
        match value {
            OpenDrainState::Low => rppal::gpio::Mode::Output,
            OpenDrainState::Open => rppal::gpio::Mode::Input,
        }
    }
}

impl FromSpecImpl<OpenDrainState> for rppal::gpio::Mode {
    open spec fn obeys_from_spec() -> bool {
        true
    }

    open spec fn from_spec(value: OpenDrainState) -> Self {
        value.spec_mode().as_native()
    }
}

impl PinState {
    /// The line after one register write. A write changes the register it
    /// names and no other.
    pub open spec fn after(self, op: PinOp) -> PinState {
        match op {
            PinOp::SetMode(mode) => PinState { mode, ..self },
            PinOp::Write(level) => PinState { level, ..self },
            PinOp::SetPull(pull) => PinState { pull: Some(pull), ..self },
        }
    }

    /// The line after a list of register writes, carried out in order.
    pub open spec fn after_all(self, ops: Seq<PinOp>) -> PinState
        decreases ops.len(),
    {
        if ops.len() == 0 {
            self
        } else {
            self.after_all(ops.drop_last()).after(ops.last())
        }
    }

    /// The line is an output at level high: it is actively driven high, which
    /// an open-drain line never is.
    pub open spec fn drives_high(self) -> bool {
        self.mode == PinMode::Output && self.level == LogicLevel::High
    }

    /// The line is fully in the given open-drain state: an output at level
    /// low for `Low`, an input with the pull-up on for `Open`.
    pub open spec fn realizes(self, state: OpenDrainState) -> bool {
        match state {
            OpenDrainState::Low => self.mode == PinMode::Output && self.level == LogicLevel::Low,
            OpenDrainState::Open => self.mode == PinMode::Input && self.pull == Some(
                LogicLevel::High,
            ),
        }
    }

    /// What can be read back of the line: its mode and level. The pull
    /// resistor's setting is lost.
    pub open spec fn capture(self) -> PinState {
        PinState { mode: self.mode, level: self.level, pull: None }
    }

    /// Carries out one register write on the record.
    pub fn apply(&mut self, op: PinOp)
        ensures
            *final(self) == old(self).after(op),
    {
        match op {
            PinOp::SetMode(mode) => {
                self.mode = mode;
            },
            PinOp::Write(level) => {
                self.level = level;
            },
            PinOp::SetPull(pull) => {
                self.pull = Some(pull);
            },
        }
    }

    /// Carries out a list of register writes on the record, in order.
    pub fn apply_all(&mut self, ops: &Vec<PinOp>)
        ensures
            *final(self) == old(self).after_all(ops@),
    {
        let mut i: usize = 0;
        while i < ops.len()
            invariant
                i <= ops.len(),
                *self == old(self).after_all(ops@.take(i as int)),
            decreases ops.len() - i,
        {
            proof {
                let next = ops@.take(i + 1);
                assert(next.drop_last() =~= ops@.take(i as int));
                assert(next.last() == ops@[i as int]);
            }
            self.apply(ops[i]);
            i = i + 1;
        }
        assert(ops@.take(i as int) =~= ops@);
    }
}

impl PinDropState {
    /// The policy that asks for nothing: mode and level go back to what was
    /// captured.
    pub open spec fn unset() -> PinDropState {
        PinDropState { mode: None, level: None, pull: None }
    }

    /// The mode that the line is left in.
    pub open spec fn target_mode(self, initial: PinState) -> PinMode {
        match self.mode {
            Some(mode) => mode,
            None => initial.mode,
        }
    }

    /// The output level that the line is left with.
    pub open spec fn target_level(self, initial: PinState) -> LogicLevel {
        match self.level {
            Some(level) => level,
            None => initial.level,
        }
    }

    /// The register writes on release, in order: the mode first, since a
    /// level written to an input has no effect on the line; then the level;
    /// then the pull resistor, if the policy names one.
    pub open spec fn release_ops(self, initial: PinState) -> Seq<PinOp> {
        let settled = seq![
            PinOp::SetMode(self.target_mode(initial)),
            PinOp::Write(self.target_level(initial)),
        ];
        match self.pull {
            Some(pull) => settled.push(PinOp::SetPull(pull)),
            None => settled,
        }
    }

    /// What a line holds after release, given what was captured of it and
    /// what it held just before.
    pub open spec fn released(self, initial: PinState, line: PinState) -> PinState {
        PinState {
            mode: self.target_mode(initial),
            level: self.target_level(initial),
            pull: match self.pull {
                Some(pull) => Some(pull),
                None => line.pull,
            },
        }
    }
}

impl Default for PinDropState {
    fn default() -> (policy: Self)
        ensures
            policy == PinDropState::unset(),
    {
        PinDropState { mode: None, level: None, pull: None }
    }
}

/// One open-drain line: which of its two states it is in, what its registers
/// hold, what they held when the pin was created, and what they are left with
/// when it is released.
///
/// A pin is created in a state and is in one of the two states ever after:
/// no operation leaves the line half configured. This is the type's
/// invariant, so it holds of every pin there is.
#[derive(Debug)]
pub struct OpenDrainPin {
    line: PinState,
    state: OpenDrainState,
    initial_state: PinState,
    final_state: PinDropState,
}

impl OpenDrainPin {
    #[verifier::type_invariant]
    spec fn settled(&self) -> bool {
        self.line.realizes(self.state)
    }

    /// What the registers of the line hold.
    pub closed spec fn spec_line(&self) -> PinState {
        self.line
    }

    /// The state that the line is in.
    pub closed spec fn spec_state(&self) -> OpenDrainState {
        self.state
    }

    /// What was captured of the line when the pin was created.
    pub closed spec fn spec_initial_state(&self) -> PinState {
        self.initial_state
    }

    /// What the line is left with when the pin is released.
    pub closed spec fn spec_final_state(&self) -> PinDropState {
        self.final_state
    }

    /// The line is fully in the state that the pin is in. This holds of
    /// every pin.
    pub open spec fn is_settled(&self) -> bool {
        self.spec_line().realizes(self.spec_state())
    }

    /// The pin that `new` creates: the line is in the given state, its mode
    /// and level are captured, and the pull resistor's setting is recorded as
    /// unknown.
    pub closed spec fn created(
        pin: PinState,
        state: OpenDrainState,
        final_state: PinDropState,
    ) -> OpenDrainPin {
        OpenDrainPin { line: state.settle(pin), state, initial_state: pin.capture(), final_state }
    }

    /// The pin after `set`: the line is in the given state, and the rest is
    /// as it was.
    pub closed spec fn switched(&self, state: OpenDrainState) -> OpenDrainPin {
        OpenDrainPin {
            line: state.settle(self.line),
            state,
            initial_state: self.initial_state,
            final_state: self.final_state,
        }
    }

    /// What the line holds after the pin is released.
    pub open spec fn released_line(&self) -> PinState {
        self.spec_final_state().released(self.spec_initial_state(), self.spec_line())
    }

    /// Takes over a line and brings it into `state` at once, by the same
    /// register writes as `set`.
    ///
    /// `pin` is what the line holds on being taken over. Its mode and level
    /// are captured for the release; its pull resistor setting cannot be read
    /// back and is recorded as unknown. The register writes to carry out are
    /// returned with the pin. The line's handle is to be taken over in the
    /// mode that the line is in, so that taking it over writes nothing.
    pub fn new(pin: PinState, state: OpenDrainState, final_state: PinDropState) -> (created: (
        OpenDrainPin,
        Vec<PinOp>,
    ))
        ensures
            created.0 == OpenDrainPin::created(pin, state, final_state),
            created.1@ == state.ops(),
            created.0.line() == pin.after_all(created.1@),
            created.0.line() == state.settle(pin),
            created.0.state() == state,
            created.0.initial_state() == pin.capture(),
            created.0.final_state() == final_state,
            created.0.is_settled(),
    {
        let initial_state = PinState { mode: pin.mode, level: pin.level, pull: None };
        let ops = state.writes();
        let mut line = pin;
        line.apply_all(&ops);
        proof {
            lemma_ops_settle(pin, state);
        }
        (OpenDrainPin { line, state, initial_state, final_state }, ops)
    }

    /// Drives the line low, and returns the register writes to carry out.
    pub fn set_low(&mut self) -> (ops: Vec<PinOp>)
        ensures
            *final(self) == old(self).switched(OpenDrainState::Low),
            ops@ == OpenDrainState::Low.ops(),
            final(self).line() == old(self).line().after_all(ops@),
            final(self).line() == OpenDrainState::Low.settle(old(self).line()),
            final(self).state() == OpenDrainState::Low,
            final(self).initial_state() == old(self).initial_state(),
            final(self).final_state() == old(self).final_state(),
            final(self).is_settled(),
    {
        self.set(OpenDrainState::Low)
    }

    /// Releases the line and switches the pull-up on, and returns the
    /// register writes to carry out.
    pub fn set_open(&mut self) -> (ops: Vec<PinOp>)
        ensures
            *final(self) == old(self).switched(OpenDrainState::Open),
            ops@ == OpenDrainState::Open.ops(),
            final(self).line() == old(self).line().after_all(ops@),
            final(self).line() == OpenDrainState::Open.settle(old(self).line()),
            final(self).state() == OpenDrainState::Open,
            final(self).initial_state() == old(self).initial_state(),
            final(self).final_state() == old(self).final_state(),
            final(self).is_settled(),
    {
        self.set(OpenDrainState::Open)
    }

    /// Brings the line into `state`, from either state, and returns the
    /// register writes to carry out.
    pub fn set(&mut self, state: OpenDrainState) -> (ops: Vec<PinOp>)
        ensures
            *final(self) == old(self).switched(state),
            ops@ == state.ops(),
            final(self).line() == old(self).line().after_all(ops@),
            final(self).line() == state.settle(old(self).line()),
            final(self).state() == state,
            final(self).initial_state() == old(self).initial_state(),
            final(self).final_state() == old(self).final_state(),
            final(self).is_settled(),
    {
        let ops = state.writes();
        let mut line = self.line;
        line.apply_all(&ops);
        proof {
            lemma_ops_settle(self.line, state);
        }
        *self = OpenDrainPin {
            line,
            state,
            initial_state: self.initial_state,
            final_state: self.final_state,
        };
        ops
    }

    /// Gives the line up, and returns the register writes that leave it as
    /// the policy asks: the mode first, then the level, each as the policy
    /// names it or else as it was captured; then the pull resistor, if the
    /// policy names one.
    pub fn release(self) -> (ops: Vec<PinOp>)
        ensures
            ops@ == self.final_state().release_ops(self.initial_state()),
            self.line().after_all(ops@) == self.released_line(),
    {
        let mode = self.final_state.mode.unwrap_or(self.initial_state.mode);
        let level = self.final_state.level.unwrap_or(self.initial_state.level);
        let mut ops = vec![PinOp::SetMode(mode), PinOp::Write(level)];
        if let Some(pull) = self.final_state.pull {
            ops.push(PinOp::SetPull(pull));
        }
        proof {
            assert(ops@ =~= self.final_state.release_ops(self.initial_state));
            lemma_release_ops_settle(self.final_state, self.initial_state, self.line);
        }
        ops
    }

    /// What the registers of the line hold.
    #[verifier::when_used_as_spec(spec_line)]
    pub fn line(&self) -> (line: PinState)
        ensures
            line == self.spec_line(),
            line.realizes(self.state()),
            !line.drives_high(),
    {
        proof {
            use_type_invariant(self);
        }
        self.line
    }

    /// The state that the line is in.
    #[verifier::when_used_as_spec(spec_state)]
    pub fn state(&self) -> (state: OpenDrainState)
        ensures
            state == self.spec_state(),
            self.is_settled(),
    {
        proof {
            use_type_invariant(self);
        }
        self.state
    }

    /// What was captured of the line when the pin was created.
    #[verifier::when_used_as_spec(spec_initial_state)]
    pub fn initial_state(&self) -> (initial: PinState)
        ensures
            initial == self.spec_initial_state(),
    {
        self.initial_state
    }

    /// What the line is left with when the pin is released.
    #[verifier::when_used_as_spec(spec_final_state)]
    pub fn final_state(&self) -> (policy: PinDropState)
        ensures
            policy == self.spec_final_state(),
    {
        self.final_state
    }
}

/// Carrying out one list of register writes and then another is carrying out
/// the two lists joined.
pub proof fn lemma_after_all_concat(line: PinState, first: Seq<PinOp>, second: Seq<PinOp>)
    ensures
        line.after_all(first + second) == line.after_all(first).after_all(second),
    decreases second.len(),
{
    if second.len() == 0 {
        assert(first + second =~= first);
    } else {
        lemma_after_all_concat(line, first, second.drop_last());
        assert((first + second).drop_last() =~= first + second.drop_last());
        assert((first + second).last() == second.last());
    }
}

/// The register writes of a state bring any line into that state, whatever it
/// held before, and change nothing else.
pub proof fn lemma_ops_settle(line: PinState, state: OpenDrainState)
    ensures
        line.after_all(state.ops()) == state.settle(line),
        state.settle(line).realizes(state),
        !state.settle(line).drives_high(),
{
    reveal_with_fuel(PinState::after_all, 4);
    match state {
        OpenDrainState::Low => {
            let ops = state.ops();
            assert(ops.drop_last() =~= seq![
                PinOp::Write(LogicLevel::Low),
                PinOp::SetMode(PinMode::Output),
            ]);
            assert(ops.drop_last().drop_last() =~= seq![PinOp::Write(LogicLevel::Low)]);
            assert(ops.drop_last().drop_last().drop_last() =~= Seq::<PinOp>::empty());
        },
        OpenDrainState::Open => {
            let ops = state.ops();
            assert(ops.drop_last() =~= seq![PinOp::SetMode(PinMode::Input)]);
            assert(ops.drop_last().drop_last() =~= Seq::<PinOp>::empty());
        },
    }
}

/// The register writes of a release leave the line with what the policy
/// names, and with what was captured where the policy names nothing.
pub proof fn lemma_release_ops_settle(policy: PinDropState, initial: PinState, line: PinState)
    ensures
        line.after_all(policy.release_ops(initial)) == policy.released(initial, line),
{
    reveal_with_fuel(PinState::after_all, 4);
    let settled = seq![
        PinOp::SetMode(policy.target_mode(initial)),
        PinOp::Write(policy.target_level(initial)),
    ];
    assert(settled.drop_last() =~= seq![PinOp::SetMode(policy.target_mode(initial))]);
    assert(settled.drop_last().drop_last() =~= Seq::<PinOp>::empty());
    match policy.pull {
        Some(pull) => {
            assert(settled.push(PinOp::SetPull(pull)).drop_last() =~= settled);
        },
        None => {},
    }
}

/// What `new` creates: a pin that is fully in the state asked for, with the
/// line's mode and level captured and its pull resistor recorded as unknown.
/// The line holds what the register writes of the creation leave.
pub proof fn lemma_created(pin: PinState, state: OpenDrainState, final_state: PinDropState)
    ensures
        OpenDrainPin::created(pin, state, final_state).line() == state.settle(pin),
        OpenDrainPin::created(pin, state, final_state).line() == pin.after_all(state.ops()),
        OpenDrainPin::created(pin, state, final_state).state() == state,
        OpenDrainPin::created(pin, state, final_state).initial_state() == pin.capture(),
        OpenDrainPin::created(pin, state, final_state).final_state() == final_state,
        OpenDrainPin::created(pin, state, final_state).is_settled(),
        !OpenDrainPin::created(pin, state, final_state).line().drives_high(),
{
    lemma_ops_settle(pin, state);
}

/// After `set`, the line is fully in the state asked for, whatever the pin
/// was before: an output at level low for `Low`, an input with the pull-up on
/// for `Open`, and never a mixture of the two. What `set` does not name stays
/// as it was.
pub proof fn lemma_set_reaches_state(pin: OpenDrainPin, state: OpenDrainState)
    ensures
        pin.switched(state).state() == state,
        pin.switched(state).line() == pin.line().after_all(state.ops()),
        pin.switched(state).is_settled(),
        state == OpenDrainState::Low ==> pin.switched(state).line().mode == PinMode::Output
            && pin.switched(state).line().level == LogicLevel::Low,
        state == OpenDrainState::Open ==> pin.switched(state).line().mode == PinMode::Input
            && pin.switched(state).line().pull == Some(LogicLevel::High),
        pin.switched(state).initial_state() == pin.initial_state(),
        pin.switched(state).final_state() == pin.final_state(),
{
    lemma_ops_settle(pin.line(), state);
}

/// Asking for a state twice is asking for it once: the second `set` changes
/// nothing.
pub proof fn lemma_set_is_idempotent(pin: OpenDrainPin, state: OpenDrainState)
    ensures
        pin.switched(state).switched(state) == pin.switched(state),
        state.settle(state.settle(pin.line())) == state.settle(pin.line()),
{
}

/// While a line is brought into a state, on being taken over or later, it is
/// not driven high after any of the register writes, whatever it held
/// before: of the writes of `new` or `set`, the first `done` leave a line that
/// is not an output at level high.
pub proof fn lemma_set_never_drives_high(line: PinState, state: OpenDrainState, done: int)
    requires
        1 <= done <= state.ops().len(),
    ensures
        !line.after_all(state.ops().take(done)).drives_high(),
{
    reveal_with_fuel(PinState::after_all, 4);
    let ops = state.ops();
    let first = ops.take(1);
    assert(first.drop_last() =~= Seq::<PinOp>::empty());
    assert(first.last() == ops[0]);
    if done >= 2 {
        let second = ops.take(2);
        assert(second.drop_last() =~= first);
        assert(second.last() == ops[1]);
        if done >= 3 {
            let third = ops.take(3);
            assert(third.drop_last() =~= second);
            assert(third.last() == ops[2]);
        }
    }
}

/// A pin that is created with a policy that names nothing, and released, at
/// once or after it was switched, leaves the line in the mode and at the
/// level that it had on being taken over. The pull resistor is not restored:
/// it stays as the pin last set it. For a pin that is released at once, this
/// is what the register writes of the creation and of the release, carried
/// out one after the other, leave.
pub proof fn lemma_release_restores_capture(
    pin: PinState,
    state: OpenDrainState,
    last: OpenDrainState,
)
    ensures
        ({
            let created = OpenDrainPin::created(pin, state, PinDropState::unset());
            let writes = state.ops() + PinDropState::unset().release_ops(pin.capture());
            &&& created.released_line().mode == pin.mode
            &&& created.released_line().level == pin.level
            &&& created.released_line().pull == created.line().pull
            &&& pin.after_all(writes) == created.released_line()
            &&& created.switched(last).released_line().mode == pin.mode
            &&& created.switched(last).released_line().level == pin.level
            &&& created.switched(last).released_line().pull == created.switched(last).line().pull
        }),
{
    let release = PinDropState::unset().release_ops(pin.capture());
    lemma_after_all_concat(pin, state.ops(), release);
    lemma_ops_settle(pin, state);
    lemma_release_ops_settle(PinDropState::unset(), pin.capture(), state.settle(pin));
}

/// A pin whose policy names nothing leaves the line, on release, in the mode
/// and at the level that were captured, and leaves the pull resistor alone.
pub proof fn lemma_release_without_policy(pin: OpenDrainPin)
    requires
        pin.final_state() == PinDropState::unset(),
    ensures
        pin.released_line().mode == pin.initial_state().mode,
        pin.released_line().level == pin.initial_state().level,
        pin.released_line().pull == pin.line().pull,
        pin.line().after_all(pin.final_state().release_ops(pin.initial_state()))
            == pin.released_line(),
{
    lemma_release_ops_settle(pin.final_state(), pin.initial_state(), pin.line());
}

/// A pin whose policy names mode, level and pull resistor leaves the line, on
/// release, with exactly these, whatever was captured and whatever the line
/// held before.
pub proof fn lemma_release_applies_full_policy(
    pin: OpenDrainPin,
    mode: PinMode,
    level: LogicLevel,
    pull: LogicLevel,
)
    requires
        pin.final_state() == (PinDropState {
            mode: Some(mode),
            level: Some(level),
            pull: Some(pull),
        }),
    ensures
        pin.released_line() == (PinState { mode, level, pull: Some(pull) }),
        pin.line().after_all(pin.final_state().release_ops(pin.initial_state()))
            == pin.released_line(),
{
    lemma_release_ops_settle(pin.final_state(), pin.initial_state(), pin.line());
}

} // verus!
