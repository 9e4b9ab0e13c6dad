use d1flash::config::Configuration;
use d1flash::level::LogicLevel;
use d1flash::mode::PinMode;
use d1flash::pin::{OpenDrainState, PinConfig, PinDropState, PinOp, PinState};
use d1flash::recipe::Recipe;
use d1flash::sequence::{
    delayed_reset_sequence, entry_sequence, exit_sequence, run_sequence, Line, Step,
};
use d1flash::sequencer::{writes_on, Action, Sequencer};

/// The two lines as the hardware would hold them.
struct Board {
    boot: PinState,
    reset: PinState,
    slept: u64,
}

impl Board {
    fn carry_out(&mut self, actions: &[Action]) {
        for action in actions {
            match *action {
                Action::Write(Line::Boot, op) => self.boot.apply(op),
                Action::Write(Line::Reset, op) => self.reset.apply(op),
                Action::Sleep(millis) => self.slept += millis,
            }
            assert!(!(self.boot.mode == PinMode::Output && self.boot.level == LogicLevel::High));
            assert!(!(self.reset.mode == PinMode::Output && self.reset.level == LogicLevel::High));
        }
    }
}

fn keep() -> PinDropState {
    PinDropState { mode: None, level: None, pull: None }
}

fn boot_before() -> PinState {
    PinState { mode: PinMode::Alt0, level: LogicLevel::High, pull: None }
}

fn reset_before() -> PinState {
    PinState { mode: PinMode::Input, level: LogicLevel::Low, pull: None }
}

fn start(boot_policy: PinDropState, reset_policy: PinDropState) -> (Sequencer, Board) {
    let (sequencer, actions) =
        Sequencer::new(boot_before(), boot_policy, reset_before(), reset_policy);
    let mut board = Board { boot: boot_before(), reset: reset_before(), slept: 0 };
    board.carry_out(&actions);
    (sequencer, board)
}

#[test]
fn writes_on_a_line_keep_their_order() {
    let ops = vec![PinOp::Write(LogicLevel::Low), PinOp::SetMode(PinMode::Output)];
    assert_eq!(
        writes_on(Line::Reset, &ops),
        vec![
            Action::Write(Line::Reset, PinOp::Write(LogicLevel::Low)),
            Action::Write(Line::Reset, PinOp::SetMode(PinMode::Output)),
        ]
    );
    assert!(writes_on(Line::Boot, &Vec::new()).is_empty());
}

#[test]
fn the_sequencer_takes_over_boot_then_reset_and_releases_both() {
    let (sequencer, actions) = Sequencer::new(boot_before(), keep(), reset_before(), keep());
    let open = vec![PinOp::SetMode(PinMode::Input), PinOp::SetPull(LogicLevel::High)];
    let mut expected = writes_on(Line::Boot, &open);
    expected.extend(writes_on(Line::Reset, &open));
    assert_eq!(actions, expected);
    assert_eq!(
        actions,
        vec![
            Action::Write(Line::Boot, PinOp::SetMode(PinMode::Input)),
            Action::Write(Line::Boot, PinOp::SetPull(LogicLevel::High)),
            Action::Write(Line::Reset, PinOp::SetMode(PinMode::Input)),
            Action::Write(Line::Reset, PinOp::SetPull(LogicLevel::High)),
        ]
    );
    assert_eq!(sequencer.boot.state(), OpenDrainState::Open);
    assert_eq!(sequencer.reset.state(), OpenDrainState::Open);
    assert_eq!(sequencer.boot.initial_state(), boot_before());
    assert_eq!(sequencer.reset.initial_state(), reset_before());
}

#[test]
fn a_wait_becomes_a_sleep() {
    let (mut sequencer, _) = start(keep(), keep());
    assert_eq!(sequencer.step(Step::Wait(20)), vec![Action::Sleep(20)]);
    assert_eq!(sequencer.boot.state(), OpenDrainState::Open);
    assert_eq!(sequencer.reset.state(), OpenDrainState::Open);
}

#[test]
fn a_switch_becomes_the_writes_of_one_line() {
    let (mut sequencer, _) = start(keep(), keep());
    let boot_line = sequencer.boot.line();
    assert_eq!(
        sequencer.step(Step::Switch(Line::Reset, OpenDrainState::Low)),
        vec![
            Action::Write(Line::Reset, PinOp::Write(LogicLevel::Low)),
            Action::Write(Line::Reset, PinOp::SetMode(PinMode::Output)),
            Action::Write(Line::Reset, PinOp::Write(LogicLevel::Low)),
        ]
    );
    assert_eq!(sequencer.reset.state(), OpenDrainState::Low);
    assert_eq!(sequencer.boot.state(), OpenDrainState::Open);
    assert_eq!(sequencer.boot.line(), boot_line);

    assert_eq!(
        sequencer.step(Step::Switch(Line::Boot, OpenDrainState::Open)),
        vec![
            Action::Write(Line::Boot, PinOp::SetMode(PinMode::Input)),
            Action::Write(Line::Boot, PinOp::SetPull(LogicLevel::High)),
        ]
    );
}

#[test]
fn the_entry_sequence_holds_the_microcontroller_in_boot_mode() {
    let (mut sequencer, mut board) = start(keep(), keep());
    let actions = sequencer.run(&entry_sequence());
    board.carry_out(&actions);
    assert_eq!(sequencer.boot.state(), OpenDrainState::Low);
    assert_eq!(sequencer.reset.state(), OpenDrainState::Open);
    assert_eq!(board.boot.mode, PinMode::Output);
    assert_eq!(board.boot.level, LogicLevel::Low);
    assert_eq!(board.reset.mode, PinMode::Input);
    assert_eq!(board.reset.pull, Some(LogicLevel::High));
    assert_eq!(board.slept, 220);
}

#[test]
fn the_entry_actions_are_fixed() {
    let (mut sequencer, _) = start(keep(), keep());
    let low = vec![
        PinOp::Write(LogicLevel::Low),
        PinOp::SetMode(PinMode::Output),
        PinOp::Write(LogicLevel::Low),
    ];
    let open = vec![PinOp::SetMode(PinMode::Input), PinOp::SetPull(LogicLevel::High)];
    let mut expected = writes_on(Line::Boot, &low);
    expected.push(Action::Sleep(20));
    expected.extend(writes_on(Line::Reset, &low));
    expected.push(Action::Sleep(100));
    expected.extend(writes_on(Line::Reset, &open));
    expected.push(Action::Sleep(100));
    assert_eq!(sequencer.run(&entry_sequence()), expected);
}

#[test]
fn the_sequencer_records_what_the_board_holds() {
    for delay in [None, Some(0), Some(2000)] {
        let (mut sequencer, mut board) = start(keep(), keep());
        for step in run_sequence(delay) {
            let actions = sequencer.step(step);
            board.carry_out(&actions);
            assert_eq!(sequencer.boot.line(), board.boot);
            assert_eq!(sequencer.reset.line(), board.reset);
        }
    }
}

#[test]
fn run_is_step_by_step() {
    let (mut whole, _) = start(keep(), keep());
    let (mut single, _) = start(keep(), keep());
    let steps = run_sequence(Some(300));
    let mut expected = Vec::new();
    for step in &steps {
        expected.extend(single.step(*step));
    }
    assert_eq!(whole.run(&steps), expected);
    assert_eq!(whole.boot.line(), single.boot.line());
    assert_eq!(whole.reset.line(), single.reset.line());
    assert!(whole.run(&Vec::new()).is_empty());
}

#[test]
fn the_exit_sequence_releases_both_lines() {
    let (mut sequencer, mut board) = start(keep(), keep());
    board.carry_out(&sequencer.run(&entry_sequence()));
    board.carry_out(&sequencer.run(&exit_sequence()));
    assert_eq!(sequencer.boot.state(), OpenDrainState::Open);
    assert_eq!(sequencer.reset.state(), OpenDrainState::Open);
    assert_eq!(board.boot.mode, PinMode::Input);
    assert_eq!(board.reset.mode, PinMode::Input);
    assert_eq!(board.slept, 340);
}

#[test]
fn the_delayed_reset_leaves_boot_mode() {
    let (mut sequencer, mut board) = start(keep(), keep());
    board.carry_out(&sequencer.run(&entry_sequence()));
    board.carry_out(&sequencer.run(&delayed_reset_sequence(Some(2000))));
    assert_eq!(sequencer.boot.state(), OpenDrainState::Open);
    assert_eq!(sequencer.reset.state(), OpenDrainState::Open);
    assert_eq!(board.slept, 220 + 2200);
}

#[test]
fn release_gives_up_reset_first_and_restores_both_lines() {
    let (mut sequencer, mut board) = start(keep(), keep());
    board.carry_out(&sequencer.run(&run_sequence(None)));
    let actions = sequencer.release();
    assert_eq!(
        actions,
        vec![
            Action::Write(Line::Reset, PinOp::SetMode(PinMode::Input)),
            Action::Write(Line::Reset, PinOp::Write(LogicLevel::Low)),
            Action::Write(Line::Boot, PinOp::SetMode(PinMode::Alt0)),
            Action::Write(Line::Boot, PinOp::Write(LogicLevel::High)),
        ]
    );
    for action in actions {
        match action {
            Action::Write(Line::Boot, op) => board.boot.apply(op),
            Action::Write(Line::Reset, op) => board.reset.apply(op),
            Action::Sleep(_) => unreachable!(),
        }
    }
    assert_eq!(board.boot.mode, PinMode::Alt0);
    assert_eq!(board.boot.level, LogicLevel::High);
    assert_eq!(board.reset.mode, PinMode::Input);
    assert_eq!(board.reset.level, LogicLevel::Low);
}

#[test]
fn release_applies_each_line_its_own_policy() {
    let boot_policy = PinDropState {
        mode: Some(PinMode::Output),
        level: Some(LogicLevel::High),
        pull: Some(LogicLevel::Low),
    };
    let reset_policy = PinDropState { mode: None, level: Some(LogicLevel::High), pull: None };
    let (mut sequencer, _) = start(boot_policy, reset_policy);
    sequencer.run(&run_sequence(Some(10)));
    assert_eq!(
        sequencer.release(),
        vec![
            Action::Write(Line::Reset, PinOp::SetMode(PinMode::Input)),
            Action::Write(Line::Reset, PinOp::Write(LogicLevel::High)),
            Action::Write(Line::Boot, PinOp::SetMode(PinMode::Output)),
            Action::Write(Line::Boot, PinOp::Write(LogicLevel::High)),
            Action::Write(Line::Boot, PinOp::SetPull(LogicLevel::Low)),
        ]
    );
}

#[test]
fn a_configuration_gives_each_line_its_policy() {
    let boot_policy = PinDropState { mode: Some(PinMode::Input), level: None, pull: None };
    let reset_policy = PinDropState {
        mode: Some(PinMode::Output),
        level: Some(LogicLevel::High),
        pull: None,
    };
    let config = Configuration::new(
        PinConfig { pin: 23, state: boot_policy },
        PinConfig { pin: 24, state: reset_policy },
        "monitor".to_string(),
        vec![("monitor".to_string(), Recipe::new("picocom".to_string(), Vec::new()))],
    )
    .unwrap();

    let (sequencer, actions) =
        Sequencer::for_configuration(&config, boot_before(), reset_before());
    let (_, expected) =
        Sequencer::new(boot_before(), boot_policy, reset_before(), reset_policy);
    assert_eq!(actions, expected);
    assert_eq!(sequencer.boot.final_state(), boot_policy);
    assert_eq!(sequencer.reset.final_state(), reset_policy);
    assert_eq!(sequencer.boot.initial_state(), boot_before());
    assert_eq!(
        sequencer.release(),
        vec![
            Action::Write(Line::Reset, PinOp::SetMode(PinMode::Output)),
            Action::Write(Line::Reset, PinOp::Write(LogicLevel::High)),
            Action::Write(Line::Boot, PinOp::SetMode(PinMode::Input)),
            Action::Write(Line::Boot, PinOp::Write(LogicLevel::High)),
        ]
    );
}
