use busy_beaver::machine::{RunOutcome, TuringMachine};
use busy_beaver::model::{Direction, MachineError, Transition};

fn t(write_symbol: bool, direction: Direction, next_state: usize) -> Transition {
    Transition { write_symbol, direction, next_state }
}

#[test]
fn new_machine_starts_blank_at_origin() {
    let m = TuringMachine::new(vec![(t(true, Direction::Right, 0), t(true, Direction::Right, 0))]);
    assert_eq!(m.left_tape.len(), 0);
    assert_eq!(m.right_tape, vec![false]);
    assert_eq!(m.head_position, 0);
    assert_eq!(m.current_state, 0);
    assert_eq!(m.final_state, 'h' as usize - 'A' as usize);
    assert_eq!(m.get_state_n(), 1);
}

#[test]
fn machine_already_in_halting_state_takes_zero_steps() {
    let mut m = TuringMachine::new(vec![(
        t(true, Direction::Right, 0),
        t(true, Direction::Right, 0),
    )]);
    m.current_state = m.final_state;
    assert_eq!(m.run(10), Ok(RunOutcome::Halted { steps: 0, non_blank: 0 }));
}

#[test]
fn zero_fuel_on_live_machine_is_out_of_fuel() {
    let mut m = TuringMachine::new(vec![(
        t(true, Direction::Right, 0),
        t(true, Direction::Right, 0),
    )]);
    assert_eq!(m.run(0), Ok(RunOutcome::OutOfFuel));
    assert_eq!(m.head_position, 0);
}

#[test]
fn one_state_writes_mark_and_halts() {
    // One declared state; on Blank: write Mark, move Right, enter the
    // halting state. One step, one Mark, head one cell to the right.
    let halt = 'h' as usize - 'A' as usize;
    let mut m = TuringMachine::new(vec![(
        t(true, Direction::Right, halt),
        t(true, Direction::Right, halt),
    )]);
    assert_eq!(m.run(100), Ok(RunOutcome::Halted { steps: 1, non_blank: 1 }));
    assert_eq!(m.current_state, m.final_state);
    assert_eq!(m.head_position, 1);
    assert_eq!(m.right_tape, vec![true, false]);
    assert_eq!(m.left_tape.len(), 0);
}

#[test]
fn two_state_four_step_one_mark_machine() {
    // Two declared states halting after exactly 4 steps with 1 Mark:
    // A on Blank writes Blank, goes Right to B; B on Blank writes Mark,
    // goes Left to A; B on Mark writes Mark, goes Right and halts.
    let halt = 'h' as usize - 'A' as usize;
    let table = vec![
        (t(false, Direction::Right, 1), t(true, Direction::Left, 0)),
        (t(true, Direction::Left, 0), t(true, Direction::Right, halt)),
    ];
    let mut m = TuringMachine::new(table);
    assert_eq!(m.run(100), Ok(RunOutcome::Halted { steps: 4, non_blank: 1 }));
    assert_eq!(m.head_position, 2);
    assert_eq!(m.right_tape, vec![false, true, false]);
    assert_eq!(m.left_tape.len(), 0);
}

#[test]
fn mirrored_table_same_steps_and_marks() {
    // The mirror image of the 4-step machine: every Left and Right
    // swapped. Same step count, same Mark count, trajectory reflected.
    let halt = 'h' as usize - 'A' as usize;
    let table = vec![
        (t(false, Direction::Left, 1), t(true, Direction::Right, 0)),
        (t(true, Direction::Right, 0), t(true, Direction::Left, halt)),
    ];
    let mut m = TuringMachine::new(table);
    assert_eq!(m.run(100), Ok(RunOutcome::Halted { steps: 4, non_blank: 1 }));
    assert_eq!(m.head_position, -2);
    assert_eq!(m.left_tape, vec![true, false]);
    assert_eq!(m.right_tape, vec![false]);
}

#[test]
fn undeclared_state_aborts_with_its_index() {
    let mut m = TuringMachine::new(vec![(
        t(true, Direction::Right, 5),
        t(true, Direction::Right, 5),
    )]);
    assert_eq!(m.run(10), Err(MachineError::UndeclaredState(5)));
    assert_eq!(m.current_state, 5);
}

#[test]
fn empty_table_aborts_on_state_zero() {
    let mut m = TuringMachine::new(Vec::new());
    assert_eq!(m.run(10), Err(MachineError::UndeclaredState(0)));
}

#[test]
fn out_of_fuel_run_can_be_resumed() {
    // A machine that never halts: always write Mark and move Right.
    let mut m = TuringMachine::new(vec![(
        t(true, Direction::Right, 0),
        t(true, Direction::Right, 0),
    )]);
    assert_eq!(m.run(5), Ok(RunOutcome::OutOfFuel));
    assert_eq!(m.head_position, 5);
    assert_eq!(m.run(3), Ok(RunOutcome::OutOfFuel));
    assert_eq!(m.head_position, 8);
    assert_eq!(m.right_tape.len(), 9);
}

#[test]
fn lazy_allocation_grows_one_cell_per_move() {
    // Each step moves the head one cell right onto fresh tape, so each
    // step allocates exactly one cell: length = visited extent + 1.
    let mut m = TuringMachine::new(vec![(
        t(true, Direction::Right, 0),
        t(true, Direction::Right, 0),
    )]);
    for k in 0..5u64 {
        assert_eq!(m.run(1), Ok(RunOutcome::OutOfFuel));
        assert_eq!(m.right_tape.len() as u64, k + 2);
        assert_eq!(m.left_tape.len(), 0);
    }
}

#[test]
fn lazy_allocation_left_side() {
    let mut m = TuringMachine::new(vec![(
        t(true, Direction::Left, 0),
        t(true, Direction::Left, 0),
    )]);
    assert_eq!(m.run(3), Ok(RunOutcome::OutOfFuel));
    assert_eq!(m.head_position, -3);
    // The cell the head just moved onto is freshly allocated, still Blank.
    assert_eq!(m.left_tape, vec![true, true, false]);
    assert_eq!(m.right_tape, vec![true]);
}

#[test]
fn revisiting_allocated_cells_does_not_grow_tape() {
    // Bounce between offsets 0 and 1: after the first two steps every
    // visited cell exists and the tape must stop growing.
    let mut m = TuringMachine::new(vec![
        (t(true, Direction::Right, 1), t(true, Direction::Right, 1)),
        (t(true, Direction::Left, 0), t(true, Direction::Left, 0)),
    ]);
    assert_eq!(m.run(2), Ok(RunOutcome::OutOfFuel));
    let right_len = m.right_tape.len();
    assert_eq!(m.run(10), Ok(RunOutcome::OutOfFuel));
    assert_eq!(m.right_tape.len(), right_len);
    assert_eq!(m.left_tape.len(), 0);
}

#[test]
fn tape_round_trip_over_a_range_of_offsets() {
    // Writing offset p then reading offset p returns the written
    // symbol, for offsets on both sides of the origin, and no other
    // offset is disturbed.
    let mut m = TuringMachine::new(Vec::new());
    m.left_tape = vec![false; 5];
    m.right_tape = vec![false; 5];
    for p in -5i64..5i64 {
        m.head_position = p;
        m.write_sign(p, true);
        assert!(m.get_current_sign());
        for q in -5i64..5i64 {
            m.head_position = q;
            assert_eq!(m.get_current_sign(), q == p);
        }
        m.head_position = p;
        m.write_sign(p, false);
        assert!(!m.get_current_sign());
    }
}

#[test]
fn make_transition_writes_then_moves_then_changes_state() {
    // One step, taken by hand: the write lands at the old head
    // position, the head moves afterwards, and the freshly reached
    // cell is only allocated by the explicit growth call.
    let halt = 'h' as usize - 'A' as usize;
    let mut m = TuringMachine::new(vec![(
        t(true, Direction::Right, halt),
        t(true, Direction::Right, halt),
    )]);
    assert_eq!(m.make_transition(), Ok(()));
    assert_eq!(m.right_tape, vec![true]);
    assert_eq!(m.head_position, 1);
    assert_eq!(m.current_state, halt);
    m.check_tape_size();
    assert_eq!(m.right_tape, vec![true, false]);
}

#[test]
fn make_transition_on_undeclared_state_leaves_machine_untouched() {
    let mut m = TuringMachine::new(Vec::new());
    assert_eq!(m.make_transition(), Err(MachineError::UndeclaredState(0)));
    assert_eq!(m.right_tape, vec![false]);
    assert_eq!(m.head_position, 0);
    assert_eq!(m.current_state, 0);
}

#[test]
fn check_tape_size_is_a_no_op_on_an_allocated_position() {
    let mut m = TuringMachine::new(Vec::new());
    m.check_tape_size();
    assert_eq!(m.right_tape, vec![false]);
    assert_eq!(m.left_tape.len(), 0);
}

#[test]
fn count_non_blank_sums_both_halves() {
    let mut m = TuringMachine::new(Vec::new());
    m.left_tape = vec![true, false, true];
    m.right_tape = vec![false, true, false, true];
    assert_eq!(m.count_non_blank(), 4);
}
