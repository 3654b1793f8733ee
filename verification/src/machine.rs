//! The execution engine: a bidirectional lazily grown binary tape, the
//! transition table, and the run-to-halt protocol.
//!
//! Every method is proved against the ghost model in `model`: the
//! engine's state always abstracts to a `Config`, and a bounded run is
//! shown to produce exactly the configurations `run_config` describes.

use crate::model::{
    apply_transition, config_marks, config_write, count_marks, grow_config, head_allocated,
    head_reachable, init_config, live_for, run_config, state_declared, step_config, tape_bounded,
    tape_read, Config, Direction, MachineError, Transition,
};
use vstd::prelude::*;

verus! {

/// A deterministic single-tape Turing machine mid-run.
///
/// The tape is split in two growable halves: `right_tape` holds offsets
/// `0, 1, 2, ...` and `left_tape` holds offsets `-1, -2, ...` at
/// indices `0, 1, ...`. Cells are allocated lazily, one per first
/// visit, and never freed. The fields are public so that a host can
/// inspect a finished or suspended run; the methods require `wf()` and
/// preserve it.
pub struct TuringMachine {
    pub left_tape: Vec<bool>,
    pub right_tape: Vec<bool>,
    pub head_position: i64,
    pub current_state: usize,
    pub final_state: usize,
    pub transitions: Vec<(Transition, Transition)>,
}

/// How a bounded run ended: either the machine reached the halting
/// state within the budget, or the budget ran out first and the
/// machine can be resumed with another call.
#[derive(Debug, PartialEq, Eq, Structural, Copy, Clone)]
pub enum RunOutcome {
    /// The halting state was reached after `steps` steps, leaving
    /// `non_blank` Mark cells on the tape.
    Halted { steps: u64, non_blank: u64 },
    /// The machine is still live after the whole step budget.
    OutOfFuel,
}

impl TuringMachine {
    /// The ghost configuration this machine currently holds.
    pub open spec fn config(self) -> Config {
        Config {
            left: self.left_tape@,
            right: self.right_tape@,
            head: self.head_position as int,
            state: self.current_state as int,
        }
    }

    /// The ghost view of the transition table.
    pub open spec fn table(self) -> Seq<(Transition, Transition)> {
        self.transitions@
    }

    /// Well-formedness between steps: offset 0 is allocated, the head
    /// rests on an allocated cell, and the tape is small enough for the
    /// `i64` head cursor.
    pub open spec fn wf(self) -> bool {
        &&& self.right_tape@.len() >= 1
        &&& head_allocated(self.config())
        &&& tape_bounded(self.config())
    }

    /// A fresh machine for the given table: all-Blank tape with one
    /// allocated cell at offset 0, head at 0, state 0. The halting
    /// state is the index the letter 'h' maps to under the textual
    /// convention ('A' is 0), the row immediately after 'Z'.
    pub fn new(transitions: Vec<(Transition, Transition)>) -> (m: TuringMachine)
        ensures
            m.config() == init_config(),
            m.left_tape@ == Seq::<bool>::empty(),
            m.right_tape@ == seq![false],
            m.head_position == 0,
            m.current_state == 0,
            m.final_state == 'h' as u32 - 'A' as u32,
            m.transitions@ == transitions@,
            m.wf(),
    {
        let mut right_tape: Vec<bool> = Vec::new();
        right_tape.push(false);
        let m = TuringMachine {
            left_tape: Vec::new(),
            right_tape,
            head_position: 0,
            current_state: 0,
            final_state: ('h' as u32 - 'A' as u32) as usize,
            transitions,
        };
        proof {
            assert(m.right_tape@ =~= seq![false]);
            assert(m.config() =~= init_config());
        }
        m
    }

    /// Number of declared states, i.e. rows of the table.
    pub fn get_state_n(&self) -> (n: usize)
        ensures
            n == self.transitions@.len(),
    {
        self.transitions.len()
    }

    /// The symbol under the head.
    pub fn get_current_sign(&self) -> (sym: bool)
        requires
            head_allocated(self.config()),
            tape_bounded(self.config()),
        ensures
            sym == tape_read(self.left_tape@, self.right_tape@, self.head_position as int),
    {
        proof {
            assert(self.left_tape@.len() == self.left_tape.len());
            assert(self.right_tape@.len() == self.right_tape.len());
        }
        if self.head_position >= 0 {
            self.right_tape[self.head_position as usize]
        } else {
            self.left_tape[(-self.head_position - 1) as usize]
        }
    }

    /// Overwrite the symbol at an already-allocated offset. Only that
    /// cell changes; head, state and table stay as they were.
    pub fn write_sign(&mut self, position: i64, sign: bool)
        requires
            position >= 0 ==> position < old(self).right_tape@.len(),
            position < 0 ==> -position - 1 < old(self).left_tape@.len(),
            tape_bounded(old(self).config()),
        ensures
            final(self).config() == config_write(old(self).config(), position as int, sign),
            final(self).head_position == old(self).head_position,
            final(self).current_state == old(self).current_state,
            final(self).final_state == old(self).final_state,
            final(self).transitions@ == old(self).transitions@,
            final(self).left_tape@.len() == old(self).left_tape@.len(),
            final(self).right_tape@.len() == old(self).right_tape@.len(),
    {
        proof {
            assert(self.left_tape@.len() == self.left_tape.len());
            assert(self.right_tape@.len() == self.right_tape.len());
        }
        if position >= 0 {
            self.right_tape[position as usize] = sign;
        } else {
            self.left_tape[(-position - 1) as usize] = sign;
        }
        proof {
            assert(self.config() =~= config_write(old(self).config(), position as int, sign));
        }
    }

    /// Count the Mark cells across both tape halves.
    pub fn count_non_blank(&self) -> (n: u64)
        requires
            self.left_tape@.len() + self.right_tape@.len() <= u64::MAX,
        ensures
            n == count_marks(self.left_tape@) + count_marks(self.right_tape@),
            n == config_marks(self.config()),
    {
        let left = count_side(&self.left_tape);
        let right = count_side(&self.right_tape);
        proof {
            lemma_count_marks_le(self.left_tape@);
            lemma_count_marks_le(self.right_tape@);
        }
        left + right
    }

    /// If the head sits exactly one past the allocated frontier of its
    /// side, allocate one Blank cell there; an already-allocated head
    /// position is left untouched. At most one cell is ever added.
    pub fn check_tape_size(&mut self)
        requires
            head_reachable(old(self).config()),
            old(self).left_tape@.len() + old(self).right_tape@.len() < i64::MAX,
        ensures
            final(self).config() == grow_config(old(self).config()),
            head_allocated(final(self).config()),
            tape_bounded(final(self).config()),
            final(self).left_tape@.len() + final(self).right_tape@.len()
                <= old(self).left_tape@.len() + old(self).right_tape@.len() + 1,
            final(self).right_tape@.len() >= old(self).right_tape@.len(),
            final(self).head_position == old(self).head_position,
            final(self).current_state == old(self).current_state,
            final(self).final_state == old(self).final_state,
            final(self).transitions@ == old(self).transitions@,
            head_allocated(old(self).config()) ==> *final(self) == *old(self),
    {
        if self.head_position >= 0 {
            let position = self.head_position as usize;
            if self.right_tape.len() == position {
                self.right_tape.push(false);
            }
        } else {
            let position = (-self.head_position - 1) as usize;
            if self.left_tape.len() == position {
                self.left_tape.push(false);
            }
        }
    }

    /// One engine step minus the lazy growth: read the symbol under the
    /// head, look its transition up, write the transition's symbol at
    /// the old head position, move the head, enter the next state —
    /// exactly in that order. Fails, leaving the machine untouched,
    /// when the current state has no table row.
    pub fn make_transition(&mut self) -> (r: Result<(), MachineError>)
        requires
            old(self).wf(),
        ensures
            final(self).final_state == old(self).final_state,
            final(self).transitions@ == old(self).transitions@,
            match r {
                Ok(()) => {
                    &&& state_declared(old(self).table(), old(self).current_state as int)
                    &&& final(self).config() == apply_transition(
                        old(self).table(),
                        old(self).config(),
                    )
                    &&& head_reachable(final(self).config())
                    &&& final(self).left_tape@.len() == old(self).left_tape@.len()
                    &&& final(self).right_tape@.len() == old(self).right_tape@.len()
                },
                Err(e) => {
                    &&& e == MachineError::UndeclaredState(old(self).current_state)
                    &&& !state_declared(old(self).table(), old(self).current_state as int)
                    &&& *final(self) == *old(self)
                },
            },
    {
        let current_sign = self.get_current_sign();
        if self.current_state >= self.transitions.len() {
            return Err(MachineError::UndeclaredState(self.current_state));
        }
        let row = self.transitions[self.current_state];
        let transition = if current_sign {
            row.1
        } else {
            row.0
        };

        self.write_sign(self.head_position, transition.write_symbol);

        self.head_position = self.head_position + (match transition.direction {
            Direction::Left => -1i64,
            Direction::Right => 1i64,
        });

        self.current_state = transition.next_state;

        proof {
            assert(self.config() =~= apply_transition(old(self).table(), old(self).config()));
        }
        Ok(())
    }

    /// Run the machine for at most `fuel` steps.
    ///
    /// The halting check comes before each step, so a machine already
    /// in the halting state halts after zero steps. `Halted` reports
    /// the number of steps taken and the Mark cells left on the tape,
    /// and comes back exactly when the halting state is reached within
    /// the budget; the step count is the first moment it is reached.
    /// `OutOfFuel` leaves the machine `fuel` steps further and still
    /// live, so the run can be resumed. `UndeclaredState` comes back
    /// exactly when the run, before halting or exhausting the budget,
    /// reaches a state with no table row; the machine is left in that
    /// state with the faulting step not taken.
    pub fn run(&mut self, fuel: u64) -> (r: Result<RunOutcome, MachineError>)
        requires
            old(self).wf(),
            old(self).left_tape@.len() + old(self).right_tape@.len() + fuel <= i64::MAX,
        ensures
            final(self).wf(),
            final(self).final_state == old(self).final_state,
            final(self).transitions@ == old(self).transitions@,
            match r {
                Ok(RunOutcome::Halted { steps, non_blank }) => {
                    &&& steps <= fuel
                    &&& live_for(
                        old(self).table(),
                        old(self).config(),
                        old(self).final_state as int,
                        steps as int,
                    )
                    &&& final(self).config() == run_config(
                        old(self).table(),
                        old(self).config(),
                        steps as nat,
                    )
                    &&& final(self).current_state == old(self).final_state
                    &&& non_blank == config_marks(final(self).config())
                },
                Ok(RunOutcome::OutOfFuel) => {
                    &&& live_for(
                        old(self).table(),
                        old(self).config(),
                        old(self).final_state as int,
                        fuel as int,
                    )
                    &&& final(self).config() == run_config(
                        old(self).table(),
                        old(self).config(),
                        fuel as nat,
                    )
                    &&& final(self).current_state != old(self).final_state
                },
                Err(e) => {
                    exists|k: int|
                        {
                            &&& 0 <= k <= fuel
                            &&& #[trigger] live_for(
                                old(self).table(),
                                old(self).config(),
                                old(self).final_state as int,
                                k,
                            )
                            &&& run_config(old(self).table(), old(self).config(), k as nat).state
                                != old(self).final_state as int
                            &&& !state_declared(
                                old(self).table(),
                                run_config(old(self).table(), old(self).config(), k as nat).state,
                            )
                            &&& final(self).config() == run_config(
                                old(self).table(),
                                old(self).config(),
                                k as nat,
                            )
                            &&& e == MachineError::UndeclaredState(final(self).current_state)
                        }
                },
            },
    {
        let ghost t = old(self).table();
        let ghost c0 = old(self).config();
        let ghost f = old(self).final_state as int;
        let ghost init_len = old(self).left_tape@.len() + old(self).right_tape@.len();
        let mut i: u64 = 0;
        while i < fuel
            invariant
                self.wf(),
                i <= fuel,
                self.final_state == old(self).final_state,
                self.transitions@ == t,
                t == old(self).table(),
                c0 == old(self).config(),
                f == old(self).final_state as int,
                self.config() == run_config(t, c0, i as nat),
                live_for(t, c0, f, i as int),
                self.left_tape@.len() + self.right_tape@.len() <= init_len + i,
                init_len + fuel <= i64::MAX,
            decreases fuel - i,
        {
            if self.current_state == self.final_state {
                let marks = self.count_non_blank();
                return Ok(RunOutcome::Halted { steps: i, non_blank: marks });
            }
            match self.make_transition() {
                Ok(()) => {},
                Err(e) => {
                    return Err(e);
                },
            }
            self.check_tape_size();
            proof {
                assert forall|j: int| 0 <= j < i + 1 implies {
                    &&& (#[trigger] run_config(t, c0, j as nat)).state != f
                    &&& state_declared(t, run_config(t, c0, j as nat).state)
                } by {
                    if j < i {
                        assert(live_for(t, c0, f, i as int));
                    }
                }
            }
            i = i + 1;
        }
        if self.current_state == self.final_state {
            let marks = self.count_non_blank();
            Ok(RunOutcome::Halted { steps: fuel, non_blank: marks })
        } else {
            Ok(RunOutcome::OutOfFuel)
        }
    }
}

/// Count the Mark cells of one tape half.
fn count_side(v: &Vec<bool>) -> (n: u64)
    ensures
        n == count_marks(v@),
{
    let mut n: u64 = 0;
    let mut i: usize = 0;
    while i < v.len()
        invariant
            i <= v@.len(),
            n == count_marks(v@.take(i as int)),
            n <= i,
        decreases v@.len() - i,
    {
        proof {
            lemma_count_marks_take_step(v@, i as int);
        }
        if v[i] {
            n = n + 1;
        }
        i = i + 1;
    }
    proof {
        assert(v@.take(v@.len() as int) =~= v@);
    }
    n
}

/// Extending a prefix by one cell raises its Mark count by one exactly
/// when the new cell is a Mark.
proof fn lemma_count_marks_take_step(s: Seq<bool>, i: int)
    requires
        0 <= i < s.len(),
    ensures
        count_marks(s.take(i + 1)) == count_marks(s.take(i)) + (if s[i] {
            1nat
        } else {
            0nat
        }),
{
    assert(s.take(i + 1).drop_last() =~= s.take(i));
    assert(s.take(i + 1).last() == s[i]);
}

/// A half never holds more Marks than cells.
proof fn lemma_count_marks_le(s: Seq<bool>)
    ensures
        count_marks(s) <= s.len(),
    decreases s.len(),
{
    if s.len() > 0 {
        lemma_count_marks_le(s.drop_last());
    }
}

} // verus!
