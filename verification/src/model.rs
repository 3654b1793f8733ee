//! The mathematical model of a machine run.
//!
//! A `Config` is the ghost counterpart of the engine's state: the two
//! tape halves, the head offset and the current state. The spec
//! functions here say what one engine step does to a configuration and
//! what `n` steps do; the executable engine in `machine` is proved to
//! follow them exactly.

use vstd::prelude::*;

verus! {

/// Which way the head moves after a transition fires.
#[derive(Debug, PartialEq, Eq, Structural, Copy, Clone)]
pub enum Direction {
    Right,
    Left,
}

/// What the machine does for one (state, read symbol) pair: the symbol
/// to write, the direction to move, and the state to enter.
///
/// Symbols are `bool`: `false` is Blank, `true` is Mark.
#[derive(Debug, PartialEq, Eq, Structural, Copy, Clone)]
pub struct Transition {
    pub write_symbol: bool,
    pub direction: Direction,
    pub next_state: usize,
}

/// Everything that can abort a run. All are fatal: the simulator is a
/// single-shot batch computation with no recoverable-error concept.
#[derive(Debug, PartialEq, Eq, Structural, Copy, Clone)]
pub enum MachineError {
    /// A transition code character was missing or outside its valid set.
    MalformedTransitionCode,
    /// The token stream did not divide evenly into (Blank, Mark) pairs.
    OddTokenCount,
    /// The engine reached this state index, which has no table row and
    /// is not the halting state.
    UndeclaredState(usize),
}

/// A machine configuration: the allocated tape cells on each side of
/// the origin, the head offset, and the current state.
///
/// Offset `p >= 0` lives in `right` at index `p`; offset `p < 0` lives
/// in `left` at index `-p - 1`.
#[verifier::ext_equal]
pub ghost struct Config {
    pub left: Seq<bool>,
    pub right: Seq<bool>,
    pub head: int,
    pub state: int,
}

/// The symbol stored at offset `p`, under the two-halves addressing
/// rule: non-negative offsets index `right` directly, offset `p < 0`
/// indexes `left` at `-p - 1`.
pub open spec fn tape_read(left: Seq<bool>, right: Seq<bool>, p: int) -> bool {
    if p >= 0 {
        right[p]
    } else {
        left[-p - 1]
    }
}

/// The symbol under the head.
pub open spec fn config_read(c: Config) -> bool {
    tape_read(c.left, c.right, c.head)
}

/// The configuration after overwriting the (allocated) cell at offset
/// `p` with `sym`. Head and state are untouched.
pub open spec fn config_write(c: Config, p: int, sym: bool) -> Config {
    if p >= 0 {
        Config { left: c.left, right: c.right.update(p, sym), head: c.head, state: c.state }
    } else {
        Config { left: c.left.update(-p - 1, sym), right: c.right, head: c.head, state: c.state }
    }
}

/// Offset change for one head move: Left is -1, Right is +1. There is
/// no "stay" option.
pub open spec fn move_offset(d: Direction) -> int {
    match d {
        Direction::Left => -1,
        Direction::Right => 1,
    }
}

/// Whether `s` indexes a declared row of the table.
pub open spec fn state_declared(table: Seq<(Transition, Transition)>, s: int) -> bool {
    0 <= s < table.len()
}

/// The transition the table selects for state `s` reading `sym`: the
/// row's first component on Blank, its second on Mark.
pub open spec fn chosen_transition(
    table: Seq<(Transition, Transition)>,
    s: int,
    sym: bool,
) -> Transition {
    if sym {
        table[s].1
    } else {
        table[s].0
    }
}

/// A configuration after its transition fires: read, dispatch, write at
/// the old head, move, enter the next state. No allocation yet; the
/// head may end one cell past the frontier of its side.
pub open spec fn apply_transition(table: Seq<(Transition, Transition)>, c: Config) -> Config {
    let t = chosen_transition(table, c.state, config_read(c));
    let w = config_write(c, c.head, t.write_symbol);
    Config {
        left: w.left,
        right: w.right,
        head: c.head + move_offset(t.direction),
        state: t.next_state as int,
    }
}

/// Lazy growth: if the head sits exactly one past the allocated
/// frontier of its side, allocate one Blank cell there; otherwise
/// change nothing.
pub open spec fn grow_config(c: Config) -> Config {
    if c.head >= 0 {
        if c.right.len() == c.head {
            Config { left: c.left, right: c.right.push(false), head: c.head, state: c.state }
        } else {
            c
        }
    } else {
        if c.left.len() == -c.head - 1 {
            Config { left: c.left.push(false), right: c.right, head: c.head, state: c.state }
        } else {
            c
        }
    }
}

/// One full engine step: the transition fires, then the cell the head
/// moved onto is allocated if it was never visited before.
pub open spec fn step_config(table: Seq<(Transition, Transition)>, c: Config) -> Config {
    grow_config(apply_transition(table, c))
}

/// The configuration after `n` engine steps. This iterates the step
/// function blindly; whether the run should have stopped earlier (the
/// halting state, an undeclared state) is the caller's business.
pub open spec fn run_config(table: Seq<(Transition, Transition)>, c: Config, n: nat) -> Config
    decreases n,
{
    if n == 0 {
        c
    } else {
        step_config(table, run_config(table, c, (n - 1) as nat))
    }
}

/// The first `n` configurations of the run from `c` are live: each has
/// a declared state that differs from the halting state `f`, so the
/// engine neither stops nor faults before step `n`.
pub open spec fn live_for(
    table: Seq<(Transition, Transition)>,
    c: Config,
    f: int,
    n: int,
) -> bool {
    forall|i: int|
        0 <= i < n ==> {
            &&& (#[trigger] run_config(table, c, i as nat)).state != f
            &&& state_declared(table, run_config(table, c, i as nat).state)
        }
}

/// Number of Mark cells in one tape half.
pub open spec fn count_marks(s: Seq<bool>) -> nat
    decreases s.len(),
{
    if s.len() == 0 {
        0
    } else {
        count_marks(s.drop_last()) + (if s.last() {
            1nat
        } else {
            0nat
        })
    }
}

/// Number of Mark cells on the whole tape.
pub open spec fn config_marks(c: Config) -> nat {
    count_marks(c.left) + count_marks(c.right)
}

/// The head rests on an allocated cell.
pub open spec fn head_allocated(c: Config) -> bool {
    if c.head >= 0 {
        c.head < c.right.len()
    } else {
        -c.head - 1 < c.left.len()
    }
}

/// The head rests on an allocated cell or exactly one past the frontier
/// of its side — the situation right after a move, before lazy growth.
pub open spec fn head_reachable(c: Config) -> bool {
    if c.head >= 0 {
        c.head <= c.right.len()
    } else {
        -c.head - 1 <= c.left.len()
    }
}

/// The tape is small enough that an `i64` head cursor cannot overflow
/// while it stays within one cell of the allocated region.
pub open spec fn tape_bounded(c: Config) -> bool {
    c.left.len() + c.right.len() <= i64::MAX
}

/// The starting configuration: an all-Blank tape with a single
/// allocated cell at offset 0, head at 0, state 0.
pub open spec fn init_config() -> Config {
    Config { left: Seq::empty(), right: seq![false], head: 0, state: 0 }
}

} // verus!
