//! Turning textual transition codes into table rows.
//!
//! A transition is written as a 3-character code: the symbol to write
//! ('0' or '1'), the direction to move ('L' or 'R'), and the next state
//! ('A'..'Z' for state indices 0..25, 'h' for the halting state).
//! Characters past the first three are ignored. A whitespace-separated
//! stream of such codes, two per declared state (the Blank-symbol
//! transition first, then the Mark-symbol one), makes a table.

use crate::model::{Direction, MachineError, Transition};
use vstd::prelude::*;

verus! {

/// Valid write-symbol characters: '0' (Blank) or '1' (Mark).
pub open spec fn valid_sign_char(c: char) -> bool {
    c == '0' || c == '1'
}

/// The symbol a valid write-symbol character denotes.
pub open spec fn sign_of_char(c: char) -> bool {
    c == '1'
}

/// Valid direction characters: 'L' or 'R'.
pub open spec fn valid_direction_char(c: char) -> bool {
    c == 'L' || c == 'R'
}

/// The direction a valid direction character denotes.
pub open spec fn direction_of_char(c: char) -> Direction {
    if c == 'L' {
        Direction::Left
    } else {
        Direction::Right
    }
}

/// Valid next-state characters: a capital letter naming a state index,
/// or 'h' for the halting state.
pub open spec fn valid_state_char(c: char) -> bool {
    ('A' as u32 <= c as u32 && c as u32 <= 'Z' as u32) || c == 'h'
}

/// The state index a valid next-state character denotes: its distance
/// from 'A', which sends 'A', 'B', 'C', ... to 0, 1, 2, ... and 'h' to
/// the halting state index.
pub open spec fn state_of_char(c: char) -> int {
    c as u32 - 'A' as u32
}

/// A transition code is valid when it has at least three characters
/// and each of the first three is in its set.
pub open spec fn code_valid(s: Seq<char>) -> bool {
    &&& s.len() >= 3
    &&& valid_sign_char(s[0])
    &&& valid_direction_char(s[1])
    &&& valid_state_char(s[2])
}

/// The transition a valid code denotes.
pub open spec fn code_transition(s: Seq<char>) -> Transition {
    Transition {
        write_symbol: sign_of_char(s[0]),
        direction: direction_of_char(s[1]),
        next_state: state_of_char(s[2]) as usize,
    }
}

/// Decode a write-symbol character, or fail on a missing or invalid one.
pub fn get_transition_sign(sign: Option<char>) -> (r: Result<bool, MachineError>)
    ensures
        match sign {
            Some(c) => {
                &&& valid_sign_char(c) ==> r == Ok::<bool, MachineError>(sign_of_char(c))
                &&& !valid_sign_char(c) ==> r == Err::<bool, MachineError>(
                    MachineError::MalformedTransitionCode,
                )
            },
            None => r == Err::<bool, MachineError>(MachineError::MalformedTransitionCode),
        },
{
    match sign {
        Some(c) => {
            if c == '1' {
                Ok(true)
            } else if c == '0' {
                Ok(false)
            } else {
                Err(MachineError::MalformedTransitionCode)
            }
        },
        None => Err(MachineError::MalformedTransitionCode),
    }
}

/// Decode a direction character, or fail on a missing or invalid one.
pub fn get_transition_direction(direction: Option<char>) -> (r: Result<
    Direction,
    MachineError,
>)
    ensures
        match direction {
            Some(c) => {
                &&& valid_direction_char(c) ==> r == Ok::<Direction, MachineError>(
                    direction_of_char(c),
                )
                &&& !valid_direction_char(c) ==> r == Err::<Direction, MachineError>(
                    MachineError::MalformedTransitionCode,
                )
            },
            None => r == Err::<Direction, MachineError>(MachineError::MalformedTransitionCode),
        },
{
    match direction {
        Some(c) => {
            if c == 'R' {
                Ok(Direction::Right)
            } else if c == 'L' {
                Ok(Direction::Left)
            } else {
                Err(MachineError::MalformedTransitionCode)
            }
        },
        None => Err(MachineError::MalformedTransitionCode),
    }
}

/// Decode a next-state character, or fail on a missing or invalid one.
pub fn get_transition_next_state(next_state: Option<char>) -> (r: Result<usize, MachineError>)
    ensures
        match next_state {
            Some(c) => {
                &&& valid_state_char(c) ==> r == Ok::<usize, MachineError>(
                    state_of_char(c) as usize,
                )
                &&& !valid_state_char(c) ==> r == Err::<usize, MachineError>(
                    MachineError::MalformedTransitionCode,
                )
            },
            None => r == Err::<usize, MachineError>(MachineError::MalformedTransitionCode),
        },
{
    match next_state {
        Some(c) => {
            let v = c as u32;
            if ('A' as u32 <= v && v <= 'Z' as u32) || c == 'h' {
                Ok((v - 'A' as u32) as usize)
            } else {
                Err(MachineError::MalformedTransitionCode)
            }
        },
        None => Err(MachineError::MalformedTransitionCode),
    }
}

/// Decode one 3-character transition code. The result is pinned by
/// `code_transition`; any missing or invalid character fails.
pub fn get_transition(transition: String) -> (r: Result<Transition, MachineError>)
    ensures
        match r {
            Ok(t) => code_valid(transition@) && t == code_transition(transition@),
            Err(e) => !code_valid(transition@) && e == MachineError::MalformedTransitionCode,
        },
{
    let s = transition.as_str();
    let n = s.unicode_len();
    let write_symbol = match get_transition_sign(
        if n >= 1 {
            Some(s.get_char(0))
        } else {
            None
        },
    ) {
        Ok(b) => b,
        Err(e) => {
            return Err(e);
        },
    };
    let direction = match get_transition_direction(
        if n >= 2 {
            Some(s.get_char(1))
        } else {
            None
        },
    ) {
        Ok(d) => d,
        Err(e) => {
            return Err(e);
        },
    };
    let next_state = match get_transition_next_state(
        if n >= 3 {
            Some(s.get_char(2))
        } else {
            None
        },
    ) {
        Ok(st) => st,
        Err(e) => {
            return Err(e);
        },
    };
    Ok(Transition { write_symbol, direction, next_state })
}

/// Group a whitespace-split token stream into a transition table: two
/// codes per declared state, the Blank-symbol transition first. Fails
/// with `OddTokenCount` on a stream that does not divide into pairs
/// and with `MalformedTransitionCode` on any invalid code.
pub fn parse_transitions(tokens: Vec<String>) -> (r: Result<
    Vec<(Transition, Transition)>,
    MachineError,
>)
    ensures
        match r {
            Ok(table) => {
                &&& tokens@.len() % 2 == 0
                &&& forall|i: int| 0 <= i < tokens@.len() ==> code_valid(#[trigger] tokens@[i]@)
                &&& table@.len() == tokens@.len() / 2
                &&& forall|j: int|
                    0 <= j < table@.len() ==> #[trigger] table@[j] == (
                        code_transition(tokens@[2 * j]@),
                        code_transition(tokens@[2 * j + 1]@),
                    )
            },
            Err(MachineError::OddTokenCount) => tokens@.len() % 2 != 0,
            Err(MachineError::MalformedTransitionCode) => exists|i: int|
                0 <= i < tokens@.len() && !code_valid(#[trigger] tokens@[i]@),
            _ => false,
        },
{
    if tokens.len() % 2 != 0 {
        return Err(MachineError::OddTokenCount);
    }
    let mut table: Vec<(Transition, Transition)> = Vec::new();
    let mut i: usize = 0;
    while i < tokens.len()
        invariant
            i <= tokens@.len(),
            i % 2 == 0,
            tokens@.len() % 2 == 0,
            table@.len() == i / 2,
            forall|k: int| 0 <= k < i ==> code_valid(#[trigger] tokens@[k]@),
            forall|j: int|
                0 <= j < table@.len() ==> #[trigger] table@[j] == (
                    code_transition(tokens@[2 * j]@),
                    code_transition(tokens@[2 * j + 1]@),
                ),
        decreases tokens@.len() - i,
    {
        let blank_code = match get_transition(tokens[i].clone()) {
            Ok(t) => t,
            Err(e) => {
                return Err(e);
            },
        };
        let mark_code = match get_transition(tokens[i + 1].clone()) {
            Ok(t) => t,
            Err(e) => {
                return Err(e);
            },
        };
        table.push((blank_code, mark_code));
        i = i + 2;
    }
    Ok(table)
}

} // verus!
