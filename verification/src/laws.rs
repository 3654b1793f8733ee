//! Engine-wide theorems about the run model.
//!
//! Three families: the tape addressing round trip (writing an offset
//! and reading it back), the lazy allocation extent (each tape half
//! holds exactly the cells the head has visited on that side), and
//! mirror symmetry (swapping Left and Right in every transition mirrors
//! the whole run without changing its step or Mark counts).

use crate::model::{
    apply_transition, config_marks, config_read, config_write, count_marks, chosen_transition,
    grow_config, head_allocated, init_config, move_offset, run_config, state_declared, step_config,
    tape_read, Config, Direction, Transition,
};
use vstd::prelude::*;

verus! {

/// Tape addressing round trip: after writing `sym` at an allocated
/// offset `p`, reading `p` yields `sym`, and every other allocated
/// offset `q` still reads what it read before. The two-halves
/// addressing is a bijection, so a write can never silently land on a
/// second offset.
pub proof fn lemma_write_read(c: Config, p: int, sym: bool, q: int)
    requires
        p >= 0 ==> p < c.right.len(),
        p < 0 ==> -p - 1 < c.left.len(),
        q >= 0 ==> q < c.right.len(),
        q < 0 ==> -q - 1 < c.left.len(),
    ensures
        tape_read(config_write(c, p, sym).left, config_write(c, p, sym).right, p) == sym,
        q != p ==> tape_read(config_write(c, p, sym).left, config_write(c, p, sym).right, q)
            == tape_read(c.left, c.right, q),
{
}

/// The exact shape of one step's allocation: the head moves by one
/// cell; the half it lands in grows by one cell when the head reaches
/// its frontier and is untouched otherwise; the head always rests on
/// an allocated cell afterwards. In particular a single step never
/// allocates more than one cell.
pub proof fn lemma_step_allocation(table: Seq<(Transition, Transition)>, c: Config)
    requires
        c.right.len() >= 1,
        head_allocated(c),
    ensures
        step_config(table, c).head == c.head + move_offset(
            chosen_transition(table, c.state, config_read(c)).direction,
        ),
        step_config(table, c).state == chosen_transition(
            table,
            c.state,
            config_read(c),
        ).next_state as int,
        head_allocated(step_config(table, c)),
        step_config(table, c).right.len() >= 1,
        step_config(table, c).right.len() == (if step_config(table, c).head == c.right.len() {
            c.right.len() + 1
        } else {
            c.right.len()
        }),
        step_config(table, c).left.len() == (if step_config(table, c).head == -(c.left.len() as int)
            - 1 {
            c.left.len() + 1
        } else {
            c.left.len()
        }),
        step_config(table, c).left.len() + step_config(table, c).right.len() <= c.left.len()
            + c.right.len() + 1,
{
    let t = chosen_transition(table, c.state, config_read(c));
    match t.direction {
        Direction::Left => {},
        Direction::Right => {},
    }
}

/// The largest head offset among the first `n + 1` configurations of
/// the run from `c`.
pub open spec fn max_head_visited(table: Seq<(Transition, Transition)>, c: Config, n: nat) -> int
    decreases n,
{
    if n == 0 {
        c.head
    } else {
        let m = max_head_visited(table, c, (n - 1) as nat);
        let h = run_config(table, c, n).head;
        if h > m {
            h
        } else {
            m
        }
    }
}

/// The smallest head offset among the first `n + 1` configurations of
/// the run from `c`.
pub open spec fn min_head_visited(table: Seq<(Transition, Transition)>, c: Config, n: nat) -> int
    decreases n,
{
    if n == 0 {
        c.head
    } else {
        let m = min_head_visited(table, c, (n - 1) as nat);
        let h = run_config(table, c, n).head;
        if h < m {
            h
        } else {
            m
        }
    }
}

/// Lazy allocation extent: after any number of steps from the initial
/// configuration, the right half holds one cell per visited
/// non-negative offset (its length is the largest visited offset plus
/// one) and the left half one cell per visited negative offset (its
/// length is the absolute value of the smallest visited offset). The
/// head always rests on an allocated cell. Together with
/// `lemma_step_allocation` this pins the tape down completely: cells
/// appear exactly once, at first visit.
pub proof fn lemma_lazy_allocation(table: Seq<(Transition, Transition)>, n: nat)
    ensures
        run_config(table, init_config(), n).right.len() == max_head_visited(
            table,
            init_config(),
            n,
        ) + 1,
        run_config(table, init_config(), n).left.len() == -min_head_visited(
            table,
            init_config(),
            n,
        ),
        max_head_visited(table, init_config(), n) >= 0,
        min_head_visited(table, init_config(), n) <= 0,
        head_allocated(run_config(table, init_config(), n)),
        run_config(table, init_config(), n).right.len() >= 1,
    decreases n,
{
    if n == 0 {
        assert(run_config(table, init_config(), 0) == init_config());
        assert(init_config().right.len() == 1);
        assert(init_config().left.len() == 0);
    } else {
        lemma_lazy_allocation(table, (n - 1) as nat);
        let cp = run_config(table, init_config(), (n - 1) as nat);
        lemma_step_allocation(table, cp);
        assert(run_config(table, init_config(), n) == step_config(table, cp));
    }
}

/// The same transition with Left and Right exchanged.
pub open spec fn mirror_transition(t: Transition) -> Transition {
    Transition {
        write_symbol: t.write_symbol,
        direction: match t.direction {
            Direction::Left => Direction::Right,
            Direction::Right => Direction::Left,
        },
        next_state: t.next_state,
    }
}

/// The table with Left and Right exchanged in every transition.
pub open spec fn mirror_table(table: Seq<(Transition, Transition)>) -> Seq<
    (Transition, Transition),
> {
    table.map_values(
        |row: (Transition, Transition)| (mirror_transition(row.0), mirror_transition(row.1)),
    )
}

/// The configuration reflected through offset 0: the cell at offset
/// `p` moves to offset `-p`. Offset 0 stays the first right cell, the
/// rest of the right half becomes the left half and the old left half
/// lines up behind offset 0 on the right.
pub open spec fn mirror_config(c: Config) -> Config {
    Config {
        left: c.right.skip(1),
        right: seq![c.right[0]] + c.left,
        head: -c.head,
        state: c.state,
    }
}

/// Reading the mirrored tape at the mirrored head yields the same
/// symbol as the original.
proof fn lemma_mirror_read(c: Config)
    requires
        c.right.len() >= 1,
        head_allocated(c),
    ensures
        config_read(mirror_config(c)) == config_read(c),
{
}

/// Writing at the mirrored head is the mirror of writing at the head.
proof fn lemma_mirror_write(c: Config, sym: bool)
    requires
        c.right.len() >= 1,
        head_allocated(c),
    ensures
        config_write(mirror_config(c), -c.head, sym) == mirror_config(
            config_write(c, c.head, sym),
        ),
{
    let lhs = config_write(mirror_config(c), -c.head, sym);
    let rhs = mirror_config(config_write(c, c.head, sym));
    assert(lhs.left =~= rhs.left);
    assert(lhs.right =~= rhs.right);
    assert(lhs =~= rhs);
}

/// Lazy growth at the mirrored head is the mirror of lazy growth.
proof fn lemma_mirror_grow(c: Config)
    requires
        c.right.len() >= 1,
    ensures
        grow_config(mirror_config(c)) == mirror_config(grow_config(c)),
{
    let lhs = grow_config(mirror_config(c));
    let rhs = mirror_config(grow_config(c));
    assert(lhs.left =~= rhs.left);
    assert(lhs.right =~= rhs.right);
    assert(lhs =~= rhs);
}

/// One step of the mirrored table from the mirrored configuration is
/// the mirror of one step of the original.
proof fn lemma_mirror_step(table: Seq<(Transition, Transition)>, c: Config)
    requires
        c.right.len() >= 1,
        head_allocated(c),
        state_declared(table, c.state),
    ensures
        step_config(mirror_table(table), mirror_config(c)) == mirror_config(step_config(table, c)),
{
    let t = chosen_transition(table, c.state, config_read(c));
    lemma_mirror_read(c);
    assert(chosen_transition(mirror_table(table), c.state, config_read(c)) == mirror_transition(
        t,
    ));
    lemma_mirror_write(c, t.write_symbol);
    let a = apply_transition(table, c);
    assert(apply_transition(mirror_table(table), mirror_config(c)) =~= mirror_config(a));
    lemma_mirror_grow(a);
}

/// Mirror symmetry of whole runs: as long as the run from the initial
/// configuration stays in declared states, running the mirrored table
/// from the same start reaches, after any number of steps, exactly the
/// mirror image of the original configuration — same state, head
/// trajectory reflected through offset 0, tape halves exchanged.
pub proof fn lemma_mirror_run(table: Seq<(Transition, Transition)>, n: nat)
    requires
        forall|i: int|
            0 <= i < n ==> state_declared(
                table,
                (#[trigger] run_config(table, init_config(), i as nat)).state,
            ),
    ensures
        run_config(mirror_table(table), init_config(), n) == mirror_config(
            run_config(table, init_config(), n),
        ),
    decreases n,
{
    if n == 0 {
        assert(mirror_config(init_config()).left =~= init_config().left);
        assert(mirror_config(init_config()).right =~= init_config().right);
        assert(mirror_config(init_config()) =~= init_config());
    } else {
        lemma_mirror_run(table, (n - 1) as nat);
        lemma_lazy_allocation(table, (n - 1) as nat);
        let cp = run_config(table, init_config(), (n - 1) as nat);
        assert(state_declared(table, cp.state)) by {
            assert(0 <= n - 1 < n);
        }
        lemma_mirror_step(table, cp);
    }
}

/// Marks are counted cell by cell, so a concatenation holds the sum of
/// its parts' Marks.
proof fn lemma_count_marks_concat(a: Seq<bool>, b: Seq<bool>)
    ensures
        count_marks(a + b) == count_marks(a) + count_marks(b),
    decreases b.len(),
{
    if b.len() == 0 {
        assert(a + b =~= a);
    } else {
        lemma_count_marks_concat(a, b.drop_last());
        assert((a + b).drop_last() =~= a + b.drop_last());
        assert((a + b).last() == b.last());
    }
}

/// What mirror symmetry means for busy-beaver statistics: after any
/// number of steps the mirrored run is in the same state as the
/// original (so it halts, or faults, at exactly the same step), its
/// head is at the reflected offset, and its tape holds exactly as many
/// Marks.
pub proof fn lemma_mirror_stats(table: Seq<(Transition, Transition)>, n: nat)
    requires
        forall|i: int|
            0 <= i < n ==> state_declared(
                table,
                (#[trigger] run_config(table, init_config(), i as nat)).state,
            ),
    ensures
        run_config(mirror_table(table), init_config(), n).state == run_config(
            table,
            init_config(),
            n,
        ).state,
        run_config(mirror_table(table), init_config(), n).head == -run_config(
            table,
            init_config(),
            n,
        ).head,
        config_marks(run_config(mirror_table(table), init_config(), n)) == config_marks(
            run_config(table, init_config(), n),
        ),
{
    lemma_mirror_run(table, n);
    lemma_lazy_allocation(table, n);
    let c = run_config(table, init_config(), n);
    let first = seq![c.right[0]];
    assert(c.right =~= first + c.right.skip(1));
    lemma_count_marks_concat(first, c.right.skip(1));
    lemma_count_marks_concat(first, c.left);
}

} // verus!
