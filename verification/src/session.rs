//! The connection/workout lifecycle: Init → Connected → Running →
//! Finished, driven by sentinel frames. The transition to Finished is
//! made by the polling engine's completion rule, not by a sentinel.

use vstd::prelude::*;

use crate::catalog::{spec_hw_sentinel, spec_stroke_start_sentinel};
use crate::frames::{spec_lines, split_lines};

verus! {

/// Lifecycle of one recording session.
#[derive(PartialEq, Eq, Structural, Clone, Copy, Debug)]
pub enum WorkoutState {
    Init,
    Connected,
    Running,
    Finished,
}

/// Session-wide bookkeeping: the lifecycle state and the debug-echo flag.
pub struct WorkoutContext {
    pub state: WorkoutState,
    pub debug: bool,
}

/// A fresh context: no commands exchanged yet.
pub fn workout_context_init(debug: bool) -> (ctx: WorkoutContext)
    ensures
        ctx.state == WorkoutState::Init,
        ctx.debug == debug,
{
    WorkoutContext { state: WorkoutState::Init, debug }
}

/// Whether some line of a chunk equals the given sentinel.
pub open spec fn has_line(ls: Seq<Seq<u8>>, sentinel: Seq<u8>) -> bool {
    exists|i: int| 0 <= i < ls.len() && ls[i] == sentinel
}

/// The state after the start response: the hardware-identification
/// sentinel, observed in Init, connects; anything else changes nothing.
pub open spec fn spec_start_step(s: WorkoutState, ls: Seq<Seq<u8>>) -> WorkoutState {
    if s == WorkoutState::Init && has_line(ls, spec_hw_sentinel()) {
        WorkoutState::Connected
    } else {
        s
    }
}

/// The state after a chunk received while waiting for the first stroke:
/// the stroke-start sentinel, observed in Connected, starts the run.
pub open spec fn spec_stroke_wait_step(s: WorkoutState, ls: Seq<Seq<u8>>) -> WorkoutState {
    if s == WorkoutState::Connected && has_line(ls, spec_stroke_start_sentinel()) {
        WorkoutState::Running
    } else {
        s
    }
}

fn is_hw_sentinel(line: &Vec<u8>) -> (b: bool)
    ensures
        b == (line@ == spec_hw_sentinel()),
{
    if line.len() != 4 {
        assert(line@ != spec_hw_sentinel());
        return false;
    }
    let b = line[0] == 95 && line[1] == 87 && line[2] == 82 && line[3] == 95;
    proof {
        if b {
            assert(line@ =~= spec_hw_sentinel());
        } else {
            assert(line@ != spec_hw_sentinel());
        }
    }
    b
}

fn is_stroke_start_sentinel(line: &Vec<u8>) -> (b: bool)
    ensures
        b == (line@ == spec_stroke_start_sentinel()),
{
    if line.len() != 2 {
        assert(line@ != spec_stroke_start_sentinel());
        return false;
    }
    let b = line[0] == 83 && line[1] == 83;
    proof {
        if b {
            assert(line@ =~= spec_stroke_start_sentinel());
        } else {
            assert(line@ != spec_stroke_start_sentinel());
        }
    }
    b
}

proof fn lemma_has_line_extend(ls: Seq<Seq<u8>>, i: int, sentinel: Seq<u8>)
    requires
        0 <= i < ls.len(),
    ensures
        has_line(ls.take(i + 1), sentinel) == (has_line(ls.take(i), sentinel) || ls[i]
            == sentinel),
{
    if has_line(ls.take(i), sentinel) {
        let w = choose|w: int| 0 <= w < ls.take(i).len() && #[trigger] ls.take(i)[w] == sentinel;
        assert(ls.take(i + 1)[w] == sentinel);
    }
    if ls[i] == sentinel {
        assert(ls.take(i + 1)[i] == sentinel);
    }
    if has_line(ls.take(i + 1), sentinel) {
        let w = choose|w: int|
            0 <= w < ls.take(i + 1).len() && #[trigger] ls.take(i + 1)[w] == sentinel;
        if w < i {
            assert(ls.take(i)[w] == sentinel);
        } else {
            assert(ls[i] == sentinel);
        }
    }
}

/// Process the response to the start command: a hardware-identification
/// sentinel line connects a session still in Init; all other lines are
/// ignored, and a sentinel seen in any other state changes nothing.
pub fn start_process_response(ctx: &mut WorkoutContext, response: &Vec<u8>)
    ensures
        final(ctx).debug == old(ctx).debug,
        final(ctx).state == spec_start_step(old(ctx).state, spec_lines(response@)),
{
    let lines = split_lines(response);
    let ghost ls = spec_lines(response@);
    let mut i: usize = 0;
    proof {
        assert(ls.take(0) =~= Seq::<Seq<u8>>::empty());
    }
    while i < lines.len()
        invariant
            0 <= i <= lines@.len(),
            lines@.map_values(|l: Vec<u8>| l@) == ls,
            ctx.debug == old(ctx).debug,
            ctx.state == spec_start_step(old(ctx).state, ls.take(i as int)),
        decreases lines@.len() - i,
    {
        let hit = is_hw_sentinel(&lines[i]);
        if hit && matches!(ctx.state, WorkoutState::Init) {
            ctx.state = WorkoutState::Connected;
        }
        proof {
            lemma_has_line_extend(ls, i as int, spec_hw_sentinel());
        }
        i = i + 1;
    }
    assert(ls.take(lines@.len() as int) =~= ls);
}

/// Process one chunk received while waiting for the first stroke: a
/// stroke-start sentinel line moves a connected session to Running.
/// Returns whether the session is running, so a caller can keep
/// receiving until the first stroke is seen.
pub fn stroke_wait_process_response(ctx: &mut WorkoutContext, response: &Vec<u8>) -> (running:
    bool)
    ensures
        final(ctx).debug == old(ctx).debug,
        final(ctx).state == spec_stroke_wait_step(old(ctx).state, spec_lines(response@)),
        running == (final(ctx).state == WorkoutState::Running),
{
    let lines = split_lines(response);
    let ghost ls = spec_lines(response@);
    let mut i: usize = 0;
    proof {
        assert(ls.take(0) =~= Seq::<Seq<u8>>::empty());
    }
    while i < lines.len()
        invariant
            0 <= i <= lines@.len(),
            lines@.map_values(|l: Vec<u8>| l@) == ls,
            ctx.debug == old(ctx).debug,
            ctx.state == spec_stroke_wait_step(old(ctx).state, ls.take(i as int)),
        decreases lines@.len() - i,
    {
        let hit = is_stroke_start_sentinel(&lines[i]);
        if hit && matches!(ctx.state, WorkoutState::Connected) {
            ctx.state = WorkoutState::Running;
        }
        proof {
            lemma_has_line_extend(ls, i as int, spec_stroke_start_sentinel());
        }
        i = i + 1;
    }
    assert(ls.take(lines@.len() as int) =~= ls);
    matches!(ctx.state, WorkoutState::Running)
}

/// Observing the hardware-identification sentinel moves Init to
/// Connected exactly once: however many sentinel lines the first
/// response holds, the state after it is Connected, and sentinel lines
/// in any later response neither repeat nor undo the transition.
pub proof fn lemma_start_transition_once(ls1: Seq<Seq<u8>>, ls2: Seq<Seq<u8>>)
    requires
        has_line(ls1, spec_hw_sentinel()),
    ensures
        spec_start_step(WorkoutState::Init, ls1) == WorkoutState::Connected,
        spec_start_step(spec_start_step(WorkoutState::Init, ls1), ls2)
            == WorkoutState::Connected,
{
}

} // verus!
