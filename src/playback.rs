//! The playback oscillator: a frame cursor that walks from the first frame to
//! the last and back, reversing its direction at either end.
use vstd::prelude::*;

verus! {

/// A cursor at frame `cur` moving in direction `dir` over `count` frames is in
/// a reachable state: within the table, moving by one frame, and moving
/// inward at either end.
pub open spec fn playback_ok(cur: int, dir: int, count: int) -> bool {
    &&& 0 <= cur <= count - 1
    &&& dir == 1 || dir == -1
    &&& cur == 0 ==> dir == 1
    &&& cur == count - 1 ==> dir == -1
}

/// One advance: move by `dir`, then reverse if the cursor now stands on the
/// first or the last frame.
pub open spec fn playback_step(cur: int, dir: int, count: int) -> (int, int) {
    let next = cur + dir;
    if next == count - 1 || next == 0 {
        (next, -dir)
    } else {
        (next, dir)
    }
}

/// The cursor after `t` advances from the initial state `(0, +1)`.
pub open spec fn playback_after(t: nat, count: int) -> (int, int)
    decreases t,
{
    if t == 0 {
        (0, 1)
    } else {
        let s = playback_after((t - 1) as nat, count);
        playback_step(s.0, s.1, count)
    }
}

/// One advance from a reachable state reaches a reachable state, and the
/// direction changes exactly when the cursor arrives at an end.
pub proof fn lemma_step_ok(cur: int, dir: int, count: int)
    requires
        count >= 2,
        playback_ok(cur, dir, count),
    ensures
        playback_ok(playback_step(cur, dir, count).0, playback_step(cur, dir, count).1, count),
        playback_step(cur, dir, count).1 != dir <==> (playback_step(cur, dir, count).0 == 0
            || playback_step(cur, dir, count).0 == count - 1),
{
}

/// For every number of advances `t` from the initial state the cursor stays
/// within `[0, count - 1]`, and the direction flips between advance `t` and
/// `t + 1` exactly when the cursor arrives at the first or the last frame.
pub proof fn lemma_playback_in_range(count: int, t: nat)
    requires
        count >= 2,
    ensures
        playback_ok(playback_after(t, count).0, playback_after(t, count).1, count),
        0 <= playback_after(t, count).0 <= count - 1,
        playback_after(t + 1, count).1 != playback_after(t, count).1 <==> (playback_after(
            t + 1,
            count,
        ).0 == 0 || playback_after(t + 1, count).0 == count - 1),
    decreases t,
{
    if t > 0 {
        lemma_playback_in_range(count, (t - 1) as nat);
    }
    let s = playback_after(t, count);
    lemma_step_ok(s.0, s.1, count);
    assert(playback_after(t + 1, count) == playback_step(s.0, s.1, count));
}

/// Where the cursor stands after `t <= 2 * (count - 1)` advances: rising
/// through the first half of the cycle, falling through the second.
pub open spec fn cycle_position(t: int, count: int) -> (int, int) {
    if t < count - 1 {
        (t, 1)
    } else if t < 2 * (count - 1) {
        (2 * (count - 1) - t, -1)
    } else {
        (0, 1)
    }
}

proof fn lemma_cycle_position(count: int, t: nat)
    requires
        count >= 2,
        t <= 2 * (count - 1),
    ensures
        playback_after(t, count) == cycle_position(t as int, count),
    decreases t,
{
    if t > 0 {
        lemma_cycle_position(count, (t - 1) as nat);
    }
}

/// A full ping-pong cycle: after `2 * (count - 1)` advances the cursor is back
/// on the first frame, moving forward again.
pub proof fn lemma_full_cycle(count: int)
    requires
        count >= 2,
    ensures
        playback_after((2 * (count - 1)) as nat, count) == (0int, 1int),
{
    lemma_cycle_position(count, (2 * (count - 1)) as nat);
}

} // verus!
