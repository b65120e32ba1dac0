//! The animation clock: which frame of a cycle shows after a given time.

use vstd::prelude::*;

verus! {

/// Milliseconds that one frame of the walk cycle stays up.
pub const WALK_PERIOD_MS: u32 = 150;

/// Number of frames in the walk cycle.
pub const WALK_FRAMES: u32 = 3;

/// The frame shown `elapsed_ticks` milliseconds into a cycle of `frame_count`
/// frames that each last `period_ms`.
pub open spec fn frame_offset_spec(elapsed_ticks: u32, period_ms: u32, frame_count: u32) -> u32
    recommends
        period_ms > 0,
        frame_count > 0,
{
    ((elapsed_ticks as int / period_ms as int) % frame_count as int) as u32
}

/// Works out the frame that shows.
#[verifier::when_used_as_spec(frame_offset_spec)]
pub fn frame_offset(elapsed_ticks: u32, period_ms: u32, frame_count: u32) -> (frame: u32)
    requires
        period_ms > 0,
        frame_count > 0,
    ensures
        frame == frame_offset_spec(elapsed_ticks, period_ms, frame_count),
        frame < frame_count,
{
    elapsed_ticks / period_ms % frame_count
}

/// Milliseconds of motion so far: none while idle, else the time since the
/// motion began.
pub open spec fn elapsed_spec(ticks: u32, movement_start_tick: Option<u32>) -> u32
    recommends
        movement_start_tick matches Some(start) ==> start <= ticks,
{
    match movement_start_tick {
        Some(start) => (ticks - start) as u32,
        None => 0,
    }
}

/// Works out the milliseconds of motion so far.
#[verifier::when_used_as_spec(elapsed_spec)]
pub fn elapsed(ticks: u32, movement_start_tick: Option<u32>) -> (ms: u32)
    requires
        movement_start_tick matches Some(start) ==> start <= ticks,
    ensures
        ms == elapsed_spec(ticks, movement_start_tick),
{
    match movement_start_tick {
        Some(start) => ticks - start,
        None => 0,
    }
}

/// The walk-cycle frame at `ticks` for motion that began at
/// `movement_start_tick`; the first frame while idle.
pub open spec fn walk_frame_spec(ticks: u32, movement_start_tick: Option<u32>) -> u32
    recommends
        movement_start_tick matches Some(start) ==> start <= ticks,
{
    frame_offset_spec(elapsed_spec(ticks, movement_start_tick), WALK_PERIOD_MS, WALK_FRAMES)
}

/// Works out the walk-cycle frame that shows.
#[verifier::when_used_as_spec(walk_frame_spec)]
pub fn walk_frame(ticks: u32, movement_start_tick: Option<u32>) -> (frame: u32)
    requires
        movement_start_tick matches Some(start) ==> start <= ticks,
    ensures
        frame == walk_frame_spec(ticks, movement_start_tick),
        frame < WALK_FRAMES,
        movement_start_tick is None ==> frame == 0,
{
    frame_offset(elapsed(ticks, movement_start_tick), WALK_PERIOD_MS, WALK_FRAMES)
}

/// The clock's reading after `elapsed_ms` more milliseconds.
pub open spec fn advance_spec(ticks: u32, elapsed_ms: u32) -> u32
    recommends
        ticks + elapsed_ms <= u32::MAX,
{
    (ticks + elapsed_ms) as u32
}

/// Advances the clock. It only ever runs forward.
#[verifier::when_used_as_spec(advance_spec)]
pub fn advance(ticks: u32, elapsed_ms: u32) -> (later: u32)
    requires
        ticks + elapsed_ms <= u32::MAX,
    ensures
        later == advance_spec(ticks, elapsed_ms),
        later >= ticks,
{
    ticks + elapsed_ms
}

/// Every frame of a cycle lies inside the cycle.
pub proof fn lemma_frame_in_cycle(elapsed_ticks: u32, period_ms: u32, frame_count: u32)
    requires
        period_ms > 0,
        frame_count > 0,
    ensures
        frame_offset_spec(elapsed_ticks, period_ms, frame_count) < frame_count,
{
    let q = elapsed_ticks as int / period_ms as int;
    assert(0 <= q <= elapsed_ticks) by (nonlinear_arith)
        requires
            q == elapsed_ticks as int / period_ms as int,
            period_ms > 0,
            elapsed_ticks >= 0,
    ;
    assert(0 <= q % (frame_count as int) < frame_count);
}

/// The frame holds for a whole period and then moves on by one, wrapping at
/// the end of the cycle: at `k` whole periods plus a remainder the frame is
/// `k` modulo the frame count.
pub proof fn lemma_frame_steps_once_per_period(
    k: nat,
    rest: nat,
    period_ms: u32,
    frame_count: u32,
)
    requires
        period_ms > 0,
        frame_count > 0,
        rest < period_ms,
        k * period_ms + rest <= u32::MAX,
    ensures
        frame_offset_spec((k * period_ms + rest) as u32, period_ms, frame_count) == k
            % frame_count as nat,
{
    let e = (k * period_ms + rest) as int;
    let p = period_ms as int;
    assert(e / p == k) by {
        vstd::arithmetic::div_mod::lemma_fundamental_div_mod_converse(e, p, k as int, rest as int);
    }
    assert(0 <= (k as int) % (frame_count as int) < frame_count);
}

/// The cycle repeats: after `period_ms * frame_count` more milliseconds the
/// same frame shows again.
pub proof fn lemma_cycle_repeats(elapsed_ticks: u32, period_ms: u32, frame_count: u32)
    requires
        period_ms > 0,
        frame_count > 0,
        elapsed_ticks + period_ms * frame_count <= u32::MAX,
    ensures
        frame_offset_spec(
            (elapsed_ticks + period_ms * frame_count) as u32,
            period_ms,
            frame_count,
        ) == frame_offset_spec(elapsed_ticks, period_ms, frame_count),
{
    let p = period_ms as int;
    let n = frame_count as int;
    let e = elapsed_ticks as int;
    let q = e / p;
    let r = e % p;
    vstd::arithmetic::div_mod::lemma_fundamental_div_mod(e, p);
    assert(0 <= q) by (nonlinear_arith)
        requires
            q == e / p,
            p > 0,
            e >= 0,
    ;
    assert(e + p * n == p * (q + n) + r) by (nonlinear_arith)
        requires
            e == p * q + r,
    ;
    assert(0 <= q + n);
    vstd::arithmetic::div_mod::lemma_fundamental_div_mod_converse(e + p * n, p, q + n, r);
    assert((e + p * n) / p == q + n);
    vstd::arithmetic::div_mod::lemma_mod_add_multiples_vanish(q, n);
    assert((q + n) % n == q % n);
}

/// While idle the first frame shows, whatever the clock reads.
pub proof fn lemma_idle_shows_first_frame(ticks: u32)
    ensures
        walk_frame_spec(ticks, None) == 0,
{
}

} // verus!
