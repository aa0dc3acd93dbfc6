//! Progress reporting for the flash loop: the rounded percentage and the
//! throttle that keeps redundant redraws out of the render pipeline.
use vstd::prelude::*;

verus! {

/// Redraw at least this often when the total size is unknown, and at most
/// this often when the percentage has not moved.
pub const PROGRESS_MIN_INTERVAL_MS: u64 = 150;

/// The rounded percentage shown for `written` of `total` bytes: the
/// product pegs instead of wrapping, and the result never exceeds 100.
pub open spec fn spec_percent_of(written: u64, total: u64) -> u64
    recommends
        total > 0,
{
    let scaled: int = if written * 100 > u64::MAX {
        u64::MAX as int
    } else {
        written * 100
    };
    let p: int = scaled / (total as int);
    (if p > 100 {
        100int
    } else {
        p
    }) as u64
}

/// The percentage, when a meaningful total is known.
pub open spec fn spec_progress_percent(written: u64, total: Option<u64>) -> Option<u64> {
    match total {
        Some(t) => if t > 0 {
            Some(spec_percent_of(written, t))
        } else {
            None
        },
        None => None,
    }
}

/// Milliseconds gone by, zero if the clock stepped backwards.
pub open spec fn spec_elapsed(last_ms: u64, now_ms: u64) -> u64 {
    if now_ms >= last_ms {
        (now_ms - last_ms) as u64
    } else {
        0
    }
}

/// Whether a progress redraw is due: the rounded percentage changed, or —
/// with the total unknown — the minimum interval passed (a long-stale
/// screen is refreshed either way).
pub open spec fn spec_render_due(
    pct: Option<u64>,
    last_pct: Option<u64>,
    elapsed_ms: u64,
) -> bool {
    let stale = elapsed_ms > PROGRESS_MIN_INTERVAL_MS;
    (match (pct, last_pct) {
        (Some(p), Some(l)) => p != l,
        (Some(p), None) => true,
        (None, _) => stale,
    }) || stale
}

/// Law: with the total known, the reported percentage only repeats or
/// increases as `written` grows — it never regresses.
pub proof fn lemma_percent_monotonic(w1: u64, w2: u64, total: u64)
    requires
        w1 <= w2,
        total > 0,
    ensures
        spec_percent_of(w1, total) <= spec_percent_of(w2, total),
{
    let s1: int = if w1 * 100 > u64::MAX {
        u64::MAX as int
    } else {
        w1 * 100
    };
    let s2: int = if w2 * 100 > u64::MAX {
        u64::MAX as int
    } else {
        w2 * 100
    };
    assert(s1 <= s2);
    vstd::arithmetic::div_mod::lemma_div_is_ordered(s1, s2, total as int);
}

/// Computes the rounded percentage of `written` out of `total`.
pub fn percent_of(written: u64, total: u64) -> (p: u64)
    requires
        total > 0,
    ensures
        p == spec_percent_of(written, total),
{
    let scaled: u64 = if written > u64::MAX / 100 {
        u64::MAX
    } else {
        written * 100
    };
    let p = scaled / total;
    if p > 100 {
        100
    } else {
        p
    }
}

/// Computes the percentage when a meaningful total is known.
pub fn progress_percent(written: u64, total: Option<u64>) -> (p: Option<u64>)
    ensures
        p == spec_progress_percent(written, total),
{
    match total {
        Some(t) => if t > 0 {
            Some(percent_of(written, t))
        } else {
            None
        },
        None => None,
    }
}

/// The redraw throttle: the last percentage put on screen and when the
/// screen was last drawn.
pub struct ProgressThrottle {
    pub last_percent: Option<u64>,
    pub last_render_ms: u64,
}

impl ProgressThrottle {
    /// A throttle that counts the screen drawn at `now_ms` with no
    /// percentage shown yet.
    pub fn new(now_ms: u64) -> (t: Self)
        ensures
            t.last_percent is None,
            t.last_render_ms == now_ms,
    {
        ProgressThrottle { last_percent: None, last_render_ms: now_ms }
    }

    /// Decides whether to redraw for `written` of `total` at `now_ms`,
    /// and notes the redraw when it is due.
    pub fn should_render(&mut self, written: u64, total: Option<u64>, now_ms: u64) -> (render:
        bool)
        ensures
            render == spec_render_due(
                spec_progress_percent(written, total),
                old(self).last_percent,
                spec_elapsed(old(self).last_render_ms, now_ms),
            ),
            render ==> final(self).last_percent == spec_progress_percent(written, total)
                && final(self).last_render_ms == now_ms,
            !render ==> *final(self) == *old(self),
    {
        let pct = progress_percent(written, total);
        let elapsed: u64 = if now_ms >= self.last_render_ms {
            now_ms - self.last_render_ms
        } else {
            0
        };
        let stale = elapsed > PROGRESS_MIN_INTERVAL_MS;
        let changed = match (pct, self.last_percent) {
            (Some(p), Some(l)) => p != l,
            (Some(_), None) => true,
            (None, _) => stale,
        };
        if changed || stale {
            self.last_percent = pct;
            self.last_render_ms = now_ms;
            true
        } else {
            false
        }
    }
}

} // verus!
