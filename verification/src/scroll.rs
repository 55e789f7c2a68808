//! Scroll position mapper: translates a normalized fractional position (or an
//! autoscroll-to-bottom mode) plus a viewport capacity into the absolute line
//! range to display, and converts manual scroll movements back into a
//! normalized position.
//!
//! The fraction is held in fixed point: an offset of 0 means the oldest
//! possible start position, an offset of `SCALE` the newest.

use vstd::arithmetic::div_mod::{
    lemma_div_by_multiple, lemma_div_is_ordered, lemma_div_multiples_vanish_fancy,
    lemma_div_pos_is_pos,
};
use vstd::arithmetic::mul::{lemma_mul_inequality, lemma_mul_upper_bound};
use vstd::prelude::*;

verus! {

/// Resolution of the fixed-point fractional scroll offset.
pub const SCALE: u64 = 1000000;

/// Normalized scroll position of the viewport over the log history.
pub struct ScrollState {
    /// Fixed-point fraction in `[0, SCALE]` of the way between the oldest
    /// displayable start position and the last possible start position.
    pub fractional_offset: u64,
    /// When set, the displayed range always ends at the newest line and
    /// `fractional_offset` is ignored by the mapping.
    pub autoscroll: bool,
}

/// Greatest absolute line number a window may start at, so that a full
/// viewport of `visible` lines still fits below it when enough lines exist.
pub open spec fn spec_max_start(total: int, visible: int) -> int {
    if total > visible {
        total - visible
    } else {
        0
    }
}

/// Divisor used when converting between positions and fractions; 1 while
/// fewer than a viewport of lines exist, so no division by zero occurs.
pub open spec fn spec_pos_denom(total: int, visible: int) -> int {
    if spec_max_start(total, visible) >= 1 {
        spec_max_start(total, visible)
    } else {
        1
    }
}

/// `round(offset / SCALE * max_start)` in fixed point: the start position a
/// fractional offset denotes.
pub open spec fn spec_round_start(offset: int, max_start: int) -> int {
    (offset * max_start + (SCALE as int) / 2) / (SCALE as int)
}

/// Offset movement caused by a scroll of `delta` lines: `delta / denom` of
/// the full scale, truncated toward zero as the sign of `delta` dictates.
pub open spec fn spec_scroll_shift(delta: int, denom: int) -> int {
    if delta >= 0 {
        delta * (SCALE as int) / denom
    } else {
        -((-delta) * (SCALE as int) / denom)
    }
}

/// A fractional offset forced back into `[0, SCALE]`.
pub open spec fn spec_clamp_offset(x: int) -> int {
    if x < 0 {
        0
    } else if x > SCALE {
        SCALE as int
    } else {
        x
    }
}

/// `spec_round_start` never leaves `[0, max_start]`.
proof fn lemma_round_start_bounds(offset: int, max_start: int)
    requires
        0 <= offset <= SCALE,
        0 <= max_start,
    ensures
        0 <= spec_round_start(offset, max_start) <= max_start,
{
    let s = SCALE as int;
    lemma_mul_inequality(offset, s, max_start);
    lemma_div_is_ordered(offset * max_start + s / 2, s * max_start + s / 2, s);
    lemma_div_multiples_vanish_fancy(max_start, s / 2, s);
    lemma_div_pos_is_pos(offset * max_start + s / 2, s);
    assert(offset * max_start >= 0) by {
        lemma_mul_upper_bound(0, offset, 0, max_start);
    }
}

/// A position of at most `max_start` converts back to a fraction of at most
/// `SCALE`; the divisor is `max_start` itself (or 1 when it is 0).
proof fn lemma_pos_to_offset_bounds(pos: int, max_start: int)
    requires
        0 <= pos <= max_start,
    ensures
        0 <= pos * (SCALE as int) / (if max_start >= 1 {
            max_start
        } else {
            1
        }) <= SCALE,
{
    let s = SCALE as int;
    let denom = if max_start >= 1 {
        max_start
    } else {
        1
    };
    lemma_mul_inequality(pos, max_start, s);
    lemma_div_is_ordered(pos * s, max_start * s, denom);
    if max_start >= 1 {
        lemma_div_by_multiple(s, max_start);
        assert(max_start * s == s * max_start) by {
            lemma_mul_upper_bound(0, 1, 0, 1);
        }
    }
    lemma_mul_upper_bound(0, pos, 0, s);
    lemma_div_pos_is_pos(pos * s, denom);
}

/// Exact start position denoted by `offset` over a history allowing start
/// positions up to `max_start`.
fn round_start(offset: u64, max_start: usize) -> (r: usize)
    requires
        offset <= SCALE,
    ensures
        r == spec_round_start(offset as int, max_start as int),
        r <= max_start,
{
    proof {
        lemma_mul_upper_bound(offset as int, SCALE as int, max_start as int, usize::MAX as int);
        lemma_round_start_bounds(offset as int, max_start as int);
    }
    let num: u128 = (offset as u128) * (max_start as u128) + (SCALE as u128) / 2;
    let q: u128 = num / (SCALE as u128);
    q as usize
}

impl ScrollState {
    /// Every reachable scroll state keeps its fraction inside the scale.
    pub open spec fn wf(self) -> bool {
        self.fractional_offset <= SCALE
    }

    /// Initial state: autoscroll on, pinned to the newest lines.
    pub fn new() -> (r: ScrollState)
        ensures
            r.wf(),
            r.autoscroll,
            r.fractional_offset == SCALE,
    {
        ScrollState { fractional_offset: SCALE, autoscroll: true }
    }

    /// The absolute line number the viewport starts at: the last possible
    /// start while autoscrolling, otherwise the rounded fractional position.
    pub fn start_line(&self, total_lines: usize, visible_capacity: usize) -> (r: usize)
        requires
            self.wf(),
        ensures
            r == if self.autoscroll {
                spec_max_start(total_lines as int, visible_capacity as int)
            } else {
                spec_round_start(
                    self.fractional_offset as int,
                    spec_max_start(total_lines as int, visible_capacity as int),
                )
            },
            r <= spec_max_start(total_lines as int, visible_capacity as int),
    {
        let max_start: usize = if total_lines > visible_capacity {
            total_lines - visible_capacity
        } else {
            0
        };
        if self.autoscroll {
            max_start
        } else {
            round_start(self.fractional_offset, max_start)
        }
    }

    /// The absolute line range `[start, end)` to display. The end may exceed
    /// the total number of lines; a windowed read simply yields fewer
    /// entries in that case.
    pub fn window_range(&self, total_lines: usize, visible_capacity: usize) -> (r: (usize, usize))
        requires
            self.wf(),
        ensures
            r.0 == if self.autoscroll {
                spec_max_start(total_lines as int, visible_capacity as int)
            } else {
                spec_round_start(
                    self.fractional_offset as int,
                    spec_max_start(total_lines as int, visible_capacity as int),
                )
            },
            r.1 == r.0 + visible_capacity,
    {
        let start = self.start_line(total_lines, visible_capacity);
        (start, start + visible_capacity)
    }

    /// Apply a manual scroll of `delta` lines (positive toward older lines).
    /// Any nonzero movement leaves autoscroll; a delta of zero changes
    /// nothing at all.
    pub fn scroll_by(&mut self, delta: i64, total_lines: usize, visible_capacity: usize)
        requires
            old(self).wf(),
        ensures
            final(self).wf(),
            delta == 0 ==> *final(self) == *old(self),
            delta != 0 ==> !final(self).autoscroll,
            delta != 0 ==> final(self).fractional_offset == spec_clamp_offset(
                old(self).fractional_offset - spec_scroll_shift(
                    delta as int,
                    spec_pos_denom(total_lines as int, visible_capacity as int),
                ),
            ),
    {
        if delta == 0 {
            return ;
        }
        self.autoscroll = false;
        let max_start: usize = if total_lines > visible_capacity {
            total_lines - visible_capacity
        } else {
            0
        };
        let denom: u128 = if max_start >= 1 {
            max_start as u128
        } else {
            1
        };
        if delta > 0 {
            proof {
                lemma_mul_upper_bound(delta as int, i64::MAX as int, SCALE as int, SCALE as int);
                lemma_div_pos_is_pos((delta as int) * (SCALE as int), denom as int);
            }
            let shift: u128 = (delta as u128) * (SCALE as u128) / denom;
            if shift >= self.fractional_offset as u128 {
                self.fractional_offset = 0;
            } else {
                self.fractional_offset = self.fractional_offset - (shift as u64);
            }
        } else {
            let mag: i128 = -(delta as i128);
            proof {
                lemma_mul_upper_bound(mag as int, u64::MAX as int, SCALE as int, SCALE as int);
                lemma_div_pos_is_pos((mag as int) * (SCALE as int), denom as int);
            }
            let shift: u128 = (mag as u128) * (SCALE as u128) / denom;
            if shift >= (SCALE - self.fractional_offset) as u128 {
                self.fractional_offset = SCALE;
            } else {
                self.fractional_offset = self.fractional_offset + (shift as u64);
            }
        }
    }

    /// Jump by `amount` lines (positive toward newer lines) from the current
    /// rounded position, saturating at both ends; the landing position is
    /// converted back into a fraction. Autoscroll is left as it was.
    pub fn jump_by(&mut self, amount: i64, total_lines: usize, visible_capacity: usize)
        requires
            old(self).wf(),
        ensures
            final(self).wf(),
            final(self).autoscroll == old(self).autoscroll,
            final(self).fractional_offset == ({
                let ms = spec_max_start(total_lines as int, visible_capacity as int);
                let pos = spec_round_start(old(self).fractional_offset as int, ms);
                let landed = if pos + amount < 0 {
                    0
                } else if pos + amount > ms {
                    ms
                } else {
                    pos + amount
                };
                landed * (SCALE as int) / spec_pos_denom(
                    total_lines as int,
                    visible_capacity as int,
                )
            }),
    {
        let max_start: usize = if total_lines > visible_capacity {
            total_lines - visible_capacity
        } else {
            0
        };
        let pos: usize = round_start(self.fractional_offset, max_start);
        let landed: usize = if amount >= 0 {
            let cand: u128 = pos as u128 + amount as u128;
            if cand > max_start as u128 {
                max_start
            } else {
                cand as usize
            }
        } else {
            let mag: i128 = -(amount as i128);
            if mag as u128 >= pos as u128 {
                0
            } else {
                pos - (mag as usize)
            }
        };
        let denom: u128 = if max_start >= 1 {
            max_start as u128
        } else {
            1
        };
        proof {
            lemma_mul_upper_bound(landed as int, usize::MAX as int, SCALE as int, SCALE as int);
            lemma_pos_to_offset_bounds(landed as int, max_start as int);
        }
        let q: u128 = (landed as u128) * (SCALE as u128) / denom;
        self.fractional_offset = q as u64;
    }

    /// Leave manual scrolling and pin the view back to the newest lines, in
    /// one state change.
    pub fn resume_autoscroll(&mut self)
        ensures
            final(self).wf(),
            final(self).autoscroll,
            final(self).fractional_offset == SCALE,
    {
        self.fractional_offset = SCALE;
        self.autoscroll = true;
    }

    /// Reposition so that the given absolute line (one that exists, i.e. is
    /// below the total) falls inside the next computed window.
    pub fn jump_to_line(&mut self, line: usize, total_lines: usize)
        requires
            old(self).wf(),
            line < total_lines,
        ensures
            final(self).wf(),
            !final(self).autoscroll,
            final(self).fractional_offset == (line as int) * (SCALE as int) / (total_lines as int),
    {
        self.autoscroll = false;
        proof {
            lemma_mul_upper_bound(line as int, usize::MAX as int, SCALE as int, SCALE as int);
            lemma_mul_inequality(line as int, total_lines as int, SCALE as int);
            lemma_div_is_ordered(
                (line as int) * (SCALE as int),
                (total_lines as int) * (SCALE as int),
                total_lines as int,
            );
            lemma_div_by_multiple(SCALE as int, total_lines as int);
            lemma_mul_upper_bound(0, line as int, 0, SCALE as int);
            lemma_div_pos_is_pos((line as int) * (SCALE as int), total_lines as int);
        }
        let q: u128 = (line as u128) * (SCALE as u128) / (total_lines as u128);
        self.fractional_offset = q as u64;
    }
}

} // verus!
