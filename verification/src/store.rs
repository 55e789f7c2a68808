//! Bounded log store: a fixed-capacity buffer of the most recent lines plus a
//! monotonic counter of every line ever appended. Lines are addressed by their
//! absolute line number, assigned once at ingestion and never reused, even
//! after the line has been evicted.

use std::collections::VecDeque;
use vstd::prelude::*;

verus! {

/// Abstract state of the store: the retained lines (oldest first), the fixed
/// capacity, and the count of all lines ever appended.
pub ghost struct StoreModel {
    pub lines: Seq<Seq<char>>,
    pub capacity: int,
    pub total: int,
}

impl StoreModel {
    /// Every reachable store satisfies this: positive capacity, and exactly
    /// `min(total, capacity)` lines retained.
    pub open spec fn wf(self) -> bool {
        &&& self.capacity > 0
        &&& self.total >= 0
        &&& self.lines.len() == if self.total < self.capacity {
            self.total
        } else {
            self.capacity
        }
    }

    /// Absolute line number of the oldest retained line; 0 while nothing has
    /// been evicted.
    pub open spec fn buffer_start(self) -> int {
        self.total - self.lines.len()
    }

    /// The state after appending one line: evict the oldest line if the store
    /// is full, retain the new line as newest, count it.
    pub open spec fn appended(self, line: Seq<char>) -> StoreModel {
        StoreModel {
            lines: if self.lines.len() < self.capacity {
                self.lines.push(line)
            } else {
                self.lines.subrange(1, self.lines.len() as int).push(line)
            },
            capacity: self.capacity,
            total: self.total + 1,
        }
    }

    /// The state after appending every line of `input`, in order.
    pub open spec fn appended_all(self, input: Seq<Seq<char>>) -> StoreModel
        decreases input.len(),
    {
        if input.len() == 0 {
            self
        } else {
            self.appended(input[0]).appended_all(input.subrange(1, input.len() as int))
        }
    }

    /// First absolute line number a window request actually yields: the
    /// requested start, clamped to the oldest retained line.
    pub open spec fn window_lo(self, start: int) -> int {
        if start > self.buffer_start() {
            start
        } else {
            self.buffer_start()
        }
    }

    /// One past the last absolute line number a window request yields: the
    /// requested end, capped at the total number of lines.
    pub open spec fn window_hi(self, end: int) -> int {
        if end < self.total {
            end
        } else {
            self.total
        }
    }

    /// What a windowed read of `[start, end)` returns: every retained line
    /// whose absolute number falls in the range, paired with that number.
    pub open spec fn window(self, start: int, end: int) -> Seq<(int, Seq<char>)> {
        if self.window_lo(start) >= self.window_hi(end) {
            Seq::empty()
        } else {
            Seq::new(
                (self.window_hi(end) - self.window_lo(start)) as nat,
                |i: int|
                    (
                        self.window_lo(start) + i,
                        self.lines[self.window_lo(start) - self.buffer_start() + i],
                    ),
            )
        }
    }
}

/// Fixed-capacity buffer of the most recent log lines. Appending past the
/// capacity evicts the oldest line; `total_lines` counts every append and
/// never decreases.
pub struct CircularLogBuffer {
    buffer: VecDeque<String>,
    capacity: usize,
    total_lines: usize,
}

impl CircularLogBuffer {
    /// The abstract state this buffer represents.
    pub closed spec fn model(self) -> StoreModel {
        StoreModel {
            lines: self.buffer@.map_values(|s: String| s@),
            capacity: self.capacity as int,
            total: self.total_lines as int,
        }
    }

    /// Well-formedness carried by every constructed buffer.
    pub closed spec fn wf(self) -> bool {
        &&& self.model().wf()
        &&& self.capacity >= 1
    }

    pub fn new(capacity: usize) -> (r: CircularLogBuffer)
        requires
            capacity >= 1,
        ensures
            r.wf(),
            r.model().capacity == capacity,
            r.model().total == 0,
            r.model().lines == Seq::<Seq<char>>::empty(),
    {
        let r = CircularLogBuffer {
            buffer: VecDeque::with_capacity(capacity),
            capacity,
            total_lines: 0,
        };
        proof {
            assert(r.model().lines =~= Seq::<Seq<char>>::empty());
        }
        r
    }

    /// Append one line, evicting the oldest if at capacity. Always counts the
    /// line; eviction never decreases `total_lines`.
    pub fn push(&mut self, line: String)
        requires
            old(self).wf(),
            old(self).model().total < usize::MAX,
        ensures
            final(self).wf(),
            final(self).model() == old(self).model().appended(line@),
            final(self).model().total == old(self).model().total + 1,
            final(self).model().total >= old(self).model().total,
    {
        if self.buffer.len() >= self.capacity {
            self.buffer.pop_front();
        }
        self.buffer.push_back(line);
        self.total_lines = self.total_lines + 1;
        proof {
            assert(final(self).model().lines =~= old(self).model().appended(line@).lines);
            assert(final(self).model() =~= old(self).model().appended(line@));
        }
    }

    /// The number of lines ever appended, regardless of capacity.
    pub fn total_lines(&self) -> (r: usize)
        ensures
            r == self.model().total,
    {
        self.total_lines
    }

    /// The retained lines with absolute numbers in `[start, end)`, oldest
    /// first, each paired with its true absolute line number. A range that is
    /// partially or fully evicted, or that runs past the newest line, yields
    /// fewer (possibly zero) entries rather than failing.
    pub fn get_window(&self, start: usize, end: usize) -> (r: Vec<(usize, String)>)
        requires
            self.wf(),
        ensures
            r@.len() == self.model().window(start as int, end as int).len(),
            forall|i: int|
                0 <= i < r@.len() ==> (#[trigger] r@[i]).0 == self.model().window(
                    start as int,
                    end as int,
                )[i].0 && r@[i].1@ == self.model().window(start as int, end as int)[i].1,
    {
        let buffer_start = self.total_lines - self.buffer.len();
        let lo = if start > buffer_start {
            start
        } else {
            buffer_start
        };
        let hi = if end < self.total_lines {
            end
        } else {
            self.total_lines
        };
        let mut r: Vec<(usize, String)> = Vec::new();
        if lo >= hi {
            return r;
        }
        let mut i: usize = lo;
        while i < hi
            invariant
                self.wf(),
                buffer_start == self.model().buffer_start(),
                lo == self.model().window_lo(start as int),
                hi == self.model().window_hi(end as int),
                lo <= i <= hi,
                lo < hi,
                r@.len() == i - lo,
                forall|j: int|
                    0 <= j < r@.len() ==> (#[trigger] r@[j]).0 == self.model().window(
                        start as int,
                        end as int,
                    )[j].0 && r@[j].1@ == self.model().window(start as int, end as int)[j].1,
            decreases hi - i,
        {
            let line = self.buffer[i - buffer_start].clone();
            r.push((i, line));
            i = i + 1;
        }
        r
    }
}

/// The store keeps exact count: appending any sequence of lines raises
/// `total` by exactly the number of lines appended, whatever the capacity.
pub proof fn lemma_total_counts_appends(m: StoreModel, input: Seq<Seq<char>>)
    requires
        m.wf(),
    ensures
        m.appended_all(input).wf(),
        m.appended_all(input).capacity == m.capacity,
        m.appended_all(input).total == m.total + input.len(),
    decreases input.len(),
{
    if input.len() > 0 {
        lemma_total_counts_appends(m.appended(input[0]), input.subrange(1, input.len() as int));
    }
}

/// Appending never decreases `total`: eviction drops lines, not the count.
pub proof fn lemma_total_monotonic(m: StoreModel, input: Seq<Seq<char>>)
    requires
        m.wf(),
    ensures
        m.appended_all(input).total >= m.total,
{
    lemma_total_counts_appends(m, input);
}

/// After appending `input`, the retained lines are exactly the tail of the
/// old lines followed by `input`, cut to the retained length.
pub proof fn lemma_appended_all_lines(m: StoreModel, input: Seq<Seq<char>>)
    requires
        m.wf(),
    ensures
        m.appended_all(input).wf(),
        m.appended_all(input).lines =~= (m.lines + input).subrange(
            m.lines.len() + input.len() - m.appended_all(input).lines.len(),
            m.lines.len() + input.len() as int,
        ),
    decreases input.len(),
{
    lemma_total_counts_appends(m, input);
    if input.len() > 0 {
        let m1 = m.appended(input[0]);
        let rest = input.subrange(1, input.len() as int);
        lemma_appended_all_lines(m1, rest);
        let all = m.lines + input;
        let all1 = m1.lines + rest;
        let n = m.appended_all(input).lines.len() as int;
        if m.lines.len() < m.capacity {
            assert(all1 =~= all);
        } else {
            assert(all1 =~= all.subrange(1, all.len() as int));
            assert(all1.subrange(all1.len() - n, all1.len() as int) =~= all.subrange(
                all.len() - n,
                all.len() as int,
            ));
        }
    }
}

/// After appending at least `capacity` lines, the store retains exactly the
/// last `capacity` of them, in order.
pub proof fn lemma_retains_last_capacity(m: StoreModel, input: Seq<Seq<char>>)
    requires
        m.wf(),
        input.len() >= m.capacity,
    ensures
        m.appended_all(input).lines =~= input.subrange(
            input.len() - m.capacity,
            input.len() as int,
        ),
{
    lemma_total_counts_appends(m, input);
    lemma_appended_all_lines(m, input);
    let all = m.lines + input;
    let n = m.appended_all(input).lines.len() as int;
    assert(n == m.capacity);
    assert(all.subrange(all.len() - n, all.len() as int) =~= input.subrange(
        input.len() - m.capacity,
        input.len() as int,
    ));
}

/// A store of capacity `C` fed `N >= C` lines retains exactly the last `C`
/// of them, and a window over the whole history returns exactly those `C`
/// lines under absolute numbers `N - C .. N - 1`.
pub proof fn lemma_full_window_after_appends(m: StoreModel, input: Seq<Seq<char>>)
    requires
        m.wf(),
        m.total == 0,
        input.len() >= m.capacity,
    ensures
        m.appended_all(input).window(0, input.len() as int).len() == m.capacity,
        forall|i: int|
            0 <= i < m.capacity ==> #[trigger] m.appended_all(input).window(
                0,
                input.len() as int,
            )[i] == (input.len() - m.capacity + i, input[input.len() - m.capacity + i]),
{
    lemma_total_counts_appends(m, input);
    lemma_retains_last_capacity(m, input);
    lemma_window_full(m.appended_all(input));
}

/// A window request over the whole history returns every retained line,
/// paired with consecutive absolute numbers ending at `total - 1`.
pub proof fn lemma_window_full(m: StoreModel)
    requires
        m.wf(),
    ensures
        m.window(0, m.total).len() == m.lines.len(),
        forall|i: int|
            0 <= i < m.lines.len() ==> #[trigger] m.window(0, m.total)[i] == (
                m.buffer_start() + i,
                m.lines[i],
            ),
{
}

/// An empty or inverted range yields an empty window.
pub proof fn lemma_window_empty_range(m: StoreModel, start: int, end: int)
    requires
        m.wf(),
        start >= end,
    ensures
        m.window(start, end) == Seq::<(int, Seq<char>)>::empty(),
{
}

/// Windowed reads are idempotent: with the same store state and the same
/// range, two reads see the same entries.
pub proof fn lemma_window_idempotent(
    m: StoreModel,
    start: int,
    end: int,
    r1: Seq<(int, Seq<char>)>,
    r2: Seq<(int, Seq<char>)>,
)
    requires
        r1 == m.window(start, end),
        r2 == m.window(start, end),
    ensures
        r1 == r2,
{
}

} // verus!
