//! Search engine: compiles a query (a literal or a pattern), evaluates it
//! against the currently visible window of lines, and navigates between the
//! matches. Matches are always scoped to the last-evaluated window, never to
//! the full history.

use crate::pattern::{
    compile_pattern, escape_literal, escaped, pattern_matches, regex_compiles, regex_accepts,
    CompiledPattern,
};
use crate::scroll::{ScrollState, SCALE};
use vstd::prelude::*;

verus! {

/// How a displayed line is to be marked up.
#[derive(PartialEq, Eq, Structural, Clone, Copy, Debug)]
pub enum Highlight {
    /// The line navigation currently rests on.
    Current,
    /// Any other line among the matches.
    Matched,
    /// A line without a match.
    Plain,
}

/// State of the incremental search over the visible window.
pub struct SearchState {
    /// Current search text; empty means search is disabled.
    pub query: String,
    /// Pattern compiled from the query; `None` when the query is empty or
    /// fails to compile, which leaves the search inert rather than failing.
    pub regex: Option<CompiledPattern>,
    /// Absolute line numbers of the matches found in the most recently
    /// evaluated window, ascending; line numbers are unique, so no
    /// duplicates can occur.
    pub matches: Vec<usize>,
    /// The match navigation currently rests on.
    pub current_match: Option<usize>,
}

impl SearchState {
    /// The matches stay strictly ascending and the current match, when set,
    /// is one of them.
    pub open spec fn wf(self) -> bool {
        &&& forall|i: int, j: int|
            0 <= i < j < self.matches@.len() ==> self.matches@[i] < self.matches@[j]
        &&& match self.current_match {
            Some(c) => self.matches@.contains(c),
            None => true,
        }
    }

    /// Whether a line of text matches the compiled pattern; false while no
    /// pattern is compiled.
    pub open spec fn spec_matches(self, text: Seq<char>) -> bool {
        match self.regex {
            Some(p) => regex_accepts(p.pattern(), text),
            None => false,
        }
    }

    /// Install a new query. With `use_regex` the text is compiled as a
    /// pattern; otherwise its escaped form is compiled, so special
    /// characters are matched verbatim. An empty text, or one that fails to
    /// compile, leaves the search inert. Matches and the current match are
    /// always cleared.
    pub fn update_search(&mut self, new_query: String, use_regex: bool)
        ensures
            final(self).wf(),
            final(self).query@ == new_query@,
            final(self).matches@ == Seq::<usize>::empty(),
            final(self).current_match is None,
            new_query@.len() == 0 ==> final(self).regex is None,
            new_query@.len() > 0 && use_regex ==> (final(self).regex is Some <==> regex_compiles(
                new_query@,
            )),
            new_query@.len() > 0 && use_regex ==> (final(self).regex matches Some(p) ==> p.pattern()
                == new_query@),
            new_query@.len() > 0 && !use_regex ==> (final(self).regex is Some <==> regex_compiles(
                escaped(new_query@),
            )),
            new_query@.len() > 0 && !use_regex ==> (final(self).regex matches Some(p)
                ==> p.pattern() == escaped(new_query@)),
    {
        self.query = new_query;
        self.regex = if self.query.as_str().is_empty() {
            None
        } else if use_regex {
            compile_pattern(self.query.as_str())
        } else {
            let literal = escape_literal(self.query.as_str());
            compile_pattern(literal.as_str())
        };
        self.matches.clear();
        self.current_match = None;
        proof {
            assert(self.matches@ =~= Seq::<usize>::empty());
        }
    }

    /// Whether one line of text matches the compiled pattern.
    pub fn matches_pattern(&self, text: &str) -> (r: bool)
        ensures
            r == self.spec_matches(text@),
    {
        match &self.regex {
            Some(p) => pattern_matches(p, text),
            None => false,
        }
    }

    /// Recompute the matches from the visible window: pairs of absolute line
    /// number and line, ascending by number, as a windowed read returns
    /// them. Matches from a previous window are discarded, not merged. The
    /// current match survives only if it is still among the new matches.
    pub fn evaluate(&mut self, window: &Vec<(usize, String)>)
        requires
            old(self).wf(),
            forall|i: int, j: int|
                0 <= i < j < window@.len() ==> window@[i].0 < window@[j].0,
        ensures
            final(self).wf(),
            final(self).query == old(self).query,
            final(self).regex == old(self).regex,
            forall|i: int|
                0 <= i < window@.len() && old(self).spec_matches(#[trigger] window@[i].1@)
                    ==> final(self).matches@.contains(window@[i].0),
            forall|n: usize|
                final(self).matches@.contains(n) ==> exists|i: int|
                    0 <= i < window@.len() && (#[trigger] window@[i]).0 == n && old(
                        self,
                    ).spec_matches(window@[i].1@),
            final(self).current_match == (match old(self).current_match {
                Some(c) => if final(self).matches@.contains(c) {
                    Some(c)
                } else {
                    None
                },
                None => None,
            }),
    {
        let mut found: Vec<usize> = Vec::new();
        let mut i: usize = 0;
        while i < window.len()
            invariant
                *self == *old(self),
                forall|a: int, b: int|
                    0 <= a < b < window@.len() ==> window@[a].0 < window@[b].0,
                i <= window@.len(),
                forall|a: int, b: int| 0 <= a < b < found@.len() ==> found@[a] < found@[b],
                forall|j: int|
                    0 <= j < i && self.spec_matches(#[trigger] window@[j].1@)
                        ==> found@.contains(window@[j].0),
                forall|n: usize|
                    found@.contains(n) ==> exists|j: int|
                        0 <= j < i && (#[trigger] window@[j]).0 == n && self.spec_matches(
                            window@[j].1@,
                        ),
            decreases window@.len() - i,
        {
            let entry = &window[i];
            if self.matches_pattern(entry.1.as_str()) {
                proof {
                    // every collected match came from an earlier, smaller
                    // line number, so the new one goes at the end
                    assert forall|a: int| 0 <= a < found@.len() implies found@[a]
                        < window@[i as int].0 by {
                        assert(found@.contains(found@[a]));
                    }
                }
                let ghost pre_found = found@;
                found.push(entry.0);
                proof {
                    assert(found@ == pre_found.push(entry.0));
                    assert(found@[found@.len() - 1] == entry.0);
                    assert(found@.contains(entry.0));
                    assert forall|n: usize| pre_found.contains(n) implies found@.contains(n) by {
                        let k = choose|k: int| 0 <= k < pre_found.len() && pre_found[k] == n;
                        assert(found@[k] == n);
                    }
                    assert forall|n: usize| found@.contains(n) implies pre_found.contains(n) || n
                        == entry.0 by {
                        let k = choose|k: int| 0 <= k < found@.len() && found@[k] == n;
                        if k < pre_found.len() {
                            assert(pre_found[k] == n);
                        }
                    }
                    assert(*entry == window@[i as int]);
                    assert forall|n: usize| found@.contains(n) implies exists|j: int|
                        0 <= j < i + 1 && (#[trigger] window@[j]).0 == n && self.spec_matches(
                            window@[j].1@,
                        ) by {
                        if !pre_found.contains(n) {
                            assert((window@[i as int]).0 == n && self.spec_matches(
                                window@[i as int].1@,
                            ));
                        }
                    }
                }
            }
            i = i + 1;
        }
        self.matches = found;
        match self.current_match {
            Some(c) => {
                if !contains_line(&self.matches, c) {
                    self.current_match = None;
                }
            },
            None => {},
        }
    }

    /// Move to the smallest match strictly after the current one; at the end
    /// of the matches, or with no current match, fall back to the first
    /// match. With no matches at all, nothing changes.
    pub fn next_match(&mut self)
        requires
            old(self).wf(),
        ensures
            final(self).wf(),
            final(self).query == old(self).query,
            final(self).regex == old(self).regex,
            final(self).matches == old(self).matches,
            old(self).matches@.len() == 0 ==> final(self).current_match == old(
                self,
            ).current_match,
            old(self).matches@.len() > 0 ==> final(self).current_match == Some(
                spec_next_target(old(self).matches@, old(self).current_match),
            ),
    {
        if self.matches.len() == 0 {
            return ;
        }
        match self.current_match {
            Some(c) => {
                let mut i: usize = 0;
                while i < self.matches.len()
                    invariant
                        *self == *old(self),
                        old(self).wf(),
                        old(self).matches@.len() > 0,
                        old(self).current_match == Some(c),
                        i <= self.matches@.len(),
                        forall|j: int| 0 <= j < i ==> self.matches@[j] <= c,
                    decreases self.matches@.len() - i,
                {
                    let m = self.matches[i];
                    if m > c {
                        proof {
                            lemma_first_above_is_target(self.matches@, c, i as int);
                        }
                        self.current_match = Some(m);
                        proof {
                            assert(self.matches@.contains(m));
                        }
                        return ;
                    }
                    i = i + 1;
                }
                self.current_match = Some(self.matches[0]);
                proof {
                    assert(self.matches@.contains(self.matches@[0]));
                }
            },
            None => {
                self.current_match = Some(self.matches[0]);
                proof {
                    assert(self.matches@.contains(self.matches@[0]));
                }
            },
        }
    }

    /// Move to the largest match strictly before the current one; at the
    /// start of the matches, or with no current match, fall back to the last
    /// match. With no matches at all, nothing changes.
    pub fn previous_match(&mut self)
        requires
            old(self).wf(),
        ensures
            final(self).wf(),
            final(self).query == old(self).query,
            final(self).regex == old(self).regex,
            final(self).matches == old(self).matches,
            old(self).matches@.len() == 0 ==> final(self).current_match == old(
                self,
            ).current_match,
            old(self).matches@.len() > 0 ==> final(self).current_match == Some(
                spec_previous_target(old(self).matches@, old(self).current_match),
            ),
    {
        if self.matches.len() == 0 {
            return ;
        }
        match self.current_match {
            Some(c) => {
                let mut i: usize = self.matches.len();
                while i > 0
                    invariant
                        *self == *old(self),
                        old(self).wf(),
                        old(self).matches@.len() > 0,
                        old(self).current_match == Some(c),
                        i <= self.matches@.len(),
                        forall|j: int| i <= j < self.matches@.len() ==> self.matches@[j] >= c,
                    decreases i,
                {
                    let m = self.matches[i - 1];
                    if m < c {
                        proof {
                            lemma_last_below_is_target(self.matches@, c, i as int - 1);
                        }
                        self.current_match = Some(m);
                        proof {
                            assert(self.matches@.contains(m));
                        }
                        return ;
                    }
                    i = i - 1;
                }
                self.current_match = Some(self.matches[self.matches.len() - 1]);
                proof {
                    assert(self.matches@.contains(self.matches@[self.matches@.len() - 1]));
                }
            },
            None => {
                self.current_match = Some(self.matches[self.matches.len() - 1]);
                proof {
                    assert(self.matches@.contains(self.matches@[self.matches@.len() - 1]));
                }
            },
        }
    }
}

impl SearchState {
    /// How the line with the given absolute number is to be marked up: the
    /// current match stands out, other matches are marked, the rest is
    /// plain.
    pub fn line_highlight(&self, line_num: usize) -> (r: Highlight)
        ensures
            r == (if self.current_match == Some(line_num) {
                Highlight::Current
            } else if self.matches@.contains(line_num) {
                Highlight::Matched
            } else {
                Highlight::Plain
            }),
    {
        let is_current = match self.current_match {
            Some(c) => c == line_num,
            None => false,
        };
        if is_current {
            Highlight::Current
        } else if contains_line(&self.matches, line_num) {
            Highlight::Matched
        } else {
            Highlight::Plain
        }
    }
}

/// Move to the next match and reposition the scroll mapper so the target
/// line falls inside the next computed window: autoscroll is left and the
/// fraction set to the target's share of the history. With no matches,
/// neither state changes.
pub fn navigate_next(search: &mut SearchState, scroll: &mut ScrollState, total_lines: usize)
    requires
        old(search).wf(),
        old(scroll).wf(),
        forall|i: int|
            0 <= i < old(search).matches@.len() ==> old(search).matches@[i] < total_lines,
    ensures
        final(search).wf(),
        final(scroll).wf(),
        final(search).query == old(search).query,
        final(search).regex == old(search).regex,
        final(search).matches == old(search).matches,
        old(search).matches@.len() == 0 ==> final(search).current_match == old(
            search,
        ).current_match && *final(scroll) == *old(scroll),
        old(search).matches@.len() > 0 ==> ({
            let target = spec_next_target(old(search).matches@, old(search).current_match);
            &&& final(search).current_match == Some(target)
            &&& !final(scroll).autoscroll
            &&& final(scroll).fractional_offset == (target as int) * (SCALE as int) / (
            total_lines as int)
        }),
{
    if search.matches.len() == 0 {
        return ;
    }
    search.next_match();
    if let Some(target) = search.current_match {
        proof {
            let ghost k = choose|k: int|
                0 <= k < search.matches@.len() && search.matches@[k] == target;
            assert(search.matches@[k] < total_lines);
        }
        scroll.jump_to_line(target, total_lines);
    }
}

/// Move to the previous match and reposition the scroll mapper, as
/// `navigate_next` does.
pub fn navigate_previous(search: &mut SearchState, scroll: &mut ScrollState, total_lines: usize)
    requires
        old(search).wf(),
        old(scroll).wf(),
        forall|i: int|
            0 <= i < old(search).matches@.len() ==> old(search).matches@[i] < total_lines,
    ensures
        final(search).wf(),
        final(scroll).wf(),
        final(search).query == old(search).query,
        final(search).regex == old(search).regex,
        final(search).matches == old(search).matches,
        old(search).matches@.len() == 0 ==> final(search).current_match == old(
            search,
        ).current_match && *final(scroll) == *old(scroll),
        old(search).matches@.len() > 0 ==> ({
            let target = spec_previous_target(old(search).matches@, old(search).current_match);
            &&& final(search).current_match == Some(target)
            &&& !final(scroll).autoscroll
            &&& final(scroll).fractional_offset == (target as int) * (SCALE as int) / (
            total_lines as int)
        }),
{
    if search.matches.len() == 0 {
        return ;
    }
    search.previous_match();
    if let Some(target) = search.current_match {
        proof {
            let ghost k = choose|k: int|
                0 <= k < search.matches@.len() && search.matches@[k] == target;
            assert(search.matches@[k] < total_lines);
        }
        scroll.jump_to_line(target, total_lines);
    }
}

impl Default for SearchState {
    /// Search disabled: empty query, nothing compiled, no matches.
    fn default() -> (r: SearchState)
        ensures
            r.wf(),
            r.query@ == Seq::<char>::empty(),
            r.regex is None,
            r.matches@ == Seq::<usize>::empty(),
            r.current_match is None,
    {
        SearchState { query: String::new(), regex: None, matches: Vec::new(), current_match: None }
    }
}

/// Where `next_match` lands on nonempty, strictly ascending `matches`: the
/// smallest element strictly above the current match, or the first element
/// when there is none or no current match.
pub open spec fn spec_next_target(matches: Seq<usize>, current: Option<usize>) -> usize
    recommends
        matches.len() > 0,
{
    match current {
        Some(c) => if exists|i: int| 0 <= i < matches.len() && matches[i] > c {
            matches[choose|i: int|
                0 <= i < matches.len() && matches[i] > c && forall|j: int|
                    0 <= j < i ==> matches[j] <= c]
        } else {
            matches[0]
        },
        None => matches[0],
    }
}

/// Where `previous_match` lands: the largest element strictly below the
/// current match, or the last element when there is none or no current
/// match.
pub open spec fn spec_previous_target(matches: Seq<usize>, current: Option<usize>) -> usize
    recommends
        matches.len() > 0,
{
    match current {
        Some(c) => if exists|i: int| 0 <= i < matches.len() && matches[i] < c {
            matches[choose|i: int|
                0 <= i < matches.len() && matches[i] < c && forall|j: int|
                    i < j < matches.len() ==> matches[j] >= c]
        } else {
            matches[matches.len() - 1]
        },
        None => matches[matches.len() - 1],
    }
}

/// On ascending `matches`, the first index whose element exceeds `c` is the
/// index `spec_next_target` picks.
proof fn lemma_first_above_is_target(matches: Seq<usize>, c: usize, i: int)
    requires
        forall|a: int, b: int| 0 <= a < b < matches.len() ==> matches[a] < matches[b],
        0 <= i < matches.len(),
        matches[i] > c,
        forall|j: int| 0 <= j < i ==> matches[j] <= c,
    ensures
        spec_next_target(matches, Some(c)) == matches[i],
{
    assert(exists|k: int| 0 <= k < matches.len() && matches[k] > c);
    let k = choose|k: int|
        0 <= k < matches.len() && matches[k] > c && forall|j: int| 0 <= j < k ==> matches[j] <= c;
    assert(0 <= i < matches.len() && matches[i] > c && forall|j: int|
        0 <= j < i ==> matches[j] <= c);
    if k < i {
        assert(matches[k] <= c);
    }
    if i < k {
        assert(matches[i] <= c);
    }
}

/// On ascending `matches`, the last index whose element is below `c` is the
/// index `spec_previous_target` picks.
proof fn lemma_last_below_is_target(matches: Seq<usize>, c: usize, i: int)
    requires
        forall|a: int, b: int| 0 <= a < b < matches.len() ==> matches[a] < matches[b],
        0 <= i < matches.len(),
        matches[i] < c,
        forall|j: int| i < j < matches.len() ==> matches[j] >= c,
    ensures
        spec_previous_target(matches, Some(c)) == matches[i],
{
    assert(exists|k: int| 0 <= k < matches.len() && matches[k] < c);
    let k = choose|k: int|
        0 <= k < matches.len() && matches[k] < c && forall|j: int|
            k < j < matches.len() ==> matches[j] >= c;
    assert(0 <= i < matches.len() && matches[i] < c && forall|j: int|
        i < j < matches.len() ==> matches[j] >= c);
    if k < i {
        assert(matches[i] >= c);
    }
    if i < k {
        assert(matches[k] >= c);
    }
}

/// Whether `x` occurs in `v`.
fn contains_line(v: &Vec<usize>, x: usize) -> (r: bool)
    ensures
        r == v@.contains(x),
{
    let mut i: usize = 0;
    while i < v.len()
        invariant
            i <= v@.len(),
            forall|j: int| 0 <= j < i ==> v@[j] != x,
        decreases v@.len() - i,
    {
        if v[i] == x {
            return true;
        }
        i = i + 1;
    }
    false
}

} // verus!
