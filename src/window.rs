use vstd::prelude::*;

use crate::state::{marked_of, State};

verus! {

/// `a - b`, or zero where that would be negative.
pub open spec fn sat_sub(a: int, b: int) -> int {
    if a > b {
        a - b
    } else {
        0
    }
}

/// `a + b`, held at the largest `usize`.
pub open spec fn sat_add(a: int, b: int) -> int {
    if a + b > usize::MAX {
        usize::MAX as int
    } else {
        a + b
    }
}

/// First visible row before it is pulled back to fill the window: the
/// selection is kept near the middle.
pub open spec fn centered_first(selected: Option<usize>, rows: int) -> int {
    match selected {
        Some(s) => sat_sub(s as int, rows / 2),
        None => 0,
    }
}

/// Index of the last row of the window (one row holds the table's header).
pub open spec fn window_last(selected: Option<usize>, rows: int) -> int {
    sat_sub(sat_add(centered_first(selected, rows), rows), 2)
}

/// First visible row, pulled back when the window runs past the matches.
pub open spec fn window_first(selected: Option<usize>, len: int, rows: int) -> int {
    let last = window_last(selected, rows);
    if last > len {
        sat_sub(centered_first(selected, rows), last - len)
    } else {
        centered_first(selected, rows)
    }
}

/// Which part of the match list a table of a given height shows.
#[derive(Debug, Clone, Copy, PartialEq, Eq, Structural)]
pub struct MatchWindow {
    /// Index of the first match shown.
    pub first_row_index: usize,
    /// Index of the match on the last row of the window.
    pub last_row_index: usize,
    /// How many matches may be shown at most.
    pub visible_rows: usize,
    /// Matches hidden above the window.
    pub rows_above: usize,
    /// Matches hidden below the window.
    pub rows_below: usize,
}

impl State {
    /// How many matches are marked for extraction.
    pub fn marked_count(&self) -> (r: usize)
        ensures
            r == marked_of(self@.matches).len(),
    {
        let ghost ms = self@.matches;
        let n = self.current_matches.len();
        let mut count: usize = 0;
        let mut i: usize = 0;
        while i < n
            invariant
                n == ms.len(),
                ms == crate::state::matches_view(self.current_matches@),
                i <= n,
                count == marked_of(ms.take(i as int)).len(),
                count <= i,
            decreases n - i,
        {
            assert(ms.take(i + 1).drop_last() =~= ms.take(i as int));
            proof {
                reveal(Seq::filter);
            }
            if self.current_matches[i].selected_for_extraction {
                count = count + 1;
            }
            i = i + 1;
        }
        assert(ms.take(n as int) =~= ms);
        count
    }

    /// The window of matches that a table with room for `rows` rows shows,
    /// keeping the selection near its middle.
    pub fn match_window(&self, rows: usize) -> (r: MatchWindow)
        ensures
            r.first_row_index == window_first(self.selected_match_index, self.current_matches@.len() as int, rows as int),
            r.last_row_index == window_last(self.selected_match_index, rows as int),
            r.visible_rows == sat_sub(rows as int, 1),
            r.rows_above == r.first_row_index,
            r.rows_below == sat_sub(self.current_matches@.len() as int, r.last_row_index as int),
    {
        let len = self.current_matches.len();
        let mut first = match self.selected_match_index {
            Some(s) => s.saturating_sub(rows / 2),
            None => 0,
        };
        let last = first.saturating_add(rows).saturating_sub(2);
        if last > len {
            first = first.saturating_sub(last - len);
        }
        MatchWindow {
            first_row_index: first,
            last_row_index: last,
            visible_rows: rows.saturating_sub(1),
            rows_above: first,
            rows_below: len.saturating_sub(last),
        }
    }
}

} // verus!
