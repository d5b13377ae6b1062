use vstd::prelude::*;
use vstd::string::StrSliceExecFns;

use crate::pane_id::PaneIdHashable;
use crate::text::{chars_of, lower_of, lowercase};

verus! {

/// `f` occurs in `t` starting at character index `i`.
pub open spec fn occurs_at(t: Seq<char>, f: Seq<char>, i: int) -> bool {
    0 <= i && i + f.len() <= t.len() && t.subrange(i, i + f.len()) == f
}

/// `f` occurs somewhere in `t`.
pub open spec fn contains(t: Seq<char>, f: Seq<char>) -> bool {
    exists|i: int| occurs_at(t, f, i)
}

/// Start indices, in increasing order, of the occurrences of a non-empty `f`
/// in `t` that start at `i` or later.
pub open spec fn occurrences_from(t: Seq<char>, f: Seq<char>, i: nat) -> Seq<nat>
    decreases t.len() - i,
{
    if f.len() == 0 || i + f.len() > t.len() {
        seq![]
    } else if occurs_at(t, f, i as int) {
        seq![i] + occurrences_from(t, f, i + 1)
    } else {
        occurrences_from(t, f, i + 1)
    }
}

/// Start indices of every occurrence of a non-empty `f` in `t`.
pub open spec fn occurrences(t: Seq<char>, f: Seq<char>) -> Seq<nat> {
    occurrences_from(t, f, 0)
}

/// Highlighted ranges, as (start, length), for the given start indices.
pub open spec fn ranges_of(starts: Seq<nat>, width: usize) -> Seq<(usize, usize)> {
    starts.map_values(|s: nat| (s as usize, width))
}

/// A title matches a filter when the lowercased filter occurs in the
/// lowercased title (never for an empty filter).
pub open spec fn title_matches(title: Seq<char>, filter: Seq<char>) -> bool {
    occurrences(lower_of(title), lower_of(filter)).len() > 0
}

/// Display text with highlighted character ranges, each given as
/// (start, length).
pub struct HighlightedText {
    pub text: String,
    pub highlights: Vec<(usize, usize)>,
}

/// The contents of a match, as the contracts see them.
pub struct MatchView {
    pub pane_id: PaneIdHashable,
    pub title: Seq<char>,
    pub highlights: Seq<(usize, usize)>,
    pub marked: bool,
}

/// One search result: the pane it refers to, its highlighted title, and
/// whether it is marked for extraction.
pub struct Match {
    pub pane_id: PaneIdHashable,
    pub text: HighlightedText,
    pub selected_for_extraction: bool,
}

impl View for Match {
    type V = MatchView;

    open spec fn view(&self) -> MatchView {
        MatchView {
            pane_id: self.pane_id,
            title: self.text.text@,
            highlights: self.text.highlights@,
            marked: self.selected_for_extraction,
        }
    }
}

/// The result that a search for `filter` yields for a pane with this title.
pub open spec fn match_view_of(pane_id: PaneIdHashable, title: Seq<char>, filter: Seq<char>) -> MatchView {
    MatchView {
        pane_id,
        title,
        highlights: ranges_of(occurrences(lower_of(title), lower_of(filter)), filter.len() as usize),
        marked: false,
    }
}

impl Match {
    /// A fresh, unmarked match.
    pub fn new(pane_id: PaneIdHashable, text: HighlightedText) -> (r: Self)
        ensures
            r.pane_id == pane_id,
            r.text == text,
            !r.selected_for_extraction,
    {
        Match { pane_id, text, selected_for_extraction: false }
    }

    /// Flips the mark for extraction.
    pub fn toggle_mark_for_extraction(&mut self)
        ensures
            final(self).selected_for_extraction == !old(self).selected_for_extraction,
            final(self).pane_id == old(self).pane_id,
            final(self).text == old(self).text,
    {
        self.selected_for_extraction = !self.selected_for_extraction;
    }
}

/// Whether `f` occurs in `t` at index `i`, which must leave room for `f`.
fn occurs_here(t: &Vec<char>, f: &Vec<char>, i: usize) -> (r: bool)
    requires
        i + f@.len() <= t@.len(),
    ensures
        r == occurs_at(t@, f@, i as int),
{
    let n = f.len();
    let t_len = t.len();
    let mut j: usize = 0;
    while j < n
        invariant
            n == f@.len(),
            t_len == t@.len(),
            i + n <= t@.len(),
            j <= n,
            forall|k: int| 0 <= k < j ==> t@[i + k] == f@[k],
        decreases n - j,
    {
        if t[i + j] != f[j] {
            assert(t@.subrange(i as int, i + n)[j as int] != f@[j as int]);
            return false;
        }
        j = j + 1;
    }
    assert(t@.subrange(i as int, i + n) =~= f@);
    true
}

/// The highlighted ranges of every occurrence of `filter` in `title`, each
/// `width` characters long.
pub fn highlight_occurrences(title: &Vec<char>, filter: &Vec<char>, width: usize) -> (r: Vec<(usize, usize)>)
    ensures
        r@ == ranges_of(occurrences(title@, filter@), width),
{
    let t_len = title.len();
    let f_len = filter.len();
    let mut r: Vec<(usize, usize)> = Vec::new();
    if f_len == 0 || f_len > t_len {
        assert(r@ =~= ranges_of(occurrences(title@, filter@), width));
        return r;
    }
    let ghost mut found: Seq<nat> = seq![];
    let mut i: usize = 0;
    while i <= t_len - f_len
        invariant
            t_len == title@.len(),
            f_len == filter@.len(),
            0 < f_len <= t_len,
            i <= t_len - f_len + 1,
            occurrences(title@, filter@) == found + occurrences_from(title@, filter@, i as nat),
            r@ == ranges_of(found, width),
        decreases t_len - f_len + 1 - i,
    {
        let here = occurs_here(title, filter, i);
        proof {
            let rest = occurrences_from(title@, filter@, (i + 1) as nat);
            if here {
                assert(found + (seq![i as nat] + rest) =~= found.push(i as nat) + rest);
            }
        }
        if here {
            r.push((i, width));
            proof {
                found = found.push(i as nat);
            }
            assert(r@ =~= ranges_of(found, width));
        }
        i = i + 1;
    }
    assert(found + occurrences_from(title@, filter@, i as nat) =~= found);
    r
}

/// Every occurrence, lowercased on both sides, of `filter` in `title`, as
/// highlighted ranges as long as `filter`.
pub fn highlights_for(title: &str, filter: &str) -> (r: Vec<(usize, usize)>)
    ensures
        r@ == ranges_of(occurrences(lower_of(title@), lower_of(filter@)), filter@.len() as usize),
{
    let width = filter.unicode_len();
    let lc_title = chars_of(lowercase(title).as_str());
    let lc_filter = chars_of(lowercase(filter).as_str());
    highlight_occurrences(&lc_title, &lc_filter, width)
}

proof fn lemma_occurrences_from_members(t: Seq<char>, f: Seq<char>, i: nat)
    ensures
        forall|x: nat| #[trigger] occurrences_from(t, f, i).contains(x) <==> (f.len() > 0 && i <= x && occurs_at(t, f, x as int)),
    decreases t.len() - i,
{
    if f.len() == 0 || i + f.len() > t.len() {
        assert forall|x: nat| !(f.len() > 0 && i <= x && occurs_at(t, f, x as int)) by {}
    } else {
        lemma_occurrences_from_members(t, f, i + 1);
        let rest = occurrences_from(t, f, i + 1);
        if occurs_at(t, f, i as int) {
            let s = seq![i] + rest;
            assert(occurrences_from(t, f, i) == s);
            assert forall|x: nat| #[trigger] occurrences_from(t, f, i).contains(x) <==> (i <= x && occurs_at(t, f, x as int)) by {
                if s.contains(x) {
                    let k = choose|k: int| 0 <= k < s.len() && s[k] == x;
                    if k > 0 {
                        assert(rest[k - 1] == x);
                        assert(rest.contains(x));
                    }
                }
                if rest.contains(x) {
                    let k = choose|k: int| 0 <= k < rest.len() && rest[k] == x;
                    assert(s[k + 1] == x);
                }
                if x == i {
                    assert(s[0] == x);
                }
            }
        } else {
            assert(occurrences_from(t, f, i) == rest);
        }
    }
}

/// A title is among the matches of a filter exactly when the lowercased
/// filter is non-empty and occurs in the lowercased title; the highlighted
/// ranges start at exactly the occurrences, each as long as the filter.
pub proof fn lemma_match_iff_occurs(pane_id: PaneIdHashable, title: Seq<char>, filter: Seq<char>)
    ensures
        title_matches(title, filter) <==> lower_of(filter).len() > 0 && contains(lower_of(title), lower_of(filter)),
        forall|x: nat| #[trigger] occurrences(lower_of(title), lower_of(filter)).contains(x) <==> (lower_of(filter).len() > 0 && occurs_at(lower_of(title), lower_of(filter), x as int)),
        match_view_of(pane_id, title, filter).highlights.len() == occurrences(lower_of(title), lower_of(filter)).len(),
        forall|k: int| 0 <= k < occurrences(lower_of(title), lower_of(filter)).len() ==>
            #[trigger] match_view_of(pane_id, title, filter).highlights[k] == (occurrences(lower_of(title), lower_of(filter))[k] as usize, filter.len() as usize),
{
    let t = lower_of(title);
    let f = lower_of(filter);
    lemma_occurrences_from_members(t, f, 0);
    let occ = occurrences(t, f);
    if occ.len() > 0 {
        assert(occ.contains(occ[0]));
        assert(occurs_at(t, f, occ[0] as int));
    }
    if f.len() > 0 && contains(t, f) {
        let i = choose|i: int| occurs_at(t, f, i);
        assert(occ.contains(i as nat));
    }
}

} // verus!
