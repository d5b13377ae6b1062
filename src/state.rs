use vstd::prelude::*;

use crate::cursor::cursor_valid;
use crate::matching::{highlights_for, match_view_of, title_matches, HighlightedText, Match, MatchView};
use crate::pane_id::PaneIdHashable;

verus! {

/// The whole model of the picker: the live filter, the inventory of tabs and
/// panes, the current matches and the two cursors.
pub struct State {
    pub filter: String,
    pub tabs: Vec<String>,
    pub panes: Vec<(PaneIdHashable, String)>,
    pub current_matches: Vec<Match>,
    pub selected_tab_index: Option<usize>,
    pub selected_match_index: Option<usize>,
}

/// The model as the contracts see it.
pub struct StateView {
    pub filter: Seq<char>,
    pub tabs: Seq<Seq<char>>,
    pub panes: Seq<(PaneIdHashable, Seq<char>)>,
    pub matches: Seq<MatchView>,
    pub selected_tab_index: Option<usize>,
    pub selected_match_index: Option<usize>,
}

/// Tab names as character sequences.
pub open spec fn names_view(names: Seq<String>) -> Seq<Seq<char>> {
    names.map_values(|s: String| s@)
}

/// Inventory entries as (identity, title) pairs.
pub open spec fn panes_view(panes: Seq<(PaneIdHashable, String)>) -> Seq<(PaneIdHashable, Seq<char>)> {
    panes.map_values(|p: (PaneIdHashable, String)| (p.0, p.1@))
}

/// The contents of each match.
pub open spec fn matches_view(matches: Seq<Match>) -> Seq<MatchView> {
    matches.map_values(|m: Match| m@)
}

impl View for State {
    type V = StateView;

    open spec fn view(&self) -> StateView {
        StateView {
            filter: self.filter@,
            tabs: names_view(self.tabs@),
            panes: panes_view(self.panes@),
            matches: matches_view(self.current_matches@),
            selected_tab_index: self.selected_tab_index,
            selected_match_index: self.selected_match_index,
        }
    }
}

/// No two inventory entries share a pane identity.
pub open spec fn keys_unique(panes: Seq<(PaneIdHashable, Seq<char>)>) -> bool {
    forall|i: int, j: int| 0 <= i < j < panes.len() ==> panes[i].0 != panes[j].0
}

/// The matches that a search for `filter` yields, in inventory order.
pub open spec fn search_view(panes: Seq<(PaneIdHashable, Seq<char>)>, filter: Seq<char>) -> Seq<MatchView>
    decreases panes.len(),
{
    if panes.len() == 0 {
        seq![]
    } else {
        let prev = search_view(panes.drop_last(), filter);
        let last = panes.last();
        if title_matches(last.1, filter) {
            prev.push(match_view_of(last.0, last.1, filter))
        } else {
            prev
        }
    }
}

/// A cursor kept where it still names an element, else reset.
pub open spec fn revalidate(cursor: Option<usize>, len: nat) -> Option<usize> {
    if cursor_valid(cursor, len) {
        cursor
    } else {
        None
    }
}

/// The matches marked for extraction.
pub open spec fn marked_of(matches: Seq<MatchView>) -> Seq<MatchView> {
    matches.filter(|m: MatchView| m.marked)
}

/// The pane identities of a sequence of matches.
pub open spec fn ids_of(matches: Seq<MatchView>) -> Seq<PaneIdHashable> {
    matches.map_values(|m: MatchView| m.pane_id)
}

/// The panes to relocate: the marked ones, or all matches when none is marked.
pub open spec fn extraction_targets(matches: Seq<MatchView>) -> Seq<PaneIdHashable> {
    if marked_of(matches).len() > 0 {
        ids_of(marked_of(matches))
    } else {
        ids_of(matches)
    }
}

/// The model with the search state (filter, matches, selection) cleared.
pub open spec fn cleared(s: StateView) -> StateView {
    StateView { filter: seq![], matches: seq![], selected_match_index: None, ..s }
}

/// The model with a new filter and its freshly computed matches.
pub open spec fn searched(s: StateView, filter: Seq<char>) -> StateView {
    StateView {
        filter,
        matches: search_view(s.panes, filter),
        selected_match_index: revalidate(s.selected_match_index, search_view(s.panes, filter).len()),
        ..s
    }
}

/// The model with the mark of the selected match flipped, if one is selected.
pub open spec fn toggled(s: StateView) -> StateView {
    match s.selected_match_index {
        None => s,
        Some(i) => if i < s.matches.len() {
            StateView {
                matches: s.matches.update(i as int, MatchView { marked: !s.matches[i as int].marked, ..s.matches[i as int] }),
                ..s
            }
        } else {
            s
        },
    }
}

impl State {
    /// The model keeps its inventory keys unique and both cursors in range.
    pub open spec fn wf(&self) -> bool {
        &&& keys_unique(panes_view(self.panes@))
        &&& cursor_valid(self.selected_match_index, self.current_matches@.len())
        &&& cursor_valid(self.selected_tab_index, self.tabs@.len())
    }

    /// An empty model: no filter, no inventory, no matches, no cursors.
    pub fn new() -> (r: Self)
        ensures
            r.wf(),
            r@.filter.len() == 0,
            r@.tabs.len() == 0,
            r@.panes.len() == 0,
            r@.matches.len() == 0,
            r.selected_tab_index is None,
            r.selected_match_index is None,
    {
        State {
            filter: String::new(),
            tabs: Vec::new(),
            panes: Vec::new(),
            current_matches: Vec::new(),
            selected_tab_index: None,
            selected_match_index: None,
        }
    }

    /// Recomputes the matches of the current filter over the inventory; all
    /// marks are lost, and the selection is kept only where it stays in range.
    pub fn trigger_search(&mut self)
        requires
            old(self).wf(),
        ensures
            final(self).wf(),
            final(self)@ == searched(old(self)@, old(self)@.filter),
    {
        let mut found: Vec<Match> = Vec::new();
        let n = self.panes.len();
        let mut i: usize = 0;
        while i < n
            invariant
                n == self.panes@.len(),
                i <= n,
                matches_view(found@) == search_view(panes_view(self.panes@).take(i as int), self.filter@),
            decreases n - i,
        {
            let pane = &self.panes[i];
            let highlights = highlights_for(pane.1.as_str(), self.filter.as_str());
            let ghost before = found@;
            if highlights.len() > 0 {
                let text = HighlightedText { text: pane.1.clone(), highlights };
                found.push(Match::new(pane.0, text));
                assert(matches_view(found@) =~= matches_view(before).push(found@.last()@));
            }
            assert(panes_view(self.panes@).take(i + 1).drop_last() =~= panes_view(self.panes@).take(i as int));
            i = i + 1;
        }
        assert(panes_view(self.panes@).take(n as int) =~= panes_view(self.panes@));
        self.current_matches = found;
        if let Some(sel) = self.selected_match_index {
            if sel >= self.current_matches.len() {
                self.selected_match_index = None;
            }
        }
    }

    /// Clears the filter, the matches and the selection.
    pub fn clear_search(&mut self)
        requires
            old(self).wf(),
        ensures
            final(self).wf(),
            final(self)@ == cleared(old(self)@),
    {
        self.filter = String::new();
        self.current_matches = Vec::new();
        self.selected_match_index = None;
        assert(self@.matches =~= seq![]);
    }

    /// Flips the mark of the selected match; does nothing without a selection.
    pub fn toggle_mark_selected_for_extraction(&mut self)
        requires
            old(self).wf(),
        ensures
            final(self).wf(),
            final(self)@ == toggled(old(self)@),
    {
        if let Some(index) = self.selected_match_index {
            if index < self.current_matches.len() {
                self.current_matches[index].toggle_mark_for_extraction();
                assert(self@.matches =~= toggled(old(self)@).matches);
            }
        }
    }

    /// The panes that Enter relocates: the marked matches, or every match
    /// when none is marked.
    pub fn panes_to_extract(&self) -> (r: Vec<PaneIdHashable>)
        ensures
            r@ == extraction_targets(self@.matches),
    {
        let ghost ms = self@.matches;
        let n = self.current_matches.len();
        let mut marked: Vec<PaneIdHashable> = Vec::new();
        let mut all: Vec<PaneIdHashable> = Vec::new();
        let mut i: usize = 0;
        while i < n
            invariant
                n == ms.len(),
                ms == matches_view(self.current_matches@),
                i <= n,
                marked@ == ids_of(marked_of(ms.take(i as int))),
                all@ == ids_of(ms.take(i as int)),
            decreases n - i,
        {
            let m = &self.current_matches[i];
            assert(ms.take(i + 1).drop_last() =~= ms.take(i as int));
            proof {
                reveal(Seq::filter);
            }
            if m.selected_for_extraction {
                marked.push(m.pane_id);
            }
            all.push(m.pane_id);
            assert(marked@ =~= ids_of(marked_of(ms.take(i + 1))));
            assert(all@ =~= ids_of(ms.take(i + 1)));
            i = i + 1;
        }
        assert(ms.take(n as int) =~= ms);
        if marked.len() == 0 {
            all
        } else {
            marked
        }
    }
}

proof fn lemma_search_unmarked(panes: Seq<(PaneIdHashable, Seq<char>)>, filter: Seq<char>)
    ensures
        forall|k: int| 0 <= k < search_view(panes, filter).len() ==> !(#[trigger] search_view(panes, filter)[k]).marked,
    decreases panes.len(),
{
    if panes.len() > 0 {
        lemma_search_unmarked(panes.drop_last(), filter);
        let prev = search_view(panes.drop_last(), filter);
        assert forall|k: int| 0 <= k < search_view(panes, filter).len() implies !(#[trigger] search_view(panes, filter)[k]).marked by {
            if k < prev.len() {
                assert(search_view(panes, filter)[k] == prev[k]);
            }
        }
    }
}

/// Recomputing the matches depends only on the inventory and the filter:
/// two models with the same inventory get the same, unmarked, matches for
/// a filter, whatever their earlier matches and marks were, and a second
/// recompute changes nothing.
pub proof fn lemma_recompute_idempotent(s1: StateView, s2: StateView, filter: Seq<char>)
    requires
        s1.panes == s2.panes,
    ensures
        searched(s1, filter).matches == searched(s2, filter).matches,
        forall|k: int| 0 <= k < searched(s1, filter).matches.len() ==> !(#[trigger] searched(s1, filter).matches[k]).marked,
        searched(searched(s1, filter), filter) == searched(s1, filter),
{
    lemma_search_unmarked(s1.panes, filter);
}

/// Enter relocates exactly the marked matches, in their order, when at
/// least one is marked, and every match otherwise.
pub proof fn lemma_extraction_targets(matches: Seq<MatchView>)
    ensures
        (exists|k: int| 0 <= k < matches.len() && #[trigger] matches[k].marked) ==> {
            &&& extraction_targets(matches) == ids_of(marked_of(matches))
            &&& forall|i: int| 0 <= i < marked_of(matches).len() ==>
                (#[trigger] marked_of(matches)[i]).marked && matches.contains(marked_of(matches)[i])
            &&& forall|k: int| 0 <= k < matches.len() && #[trigger] matches[k].marked ==>
                marked_of(matches).contains(matches[k])
        },
        (forall|k: int| 0 <= k < matches.len() ==> !(#[trigger] matches[k]).marked) ==>
            extraction_targets(matches) == ids_of(matches),
{
    let pred = |m: MatchView| m.marked;
    broadcast use vstd::seq_lib::group_filter_ensures;

    assert forall|i: int| 0 <= i < marked_of(matches).len() implies matches.contains(#[trigger] marked_of(matches)[i]) by {
        assert(marked_of(matches).contains(marked_of(matches)[i]));
        matches.lemma_filter_contains_rev(pred, marked_of(matches)[i]);
    }
    if exists|k: int| 0 <= k < matches.len() && #[trigger] matches[k].marked {
        let k = choose|k: int| 0 <= k < matches.len() && #[trigger] matches[k].marked;
        assert(marked_of(matches).contains(matches[k]));
    }
    if forall|k: int| 0 <= k < matches.len() ==> !(#[trigger] matches[k]).marked {
        if marked_of(matches).len() > 0 {
            assert(marked_of(matches)[0].marked);
        }
    }
}

/// `m` is the match that pane `i` of the inventory yields for `filter`.
pub open spec fn from_pane(m: MatchView, panes: Seq<(PaneIdHashable, Seq<char>)>, filter: Seq<char>, i: int) -> bool {
    &&& 0 <= i < panes.len()
    &&& title_matches(panes[i].1, filter)
    &&& m == match_view_of(panes[i].0, panes[i].1, filter)
}

/// `m` is the match that some pane of the inventory yields for `filter`.
pub open spec fn has_source(m: MatchView, panes: Seq<(PaneIdHashable, Seq<char>)>, filter: Seq<char>) -> bool {
    exists|i: int| #[trigger] from_pane(m, panes, filter, i)
}

proof fn lemma_search_elements(panes: Seq<(PaneIdHashable, Seq<char>)>, filter: Seq<char>)
    ensures
        forall|k: int| 0 <= k < search_view(panes, filter).len() ==> has_source(search_view(panes, filter)[k], panes, filter),
        forall|i: int| 0 <= i < panes.len() && title_matches(panes[i].1, filter) ==>
            search_view(panes, filter).contains(match_view_of(#[trigger] panes[i].0, panes[i].1, filter)),
    decreases panes.len(),
{
    if panes.len() > 0 {
        let dl = panes.drop_last();
        lemma_search_elements(dl, filter);
        let prev = search_view(dl, filter);
        let sv = search_view(panes, filter);
        assert forall|k: int| 0 <= k < sv.len() implies has_source(sv[k], panes, filter) by {
            if k < prev.len() {
                assert(sv[k] == prev[k]);
                assert(has_source(prev[k], dl, filter));
                let i = choose|i: int| #[trigger] from_pane(prev[k], dl, filter, i);
                assert(panes[i] == dl[i]);
                assert(from_pane(sv[k], panes, filter, i));
            } else {
                assert(from_pane(sv[k], panes, filter, panes.len() - 1));
            }
        }
        assert forall|i: int| 0 <= i < panes.len() && title_matches(panes[i].1, filter) implies
            sv.contains(match_view_of(#[trigger] panes[i].0, panes[i].1, filter)) by {
            if i < dl.len() {
                assert(panes[i] == dl[i]);
                assert(prev.contains(match_view_of(dl[i].0, dl[i].1, filter)));
                let k = choose|k: int| 0 <= k < prev.len() && prev[k] == match_view_of(dl[i].0, dl[i].1, filter);
                assert(sv[k] == prev[k]);
            } else {
                assert(sv[sv.len() - 1] == match_view_of(panes[i].0, panes[i].1, filter));
            }
        }
    }
}

/// A pane of the inventory appears in the match list for a filter exactly
/// when its title matches the filter, and the list holds nothing else.
pub proof fn lemma_search_membership(panes: Seq<(PaneIdHashable, Seq<char>)>, filter: Seq<char>)
    requires
        keys_unique(panes),
    ensures
        forall|i: int| 0 <= i < panes.len() ==>
            (search_view(panes, filter).contains(match_view_of(#[trigger] panes[i].0, panes[i].1, filter))
                <==> title_matches(panes[i].1, filter)),
        forall|k: int| 0 <= k < search_view(panes, filter).len() ==> has_source(search_view(panes, filter)[k], panes, filter),
{
    lemma_search_elements(panes, filter);
    let sv = search_view(panes, filter);
    assert forall|i: int| 0 <= i < panes.len() && sv.contains(match_view_of(#[trigger] panes[i].0, panes[i].1, filter))
        implies title_matches(panes[i].1, filter) by {
        let k = choose|k: int| 0 <= k < sv.len() && sv[k] == match_view_of(panes[i].0, panes[i].1, filter);
        assert(has_source(sv[k], panes, filter));
        let j = choose|j: int| #[trigger] from_pane(sv[k], panes, filter, j);
        if i != j {
            assert(panes[i].0 != panes[j].0);
        }
    }
}

} // verus!
