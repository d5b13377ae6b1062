use vstd::prelude::*;

use crate::pane_id::PaneIdHashable;
use crate::state::{keys_unique, names_view, panes_view, State, StateView};

verus! {

/// One pane as the host reports it.
pub struct PaneEntry {
    pub id: u32,
    pub is_plugin: bool,
    pub is_selectable: bool,
    pub title: String,
}

/// The identity of a reported pane.
pub open spec fn entry_key(e: PaneEntry) -> PaneIdHashable {
    PaneIdHashable { pane_id: e.id, is_plugin: e.is_plugin }
}

/// The inventory that a snapshot describes: its selectable panes, where a
/// later report of the same identity replaces an earlier one.
pub open spec fn snapshot_map(entries: Seq<PaneEntry>) -> Map<PaneIdHashable, Seq<char>>
    decreases entries.len(),
{
    if entries.len() == 0 {
        Map::empty()
    } else {
        let m = snapshot_map(entries.drop_last());
        let e = entries.last();
        if e.is_selectable {
            m.insert(entry_key(e), e.title@)
        } else {
            m
        }
    }
}

/// The inventory as a map from identity to title.
pub open spec fn pane_map(panes: Seq<(PaneIdHashable, Seq<char>)>) -> Map<PaneIdHashable, Seq<char>>
    decreases panes.len(),
{
    if panes.len() == 0 {
        Map::empty()
    } else {
        pane_map(panes.drop_last()).insert(panes.last().0, panes.last().1)
    }
}

proof fn lemma_pane_map_keys(panes: Seq<(PaneIdHashable, Seq<char>)>, k: PaneIdHashable)
    requires
        forall|i: int| 0 <= i < panes.len() ==> panes[i].0 != k,
    ensures
        !pane_map(panes).contains_key(k),
    decreases panes.len(),
{
    if panes.len() > 0 {
        lemma_pane_map_keys(panes.drop_last(), k);
    }
}

proof fn lemma_pane_map_update(panes: Seq<(PaneIdHashable, Seq<char>)>, j: int, title: Seq<char>)
    requires
        keys_unique(panes),
        0 <= j < panes.len(),
    ensures
        pane_map(panes.update(j, (panes[j].0, title))) == pane_map(panes).insert(panes[j].0, title),
    decreases panes.len(),
{
    let k = panes[j].0;
    let updated = panes.update(j, (k, title));
    let last = panes.last();
    if j == panes.len() - 1 {
        assert(updated.drop_last() =~= panes.drop_last());
        assert(pane_map(updated) =~= pane_map(panes).insert(k, title));
    } else {
        assert(updated.drop_last() =~= panes.drop_last().update(j, (k, title)));
        lemma_pane_map_update(panes.drop_last(), j, title);
        assert(last.0 != k);
        assert(pane_map(updated) =~= pane_map(panes).insert(k, title));
    }
}

/// Whether two tab lists hold the same names in the same order.
fn same_names(a: &Vec<String>, b: &Vec<String>) -> (r: bool)
    ensures
        r == (names_view(a@) == names_view(b@)),
{
    if a.len() != b.len() {
        assert(names_view(a@).len() != names_view(b@).len());
        return false;
    }
    let n = a.len();
    let mut i: usize = 0;
    while i < n
        invariant
            n == a@.len(),
            n == b@.len(),
            i <= n,
            forall|k: int| 0 <= k < i ==> a@[k]@ == b@[k]@,
        decreases n - i,
    {
        if a[i] != b[i] {
            assert(names_view(a@)[i as int] != names_view(b@)[i as int]);
            return false;
        }
        i = i + 1;
    }
    assert(names_view(a@) =~= names_view(b@));
    true
}

impl State {
    /// Replaces the tab list; the destination cursor is reset when the names
    /// or their order changed.
    pub fn apply_tab_snapshot(&mut self, names: Vec<String>)
        requires
            old(self).wf(),
        ensures
            final(self).wf(),
            final(self)@ == (StateView {
                tabs: names_view(names@),
                selected_tab_index: if names_view(names@) == old(self)@.tabs {
                    old(self)@.selected_tab_index
                } else {
                    None
                },
                ..old(self)@
            }),
    {
        let same = same_names(&self.tabs, &names);
        let ghost old_len = self.tabs@.len();
        self.tabs = names;
        if !same {
            self.selected_tab_index = None;
        } else {
            assert(names_view(self.tabs@).len() == old_len);
        }
    }

    /// Replaces the pane inventory with the selectable panes of a snapshot.
    pub fn apply_pane_snapshot(&mut self, entries: &Vec<PaneEntry>)
        requires
            old(self).wf(),
        ensures
            final(self).wf(),
            pane_map(final(self)@.panes) == snapshot_map(entries@),
            final(self)@ == (StateView { panes: final(self)@.panes, ..old(self)@ }),
    {
        let mut panes: Vec<(PaneIdHashable, String)> = Vec::new();
        let n = entries.len();
        let mut i: usize = 0;
        while i < n
            invariant
                n == entries@.len(),
                i <= n,
                keys_unique(panes_view(panes@)),
                pane_map(panes_view(panes@)) == snapshot_map(entries@.take(i as int)),
            decreases n - i,
        {
            let e = &entries[i];
            assert(entries@.take(i + 1).drop_last() =~= entries@.take(i as int));
            if e.is_selectable {
                let key = if e.is_plugin {
                    PaneIdHashable::plugin(e.id)
                } else {
                    PaneIdHashable::terminal(e.id)
                };
                let ghost before = panes_view(panes@);
                let m = panes.len();
                let mut j: usize = 0;
                while j < m && panes[j].0 != key
                    invariant
                        m == panes@.len(),
                        j <= m,
                        forall|k: int| 0 <= k < j ==> panes@[k].0 != key,
                    decreases m - j,
                {
                    j = j + 1;
                }
                if j < m {
                    proof {
                        lemma_pane_map_update(before, j as int, e.title@);
                    }
                    panes.set(j, (key, e.title.clone()));
                    assert(panes_view(panes@) =~= before.update(j as int, (key, e.title@)));
                    assert forall|a: int, b: int| 0 <= a < b < panes@.len() implies panes_view(panes@)[a].0 != panes_view(panes@)[b].0 by {
                        assert(panes_view(panes@)[a].0 == before[a].0);
                        assert(panes_view(panes@)[b].0 == before[b].0);
                    }
                } else {
                    panes.push((key, e.title.clone()));
                    assert(panes_view(panes@).drop_last() =~= before);
                    assert forall|k: int| 0 <= k < before.len() implies before[k].0 != key by {
                        assert(panes@[k].0 != key);
                    }
                    assert forall|a: int, b: int| 0 <= a < b < panes@.len() implies panes_view(panes@)[a].0 != panes_view(panes@)[b].0 by {
                        assert(panes_view(panes@)[a].0 == before[a].0);
                        if b < before.len() {
                            assert(panes_view(panes@)[b].0 == before[b].0);
                        }
                    }
                }
            }
            i = i + 1;
        }
        assert(entries@.take(n as int) =~= entries@);
        self.panes = panes;
    }
}

} // verus!
