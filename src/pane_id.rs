use vstd::prelude::*;

verus! {

/// Identity of a pane: a numeric id plus whether it is a plugin or a terminal.
#[derive(Debug, Clone, Copy, PartialEq, Eq, Hash, Structural)]
pub struct PaneIdHashable {
    pub pane_id: u32,
    pub is_plugin: bool,
}

impl PaneIdHashable {
    pub fn plugin(pane_id: u32) -> (r: Self)
        ensures
            r.pane_id == pane_id,
            r.is_plugin,
    {
        PaneIdHashable { pane_id, is_plugin: true }
    }

    pub fn terminal(pane_id: u32) -> (r: Self)
        ensures
            r.pane_id == pane_id,
            !r.is_plugin,
    {
        PaneIdHashable { pane_id, is_plugin: false }
    }
}

} // verus!
