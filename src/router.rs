use vstd::prelude::*;

use crate::cursor::{advance_cursor, advance_spec, retreat_cursor, retreat_spec};
use crate::pane_id::PaneIdHashable;
use crate::state::{cleared, extraction_targets, searched, toggled, State, StateView};
use crate::text::{pop_char, push_char};
use vstd::string::StrSliceExecFns;

verus! {

/// A key, without its modifiers.
#[derive(Debug, Clone, Copy, PartialEq, Eq, Structural)]
pub enum KeyInput {
    Char(char),
    Backspace,
    Enter,
    Tab,
    Down,
    Up,
    Left,
    Right,
    Other,
}

/// A request to the host to move panes, without changing focus.
pub enum Relocation {
    /// Create a new tab with this name and move the panes into it.
    NewTab { panes: Vec<PaneIdHashable>, name: String },
    /// Move the panes into the existing tab at this position.
    ToTab { panes: Vec<PaneIdHashable>, tab_index: usize },
}

/// A relocation request as the contracts see it.
pub enum RelocationView {
    NewTab { panes: Seq<PaneIdHashable>, name: Seq<char> },
    ToTab { panes: Seq<PaneIdHashable>, tab_index: usize },
}

impl View for Relocation {
    type V = RelocationView;

    open spec fn view(&self) -> RelocationView {
        match self {
            Relocation::NewTab { panes, name } => RelocationView::NewTab { panes: panes@, name: name@ },
            Relocation::ToTab { panes, tab_index } => RelocationView::ToTab { panes: panes@, tab_index: *tab_index },
        }
    }
}

/// The contents of an optional relocation request.
pub open spec fn relocation_view(r: Option<Relocation>) -> Option<RelocationView> {
    match r {
        None => None,
        Some(x) => Some(x@),
    }
}

/// What a key press asks of the host: whether to redraw, and the panes to
/// move, if any.
pub struct Reaction {
    pub should_render: bool,
    pub relocation: Option<Relocation>,
}

/// The model after a key press; `plain` says that no modifier was held.
pub open spec fn key_step(s: StateView, key: KeyInput, plain: bool) -> StateView {
    if !plain {
        s
    } else {
        match key {
            KeyInput::Char(c) => searched(s, s.filter.push(c)),
            KeyInput::Backspace => {
                let f = if s.filter.len() > 0 {
                    s.filter.drop_last()
                } else {
                    s.filter
                };
                if f.len() == 0 {
                    cleared(s)
                } else {
                    searched(s, f)
                }
            },
            KeyInput::Enter => if s.matches.len() > 0 {
                cleared(s)
            } else {
                s
            },
            KeyInput::Tab => StateView {
                selected_tab_index: advance_spec(s.selected_tab_index, s.tabs.len()),
                ..s
            },
            KeyInput::Down => StateView {
                selected_match_index: advance_spec(s.selected_match_index, s.matches.len()),
                ..s
            },
            KeyInput::Up => StateView {
                selected_match_index: retreat_spec(s.selected_match_index, s.matches.len()),
                ..s
            },
            KeyInput::Left | KeyInput::Right => toggled(s),
            KeyInput::Other => s,
        }
    }
}

/// Every mapped key without modifiers asks for a redraw.
pub open spec fn key_redraws(key: KeyInput, plain: bool) -> bool {
    plain && !(key is Other)
}

/// Enter with matches present relocates the extraction targets: to a new
/// tab named after the filter, or to the highlighted destination tab.
pub open spec fn key_relocation(s: StateView, key: KeyInput, plain: bool) -> Option<RelocationView> {
    if plain && key is Enter && s.matches.len() > 0 {
        match s.selected_tab_index {
            None => Some(RelocationView::NewTab { panes: extraction_targets(s.matches), name: s.filter }),
            Some(i) => Some(RelocationView::ToTab { panes: extraction_targets(s.matches), tab_index: i }),
        }
    } else {
        None
    }
}

impl State {
    /// Applies one key press: edits the filter and recomputes the matches,
    /// moves a cursor, toggles a mark, or, on Enter, hands back the panes to
    /// relocate and clears the search.
    pub fn handle_key(&mut self, key: KeyInput, has_no_modifiers: bool) -> (r: Reaction)
        requires
            old(self).wf(),
        ensures
            final(self).wf(),
            final(self)@ == key_step(old(self)@, key, has_no_modifiers),
            r.should_render == key_redraws(key, has_no_modifiers),
            relocation_view(r.relocation) == key_relocation(old(self)@, key, has_no_modifiers),
    {
        if !has_no_modifiers {
            return Reaction { should_render: false, relocation: None };
        }
        match key {
            KeyInput::Char(c) => {
                push_char(&mut self.filter, c);
                self.trigger_search();
                Reaction { should_render: true, relocation: None }
            },
            KeyInput::Backspace => {
                pop_char(&mut self.filter);
                if self.filter.as_str().unicode_len() > 0 {
                    self.trigger_search();
                } else {
                    self.clear_search();
                }
                Reaction { should_render: true, relocation: None }
            },
            KeyInput::Enter => {
                if self.current_matches.len() == 0 {
                    return Reaction { should_render: true, relocation: None };
                }
                let panes = self.panes_to_extract();
                let relocation = match self.selected_tab_index {
                    None => Relocation::NewTab { panes, name: self.filter.clone() },
                    Some(tab_index) => Relocation::ToTab { panes, tab_index },
                };
                self.clear_search();
                Reaction { should_render: true, relocation: Some(relocation) }
            },
            KeyInput::Tab => {
                self.selected_tab_index = advance_cursor(self.selected_tab_index, self.tabs.len());
                Reaction { should_render: true, relocation: None }
            },
            KeyInput::Down => {
                self.selected_match_index = advance_cursor(self.selected_match_index, self.current_matches.len());
                Reaction { should_render: true, relocation: None }
            },
            KeyInput::Up => {
                self.selected_match_index = retreat_cursor(self.selected_match_index, self.current_matches.len());
                Reaction { should_render: true, relocation: None }
            },
            KeyInput::Left | KeyInput::Right => {
                self.toggle_mark_selected_for_extraction();
                Reaction { should_render: true, relocation: None }
            },
            KeyInput::Other => Reaction { should_render: false, relocation: None },
        }
    }
}

} // verus!
