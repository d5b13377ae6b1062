use multiple_select::cursor::{advance_cursor, retreat_cursor};
use multiple_select::inventory::PaneEntry;
use multiple_select::matching::{highlight_occurrences, highlights_for, HighlightedText, Match};
use multiple_select::pane_id::PaneIdHashable;
use multiple_select::router::{KeyInput, Relocation};
use multiple_select::state::State;

fn entry(id: u32, is_plugin: bool, is_selectable: bool, title: &str) -> PaneEntry {
    PaneEntry { id, is_plugin, is_selectable, title: title.to_string() }
}

fn names(list: &[&str]) -> Vec<String> {
    list.iter().map(|s| s.to_string()).collect()
}

/// Tabs "work" and "chat"; pane A (terminal 1) "build logs", pane B (terminal 2) "chat window".
fn two_pane_state() -> State {
    let mut state = State::new();
    state.apply_tab_snapshot(names(&["work", "chat"]));
    state.apply_pane_snapshot(&vec![entry(1, false, true, "build logs"), entry(2, false, true, "chat window")]);
    state
}

fn type_text(state: &mut State, text: &str) {
    for c in text.chars() {
        let r = state.handle_key(KeyInput::Char(c), true);
        assert!(r.should_render);
        assert!(r.relocation.is_none());
    }
}

fn match_ids(state: &State) -> Vec<PaneIdHashable> {
    state.current_matches.iter().map(|m| m.pane_id).collect()
}

#[test]
fn filter_log_matches_build_logs_with_highlight() {
    let mut state = two_pane_state();
    type_text(&mut state, "log");
    assert_eq!(state.filter, "log");
    assert_eq!(match_ids(&state), vec![PaneIdHashable::terminal(1)]);
    assert_eq!(state.current_matches[0].text.text, "build logs");
    assert_eq!(state.current_matches[0].text.highlights, vec![(6, 3)]);
    assert!(!state.current_matches[0].selected_for_extraction);
}

#[test]
fn filter_wor_matches_nothing() {
    let mut state = two_pane_state();
    type_text(&mut state, "wor");
    assert!(state.current_matches.is_empty());
}

#[test]
fn mark_one_and_move_to_new_tab_named_after_filter() {
    let mut state = two_pane_state();
    type_text(&mut state, "ch");
    assert_eq!(state.filter, "ch");
    assert_eq!(match_ids(&state), vec![PaneIdHashable::terminal(2)]);
    assert!(state.handle_key(KeyInput::Down, true).should_render);
    assert_eq!(state.selected_match_index, Some(0));
    assert!(state.handle_key(KeyInput::Right, true).should_render);
    assert!(state.current_matches[0].selected_for_extraction);
    assert_eq!(state.marked_count(), 1);
    let r = state.handle_key(KeyInput::Enter, true);
    assert!(r.should_render);
    match r.relocation {
        Some(Relocation::NewTab { panes, name }) => {
            assert_eq!(panes, vec![PaneIdHashable::terminal(2)]);
            assert_eq!(name, "ch");
        }
        _ => panic!("expected a new tab"),
    }
    assert_eq!(state.filter, "");
    assert!(state.current_matches.is_empty());
    assert_eq!(state.selected_match_index, None);
}

#[test]
fn tab_cycles_through_destinations_and_back_to_new_tab() {
    let mut state = State::new();
    state.apply_tab_snapshot(names(&["a", "b", "c"]));
    assert_eq!(state.selected_tab_index, None);
    let mut seen = vec![];
    for _ in 0..4 {
        assert!(state.handle_key(KeyInput::Tab, true).should_render);
        seen.push(state.selected_tab_index);
    }
    assert_eq!(seen, vec![Some(0), Some(1), Some(2), None]);
}

#[test]
fn enter_without_marks_moves_all_matches_to_selected_tab() {
    let mut state = two_pane_state();
    state.handle_key(KeyInput::Tab, true);
    state.handle_key(KeyInput::Tab, true);
    assert_eq!(state.selected_tab_index, Some(1));
    type_text(&mut state, "o");
    assert_eq!(state.current_matches.len(), 2);
    let r = state.handle_key(KeyInput::Enter, true);
    match r.relocation {
        Some(Relocation::ToTab { panes, tab_index }) => {
            assert_eq!(panes, vec![PaneIdHashable::terminal(1), PaneIdHashable::terminal(2)]);
            assert_eq!(tab_index, 1);
        }
        _ => panic!("expected an existing tab"),
    }
    assert_eq!(state.selected_tab_index, Some(1));
    assert!(state.current_matches.is_empty());
}

#[test]
fn backspace_to_empty_clears_search_but_keeps_destination() {
    let mut state = two_pane_state();
    state.handle_key(KeyInput::Tab, true);
    type_text(&mut state, "ch");
    state.handle_key(KeyInput::Down, true);
    assert_eq!(state.selected_match_index, Some(0));
    assert!(state.handle_key(KeyInput::Backspace, true).should_render);
    assert_eq!(state.filter, "c");
    assert_eq!(state.current_matches.len(), 1);
    assert!(state.handle_key(KeyInput::Backspace, true).should_render);
    assert_eq!(state.filter, "");
    assert!(state.current_matches.is_empty());
    assert_eq!(state.selected_match_index, None);
    assert_eq!(state.selected_tab_index, Some(0));
}

#[test]
fn backspace_on_empty_filter_stays_empty() {
    let mut state = two_pane_state();
    let r = state.handle_key(KeyInput::Backspace, true);
    assert!(r.should_render);
    assert_eq!(state.filter, "");
    assert!(state.current_matches.is_empty());
}

#[test]
fn matching_ignores_case() {
    let mut state = State::new();
    state.apply_pane_snapshot(&vec![entry(4, true, true, "Build LOGS"), entry(5, false, true, "editor")]);
    type_text(&mut state, "Log");
    assert_eq!(match_ids(&state), vec![PaneIdHashable::plugin(4)]);
    assert_eq!(state.current_matches[0].text.text, "Build LOGS");
    assert_eq!(state.current_matches[0].text.highlights, vec![(6, 3)]);
}

#[test]
fn every_occurrence_is_highlighted() {
    let title: Vec<char> = "aaa".chars().collect();
    let filter: Vec<char> = "aa".chars().collect();
    assert_eq!(highlight_occurrences(&title, &filter, 2), vec![(0, 2), (1, 2)]);
    assert_eq!(highlights_for("Log log LOG", "lOg"), vec![(0, 3), (4, 3), (8, 3)]);
    assert_eq!(highlights_for("logs", ""), vec![]);
    assert_eq!(highlights_for("lo", "log"), vec![]);
}

#[test]
fn recompute_clears_marks_and_is_repeatable() {
    let mut state = two_pane_state();
    type_text(&mut state, "o");
    state.handle_key(KeyInput::Down, true);
    state.handle_key(KeyInput::Left, true);
    assert!(state.current_matches[0].selected_for_extraction);
    state.trigger_search();
    let first: Vec<(PaneIdHashable, String, Vec<(usize, usize)>, bool)> = state
        .current_matches
        .iter()
        .map(|m| (m.pane_id, m.text.text.clone(), m.text.highlights.clone(), m.selected_for_extraction))
        .collect();
    state.trigger_search();
    let second: Vec<(PaneIdHashable, String, Vec<(usize, usize)>, bool)> = state
        .current_matches
        .iter()
        .map(|m| (m.pane_id, m.text.text.clone(), m.text.highlights.clone(), m.selected_for_extraction))
        .collect();
    assert_eq!(first, second);
    assert!(first.iter().all(|m| !m.3));
    assert_eq!(first.len(), 2);
}

#[test]
fn extraction_targets_follow_marks() {
    let mut state = two_pane_state();
    type_text(&mut state, "o");
    assert_eq!(state.panes_to_extract(), vec![PaneIdHashable::terminal(1), PaneIdHashable::terminal(2)]);
    state.selected_match_index = Some(1);
    state.toggle_mark_selected_for_extraction();
    assert_eq!(state.panes_to_extract(), vec![PaneIdHashable::terminal(2)]);
    state.selected_match_index = Some(0);
    state.toggle_mark_selected_for_extraction();
    assert_eq!(state.panes_to_extract(), vec![PaneIdHashable::terminal(1), PaneIdHashable::terminal(2)]);
    assert_eq!(state.marked_count(), 2);
    state.toggle_mark_selected_for_extraction();
    state.selected_match_index = Some(1);
    state.toggle_mark_selected_for_extraction();
    assert_eq!(state.marked_count(), 0);
    assert_eq!(state.panes_to_extract().len(), 2);
}

#[test]
fn toggle_without_selection_does_nothing() {
    let mut state = two_pane_state();
    type_text(&mut state, "o");
    assert!(state.handle_key(KeyInput::Right, true).should_render);
    assert_eq!(state.marked_count(), 0);
}

#[test]
fn keys_with_modifiers_and_unmapped_keys_are_ignored() {
    let mut state = two_pane_state();
    let r = state.handle_key(KeyInput::Char('x'), false);
    assert!(!r.should_render);
    assert!(r.relocation.is_none());
    assert_eq!(state.filter, "");
    let r = state.handle_key(KeyInput::Tab, false);
    assert!(!r.should_render);
    assert_eq!(state.selected_tab_index, None);
    let r = state.handle_key(KeyInput::Other, true);
    assert!(!r.should_render);
}

#[test]
fn enter_without_matches_does_nothing_but_redraw() {
    let mut state = two_pane_state();
    type_text(&mut state, "zzz");
    let r = state.handle_key(KeyInput::Enter, true);
    assert!(r.should_render);
    assert!(r.relocation.is_none());
    assert_eq!(state.filter, "zzz");
}

#[test]
fn up_and_down_cycle_through_matches() {
    let mut state = two_pane_state();
    type_text(&mut state, "o");
    state.handle_key(KeyInput::Up, true);
    assert_eq!(state.selected_match_index, Some(1));
    state.handle_key(KeyInput::Up, true);
    assert_eq!(state.selected_match_index, Some(0));
    state.handle_key(KeyInput::Up, true);
    assert_eq!(state.selected_match_index, None);
    state.handle_key(KeyInput::Down, true);
    state.handle_key(KeyInput::Down, true);
    assert_eq!(state.selected_match_index, Some(1));
    state.handle_key(KeyInput::Down, true);
    assert_eq!(state.selected_match_index, None);
}

#[test]
fn selection_is_reset_when_matches_shrink() {
    let mut state = two_pane_state();
    type_text(&mut state, "o");
    state.handle_key(KeyInput::Up, true);
    assert_eq!(state.selected_match_index, Some(1));
    type_text(&mut state, "g");
    assert_eq!(state.current_matches.len(), 1);
    assert_eq!(state.selected_match_index, None);
}

#[test]
fn cursor_steps_over_empty_and_single_lists() {
    assert_eq!(advance_cursor(None, 0), None);
    assert_eq!(retreat_cursor(None, 0), None);
    assert_eq!(advance_cursor(None, 1), Some(0));
    assert_eq!(advance_cursor(Some(0), 1), None);
    assert_eq!(retreat_cursor(None, 3), Some(2));
    assert_eq!(retreat_cursor(Some(0), 3), None);
    assert_eq!(retreat_cursor(Some(2), 3), Some(1));
    let mut c = None;
    for _ in 0..6 {
        c = advance_cursor(c, 5);
    }
    assert_eq!(c, None);
}

#[test]
fn tab_snapshot_resets_destination_only_on_change() {
    let mut state = State::new();
    state.apply_tab_snapshot(names(&["a", "b"]));
    state.handle_key(KeyInput::Tab, true);
    state.handle_key(KeyInput::Tab, true);
    assert_eq!(state.selected_tab_index, Some(1));
    state.apply_tab_snapshot(names(&["a", "b"]));
    assert_eq!(state.selected_tab_index, Some(1));
    state.apply_tab_snapshot(names(&["b", "a"]));
    assert_eq!(state.selected_tab_index, None);
    assert_eq!(state.tabs, names(&["b", "a"]));
    let mut empty = State::new();
    empty.handle_key(KeyInput::Tab, true);
    assert_eq!(empty.selected_tab_index, None);
}

#[test]
fn pane_snapshot_drops_unselectable_and_keeps_identities_unique() {
    let mut state = State::new();
    state.apply_pane_snapshot(&vec![
        entry(1, false, true, "shell"),
        entry(1, true, true, "plugin one"),
        entry(2, false, false, "status bar"),
        entry(1, false, true, "shell renamed"),
    ]);
    assert_eq!(
        state.panes,
        vec![
            (PaneIdHashable::terminal(1), "shell renamed".to_string()),
            (PaneIdHashable::plugin(1), "plugin one".to_string()),
        ]
    );
    state.apply_pane_snapshot(&vec![]);
    assert!(state.panes.is_empty());
}

#[test]
fn pane_identity_constructors() {
    let p = PaneIdHashable::plugin(7);
    let t = PaneIdHashable::terminal(7);
    assert_eq!(p.pane_id, 7);
    assert!(p.is_plugin);
    assert!(!t.is_plugin);
    assert_ne!(p, t);
}

#[test]
fn match_starts_unmarked_and_toggles() {
    let text = HighlightedText { text: "x".to_string(), highlights: vec![(0, 1)] };
    let mut m = Match::new(PaneIdHashable::terminal(3), text);
    assert!(!m.selected_for_extraction);
    m.toggle_mark_for_extraction();
    assert!(m.selected_for_extraction);
    m.toggle_mark_for_extraction();
    assert!(!m.selected_for_extraction);
}

#[test]
fn window_follows_selection() {
    let mut state = State::new();
    let entries: Vec<PaneEntry> = (0..10).map(|i| entry(i, false, true, &format!("pane {}", i))).collect();
    state.apply_pane_snapshot(&entries);
    type_text(&mut state, "pane");
    assert_eq!(state.current_matches.len(), 10);
    let w = state.match_window(20);
    assert_eq!((w.first_row_index, w.last_row_index, w.visible_rows, w.rows_above, w.rows_below), (0, 18, 19, 0, 0));
    state.selected_match_index = Some(7);
    let w = state.match_window(4);
    assert_eq!((w.first_row_index, w.last_row_index, w.visible_rows, w.rows_above, w.rows_below), (5, 7, 3, 5, 3));
    state.selected_match_index = Some(9);
    let w = state.match_window(6);
    assert_eq!((w.first_row_index, w.last_row_index, w.visible_rows, w.rows_above, w.rows_below), (6, 10, 5, 6, 0));
}
