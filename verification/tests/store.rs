use tab_system::content::ContentProvider;
use tab_system::content::SettingsContentProvider;
use tab_system::content::TextContentProvider;
use tab_system::store::TabStore;

fn text(title: &str) -> ContentProvider {
    ContentProvider::Text(TextContentProvider::new(title.to_string(), String::new()))
}

fn settings() -> ContentProvider {
    ContentProvider::Settings(SettingsContentProvider::new())
}

fn open_ids(s: &TabStore) -> Vec<usize> {
    s.get_tabs().iter().map(|t| t.id).collect()
}

fn history_ids(s: &TabStore) -> Vec<usize> {
    s.history.iter().map(|t| t.id).collect()
}

#[test]
fn ids_are_distinct_and_increasing() {
    let mut s = TabStore::new();
    let mut ids = Vec::new();
    for i in 0..20 {
        let id = s.add_tab(text(&format!("tab {}", i)), None);
        ids.push(id);
    }
    for w in ids.windows(2) {
        assert!(w[0] < w[1]);
    }
    // Closing and reopening never recycles an id.
    assert!(s.close_tab(7));
    let fresh = s.add_tab(text("after close"), None);
    assert_eq!(fresh, 20);
    s.reopen_last_closed_tab();
    let fresher = s.add_tab(text("after reopen"), None);
    assert_eq!(fresher, 21);
}

#[test]
fn selection_stays_valid_under_mixed_operations() {
    let mut s = TabStore::new();
    for i in 0..6 {
        s.add_tab(text(&format!("tab {}", i)), None);
    }
    s.close_tab(2);
    s.close_tab(5);
    s.reopen_last_closed_tab();
    s.close_other_tabs(0);
    s.next_tab();
    s.prev_tab();
    let sel = s.get_selected_tab_id().expect("open list is non-empty");
    assert!(open_ids(&s).contains(&sel));
}

#[test]
fn history_holds_at_most_ten_and_evicts_oldest() {
    let mut s = TabStore::new();
    for i in 0..12 {
        s.add_tab(text(&format!("tab {}", i)), None);
    }
    for id in 0..12 {
        assert!(s.close_tab(id));
    }
    assert_eq!(s.get_tab_count(), 0);
    // Ids 0 and 1 were closed first and fell out of the ten-entry history.
    assert_eq!(history_ids(&s), vec![2, 3, 4, 5, 6, 7, 8, 9, 10, 11]);
}

#[test]
fn non_closable_tab_survives_close_and_close_others() {
    let mut s = TabStore::new();
    let a = s.add_tab(text("a"), None);
    let guard = s.add_tab(settings(), None);
    assert!(!s.close_tab(guard));
    assert_eq!(open_ids(&s), vec![a, guard]);
    assert!(history_ids(&s).is_empty());
    s.close_other_tabs(a);
    assert_eq!(open_ids(&s), vec![a, guard]);
}

#[test]
fn close_unknown_id_is_a_noop() {
    let mut s = TabStore::new();
    let a = s.add_tab(text("a"), None);
    assert!(!s.close_tab(999));
    assert_eq!(open_ids(&s), vec![a]);
    assert_eq!(s.get_selected_tab_id(), Some(a));
}

#[test]
fn reopen_is_lifo() {
    let mut s = TabStore::new();
    let _a = s.add_tab(text("A"), None);
    let b = s.add_tab(text("B"), None);
    let c = s.add_tab(text("C"), None);
    assert!(s.close_tab(b));
    assert!(s.close_tab(c));
    s.reopen_last_closed_tab();
    assert_eq!(s.get_selected_tab_id(), Some(c));
    assert_eq!(s.get_tabs().last().unwrap().id, c);
    s.reopen_last_closed_tab();
    assert_eq!(s.get_selected_tab_id(), Some(b));
    assert_eq!(s.get_tabs().last().unwrap().id, b);
    assert!(!s.has_closed_tabs());
}

#[test]
fn reopen_on_empty_history_is_a_noop() {
    let mut s = TabStore::new();
    let a = s.add_tab(text("a"), None);
    s.reopen_last_closed_tab();
    assert_eq!(open_ids(&s), vec![a]);
    assert_eq!(s.get_selected_tab_id(), Some(a));
}

#[test]
fn next_cycles_back_after_tab_count_steps() {
    let mut s = TabStore::new();
    for i in 0..5 {
        s.add_tab(text(&format!("tab {}", i)), None);
    }
    s.prev_tab();
    s.prev_tab();
    let start = s.get_selected_tab_id();
    for _ in 0..s.get_tab_count() {
        s.next_tab();
    }
    assert_eq!(s.get_selected_tab_id(), start);
}

#[test]
fn next_and_prev_wrap_around() {
    let mut s = TabStore::new();
    let a = s.add_tab(text("a"), None);
    let b = s.add_tab(text("b"), None);
    let c = s.add_tab(text("c"), None);
    assert_eq!(s.get_selected_tab_id(), Some(c));
    s.next_tab();
    assert_eq!(s.get_selected_tab_id(), Some(a));
    s.prev_tab();
    assert_eq!(s.get_selected_tab_id(), Some(c));
    s.prev_tab();
    assert_eq!(s.get_selected_tab_id(), Some(b));
}

#[test]
fn navigation_on_empty_store_is_a_noop() {
    let mut s = TabStore::new();
    s.next_tab();
    s.prev_tab();
    assert_eq!(s.get_tab_count(), 0);
    assert_eq!(s.get_selected_tab_id(), None);
}

#[test]
fn scenario_close_unselected_tab() {
    let mut s = TabStore::new();
    let id0 = s.add_tab(text("A"), None);
    let id1 = s.add_tab(text("B"), None);
    let id2 = s.add_tab(text("C"), None);
    assert_eq!((id0, id1, id2), (0, 1, 2));
    assert_eq!(s.get_selected_tab_id(), Some(id2));
    assert!(s.close_tab(id1));
    assert_eq!(open_ids(&s), vec![id0, id2]);
    assert_eq!(history_ids(&s), vec![id1]);
    assert_eq!(s.get_selected_tab_id(), Some(id2));
}

#[test]
fn scenario_close_selected_tab_prefers_predecessor() {
    let mut s = TabStore::new();
    let id0 = s.add_tab(text("A"), None);
    let id1 = s.add_tab(text("B"), None);
    let id2 = s.add_tab(text("C"), None);
    assert!(s.close_tab(id1));
    // id2 is selected and sits at position 1; its predecessor is A.
    assert!(s.close_tab(id2));
    assert_eq!(open_ids(&s), vec![id0]);
    assert_eq!(history_ids(&s), vec![id1, id2]);
    assert_eq!(s.get_selected_tab_id(), Some(id0));
}

#[test]
fn scenario_reopen_restores_identity() {
    let mut s = TabStore::new();
    let id0 = s.add_tab(text("A"), None);
    let id1 = s.add_tab(text("B"), None);
    let id2 = s.add_tab(text("C"), None);
    assert!(s.close_tab(id1));
    assert!(s.close_tab(id2));
    s.reopen_last_closed_tab();
    assert_eq!(open_ids(&s), vec![id0, id2]);
    assert_eq!(history_ids(&s), vec![id1]);
    assert_eq!(s.get_selected_tab_id(), Some(id2));
    assert_eq!(s.get_tabs()[1].get_title(), "C");
}

#[test]
fn scenario_close_others_spares_protected() {
    let mut s = TabStore::new();
    let id0 = s.add_tab(text("A"), None);
    let id1 = s.add_tab(settings(), None);
    let id2 = s.add_tab(text("C"), None);
    assert_eq!((id0, id1, id2), (0, 1, 2));
    s.close_other_tabs(id0);
    assert_eq!(open_ids(&s), vec![id0, id1]);
    assert_eq!(history_ids(&s), vec![id2]);
    assert_eq!(s.get_selected_tab_id(), Some(id0));
}

#[test]
fn close_others_removes_pinned_but_closable_tabs() {
    // Only can_close protects from "close other tabs"; the pinned flag
    // does not — the documented asymmetry with the per-tab close button.
    let mut s = TabStore::new();
    let a = s.add_tab(text("a"), None);
    let pinned = s.add_tab(text("pinned"), None);
    s.toggle_pin_tab(pinned);
    assert!(s.get_tabs()[1].is_pinned);
    s.close_other_tabs(a);
    assert_eq!(open_ids(&s), vec![a]);
    assert_eq!(history_ids(&s), vec![pinned]);
}

#[test]
fn close_others_respects_history_capacity() {
    let mut s = TabStore::new();
    let mut ids = Vec::new();
    for i in 0..13 {
        ids.push(s.add_tab(text(&format!("tab {}", i)), None));
    }
    let keep = ids[0];
    s.close_other_tabs(keep);
    assert_eq!(open_ids(&s), vec![keep]);
    // Twelve tabs were pushed in list order; the oldest two fell out.
    assert_eq!(history_ids(&s), vec![3, 4, 5, 6, 7, 8, 9, 10, 11, 12]);
    assert_eq!(s.get_selected_tab_id(), Some(keep));
}

#[test]
fn toggle_pin_flips_only_the_flag() {
    let mut s = TabStore::new();
    let a = s.add_tab(text("a"), None);
    let b = s.add_tab(text("b"), None);
    s.toggle_pin_tab(a);
    assert!(s.get_tabs()[0].is_pinned);
    assert!(!s.get_tabs()[1].is_pinned);
    assert_eq!(s.get_selected_tab_id(), Some(b));
    s.toggle_pin_tab(a);
    assert!(!s.get_tabs()[0].is_pinned);
    // Unknown ids are ignored.
    s.toggle_pin_tab(999);
    assert_eq!(open_ids(&s), vec![a, b]);
}

#[test]
fn closed_record_moves_unmodified() {
    let mut s = TabStore::new();
    let a = s.add_tab(text("kept"), Some("pin-icon".to_string()));
    let _b = s.add_tab(text("other"), None);
    assert!(s.close_tab(a));
    let record = s.history.last().unwrap();
    assert_eq!(record.id, a);
    assert_eq!(record.get_title(), "kept");
    assert_eq!(record.icon.as_deref(), Some("pin-icon"));
    assert!(!record.is_dirty());
    assert!(record.can_close());
}

#[test]
fn clicking_selects_only_open_tabs() {
    let mut s = TabStore::new();
    let a = s.add_tab(text("a"), None);
    let b = s.add_tab(text("b"), None);
    assert_eq!(s.get_selected_tab_id(), Some(b));
    assert!(s.select_tab(a));
    assert_eq!(s.get_selected_tab_id(), Some(a));
    assert_eq!(s.get_selected_tab().unwrap().get_title(), "a");
    // A stale or unknown id changes nothing.
    assert!(!s.select_tab(999));
    assert_eq!(s.get_selected_tab_id(), Some(a));
    assert!(s.close_tab(a));
    assert!(!s.select_tab(a));
    assert_eq!(s.get_selected_tab_id(), Some(b));
}

#[test]
fn closing_last_tab_empties_selection() {
    let mut s = TabStore::new();
    let a = s.add_tab(text("only"), None);
    assert!(s.close_tab(a));
    assert_eq!(s.get_tab_count(), 0);
    assert_eq!(s.get_selected_tab_id(), None);
    assert!(s.has_closed_tabs());
}
