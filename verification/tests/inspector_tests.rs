use endless_ui::inspector::{
    apply_action, is_destructible, InspectorAction, SelectedBuilding, Selection, log_window, shown_panes, InspectorNpcTab, InspectorRenameState,
    InspectorUiState,
};

#[test]
fn pane_follows_the_selection() {
    let mut s = InspectorUiState::default();
    assert_eq!(s.tabs.npc_tab, InspectorNpcTab::Overview);
    assert!(!s.frame_start(false, false, 0, 0, false));
    assert!(s.frame_start(false, false, 2, 0, false));
    assert!(s.frame_start(true, false, 0, 0, false));
    assert!(s.tabs.show_npc);
    assert!(s.frame_start(false, true, 0, 0, true));
    assert!(!s.tabs.show_npc);
    // Both selected: a new click decides once.
    assert!(s.frame_start(true, true, 0, 5, true));
    assert!(s.tabs.show_npc);
    assert_eq!(s.last_click_seq, 5);
    s.tabs.show_npc = false;
    assert!(s.frame_start(true, true, 0, 5, true));
    assert!(!s.tabs.show_npc);
}

#[test]
fn exactly_one_pane_is_drawn() {
    assert_eq!(shown_panes(true, false, false), (true, false));
    assert_eq!(shown_panes(false, true, true), (false, true));
    assert_eq!(shown_panes(true, true, true), (true, false));
    assert_eq!(shown_panes(true, true, false), (false, true));
    assert_eq!(shown_panes(false, false, true), (false, false));
}

#[test]
fn renaming_trims_and_rejects_blank_names() {
    let mut r = InspectorRenameState::default();
    r.follow(4, "Old Name");
    assert_eq!(r.slot, 4);
    assert_eq!(r.text, "Old Name");
    r.text = "  Ada \t".to_string();
    r.follow(4, "ignored");
    assert_eq!(r.text, "  Ada \t");
    assert_eq!(r.apply(), Some("Ada".to_string()));
    assert_eq!(r.text, "Ada");
    r.text = " \u{3000} ".to_string();
    assert_eq!(r.apply(), None);
    assert_eq!(r.text, " \u{3000} ");
}

#[test]
fn personal_log_lists_the_newest_twelve() {
    assert_eq!(log_window(0), (vec![], 0));
    assert_eq!(log_window(3), (vec![2, 1, 0], 0));
    let (idx, older) = log_window(20);
    assert_eq!(idx, (8..20).rev().collect::<Vec<usize>>());
    assert_eq!(older, 8);
    assert_eq!(log_window(12).1, 0);
}

#[test]
fn only_player_buildings_can_be_destroyed() {
    assert!(is_destructible(false, Some(0)));
    assert!(!is_destructible(true, Some(0)));
    assert!(!is_destructible(false, Some(2)));
    assert!(!is_destructible(false, None));
}

#[test]
fn inspector_links_change_the_selection() {
    let none = SelectedBuilding { col: 4, row: 6, active: false, slot: None, kind: None };
    let mut sel = Selection {
        npc: 3,
        building: SelectedBuilding { col: 4, row: 6, active: true, slot: Some(9), kind: Some(2) },
    };
    apply_action(&mut sel, InspectorAction::SelectNpc(5), Some((1, 1, 1)));
    assert_eq!(sel, Selection { npc: 5, building: none });
    apply_action(&mut sel, InspectorAction::SelectBuilding(7), Some((11, 20, 30)));
    let mill = SelectedBuilding { col: 20, row: 30, active: true, slot: Some(7), kind: Some(11) };
    assert_eq!(sel, Selection { npc: -1, building: mill });
    apply_action(&mut sel, InspectorAction::SelectNpc(2), None);
    apply_action(&mut sel, InspectorAction::SelectBuilding(8), None);
    assert_eq!(
        sel,
        Selection { npc: -1, building: SelectedBuilding { col: 20, row: 30, active: false, slot: None, kind: None } }
    );
}

#[test]
fn rename_box_resets_without_an_npc() {
    let mut r = InspectorRenameState::default();
    r.follow(6, "Ida");
    r.reset();
    assert_eq!(r.slot, -1);
    assert_eq!(r.text, "");
}
