use endless_ui::inventory::{
    common_sale_gold, count_common, sell_all_common, TownItem, item_rank_order, shows_equipped, shows_unequipped,
    slot_passes_filter, toggle_slot_filter, view_from_mode, InventoryView,
};
use endless_ui::labels::{rarity_ord, slot_label, EquipmentSlot, Rarity};
use endless_ui::main_menu::{size_name, AiSlotKind};
use endless_ui::left_panel::{
    collapsed_sections, keeps_factions_overlay, panel_frame_end, panel_frame_start,
    restored_open, tab_help_key, tab_to_str, tracked_section, LeftPanelTab, PanelEvent,
    PanelState, TRACKED_SECTION_COUNT,
};
use endless_ui::roster::{RosterState, SortColumn};
use endless_ui::sorting::{stable_order, stable_text_order, text_less};
use endless_ui::town_view::{armory_town, player_town_index, upgrade_level_total};
use endless_ui::tech_tree::{
    active_branch_tab, cost_color, depth_rows, line_color, node_bg, node_border, node_state, node_status,
    node_text_gray, status_color, upgrade_requests, NodeState, NodeStatus, UpgradeRequest,
};

#[test]
fn rarity_ranks_increase_with_rarity() {
    assert_eq!(rarity_ord(Rarity::Common), 0);
    assert_eq!(rarity_ord(Rarity::Uncommon), 1);
    assert_eq!(rarity_ord(Rarity::Rare), 2);
    assert_eq!(rarity_ord(Rarity::Epic), 3);
}

#[test]
fn labels_of_slots_ai_kinds_and_sizes() {
    assert_eq!(slot_label(EquipmentSlot::Helm), "Helm");
    assert_eq!(slot_label(EquipmentSlot::Ring), "Ring");
    assert_eq!(AiSlotKind::Builder.label(), "Builder");
    assert_eq!(AiSlotKind::Raider.label(), "Raider");
    assert_eq!(size_name(8000), "Tiny");
    assert_eq!(size_name(32000), "Large");
    assert_eq!(size_name(64000), "Endless");
    assert_eq!(size_name(12345), "Custom");
}

#[test]
fn tab_names_and_help_keys() {
    assert_eq!(tab_to_str(LeftPanelTab::Roster), "Roster");
    assert_eq!(tab_to_str(LeftPanelTab::Blackjack), "Blackjack");
    assert_eq!(tab_help_key(LeftPanelTab::Factions), "tab_factions");
    assert_eq!(tab_help_key(LeftPanelTab::Help), "tab_help");
    assert!(keeps_factions_overlay(true, LeftPanelTab::Factions));
    assert!(!keeps_factions_overlay(true, LeftPanelTab::Roster));
    assert!(!keeps_factions_overlay(false, LeftPanelTab::Factions));
}

#[test]
fn panel_saves_on_close_and_restores_on_open() {
    let mut p = PanelState::default();
    assert_eq!(panel_frame_start(&mut p, false), PanelEvent::Unchanged);
    assert_eq!(panel_frame_start(&mut p, true), PanelEvent::Opened);
    assert_eq!(panel_frame_start(&mut p, true), PanelEvent::Unchanged);
    panel_frame_end(&mut p, true, LeftPanelTab::Squads);
    assert_eq!(p.prev_tab, LeftPanelTab::Squads);
    assert_eq!(panel_frame_start(&mut p, false), PanelEvent::Closed);
    assert_eq!(p.prev_tab, LeftPanelTab::Roster);
    assert_eq!(panel_frame_start(&mut p, false), PanelEvent::Unchanged);
}

#[test]
fn collapsed_sections_are_the_closed_ones() {
    let mut open = vec![true; TRACKED_SECTION_COUNT];
    open[2] = false;
    open[9] = false;
    assert_eq!(collapsed_sections(&open), vec![2, 9]);
    assert_eq!(tracked_section(0), ("Desires", true));
    assert_eq!(tracked_section(9), ("NPC Target Thrash (sink, 1s window)", true));
    assert!(!restored_open(true, true));
    assert!(restored_open(false, true));
    assert!(!restored_open(false, false));
}

#[test]
fn roster_header_clicks() {
    let mut r = RosterState::default();
    assert_eq!(r.arrow_str(SortColumn::Name), "");
    r.click_column(SortColumn::Level);
    assert_eq!(r.sort_column, Some(SortColumn::Level));
    assert!(r.sort_descending);
    assert_eq!(r.arrow_str(SortColumn::Level), " \u{25BC}");
    r.click_column(SortColumn::Level);
    assert!(!r.sort_descending);
    assert_eq!(r.arrow_str(SortColumn::Level), " \u{25B2}");
    r.click_column(SortColumn::Name);
    assert!(r.sort_descending);
    assert_eq!(r.arrow_str(SortColumn::Level), "");
}

#[test]
fn roster_rebuilds_every_thirty_frames() {
    let mut r = RosterState::default();
    assert!(r.next_frame(false));
    for _ in 0..29 {
        assert!(!r.next_frame(false));
    }
    assert!(r.next_frame(false));
    assert!(r.next_frame(true));
    r.set_job_filter(3);
    assert_eq!(r.frame_counter, 0);
    assert!(r.row_visible(false, 0, 3, false));
    assert!(!r.row_visible(false, 0, 2, false));
    assert!(!r.row_visible(true, 0, 3, false));
    assert!(!r.row_visible(false, 1, 3, false));
    assert!(r.row_visible(false, 1, 3, true));
    r.set_job_filter(-1);
    assert!(r.row_visible(false, 0, 7, false));
}

#[test]
fn roster_rename_box_follows_the_selection() {
    let mut r = RosterState::default();
    r.follow_selection(3, "Bram");
    assert_eq!((r.rename_slot, r.rename_text.as_str()), (3, "Bram"));
    r.rename_text = "  Bram the Bold ".to_string();
    r.follow_selection(3, "Bram");
    assert_eq!(r.rename_text, "  Bram the Bold ");
    r.next_frame(false);
    assert_eq!(r.apply_rename(), Some("Bram the Bold".to_string()));
    assert_eq!(r.rename_text, "Bram the Bold");
    assert_eq!(r.frame_counter, 0);
    r.rename_text = "\t ".to_string();
    r.next_frame(false);
    assert_eq!(r.apply_rename(), None);
    assert_eq!(r.frame_counter, 1);
    r.follow_selection(-1, "ignored");
    assert_eq!((r.rename_slot, r.rename_text.as_str()), (-1, ""));
}

#[test]
fn roster_orders_by_level_stably() {
    let levels = vec![3, 5, 3, 1, 5];
    let jobs = vec![2, 1, 2, 0, 1];
    let r = RosterState::default();
    assert_eq!(r.integer_order(&levels, &jobs), Some(vec![1, 4, 0, 2, 3]));
    let mut r = RosterState::default();
    r.click_column(SortColumn::Job);
    r.click_column(SortColumn::Job);
    assert_eq!(r.integer_order(&levels, &jobs), Some(vec![3, 1, 4, 0, 2]));
    r.click_column(SortColumn::Hp);
    assert_eq!(r.integer_order(&levels, &jobs), None);
    assert_eq!(stable_order(&vec![], false), Vec::<usize>::new());
}

#[test]
fn inventory_views_filters_and_sales() {
    assert_eq!(view_from_mode(0), InventoryView::Unequipped);
    assert_eq!(view_from_mode(1), InventoryView::Equipped);
    assert_eq!(view_from_mode(2), InventoryView::All);
    assert!(shows_unequipped(0) && !shows_equipped(0));
    assert!(!shows_unequipped(1) && shows_equipped(1));
    assert!(shows_unequipped(2) && shows_equipped(2));
    assert!(slot_passes_filter(0b101, 2));
    assert!(!slot_passes_filter(0b101, 1));
    assert_eq!(toggle_slot_filter(0b101, 1), 0b111);
    assert_eq!(toggle_slot_filter(0b101, 0), 0b100);
    assert_eq!(item_rank_order(0, Rarity::Common, 1, Rarity::Epic), -1);
    assert_eq!(item_rank_order(1, Rarity::Epic, 1, Rarity::Common), -1);
    assert_eq!(item_rank_order(1, Rarity::Rare, 1, Rarity::Epic), 1);
    assert_eq!(item_rank_order(1, Rarity::Rare, 1, Rarity::Rare), 0);
    let rarities = vec![Rarity::Common, Rarity::Rare, Rarity::Common];
    assert_eq!(count_common(&rarities), 2);
    assert_eq!(common_sale_gold(2, 11), 10);
}

#[test]
fn tech_tree_nodes() {
    assert_eq!(node_state(3, Some(3), false, false), NodeState::Maxed);
    assert_eq!(node_state(1, Some(3), false, true), NodeState::Locked);
    assert_eq!(node_state(1, None, true, true), NodeState::Available);
    assert_eq!(node_state(1, None, true, false), NodeState::Unlocked);
    assert_eq!(node_bg(NodeState::Available), (22, 74, 48));
    assert_eq!(node_border(NodeState::Maxed), (15, (150, 174, 255)));
    assert_eq!(node_text_gray(NodeState::Locked), 124);
    assert_eq!(node_text_gray(NodeState::Maxed), 220);
    assert_eq!(line_color(false), (46, 46, 46));
    assert_eq!(active_branch_tab(7, 3), 2);
    assert_eq!(active_branch_tab(1, 3), 1);
    assert_eq!(active_branch_tab(4, 0), 0);
}

#[test]
fn town_selection_and_level_totals() {
    assert_eq!(player_town_index(&vec![2, 0, 0]), 1);
    assert_eq!(player_town_index(&vec![2, 3]), 0);
    assert_eq!(player_town_index(&vec![]), 0);
    assert_eq!(upgrade_level_total(&vec![3, 255, 0, 2]), 260);
    assert_eq!(armory_town(-3), 0);
    assert_eq!(armory_town(4), 4);
}

#[test]
fn tech_node_status_lines() {
    assert_eq!(node_status(NodeState::Maxed, Some(1), 1), NodeStatus::Unlocked);
    assert_eq!(node_status(NodeState::Maxed, Some(5), 5), NodeStatus::Level);
    assert_eq!(node_status(NodeState::Locked, None, 3), NodeStatus::Locked);
    assert_eq!(node_status(NodeState::Available, None, 0), NodeStatus::NotBought);
    assert_eq!(node_status(NodeState::Unlocked, Some(4), 2), NodeStatus::Level);
    assert_eq!(status_color(NodeState::Available), (160, 220, 100));
    assert_eq!(status_color(NodeState::Locked), (150, 150, 150));
    assert_eq!(cost_color(NodeState::Locked), (105, 105, 105));
    assert_eq!(cost_color(NodeState::Maxed), (165, 165, 165));
}

#[test]
fn branch_nodes_grouped_by_depth() {
    let entries = vec![(4, 0), (7, 1), (2, 1), (9, 3), (5, 0)];
    assert_eq!(depth_rows(&entries), vec![vec![4, 5], vec![7, 2], vec![], vec![9]]);
    assert_eq!(depth_rows(&vec![]), Vec::<Vec<usize>>::new());
    assert_eq!(depth_rows(&vec![(1, 0)]), vec![vec![1]]);
}

fn stock(items: &[(u64, Rarity)]) -> Vec<TownItem<&'static str>> {
    items.iter().map(|&(id, rarity)| TownItem { id, rarity, data: "item" }).collect()
}

fn ids(items: &Vec<TownItem<&'static str>>) -> Vec<u64> {
    items.iter().map(|it| it.id).collect()
}

#[test]
fn selling_all_commons() {
    let mut items = stock(&[
        (1, Rarity::Common),
        (2, Rarity::Rare),
        (3, Rarity::Common),
        (4, Rarity::Epic),
        (5, Rarity::Uncommon),
    ]);
    let mut gold = 10;
    assert_eq!(sell_all_common(&mut items, &mut gold, 11), 2);
    assert_eq!(gold, 20);
    // Id 1 goes first: the last item moves into its place; then id 3.
    assert_eq!(ids(&items), vec![5, 2, 4]);

    let mut none = stock(&[(7, Rarity::Rare)]);
    let mut gold = 3;
    assert_eq!(sell_all_common(&mut none, &mut gold, 11), 0);
    assert_eq!(gold, 3);
    assert_eq!(ids(&none), vec![7]);

    // Two items sharing an id: the first of them goes, whatever its rarity.
    let mut shared = stock(&[(8, Rarity::Epic), (8, Rarity::Common)]);
    let mut gold = 0;
    assert_eq!(sell_all_common(&mut shared, &mut gold, 10), 1);
    assert_eq!(shared[0].rarity, Rarity::Common);
}

#[test]
fn sections_round_trip_through_close_and_open() {
    // Every section open except "Desires": only it is recorded, and on the
    // next opening the sections closed by default come back closed.
    let mut open = vec![true; 10];
    open[0] = false;
    let collapsed = collapsed_sections(&open);
    assert_eq!(collapsed, vec![0]);
    let restored: Vec<bool> = (0..10)
        .map(|i| restored_open(collapsed.contains(&i), tracked_section(i).1))
        .collect();
    assert_eq!(
        restored,
        vec![false, true, false, true, false, false, true, true, false, true]
    );
}

#[test]
fn roster_orders_by_text_columns_stably() {
    let s = |v: &[&str]| v.iter().map(|x| x.to_string()).collect::<Vec<String>>();
    let names = s(&["b", "a", "b", "c"]);
    let states = s(&["Idle", "Fighting", "Idle", "Resting"]);
    let traits = s(&["", "Brave", "", "Brave"]);
    let mut r = RosterState::default();
    assert_eq!(r.text_order(&names, &states, &traits), None);
    r.click_column(SortColumn::Name);
    // a first click sorts descending; equal names keep their order
    assert_eq!(r.text_order(&names, &states, &traits), Some(vec![3, 0, 2, 1]));
    r.click_column(SortColumn::Name);
    assert_eq!(r.text_order(&names, &states, &traits), Some(vec![1, 0, 2, 3]));
    r.click_column(SortColumn::State);
    assert_eq!(r.text_order(&names, &states, &traits), Some(vec![3, 0, 2, 1]));
    r.click_column(SortColumn::Trait);
    r.click_column(SortColumn::Trait);
    assert_eq!(r.text_order(&names, &states, &traits), Some(vec![0, 2, 1, 3]));
    r.click_column(SortColumn::Level);
    assert_eq!(r.text_order(&names, &states, &traits), None);
    assert_eq!(stable_text_order(&s(&["ab", "a", "abc", "B"]), false), vec![3, 1, 0, 2]);
    assert!(text_less("Zed", "ant") && !text_less("ant", "ant") && text_less("", "a"));
}

#[test]
fn tech_tree_buys_only_available_nodes_for_the_player_town() {
    let factions = vec![2, 1, 0, 0];
    let clicks = vec![
        (4, NodeState::Available),
        (5, NodeState::Locked),
        (6, NodeState::Unlocked),
        (7, NodeState::Maxed),
        (1, NodeState::Available),
    ];
    assert_eq!(
        upgrade_requests(true, &factions, &clicks),
        vec![UpgradeRequest { town_idx: 2, upgrade_idx: 4 }, UpgradeRequest { town_idx: 2, upgrade_idx: 1 }]
    );
    assert_eq!(upgrade_requests(false, &factions, &clicks), vec![]);
    assert_eq!(
        upgrade_requests(true, &vec![3, 4], &vec![(9, NodeState::Available)]),
        vec![UpgradeRequest { town_idx: 0, upgrade_idx: 9 }]
    );
}
