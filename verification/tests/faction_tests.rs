use endless_ui::snapshots::{faction_snapshots, next_upgrade_node, reversed, AiKind, AiPlayerInfo, SnapshotKind, TownInfo};
use endless_ui::factions::{
    commander_tally, faction_squads, line_colors, line_start_town, marker_color, marker_shown, overlay_faction, squad_role, FactionsView, SquadLine, SquadOwner, SquadRole,
};

#[test]
fn snapshots_rebuild_every_thirty_frames() {
    let mut v = FactionsView::default();
    assert!(v.next_frame(false)); // frame 1
    for _ in 2..=30 {
        assert!(!v.next_frame(false));
    }
    assert!(v.next_frame(false)); // frame 31
    assert!(v.next_frame(true));
}

#[test]
fn requested_faction_is_selected() {
    let factions = vec![0, 3, 5, 3];
    let mut v = FactionsView::default();
    v.select(&factions, Some(3));
    assert_eq!(v.selected_idx, 1);
    v.select(&factions, Some(9));
    assert_eq!(v.selected_idx, 1);
    v.select(&factions, None);
    assert_eq!(v.selected_idx, 1);
    v.selected_idx = 7;
    v.select(&factions, None);
    assert_eq!(v.selected_idx, 0);
}

#[test]
fn faction_lists_its_squads_with_members() {
    let owners = vec![
        SquadOwner::Player,
        SquadOwner::Town(2),
        SquadOwner::Town(2),
        SquadOwner::Town(4),
        SquadOwner::Player,
    ];
    let members = vec![3, 5, 0, 2, 1];
    assert_eq!(faction_squads(&owners, &members, 0, 0), vec![0, 4]);
    assert_eq!(faction_squads(&owners, &members, 6, 2), vec![1]);
    assert_eq!(faction_squads(&owners, &members, 6, 4), vec![3]);
    assert_eq!(faction_squads(&owners, &members, 6, 9), Vec::<usize>::new());
}

#[test]
fn commander_roles_and_counts() {
    assert_eq!(squad_role(true, 0, 5), SquadRole::Manual);
    assert_eq!(squad_role(false, 0, 0), SquadRole::Defense);
    assert_eq!(squad_role(false, 1, 0), SquadRole::Idle);
    assert_eq!(squad_role(false, 2, 4), SquadRole::Attack);
    let squads = vec![
        SquadLine { members: 6, target_size: 0 },
        SquadLine { members: 4, target_size: 4 },
        SquadLine { members: 0, target_size: 3 },
        SquadLine { members: 2, target_size: 0 },
    ];
    assert_eq!(commander_tally(false, &squads), (6, 4, 1));
    assert_eq!(commander_tally(true, &squads), (0, 0, 0));
    assert_eq!(commander_tally(false, &vec![]), (0, 0, 0));
}

#[test]
fn squad_markers_and_lines() {
    assert_eq!(marker_color(0), (255, 80, 80));
    assert_eq!(marker_color(9), (140, 140, 255));
    assert_eq!(marker_color(12), (80, 220, 80));
    assert!(marker_shown(false, true, true, 3));
    assert!(!marker_shown(true, true, true, 3));
    assert!(!marker_shown(false, false, true, 3));
    assert!(!marker_shown(false, true, false, 3));
    assert!(!marker_shown(false, true, true, 0));
    assert_eq!(overlay_faction(true, Some(4)), Some(4));
    assert_eq!(overlay_faction(false, Some(4)), None);
    assert_eq!(
        line_colors(&vec![2, 5, 2, 2, 5, 2, 2, 2]),
        vec![0, 0, 1, 2, 1, 3, 4, 0]
    );
    assert_eq!(line_colors(&vec![]), Vec::<usize>::new());
}

#[test]
fn squad_lines_start_at_a_town_of_the_faction() {
    // (faction, raider camp)
    let towns = vec![(3, true), (0, false), (3, true), (3, false), (3, true), (4, true)];
    assert_eq!(line_start_town(&towns, 3), Some(3));
    assert_eq!(line_start_town(&towns, 4), Some(5));
    assert_eq!(line_start_town(&towns, 0), Some(1));
    assert_eq!(line_start_town(&towns, 7), None);
    assert_eq!(line_start_town(&vec![(2, true), (2, true)], 2), Some(0));
}

#[test]
fn overlay_follows_the_shown_faction() {
    let mut v = FactionsView::default();
    let mut overlay = Some(7);
    v.show(&vec![], Some(3), &mut overlay);
    assert_eq!(overlay, Some(7));
    assert_eq!(v.selected_idx, 0);
    v.show(&vec![0, 3, 5], Some(5), &mut overlay);
    assert_eq!((v.selected_idx, overlay), (2, Some(5)));
    v.show(&vec![0, 3], None, &mut overlay);
    assert_eq!((v.selected_idx, overlay), (0, Some(0)));
}

#[test]
fn snapshots_list_the_player_town_first_then_each_ai_player() {
    let towns = vec![
        TownInfo { faction: 2, food: 10, gold: 1 },
        TownInfo { faction: 0, food: 50, gold: 7 },
        TownInfo { faction: 0, food: 99, gold: 99 },
    ];
    let acts = |v: &[(&str, i32, i32)]| v.iter().map(|(s, a, b)| (s.to_string(), *a, *b)).collect::<Vec<_>>();
    let players = vec![
        AiPlayerInfo { town_data_idx: 0, kind: AiKind::Raider, last_actions: acts(&[("raid", 1, 2), ("build", 3, 4)]) },
        AiPlayerInfo { town_data_idx: 7, kind: AiKind::Builder, last_actions: vec![] },
    ];
    let snaps = faction_snapshots(&towns, players);
    assert_eq!(snaps.len(), 3);
    assert_eq!((snaps[0].town_data_idx, snaps[0].kind, snaps[0].town), (1, SnapshotKind::Player, towns[1]));
    assert!(snaps[0].last_actions.is_empty());
    assert_eq!((snaps[1].town_data_idx, snaps[1].kind, snaps[1].town), (0, SnapshotKind::Raider, towns[0]));
    assert_eq!(snaps[1].last_actions, acts(&[("build", 3, 4), ("raid", 1, 2)]));
    assert_eq!(snaps[2].kind, SnapshotKind::Builder);
    assert_eq!(snaps[2].town, TownInfo { faction: 0, food: 0, gold: 0 });
    let no_player = faction_snapshots(&vec![TownInfo { faction: 3, food: 1, gold: 1 }], vec![]);
    assert!(no_player.is_empty());
    assert_eq!(reversed(vec![1, 2, 3]), vec![3, 2, 1]);
}

#[test]
fn next_upgrade_is_the_first_unlocked_node_below_the_cap() {
    let unlocked = vec![true, false, true, true];
    assert_eq!(next_upgrade_node(&vec![20, 0, 19], &unlocked), Some(2));
    assert_eq!(next_upgrade_node(&vec![20, 0, 20], &unlocked), Some(3));
    assert_eq!(next_upgrade_node(&vec![20, 0, 20, 25], &unlocked), None);
    assert_eq!(next_upgrade_node(&vec![], &vec![false, true]), Some(1));
    assert_eq!(next_upgrade_node(&vec![1], &vec![]), None);
}
