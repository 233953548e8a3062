use std::collections::HashMap;

use endless_ui::mining::{
    count_auto_assigned, count_enabled_mines, mine_enabled, toggle_mine, MinerHome,
};

#[test]
fn mines_are_on_unless_switched_off() {
    let mut enabled: HashMap<usize, bool> = HashMap::new();
    assert!(mine_enabled(&enabled, 7));
    toggle_mine(&mut enabled, 7);
    assert!(!mine_enabled(&enabled, 7));
    assert!(mine_enabled(&enabled, 8));
    toggle_mine(&mut enabled, 7);
    assert!(mine_enabled(&enabled, 7));
    assert_eq!(enabled.get(&7), Some(&true));
}

#[test]
fn enabled_mines_are_counted() {
    let mut enabled: HashMap<usize, bool> = HashMap::new();
    enabled.insert(3, false);
    enabled.insert(4, true);
    assert_eq!(count_enabled_mines(&vec![3, 4, 5], &enabled), 2);
    assert_eq!(count_enabled_mines(&vec![3], &enabled), 0);
    assert_eq!(count_enabled_mines(&vec![], &enabled), 0);
}

#[test]
fn only_auto_assigned_miners_are_counted() {
    let homes = vec![
        MinerHome { manual: false, mine: Some(3) },
        MinerHome { manual: true, mine: Some(3) },
        MinerHome { manual: false, mine: Some(4) },
        MinerHome { manual: false, mine: None },
        MinerHome { manual: false, mine: Some(3) },
    ];
    assert_eq!(count_auto_assigned(&homes, Some(3)), 2);
    assert_eq!(count_auto_assigned(&homes, Some(4)), 1);
    assert_eq!(count_auto_assigned(&homes, Some(9)), 0);
    assert_eq!(count_auto_assigned(&homes, None), 3);
}

#[test]
fn mine_assignment_buttons() {
    let mut h = MinerHome { manual: false, mine: None };
    assert!(!h.can_clear());
    assert_eq!(h.mode_label(), "Mode: Auto-policy");
    h.pick_manually();
    assert!(h.manual);
    assert!(h.can_clear());
    assert_eq!(h.mode_label(), "Mode: Manual");
    h.mine = Some(12);
    h.clear();
    assert_eq!(h, MinerHome { manual: false, mine: None });
    let auto = MinerHome { manual: false, mine: Some(4) };
    assert!(auto.can_clear());
}
