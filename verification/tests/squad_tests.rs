use endless_ui::squads::{
    click_squad, dc_slots, dismiss_all, recruit, recruit_amounts, selected_squad, MemberInfo,
};

#[test]
fn clicking_a_squad_toggles_the_selection() {
    assert_eq!(click_squad(-1, 2), 2);
    assert_eq!(click_squad(2, 2), -1);
    assert_eq!(click_squad(1, 3), 3);
    assert_eq!(selected_squad(-1, 4), None);
    assert_eq!(selected_squad(3, 4), Some(3));
    assert_eq!(selected_squad(4, 4), None);
}

#[test]
fn recruit_buttons_up_to_the_available_count() {
    assert_eq!(recruit_amounts(0), Vec::<usize>::new());
    assert_eq!(recruit_amounts(1), vec![1]);
    assert_eq!(recruit_amounts(7), vec![1, 2, 4]);
    assert_eq!(recruit_amounts(32), vec![1, 2, 4, 8, 16, 32]);
    assert_eq!(recruit_amounts(1000), vec![1, 2, 4, 8, 16, 32]);
}

#[test]
fn recruiting_moves_soldiers_from_the_default_squad() {
    let mut default_squad = vec![10, 11, 12, 13, 14];
    let mut squad = vec![20];
    let mut target = 0usize;
    // Available archers of the default squad: 11, 13, 14.
    recruit(&mut default_squad, &mut squad, &mut target, &vec![11, 13, 14], 2);
    assert_eq!(default_squad, vec![10, 12, 14]);
    assert_eq!(squad, vec![20, 11, 13]);
    assert_eq!(target, 3);

    // Asking for more than are available takes them all; the target size
    // never shrinks.
    let mut target = 9usize;
    recruit(&mut default_squad, &mut squad, &mut target, &vec![14], 8);
    assert_eq!(default_squad, vec![10, 12]);
    assert_eq!(squad, vec![20, 11, 13, 14]);
    assert_eq!(target, 9);

    // A soldier already in the squad is not added twice.
    let mut d = vec![5, 6];
    let mut s = vec![5];
    let mut t = 0usize;
    recruit(&mut d, &mut s, &mut t, &vec![5, 6], 4);
    assert_eq!(d, Vec::<u64>::new());
    assert_eq!(s, vec![5, 6]);
    assert_eq!(t, 2);
}

#[test]
fn dismissing_empties_the_squad() {
    let mut squad = vec![1, 2, 3];
    let mut target = 5usize;
    dismiss_all(&mut squad, &mut target);
    assert!(squad.is_empty());
    assert_eq!(target, 0);
}

#[test]
fn direct_control_units_of_the_selected_player_squad() {
    let members = vec![
        MemberInfo { slot: Some(4), alive: true, direct_control: true },
        MemberInfo { slot: Some(5), alive: false, direct_control: true },
        MemberInfo { slot: None, alive: true, direct_control: true },
        MemberInfo { slot: Some(7), alive: true, direct_control: false },
        MemberInfo { slot: Some(9), alive: true, direct_control: true },
    ];
    let player_squads = vec![true, false, true];
    assert_eq!(dc_slots(0, &player_squads, &members), vec![4, 9]);
    assert_eq!(dc_slots(1, &player_squads, &members), Vec::<usize>::new());
    assert_eq!(dc_slots(-1, &player_squads, &members), Vec::<usize>::new());
    assert_eq!(dc_slots(3, &player_squads, &members), Vec::<usize>::new());
}
