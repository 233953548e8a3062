use endless_ui::build_menu::{
    is_camp, option_label_color, option_tint, BuildChoice, BuildMenuState,
};

#[test]
fn build_bar_opens_for_the_player_town_and_clears_on_close() {
    let mut m = BuildMenuState::default();
    m.toggle(Some(2));
    assert!(m.open);
    assert_eq!(m.town, Some(2));
    m.click_option(7, 10, 50);
    assert_eq!(m.selected, Some(BuildChoice::Place(7)));
    m.toggle(Some(2));
    assert!(!m.open);
    assert_eq!(m.selected, None);
    m.ensure_town(Some(5));
    assert_eq!(m.town, Some(2));
    let mut n = BuildMenuState::default();
    n.ensure_town(Some(5));
    assert_eq!(n.town, Some(5));
}

#[test]
fn entries_toggle_and_need_food() {
    let mut m = BuildMenuState::default();
    m.click_option(3, 100, 99);
    assert_eq!(m.selected, None);
    m.click_option(3, 100, 100);
    assert_eq!(m.selected, Some(BuildChoice::Place(3)));
    m.click_option(4, 5, 100);
    assert_eq!(m.selected, Some(BuildChoice::Place(4)));
    m.click_option(4, 5, 100);
    assert_eq!(m.selected, None);
    m.click_destroy();
    assert_eq!(m.selected, Some(BuildChoice::Destroy));
    m.click_destroy();
    assert_eq!(m.selected, None);
    m.click_destroy();
    m.close();
    assert!(!m.open);
    assert_eq!(m.selected, None);
}

#[test]
fn camp_towns_and_entry_colours() {
    assert!(is_camp(3));
    assert!(!is_camp(0));
    assert_eq!(option_tint(true, false), (100, 100, 100, 150));
    assert_eq!(option_tint(true, true), (120, 255, 120, 255));
    assert_eq!(option_tint(false, true), (255, 255, 255, 255));
    assert_eq!(option_label_color(true, false), (120, 220, 120));
    assert_eq!(option_label_color(false, false), (120, 120, 120));
    assert_eq!(option_label_color(false, true), (200, 200, 200));
}
