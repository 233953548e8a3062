use endless_ui::building::{
    buy_from_merchant, buy_tower_upgrade, rarity_price, Purchase, can_afford_costs, sell_to_merchant, pay_costs, scale_costs, sell_price, set_auto_flag,
    try_spend, upgrade_wall, wall_tier, ResourceKind, MERCHANT_REROLL_COST, WALL_MAX_TIER,
};
use endless_ui::inventory::TownItem;
use endless_ui::labels::Rarity;

#[test]
fn wall_costs_are_checked_one_by_one() {
    let costs = vec![(ResourceKind::Food, 30), (ResourceKind::Gold, 20)];
    assert!(can_afford_costs(&costs, 30, 20));
    assert!(!can_afford_costs(&costs, 29, 100));
    assert!(!can_afford_costs(&costs, 100, 19));
    assert!(can_afford_costs(&vec![], -5, -5));
    // Wood and stone cannot be paid from the inspector.
    assert!(!can_afford_costs(&vec![(ResourceKind::Wood, 0)], 100, 100));
    assert!(!can_afford_costs(&vec![(ResourceKind::Stone, 1)], 100, 100));
}

#[test]
fn paying_costs_deducts_food_and_gold_only() {
    let costs = vec![
        (ResourceKind::Food, 30),
        (ResourceKind::Wood, 7),
        (ResourceKind::Gold, 20),
        (ResourceKind::Food, 5),
    ];
    let (mut food, mut gold) = (100, 50);
    pay_costs(&costs, &mut food, &mut gold);
    assert_eq!((food, gold), (65, 30));
}

#[test]
fn resource_listed_twice_can_overdraw() {
    // Each entry is checked against the whole store, so two food costs of 60
    // pass the affordability test on 100 food and leave the store at -20.
    let costs = vec![(ResourceKind::Food, 60), (ResourceKind::Food, 60)];
    let (mut food, mut gold) = (100, 0);
    assert_eq!(upgrade_wall(1, &costs, &mut food, &mut gold), Some(2));
    assert_eq!(food, -20);
}

#[test]
fn wall_upgrades_stop_at_the_top_tier() {
    assert_eq!(wall_tier(0), 1);
    assert_eq!(wall_tier(2), 2);
    let costs = vec![(ResourceKind::Food, 10), (ResourceKind::Gold, 10)];
    let (mut food, mut gold) = (50, 50);
    assert_eq!(upgrade_wall(0, &costs, &mut food, &mut gold), Some(2));
    assert_eq!((food, gold), (40, 40));
    assert_eq!(upgrade_wall(2, &costs, &mut food, &mut gold), Some(3));
    assert_eq!((food, gold), (30, 30));
    assert_eq!(upgrade_wall(WALL_MAX_TIER, &costs, &mut food, &mut gold), None);
    assert_eq!((food, gold), (30, 30));
    let (mut poor_food, mut poor_gold) = (5, 50);
    assert_eq!(upgrade_wall(1, &costs, &mut poor_food, &mut poor_gold), None);
    assert_eq!((poor_food, poor_gold), (5, 50));
}

#[test]
fn merchant_trades() {
    assert_eq!(try_spend(120, 100), Some(20));
    assert_eq!(try_spend(100, 100), Some(0));
    assert_eq!(try_spend(99, 100), None);
    assert_eq!(try_spend(49, MERCHANT_REROLL_COST), None);
    assert_eq!(try_spend(60, MERCHANT_REROLL_COST), Some(10));
    assert_eq!(sell_price(100), 50);
    assert_eq!(sell_price(25), 12);
    assert_eq!(sell_price(-25), -12);
}

#[test]
fn tower_upgrades_scale_costs_and_grow_levels() {
    let base = vec![(ResourceKind::Food, 20), (ResourceKind::Gold, 5)];
    let costs = scale_costs(&base, 3);
    assert_eq!(costs, vec![(ResourceKind::Food, 60), (ResourceKind::Gold, 15)]);
    let mut levels: Vec<u8> = vec![1];
    let (mut food, mut gold) = (100, 20);
    assert!(buy_tower_upgrade(&mut levels, 2, &costs, &mut food, &mut gold));
    assert_eq!(levels, vec![1, 0, 1]);
    assert_eq!((food, gold), (40, 5));
    // Not enough gold left: nothing changes.
    assert!(!buy_tower_upgrade(&mut levels, 0, &costs, &mut food, &mut gold));
    assert_eq!(levels, vec![1, 0, 1]);
    assert_eq!((food, gold), (40, 5));
    let (mut food, mut gold) = (500, 500);
    assert!(buy_tower_upgrade(&mut levels, 0, &costs, &mut food, &mut gold));
    assert_eq!(levels, vec![2, 0, 1]);

    let mut flags = vec![true];
    set_auto_flag(&mut flags, 3, true);
    assert_eq!(flags, vec![true, false, false, true]);
    set_auto_flag(&mut flags, 0, false);
    assert_eq!(flags, vec![false, false, false, true]);
}

#[test]
fn selling_to_the_merchant_takes_the_item_out_and_pays_half() {
    let item = |id: u64, rarity: Rarity| TownItem { id, rarity, data: id * 10 };
    let mut stock = vec![item(1, Rarity::Common), item(7, Rarity::Rare), item(3, Rarity::Epic), item(7, Rarity::Common)];
    let costs = [25, 60, 151, 400];
    let mut gold = 10;
    assert_eq!(sell_to_merchant(&mut stock, 7, &mut gold, &costs), Some(Rarity::Rare));
    assert_eq!(gold, 10 + 75);
    let ids: Vec<u64> = stock.iter().map(|it| it.id).collect();
    assert_eq!(ids, vec![1, 7, 3]);
    assert_eq!(stock[1].rarity, Rarity::Common);
    assert_eq!(sell_to_merchant(&mut stock, 9, &mut gold, &costs), None);
    assert_eq!(gold, 85);
    assert_eq!(stock.len(), 3);
    assert_eq!(sell_to_merchant(&mut stock, 3, &mut gold, &costs), Some(Rarity::Epic));
    assert_eq!(gold, 285);
    let ids: Vec<u64> = stock.iter().map(|it| it.id).collect();
    assert_eq!(ids, vec![1, 7]);
}

#[test]
fn buying_from_the_merchant_pays_the_full_price() {
    let costs = [25, 60, 150, 400];
    let mut stock = vec![TownItem { id: 1, rarity: Rarity::Common, data: () }];
    let mut gold = 100;
    let r = buy_from_merchant(Some(TownItem { id: 9, rarity: Rarity::Uncommon, data: () }), &mut stock, &mut gold, &costs);
    assert!(matches!(r, Purchase::Bought));
    assert_eq!(gold, 40);
    assert_eq!(stock.iter().map(|it| it.id).collect::<Vec<_>>(), vec![1, 9]);
    assert!(matches!(buy_from_merchant(None, &mut stock, &mut gold, &costs), Purchase::NothingToBuy));
    assert_eq!((gold, stock.len()), (40, 2));
    let r = buy_from_merchant(Some(TownItem { id: 4, rarity: Rarity::Uncommon, data: () }), &mut stock, &mut gold, &costs);
    assert!(matches!(r, Purchase::CannotAfford(TownItem { id: 4, .. })));
    assert_eq!((gold, stock.len()), (40, 2));
    assert_eq!(rarity_price(&costs, Rarity::Epic), 400);
}
