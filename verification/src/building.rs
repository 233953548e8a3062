//! Building inspector actions: paying for wall and tower upgrades and
//! trading with the town merchant.

use vstd::prelude::*;

use crate::blackjack::half_toward_zero;
use crate::inventory::{find_id, first_with_id, lemma_first_with_id_found, swap_removed, TownItem};
use crate::labels::{rarity_ord, spec_rarity_ord, Rarity};

verus! {

/// A resource a building cost is counted in.
#[derive(Clone, Copy, Debug, PartialEq, Eq, Structural)]
pub enum ResourceKind {
    Food,
    Gold,
    Wood,
    Stone,
}

/// Highest wall tier; a wall at this tier offers no upgrade.
pub const WALL_MAX_TIER: u8 = 3;

/// Gold the merchant charges to roll a new stock.
pub const MERCHANT_REROLL_COST: i32 = 50;

/// One cost can be met from the town's stores: food and gold against what
/// the town holds; wood and stone are never payable from the inspector.
pub open spec fn cost_met(cost: (ResourceKind, i32), food: i32, gold: i32) -> bool {
    match cost.0 {
        ResourceKind::Food => food >= cost.1,
        ResourceKind::Gold => gold >= cost.1,
        _ => false,
    }
}

/// Every cost of the list can be met (each checked on its own against the stores).
pub open spec fn costs_met(costs: Seq<(ResourceKind, i32)>, food: i32, gold: i32) -> bool {
    forall|i: int| 0 <= i < costs.len() ==> cost_met(#[trigger] costs[i], food, gold)
}

/// Total amount of resource `kind` in a cost list.
pub open spec fn paid_in(costs: Seq<(ResourceKind, i32)>, kind: ResourceKind) -> int
    decreases costs.len(),
{
    if costs.len() == 0 {
        0
    } else {
        paid_in(costs.drop_last(), kind) + (if costs.last().0 == kind {
            costs.last().1 as int
        } else {
            0
        })
    }
}

/// Paying the costs one by one keeps both stores within `i32`.
pub open spec fn payment_fits(costs: Seq<(ResourceKind, i32)>, food: i32, gold: i32) -> bool {
    forall|k: int|
        0 <= k <= costs.len() ==> {
            &&& i32::MIN <= food - #[trigger] paid_in(costs.take(k), ResourceKind::Food) <= i32::MAX
            &&& i32::MIN <= gold - paid_in(costs.take(k), ResourceKind::Gold) <= i32::MAX
        }
}

/// Whether the upgrade button is enabled for the given costs.
pub fn can_afford_costs(costs: &Vec<(ResourceKind, i32)>, food: i32, gold: i32) -> (b: bool)
    ensures
        b == costs_met(costs@, food, gold),
{
    let mut i: usize = 0;
    while i < costs.len()
        invariant
            i <= costs@.len(),
            forall|j: int| 0 <= j < i ==> cost_met(#[trigger] costs@[j], food, gold),
        decreases costs@.len() - i,
    {
        let (kind, amount) = costs[i];
        let met = match kind {
            ResourceKind::Food => food >= amount,
            ResourceKind::Gold => gold >= amount,
            ResourceKind::Wood | ResourceKind::Stone => false,
        };
        if !met {
            proof {
                assert(!cost_met(costs@[i as int], food, gold));
            }
            return false;
        }
        i = i + 1;
    }
    true
}

/// Takes each cost from the town's stores: food and gold are deducted;
/// wood and stone are not held there and are skipped.
pub fn pay_costs(costs: &Vec<(ResourceKind, i32)>, food: &mut i32, gold: &mut i32)
    requires
        payment_fits(costs@, *old(food), *old(gold)),
    ensures
        *final(food) == *old(food) - paid_in(costs@, ResourceKind::Food),
        *final(gold) == *old(gold) - paid_in(costs@, ResourceKind::Gold),
{
    let ghost food0 = *food;
    let ghost gold0 = *gold;
    let mut i: usize = 0;
    while i < costs.len()
        invariant
            i <= costs@.len(),
            payment_fits(costs@, food0, gold0),
            *food == food0 - paid_in(costs@.take(i as int), ResourceKind::Food),
            *gold == gold0 - paid_in(costs@.take(i as int), ResourceKind::Gold),
        decreases costs@.len() - i,
    {
        let (kind, amount) = costs[i];
        proof {
            assert(costs@.take(i + 1).drop_last() =~= costs@.take(i as int));
            assert(costs@.take(i + 1).last() == (kind, amount));
            assert(0 <= i + 1 <= costs@.len());
            let f = paid_in(costs@.take(i + 1), ResourceKind::Food);
            let g = paid_in(costs@.take(i + 1), ResourceKind::Gold);
            assert(i32::MIN <= food0 - f <= i32::MAX);
            assert(i32::MIN <= gold0 - g <= i32::MAX);
        }
        match kind {
            ResourceKind::Food => {
                *food = *food - amount;
            },
            ResourceKind::Gold => {
                *gold = *gold - amount;
            },
            ResourceKind::Wood | ResourceKind::Stone => {},
        }
        i = i + 1;
    }
    proof {
        assert(costs@.take(i as int) =~= costs@);
    }
}

/// Tier of a wall at the stored level: level 0 counts as tier 1.
pub fn wall_tier(level: u8) -> (t: u8)
    ensures
        t == (if level < 1 {
            1
        } else {
            level
        }),
{
    if level < 1 {
        1
    } else {
        level
    }
}

/// A click on the wall's upgrade button. `next_costs` is the cost list of
/// the tier above the wall's current one. Below the top tier, with every
/// cost met, the costs are paid and the new level is returned; otherwise
/// nothing changes and `None` comes back.
pub fn upgrade_wall(
    level: u8,
    next_costs: &Vec<(ResourceKind, i32)>,
    food: &mut i32,
    gold: &mut i32,
) -> (new_level: Option<u8>)
    requires
        payment_fits(next_costs@, *old(food), *old(gold)),
    ensures
        ({
            let tier = if level < 1 {
                1u8
            } else {
                level
            };
            if tier < WALL_MAX_TIER && costs_met(next_costs@, *old(food), *old(gold)) {
                &&& new_level == Some((tier + 1) as u8)
                &&& *final(food) == *old(food) - paid_in(next_costs@, ResourceKind::Food)
                &&& *final(gold) == *old(gold) - paid_in(next_costs@, ResourceKind::Gold)
            } else {
                &&& new_level.is_none()
                &&& *final(food) == *old(food)
                &&& *final(gold) == *old(gold)
            }
        }),
{
    let tier = wall_tier(level);
    if tier >= WALL_MAX_TIER {
        return None;
    }
    if !can_afford_costs(next_costs, *food, *gold) {
        return None;
    }
    pay_costs(next_costs, food, gold);
    Some(tier + 1)
}

/// A tower upgrade's costs at the current level: each base amount times
/// the level's cost multiplier.
pub open spec fn scaled_costs(base: Seq<(ResourceKind, i32)>, mult: i32) -> Seq<(ResourceKind, i32)> {
    Seq::new(base.len(), |k: int| (base[k].0, (base[k].1 * mult) as i32))
}

/// Every scaled amount fits in `i32`.
pub open spec fn scaling_fits(base: Seq<(ResourceKind, i32)>, mult: i32) -> bool {
    forall|k: int| 0 <= k < base.len() ==> i32::MIN <= #[trigger] base[k].1 * mult <= i32::MAX
}

/// The costs of a tower upgrade at the level whose cost multiplier is `mult`.
pub fn scale_costs(base: &Vec<(ResourceKind, i32)>, mult: i32) -> (costs: Vec<(ResourceKind, i32)>)
    requires
        scaling_fits(base@, mult),
    ensures
        costs@ == scaled_costs(base@, mult),
{
    let mut costs: Vec<(ResourceKind, i32)> = Vec::new();
    let mut k: usize = 0;
    while k < base.len()
        invariant
            k <= base@.len(),
            scaling_fits(base@, mult),
            costs@ == scaled_costs(base@, mult).take(k as int),
        decreases base@.len() - k,
    {
        let (kind, amount) = base[k];
        proof {
            assert(i32::MIN <= base@[k as int].1 * mult <= i32::MAX);
        }
        costs.push((kind, amount * mult));
        proof {
            assert(costs@ =~= scaled_costs(base@, mult).take(k + 1));
        }
        k = k + 1;
    }
    proof {
        assert(costs@ =~= scaled_costs(base@, mult));
    }
    costs
}

/// `v` padded with `fill` up to length `n` (unchanged when already that long).
pub open spec fn padded<T>(v: Seq<T>, n: int, fill: T) -> Seq<T> {
    if v.len() >= n {
        v
    } else {
        v + Seq::new((n - v.len()) as nat, |k: int| fill)
    }
}

/// Upgrade level `i` of a tower: the stored level, 0 when none is stored.
pub open spec fn level_at(levels: Seq<u8>, i: int) -> u8 {
    if 0 <= i < levels.len() {
        levels[i]
    } else {
        0
    }
}

/// A click on a tower upgrade's Buy button, with the upgrade's costs at its
/// current level: when every cost is met they are paid and the upgrade's
/// level rises by one (the level list grows with zeros to reach it);
/// otherwise nothing changes. Returns whether the upgrade was bought.
pub fn buy_tower_upgrade(
    levels: &mut Vec<u8>,
    i: usize,
    costs: &Vec<(ResourceKind, i32)>,
    food: &mut i32,
    gold: &mut i32,
) -> (bought: bool)
    requires
        i < usize::MAX,
        level_at(old(levels)@, i as int) < 255,
        payment_fits(costs@, *old(food), *old(gold)),
    ensures
        bought == costs_met(costs@, *old(food), *old(gold)),
        bought ==> {
            &&& *final(food) == *old(food) - paid_in(costs@, ResourceKind::Food)
            &&& *final(gold) == *old(gold) - paid_in(costs@, ResourceKind::Gold)
            &&& final(levels)@ == padded(old(levels)@, i + 1, 0u8).update(
                i as int,
                (level_at(old(levels)@, i as int) + 1) as u8,
            )
        },
        !bought ==> *final(food) == *old(food) && *final(gold) == *old(gold) && final(levels)@ == old(
            levels,
        )@,
{
    if !can_afford_costs(costs, *food, *gold) {
        return false;
    }
    pay_costs(costs, food, gold);
    let ghost start = levels@;
    while levels.len() <= i
        invariant
            i < usize::MAX,
            start.len() <= levels@.len(),
            levels@.len() > start.len() ==> levels@.len() <= i + 1,
            levels@ == padded(start, levels@.len() as int, 0u8),
        decreases i + 1 - levels@.len(),
    {
        levels.push(0);
        proof {
            assert(levels@ =~= padded(start, levels@.len() as int, 0u8));
        }
    }
    proof {
        if start.len() >= i + 1 {
            assert(levels@ =~= start);
        } else {
            assert(levels@ =~= padded(start, i + 1, 0u8));
        }
        assert(levels@[i as int] == level_at(start, i as int));
    }
    let lv = levels[i];
    levels.set(i, lv + 1);
    proof {
        assert(levels@ =~= padded(start, i + 1, 0u8).update(i as int, (level_at(start, i as int) + 1) as u8));
    }
    true
}

/// The Auto box of tower upgrade `i`: the flag list grows with `false` to
/// reach it, then the flag takes the box's value.
pub fn set_auto_flag(flags: &mut Vec<bool>, i: usize, on: bool)
    requires
        i < usize::MAX,
    ensures
        final(flags)@ == padded(old(flags)@, i + 1, false).update(i as int, on),
{
    let ghost start = flags@;
    while flags.len() <= i
        invariant
            i < usize::MAX,
            start.len() <= flags@.len(),
            flags@.len() > start.len() ==> flags@.len() <= i + 1,
            flags@ == padded(start, flags@.len() as int, false),
        decreases i + 1 - flags@.len(),
    {
        flags.push(false);
        proof {
            assert(flags@ =~= padded(start, flags@.len() as int, false));
        }
    }
    proof {
        if start.len() >= i + 1 {
            assert(flags@ =~= start);
        } else {
            assert(flags@ =~= padded(start, i + 1, false));
        }
    }
    flags.set(i, on);
}

/// Whether resource `kind` occurs at most once in the cost list.
pub open spec fn listed_once(costs: Seq<(ResourceKind, i32)>, kind: ResourceKind) -> bool {
    forall|i: int, j: int|
        0 <= i < j < costs.len() ==> !(#[trigger] costs[i].0 == kind && #[trigger] costs[j].0 == kind)
}

proof fn lemma_paid_in_single(costs: Seq<(ResourceKind, i32)>, kind: ResourceKind, food: i32, gold: i32)
    requires
        listed_once(costs, kind),
        costs_met(costs, food, gold),
        kind == ResourceKind::Food || kind == ResourceKind::Gold,
    ensures
        (exists|i: int| 0 <= i < costs.len() && #[trigger] costs[i].0 == kind) ==> paid_in(costs, kind)
            <= (if kind == ResourceKind::Food {
            food as int
        } else {
            gold as int
        }),
        (forall|i: int| 0 <= i < costs.len() ==> #[trigger] costs[i].0 != kind) ==> paid_in(costs, kind)
            == 0,
    decreases costs.len(),
{
    if costs.len() > 0 {
        let rest = costs.drop_last();
        let last = costs[costs.len() - 1];
        assert forall|i: int, j: int| 0 <= i < j < rest.len() implies !(#[trigger] rest[i].0 == kind
            && #[trigger] rest[j].0 == kind) by {
            assert(rest[i] == costs[i] && rest[j] == costs[j]);
        }
        assert forall|i: int| 0 <= i < rest.len() implies cost_met(#[trigger] rest[i], food, gold) by {
            assert(rest[i] == costs[i]);
        }
        lemma_paid_in_single(rest, kind, food, gold);
        if last.0 == kind {
            assert(cost_met(costs[costs.len() - 1], food, gold));
            assert forall|i: int| 0 <= i < rest.len() implies #[trigger] rest[i].0 != kind by {
                assert(rest[i] == costs[i]);
                assert(!(costs[i].0 == kind && costs[costs.len() - 1].0 == kind));
            }
            assert(paid_in(rest, kind) == 0);
            assert(paid_in(costs, kind) == last.1 as int);
        } else {
            assert(paid_in(costs, kind) == paid_in(rest, kind));
            if exists|i: int| 0 <= i < costs.len() && #[trigger] costs[i].0 == kind {
                let i = choose|i: int| 0 <= i < costs.len() && #[trigger] costs[i].0 == kind;
                assert(rest[i].0 == kind);
            } else {
                assert forall|i: int| 0 <= i < rest.len() implies #[trigger] rest[i].0 != kind by {
                    assert(rest[i] == costs[i]);
                }
            }
        }
    }
}

/// Paying a cost list that the button allowed never overdraws a store: a
/// store that is charged at all keeps a non-negative balance, provided food
/// and gold each appear at most once in the list (each cost is checked on
/// its own, so a resource listed twice can overdraw the store).
pub proof fn lemma_affordable_upgrade_keeps_stores(
    costs: Seq<(ResourceKind, i32)>,
    food: i32,
    gold: i32,
)
    requires
        costs_met(costs, food, gold),
        listed_once(costs, ResourceKind::Food),
        listed_once(costs, ResourceKind::Gold),
    ensures
        paid_in(costs, ResourceKind::Food) == 0 || food - paid_in(costs, ResourceKind::Food) >= 0,
        paid_in(costs, ResourceKind::Gold) == 0 || gold - paid_in(costs, ResourceKind::Gold) >= 0,
{
    lemma_paid_in_single(costs, ResourceKind::Food, food, gold);
    lemma_paid_in_single(costs, ResourceKind::Gold, food, gold);
}

/// The town's gold after spending `cost`, when it has that much.
pub fn try_spend(gold: i32, cost: i32) -> (r: Option<i32>)
    requires
        gold >= cost ==> gold - cost <= i32::MAX,
    ensures
        gold >= cost ==> r == Some((gold - cost) as i32),
        gold < cost ==> r.is_none(),
{
    if gold >= cost {
        Some(gold - cost)
    } else {
        None
    }
}

/// Gold the merchant pays for an item: half of what it costs to buy.
pub fn sell_price(cost: i32) -> (p: i32)
    ensures
        p == half_toward_zero(cost as int),
{
    cost / 2
}

/// Buying price of an item of rarity `r`, from a table indexed by rarity
/// rank.
pub open spec fn rarity_cost(costs: Seq<i32>, r: Rarity) -> int {
    costs[spec_rarity_ord(r) as int] as int
}

/// Selling to the merchant: the first item of the town's stock with id `id`
/// is taken out (the last item moving into its place) and the town gains
/// half its buying price. Returns the sold item's rarity; with no such item
/// the stock and the gold stay as they were.
pub fn sell_to_merchant<T>(items: &mut Vec<TownItem<T>>, id: u64, gold: &mut i32, costs: &[i32; 4]) -> (sold:
    Option<Rarity>)
    requires
        first_with_id(old(items)@, id) matches Some(p) ==> i32::MIN <= *old(gold) + half_toward_zero(
            rarity_cost(costs@, old(items)@[p].rarity),
        ) <= i32::MAX,
    ensures
        match first_with_id(old(items)@, id) {
            Some(p) => {
                &&& final(items)@ == swap_removed(old(items)@, p)
                &&& sold == Some(old(items)@[p].rarity)
                &&& *final(gold) == *old(gold) + half_toward_zero(rarity_cost(costs@, old(items)@[p].rarity))
            },
            None => {
                &&& final(items)@ == old(items)@
                &&& sold is None
                &&& *final(gold) == *old(gold)
            },
        },
{
    proof {
        lemma_first_with_id_found(items@, id);
    }
    match find_id(items, id) {
        Some(pos) => {
            let ghost before = items@;
            let item = items.swap_remove(pos);
            proof {
                assert(items@ =~= swap_removed(before, pos as int));
            }
            let r = item.rarity;
            let price = sell_price(costs[rarity_ord(r) as usize]);
            *gold = *gold + price;
            Some(r)
        },
        None => None,
    }
}

/// Buying price of an item of rarity `r`.
pub fn rarity_price(costs: &[i32; 4], r: Rarity) -> (p: i32)
    ensures
        p == rarity_cost(costs@, r),
{
    costs[rarity_ord(r) as usize]
}

/// How a purchase from the merchant ended.
pub enum Purchase<T> {
    /// The town paid and the item joined its stock.
    Bought,
    /// The merchant had no such item any more.
    NothingToBuy,
    /// The town's gold does not cover the price; the item is handed back.
    CannotAfford(TownItem<T>),
}

/// Buying from the merchant, given the item the merchant's stock gave up
/// for the clicked id (`None` when it no longer had one): when the town's
/// gold covers the buying price, the town pays it and the item joins the
/// town's stock at the end; otherwise nothing changes and the item comes
/// back.
pub fn buy_from_merchant<T>(bought: Option<TownItem<T>>, items: &mut Vec<TownItem<T>>, gold: &mut i32, costs: &[i32; 4]) -> (r: Purchase<T>)
    requires
        bought matches Some(it) ==> (*old(gold) >= rarity_cost(costs@, it.rarity) ==> *old(gold) - rarity_cost(
            costs@,
            it.rarity,
        ) <= i32::MAX),
    ensures
        match bought {
            Some(it) => if *old(gold) >= rarity_cost(costs@, it.rarity) {
                &&& r is Bought
                &&& final(items)@ == old(items)@.push(it)
                &&& *final(gold) == *old(gold) - rarity_cost(costs@, it.rarity)
            } else {
                &&& r == Purchase::CannotAfford(it)
                &&& final(items)@ == old(items)@
                &&& *final(gold) == *old(gold)
            },
            None => {
                &&& r is NothingToBuy
                &&& final(items)@ == old(items)@
                &&& *final(gold) == *old(gold)
            },
        },
{
    match bought {
        Some(it) => {
            let cost = rarity_price(costs, it.rarity);
            if *gold < cost {
                return Purchase::CannotAfford(it);
            }
            *gold = *gold - cost;
            items.push(it);
            Purchase::Bought
        },
        None => Purchase::NothingToBuy,
    }
}

} // verus!
