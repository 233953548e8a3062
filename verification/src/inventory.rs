//! The inventory tab: view modes, the slot filter bitmask, the equipment
//! sort order and bulk-selling of common items.

use vstd::prelude::*;

use crate::blackjack::half_toward_zero;
use crate::labels::{Rarity, rarity_ord, spec_rarity_ord};

verus! {

/// Item list shown by the inventory tab.
#[derive(Clone, Copy, Debug, PartialEq, Eq, Structural)]
pub enum InventoryView {
    Unequipped,
    Equipped,
    All,
}

/// The view selected by the stored view-mode number (0, 1, or anything else for All).
pub fn view_from_mode(mode: u8) -> (v: InventoryView)
    ensures
        v == (if mode == 0 {
            InventoryView::Unequipped
        } else if mode == 1 {
            InventoryView::Equipped
        } else {
            InventoryView::All
        }),
{
    if mode == 0 {
        InventoryView::Unequipped
    } else if mode == 1 {
        InventoryView::Equipped
    } else {
        InventoryView::All
    }
}

/// Whether the town's unequipped items are listed (views Unequipped and All).
pub fn shows_unequipped(mode: u8) -> (b: bool)
    ensures
        b == (mode == 0 || mode == 2),
{
    mode == 0 || mode == 2
}

/// Whether the town NPCs' equipped items are listed (every view but Unequipped).
pub fn shows_equipped(mode: u8) -> (b: bool)
    ensures
        b == (mode >= 1),
{
    mode >= 1
}

/// Bit of slot `idx` in the 16-bit slot filter.
pub open spec fn slot_bit(idx: nat) -> u16 {
    (1u16 << idx) as u16
}

/// Whether the slot filter lets items of slot `idx` through.
pub fn slot_passes_filter(filter: u16, idx: u32) -> (b: bool)
    requires
        idx < 16,
    ensures
        b == (filter & slot_bit(idx as nat) != 0),
{
    filter & (1u16 << idx) != 0
}

/// Toggles slot `idx` in the filter (a click on its button).
pub fn toggle_slot_filter(filter: u16, idx: u32) -> (r: u16)
    requires
        idx < 16,
    ensures
        r == filter ^ slot_bit(idx as nat),
        (r & slot_bit(idx as nat) != 0) == (filter & slot_bit(idx as nat) == 0),
{
    let bit = 1u16 << idx;
    let r = filter ^ bit;
    assert((r & bit != 0) == (filter & bit == 0)) by (bit_vector)
        requires
            r == filter ^ bit,
            bit == 1u16 << idx,
            idx < 16,
    ;
    r
}

/// Listing order of items: by slot (its position in the slot list), then
/// rarer first; ties are broken by the stat bonus, larger first.
pub open spec fn spec_item_rank_order(slot_a: usize, rarity_a: Rarity, slot_b: usize, rarity_b: Rarity) -> int {
    if slot_a < slot_b {
        -1
    } else if slot_a > slot_b {
        1
    } else if spec_rarity_ord(rarity_a) > spec_rarity_ord(rarity_b) {
        -1
    } else if spec_rarity_ord(rarity_a) < spec_rarity_ord(rarity_b) {
        1
    } else {
        0
    }
}

/// Compares two items by slot and rarity: -1 when `a` is listed first, 1
/// when `b` is, 0 when the stat bonus decides.
pub fn item_rank_order(slot_a: usize, rarity_a: Rarity, slot_b: usize, rarity_b: Rarity) -> (c: i8)
    ensures
        c as int == spec_item_rank_order(slot_a, rarity_a, slot_b, rarity_b),
{
    if slot_a < slot_b {
        -1
    } else if slot_a > slot_b {
        1
    } else {
        let ra = rarity_ord(rarity_a);
        let rb = rarity_ord(rarity_b);
        if ra > rb {
            -1
        } else if ra < rb {
            1
        } else {
            0
        }
    }
}

/// Number of common items among the given rarities.
pub open spec fn common_count(rarities: Seq<Rarity>) -> nat
    decreases rarities.len(),
{
    if rarities.len() == 0 {
        0
    } else {
        common_count(rarities.drop_last()) + (if rarities.last() == Rarity::Common {
            1nat
        } else {
            0nat
        })
    }
}

/// How many of the town's items are common.
pub fn count_common(rarities: &Vec<Rarity>) -> (n: usize)
    ensures
        n == common_count(rarities@),
{
    let mut n: usize = 0;
    let mut i: usize = 0;
    while i < rarities.len()
        invariant
            i <= rarities@.len(),
            n == common_count(rarities@.take(i as int)),
            n <= i,
        decreases rarities@.len() - i,
    {
        proof {
            assert(rarities@.take(i + 1).drop_last() =~= rarities@.take(i as int));
        }
        if rarities[i] == Rarity::Common {
            n = n + 1;
        }
        i = i + 1;
    }
    proof {
        assert(rarities@.take(i as int) =~= rarities@);
    }
    n
}

/// Gold from selling `count` common items at half their cost each.
pub fn common_sale_gold(count: i32, common_cost: i32) -> (g: i32)
    requires
        i32::MIN <= count * half_toward_zero(common_cost as int) <= i32::MAX,
    ensures
        g == count * half_toward_zero(common_cost as int),
{
    let half = common_cost / 2;
    assert(half == half_toward_zero(common_cost as int));
    count * half
}

/// An item of the town's stock: its loot id, its rarity, and the rest of
/// the item.
pub struct TownItem<T> {
    pub id: u64,
    pub rarity: Rarity,
    pub data: T,
}

/// Rarities of a stock's items, in stock order.
pub open spec fn stock_rarities<T>(items: Seq<TownItem<T>>) -> Seq<Rarity> {
    items.map_values(|it: TownItem<T>| it.rarity)
}

/// Ids of the common items of a stock, in stock order.
pub open spec fn common_ids<T>(items: Seq<TownItem<T>>) -> Seq<u64>
    decreases items.len(),
{
    if items.len() == 0 {
        Seq::empty()
    } else if items.last().rarity == Rarity::Common {
        common_ids(items.drop_last()).push(items.last().id)
    } else {
        common_ids(items.drop_last())
    }
}

/// Position of the first item with the given id.
pub open spec fn first_with_id<T>(items: Seq<TownItem<T>>, id: u64) -> Option<int>
    decreases items.len(),
{
    if items.len() == 0 {
        None
    } else {
        match first_with_id(items.drop_last(), id) {
            Some(p) => Some(p),
            None => if items.last().id == id {
                Some(items.len() - 1)
            } else {
                None
            },
        }
    }
}

/// The stock after removing the item at `p` by moving the last item into
/// its place.
pub open spec fn swap_removed<T>(items: Seq<TownItem<T>>, p: int) -> Seq<TownItem<T>> {
    items.update(p, items.last()).drop_last()
}

/// Taking out the item at `p` (the last item moving into its place) leaves
/// the stock's other items: as a multiset, exactly that one item is gone.
pub proof fn lemma_swap_removed_drops_one<T>(items: Seq<TownItem<T>>, p: int)
    requires
        0 <= p < items.len(),
    ensures
        swap_removed(items, p).to_multiset() == items.to_multiset().remove(items[p]),
        swap_removed(items, p).len() == items.len() - 1,
{
    broadcast use vstd::seq_lib::group_to_multiset_ensures, vstd::multiset::group_multiset_axioms;

    let n = items.len();
    let t = items.update(p, items.last());
    assert(t.drop_last() =~= t.remove(n - 1));
    assert(t[n - 1] == items.last());
    assert(t.remove(n - 1).to_multiset() =~= items.to_multiset().remove(items[p]));
}

/// The stock, and the number of items removed, after removing in turn the
/// first item with each of the first `k` ids.
pub open spec fn removed_by_ids<T>(items: Seq<TownItem<T>>, ids: Seq<u64>, k: int) -> (Seq<TownItem<T>>, nat)
    decreases k,
{
    if k <= 0 {
        (items, 0)
    } else {
        let (s, n) = removed_by_ids(items, ids, k - 1);
        match first_with_id(s, ids[k - 1]) {
            Some(p) => (swap_removed(s, p), n + 1),
            None => (s, n),
        }
    }
}

/// What "Sell All Common" leaves: the stock after removing, for each
/// common item's id in stock order, the first item with that id.
pub open spec fn after_common_sale<T>(items: Seq<TownItem<T>>) -> (Seq<TownItem<T>>, nat) {
    removed_by_ids(items, common_ids(items), common_ids(items).len() as int)
}

proof fn lemma_common_ids_len<T>(items: Seq<TownItem<T>>)
    ensures
        common_ids(items).len() == common_count(stock_rarities(items)),
        common_ids(items).len() <= items.len(),
    decreases items.len(),
{
    if items.len() > 0 {
        assert(stock_rarities(items.drop_last()) =~= stock_rarities(items).drop_last());
        lemma_common_ids_len(items.drop_last());
    }
}

proof fn lemma_removed_count_bound<T>(items: Seq<TownItem<T>>, ids: Seq<u64>, k: int)
    requires
        0 <= k,
    ensures
        removed_by_ids(items, ids, k).1 <= k,
    decreases k,
{
    if k > 0 {
        lemma_removed_count_bound(items, ids, k - 1);
    }
}

pub(crate) proof fn lemma_first_with_id_found<T>(items: Seq<TownItem<T>>, id: u64)
    ensures
        first_with_id(items, id) matches Some(p) ==> 0 <= p < items.len() && items[p].id == id,
        first_with_id(items, id) is None ==> forall|i: int| 0 <= i < items.len() ==> #[trigger] items[i].id != id,
    decreases items.len(),
{
    if items.len() > 0 {
        lemma_first_with_id_found(items.drop_last(), id);
        assert forall|i: int| 0 <= i < items.len() - 1 implies #[trigger] items[i] == items.drop_last()[i] by {}
    }
}

proof fn lemma_first_with_id_prefix<T>(items: Seq<TownItem<T>>, id: u64, k: int)
    requires
        0 <= k <= items.len(),
        first_with_id(items.take(k), id) is None,
        k < items.len() && items[k].id == id,
    ensures
        first_with_id(items, id) == Some(k),
    decreases items.len() - k,
{
    assert(items.take(k + 1).drop_last() =~= items.take(k));
    lemma_first_with_id_extend(items, id, k + 1);
}

proof fn lemma_first_with_id_extend<T>(items: Seq<TownItem<T>>, id: u64, k: int)
    requires
        0 <= k <= items.len(),
        first_with_id(items.take(k), id) is Some,
    ensures
        first_with_id(items, id) == first_with_id(items.take(k), id),
    decreases items.len() - k,
{
    if k < items.len() {
        assert(items.take(k + 1).drop_last() =~= items.take(k));
        lemma_first_with_id_extend(items, id, k + 1);
    } else {
        assert(items.take(k) =~= items);
    }
}

/// Position of the first item with id `id`.
pub(crate) fn find_id<T>(items: &Vec<TownItem<T>>, id: u64) -> (r: Option<usize>)
    ensures
        r matches Some(p) ==> first_with_id(items@, id) == Some(p as int),
        r is None ==> first_with_id(items@, id) is None,
{
    let mut i: usize = 0;
    while i < items.len()
        invariant
            i <= items@.len(),
            first_with_id(items@.take(i as int), id) is None,
        decreases items@.len() - i,
    {
        proof {
            assert(items@.take(i + 1).drop_last() =~= items@.take(i as int));
        }
        if items[i].id == id {
            proof {
                lemma_first_with_id_prefix(items@, id, i as int);
            }
            return Some(i);
        }
        i = i + 1;
    }
    proof {
        assert(items@.take(i as int) =~= items@);
    }
    None
}

/// "Sell All Common": every common item of the stock is sold (for each
/// common id in stock order, the first item with that id is taken out, the
/// last item moving into its place) and the town gains half the common cost
/// per item taken out. Returns the number of items taken out.
pub fn sell_all_common<T>(items: &mut Vec<TownItem<T>>, gold: &mut i32, common_cost: i32) -> (removed: i32)
    requires
        common_count(stock_rarities(old(items)@)) <= i32::MAX,
        i32::MIN <= common_count(stock_rarities(old(items)@)) * half_toward_zero(common_cost as int)
            <= i32::MAX,
        i32::MIN <= *old(gold) + common_count(stock_rarities(old(items)@)) * half_toward_zero(
            common_cost as int,
        ) <= i32::MAX,
    ensures
        final(items)@ == after_common_sale(old(items)@).0,
        removed as int == after_common_sale(old(items)@).1,
        *final(gold) == *old(gold) + removed * half_toward_zero(common_cost as int),
{
    let ghost start = items@;
    let ghost g0 = *gold;
    let mut ids: Vec<u64> = Vec::new();
    let mut i: usize = 0;
    while i < items.len()
        invariant
            items@ == start,
            *gold == g0,
            i <= items@.len(),
            ids@ == common_ids(items@.take(i as int)),
        decreases items@.len() - i,
    {
        proof {
            assert(items@.take(i + 1).drop_last() =~= items@.take(i as int));
        }
        if items[i].rarity == Rarity::Common {
            ids.push(items[i].id);
        }
        i = i + 1;
    }
    proof {
        assert(items@.take(i as int) =~= items@);
        lemma_common_ids_len(start);
    }
    let mut removed: i32 = 0;
    let mut k: usize = 0;
    while k < ids.len()
        invariant
            ids@ == common_ids(start),
            ids@.len() <= i32::MAX,
            ids@.len() == common_count(stock_rarities(start)),
            k <= ids@.len(),
            items@ == removed_by_ids(start, ids@, k as int).0,
            removed as int == removed_by_ids(start, ids@, k as int).1,
            0 <= removed <= k,
            *gold == g0,
        decreases ids@.len() - k,
    {
        proof {
            lemma_removed_count_bound(start, ids@, k + 1);
        }
        let ghost prev = items@;
        let ghost n_prev = removed as nat;
        let found = find_id(items, ids[k]);
        proof {
            lemma_first_with_id_found(items@, ids@[k as int]);
        }
        match found {
            Some(pos) => {
                assert(first_with_id(prev, ids@[k as int]) == Some(pos as int));
                items.swap_remove(pos);
                removed = removed + 1;
                proof {
                    assert(items@ =~= swap_removed(prev, pos as int));
                }
            },
            None => {
                assert(first_with_id(prev, ids@[k as int]) is None);
            },
        }
        proof {
            let (s0, n0) = removed_by_ids(start, ids@, k as int);
            assert(s0 == prev && n0 == n_prev);
            assert(removed_by_ids(start, ids@, k + 1) == match first_with_id(s0, ids@[k as int]) {
                Some(p) => (swap_removed(s0, p), n0 + 1),
                None => (s0, n0),
            });
        }
        k = k + 1;
    }
    let half = common_cost / 2;
    proof {
        lemma_removed_count_bound(start, ids@, ids@.len() as int);
        let c = common_count(stock_rarities(start));
        let h = half_toward_zero(common_cost as int);
        assert(half == h);
        assert(*gold == *old(gold));
        if h >= 0 {
            assert(0 <= removed * h <= c * h) by (nonlinear_arith)
                requires
                    0 <= removed <= c,
                    0 <= h,
            ;
        } else {
            assert(c * h <= removed * h <= 0) by (nonlinear_arith)
                requires
                    0 <= removed <= c,
                    h < 0,
            ;
        }
    }
    if removed > 0 {
        *gold = *gold + removed * half;
    } else {
        assert(removed * half_toward_zero(common_cost as int) == 0) by (nonlinear_arith)
            requires
                removed == 0,
        ;
    }
    removed
}

/// No two items of the stock share an id.
pub open spec fn distinct_ids<T>(items: Seq<TownItem<T>>) -> bool {
    forall|i: int, j: int| 0 <= i < j < items.len() ==> #[trigger] items[i].id != #[trigger] items[j].id
}

proof fn lemma_swap_removed_contents<T>(s: Seq<TownItem<T>>, p: int, y: TownItem<T>)
    requires
        distinct_ids(s),
        0 <= p < s.len(),
    ensures
        swap_removed(s, p).contains(y) <==> (s.contains(y) && y.id != s[p].id),
        distinct_ids(swap_removed(s, p)),
{
    let r = swap_removed(s, p);
    let n = s.len() - 1;
    assert forall|i: int| 0 <= i < r.len() implies (#[trigger] r[i] == (if i == p { s[n] } else { s[i] })) by {}
    if r.contains(y) {
        let i = choose|i: int| 0 <= i < r.len() && r[i] == y;
        if i == p {
            assert(s[n] == y);
            assert(s[n].id != s[p].id);
        } else {
            assert(s[i] == y);
            assert(s[i].id != s[p].id);
        }
    }
    if s.contains(y) && y.id != s[p].id {
        let i = choose|i: int| 0 <= i < s.len() && s[i] == y;
        if i == n {
            assert(r[p] == y);
        } else {
            assert(i != p);
            assert(r[i] == y);
        }
    }
    assert forall|i: int, j: int| 0 <= i < j < r.len() implies #[trigger] r[i].id != #[trigger] r[j].id by {
        if i == p {
            assert(r[j] == s[j]);
        } else if j == p {
            assert(r[i] == s[i]);
        } else {
            assert(r[i] == s[i] && r[j] == s[j]);
        }
    }
}

proof fn lemma_common_ids_contents<T>(s: Seq<TownItem<T>>)
    requires
        distinct_ids(s),
    ensures
        forall|x: TownItem<T>| s.contains(x) ==> (#[trigger] common_ids(s).contains(x.id) <==> x.rarity
            == Rarity::Common),
        forall|j: int| 0 <= j < common_ids(s).len() ==> exists|i: int| 0 <= i < s.len() && s[i].rarity
            == Rarity::Common && s[i].id == #[trigger] common_ids(s)[j],
        forall|a: int, b: int|
            0 <= a < b < common_ids(s).len() ==> #[trigger] common_ids(s)[a] != #[trigger] common_ids(s)[b],
    decreases s.len(),
{
    if s.len() > 0 {
        let t = s.drop_last();
        let l = s.last();
        assert forall|i: int, j: int| 0 <= i < j < t.len() implies #[trigger] t[i].id != #[trigger] t[j].id by {
            assert(t[i] == s[i] && t[j] == s[j]);
        }
        lemma_common_ids_contents(t);
        let c = common_ids(t);
        // Every id of `c` belongs to an item of `t`, so differs from the last item's id.
        assert forall|j: int| 0 <= j < c.len() implies #[trigger] c[j] != l.id by {
            let i = choose|i: int| 0 <= i < t.len() && t[i].rarity == Rarity::Common && t[i].id == c[j];
            assert(s[i] == t[i]);
            assert(s[i].id != s[s.len() - 1].id);
        }
        assert forall|x: TownItem<T>| s.contains(x) implies (#[trigger] common_ids(s).contains(x.id)
            <==> x.rarity == Rarity::Common) by {
            let i = choose|i: int| 0 <= i < s.len() && s[i] == x;
            if i < s.len() - 1 {
                assert(t[i] == x);
                assert(t.contains(x));
                assert(c.contains(x.id) <==> x.rarity == Rarity::Common);
                assert(x.id != l.id);
                if l.rarity == Rarity::Common {
                    assert(common_ids(s) == c.push(l.id));
                    if c.push(l.id).contains(x.id) {
                        let k = choose|k: int| 0 <= k < c.push(l.id).len() && c.push(l.id)[k] == x.id;
                        assert(k < c.len());
                        assert(c[k] == x.id);
                    }
                    if c.contains(x.id) {
                        let k = choose|k: int| 0 <= k < c.len() && c[k] == x.id;
                        assert(c.push(l.id)[k] == x.id);
                    }
                }
            } else {
                assert(x == l);
                if l.rarity == Rarity::Common {
                    assert(c.push(l.id)[c.len() as int] == l.id);
                } else {
                    if c.contains(l.id) {
                        let k = choose|k: int| 0 <= k < c.len() && c[k] == l.id;
                        assert(c[k] != l.id);
                    }
                }
            }
        }
        assert forall|j: int| 0 <= j < common_ids(s).len() implies exists|i: int|
            0 <= i < s.len() && s[i].rarity == Rarity::Common && s[i].id == #[trigger] common_ids(s)[j] by {
            if j < c.len() {
                let i = choose|i: int| 0 <= i < t.len() && t[i].rarity == Rarity::Common && t[i].id == c[j];
                assert(s[i] == t[i]);
                assert(common_ids(s)[j] == c[j]);
            } else {
                assert(s[s.len() - 1] == l);
            }
        }
    }
}

proof fn lemma_sale_prefix<T>(items: Seq<TownItem<T>>, k: int)
    requires
        distinct_ids(items),
        0 <= k <= common_ids(items).len(),
    ensures
        distinct_ids(removed_by_ids(items, common_ids(items), k).0),
        removed_by_ids(items, common_ids(items), k).1 == k,
        forall|x: TownItem<T>|
            #[trigger] removed_by_ids(items, common_ids(items), k).0.contains(x) <==> (items.contains(x)
                && !common_ids(items).take(k).contains(x.id)),
    decreases k,
{
    let ids = common_ids(items);
    if k == 0 {
        assert forall|x: TownItem<T>| #[trigger] removed_by_ids(items, ids, 0).0.contains(x) <==> (
        items.contains(x) && !ids.take(0).contains(x.id)) by {
            assert(ids.take(0).len() == 0);
        }
    } else {
        lemma_sale_prefix(items, k - 1);
        lemma_common_ids_contents(items);
        let (sk, nk) = removed_by_ids(items, ids, k - 1);
        let id = ids[k - 1];
        let i = choose|i: int| 0 <= i < items.len() && items[i].rarity == Rarity::Common && items[i].id == id;
        let x = items[i];
        let pre = ids.take(k - 1);
        let pre1 = ids.take(k);
        assert(items.contains(x));
        assert(!pre.contains(id)) by {
            if pre.contains(id) {
                let a = choose|a: int| 0 <= a < pre.len() && pre[a] == id;
                assert(ids[a] == ids[k - 1]);
            }
        }
        assert(sk.contains(x));
        lemma_first_with_id_found(sk, id);
        let q = choose|q: int| 0 <= q < sk.len() && sk[q] == x;
        assert(pre1 == pre.push(id));
        match first_with_id(sk, id) {
            Some(p) => {
                assert(sk[p].id == id);
                lemma_swap_removed_contents(sk, p, x);
                assert forall|y: TownItem<T>| #[trigger] swap_removed(sk, p).contains(y) <==> (items.contains(
                    y,
                ) && !pre1.contains(y.id)) by {
                    lemma_swap_removed_contents(sk, p, y);
                    if pre1.contains(y.id) && y.id != id {
                        let a = choose|a: int| 0 <= a < pre1.len() && pre1[a] == y.id;
                        assert(pre[a] == y.id);
                    }
                    if pre.contains(y.id) {
                        let a = choose|a: int| 0 <= a < pre.len() && pre[a] == y.id;
                        assert(pre1[a] == y.id);
                    }
                    if y.id == id {
                        assert(pre1[k - 1] == id);
                    }
                }
            },
            None => {
                assert(sk[q].id == id);
            },
        }
    }
}

/// "Sell All Common" on a stock whose items have distinct ids sells exactly
/// the common items: every other item stays, and one item is taken out per
/// common item. (With two items sharing an id, the first of them goes,
/// whatever its rarity.)
pub proof fn lemma_common_sale_sells_commons<T>(items: Seq<TownItem<T>>)
    requires
        distinct_ids(items),
    ensures
        forall|x: TownItem<T>|
            #[trigger] after_common_sale(items).0.contains(x) <==> (items.contains(x) && x.rarity
                != Rarity::Common),
        after_common_sale(items).1 == common_count(stock_rarities(items)),
{
    let ids = common_ids(items);
    lemma_common_ids_contents(items);
    lemma_common_ids_len(items);
    lemma_sale_prefix(items, ids.len() as int);
    assert(ids.take(ids.len() as int) =~= ids);
    assert forall|x: TownItem<T>| #[trigger] after_common_sale(items).0.contains(x) <==> (items.contains(
        x,
    ) && x.rarity != Rarity::Common) by {
        if items.contains(x) {
            assert(ids.contains(x.id) <==> x.rarity == Rarity::Common);
        }
    }
}

} // verus!
