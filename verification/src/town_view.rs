//! Which town a panel shows, and the upgrade-level total of a town.

use vstd::prelude::*;

use crate::combat_log::FACTION_PLAYER;

verus! {

/// The first town from `k` on whose faction is the player's; town 0 when
/// there is none.
pub open spec fn player_town_from(factions: Seq<i32>, k: int) -> int
    decreases factions.len() - k,
{
    if k < 0 || k >= factions.len() {
        0
    } else if factions[k] == FACTION_PLAYER {
        k
    } else {
        player_town_from(factions, k + 1)
    }
}

/// The player's town: the first town whose faction is the player's, town 0
/// when there is none.
pub fn player_town_index(factions: &Vec<i32>) -> (i: usize)
    ensures
        i == player_town_from(factions@, 0),
        (exists|k: int| 0 <= k < factions@.len() && #[trigger] factions@[k] == FACTION_PLAYER) ==> {
            &&& i < factions@.len()
            &&& factions@[i as int] == FACTION_PLAYER
            &&& forall|k: int| 0 <= k < i ==> #[trigger] factions@[k] != FACTION_PLAYER
        },
        !(exists|k: int| 0 <= k < factions@.len() && #[trigger] factions@[k] == FACTION_PLAYER) ==> i
            == 0,
{
    let mut i: usize = 0;
    while i < factions.len()
        invariant
            i <= factions@.len(),
            forall|k: int| 0 <= k < i ==> #[trigger] factions@[k] != FACTION_PLAYER,
            player_town_from(factions@, 0) == player_town_from(factions@, i as int),
        decreases factions@.len() - i,
    {
        if factions[i] == FACTION_PLAYER {
            return i;
        }
        i = i + 1;
    }
    0
}

/// Sum of upgrade levels.
pub open spec fn level_total(levels: Seq<u8>) -> int
    decreases levels.len(),
{
    if levels.len() == 0 {
        0
    } else {
        level_total(levels.drop_last()) + levels.last()
    }
}

proof fn lemma_level_total_prefix(levels: Seq<u8>, k: int)
    requires
        0 <= k <= levels.len(),
    ensures
        0 <= level_total(levels.take(k)) <= level_total(levels),
    decreases levels.len() - k,
{
    if k < levels.len() {
        lemma_level_total_prefix(levels, k + 1);
        assert(levels.take(k + 1).drop_last() =~= levels.take(k));
    } else {
        assert(levels.take(k) =~= levels);
    }
    lemma_level_total_nonneg(levels.take(k));
}

proof fn lemma_level_total_nonneg(levels: Seq<u8>)
    ensures
        0 <= level_total(levels),
    decreases levels.len(),
{
    if levels.len() > 0 {
        lemma_level_total_nonneg(levels.drop_last());
    }
}

/// Total of a town's upgrade levels, shown in the upgrades header.
pub fn upgrade_level_total(levels: &Vec<u8>) -> (t: u32)
    requires
        level_total(levels@) <= u32::MAX,
    ensures
        t == level_total(levels@),
{
    let mut t: u32 = 0;
    let mut i: usize = 0;
    while i < levels.len()
        invariant
            i <= levels@.len(),
            level_total(levels@) <= u32::MAX,
            t == level_total(levels@.take(i as int)),
        decreases levels@.len() - i,
    {
        proof {
            assert(levels@.take(i + 1).drop_last() =~= levels@.take(i as int));
            lemma_level_total_prefix(levels@, i + 1);
        }
        t = t + levels[i] as u32;
        i = i + 1;
    }
    proof {
        assert(levels@.take(i as int) =~= levels@);
    }
    t
}

/// Town shown by the armory: the selected NPC's town id, negative ids as town 0.
pub fn armory_town(town_id: i32) -> (t: usize)
    ensures
        t == (if town_id < 0 {
            0
        } else {
            town_id as int
        }),
{
    if town_id < 0 {
        0
    } else {
        town_id as usize
    }
}

} // verus!
