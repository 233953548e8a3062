//! Gold-mine policy shown in the policies tab and the inspectors: which
//! mines are auto-mined, how many miners work each mine, and how a miner
//! home's mine is picked. Mines are named by their building slot.

use vstd::prelude::*;
use std::collections::HashMap;

verus! {

broadcast use vstd::std_specs::hash::group_hash_axioms;

/// Auto-mining is on at a mine unless the policy switched it off: a mine
/// without an entry is on.
pub open spec fn mine_on(enabled: Map<usize, bool>, slot: usize) -> bool {
    if enabled.contains_key(slot) {
        enabled[slot]
    } else {
        true
    }
}

/// Whether auto-mining is on at the mine in `slot`.
pub fn mine_enabled(enabled: &HashMap<usize, bool>, slot: usize) -> (b: bool)
    ensures
        b == mine_on(enabled@, slot),
{
    match enabled.get(&slot) {
        Some(on) => *on,
        None => true,
    }
}

/// A click on a mine's auto-mining button: the mine's setting flips.
pub fn toggle_mine(enabled: &mut HashMap<usize, bool>, slot: usize)
    ensures
        final(enabled)@ == old(enabled)@.insert(slot, !mine_on(old(enabled)@, slot)),
{
    let on = mine_enabled(enabled, slot);
    enabled.insert(slot, !on);
}

/// Toggling a mine twice gives back its setting, and a toggle leaves every
/// other mine as it was.
pub proof fn lemma_toggle_twice(enabled: Map<usize, bool>, slot: usize, other: usize)
    ensures
        ({
            let once = enabled.insert(slot, !mine_on(enabled, slot));
            let twice = once.insert(slot, !mine_on(once, slot));
            &&& mine_on(twice, slot) == mine_on(enabled, slot)
            &&& other != slot ==> mine_on(once, other) == mine_on(enabled, other)
        }),
{
}

/// Number of the discovered mines with auto-mining on.
pub open spec fn enabled_count(discovered: Seq<usize>, enabled: Map<usize, bool>) -> nat
    decreases discovered.len(),
{
    if discovered.len() == 0 {
        0
    } else {
        enabled_count(discovered.drop_last(), enabled) + (if mine_on(enabled, discovered.last()) {
            1nat
        } else {
            0nat
        })
    }
}

/// How many of the town's discovered mines are auto-mined.
pub fn count_enabled_mines(discovered: &Vec<usize>, enabled: &HashMap<usize, bool>) -> (n: usize)
    ensures
        n == enabled_count(discovered@, enabled@),
{
    let mut n: usize = 0;
    let mut i: usize = 0;
    while i < discovered.len()
        invariant
            i <= discovered@.len(),
            n == enabled_count(discovered@.take(i as int), enabled@),
            n <= i,
        decreases discovered@.len() - i,
    {
        proof {
            assert(discovered@.take(i + 1).drop_last() =~= discovered@.take(i as int));
        }
        if mine_enabled(enabled, discovered[i]) {
            n = n + 1;
        }
        i = i + 1;
    }
    proof {
        assert(discovered@.take(i as int) =~= discovered@);
    }
    n
}

/// A miner home of the town: whether the player picked its mine by hand,
/// and the slot of the mine it is assigned to, if any.
#[derive(Clone, Copy, Debug, PartialEq, Eq, Structural)]
pub struct MinerHome {
    pub manual: bool,
    pub mine: Option<usize>,
}

impl MinerHome {
    /// "Set Mine": the home's mine becomes the player's pick (the next mine
    /// clicked on the map).
    pub fn pick_manually(&mut self)
        ensures
            final(self).manual,
            final(self).mine == old(self).mine,
    {
        self.manual = true;
    }

    /// Whether the "Clear" button is offered: the home has a mine, or the
    /// player picks it.
    pub fn can_clear(&self) -> (b: bool)
        ensures
            b == (self.mine is Some || self.manual),
    {
        self.mine.is_some() || self.manual
    }

    /// "Clear": the home goes back to the mining policy, without a mine.
    pub fn clear(&mut self)
        ensures
            !final(self).manual,
            final(self).mine is None,
    {
        self.manual = false;
        self.mine = None;
    }

    /// Mode line of the mine assignment.
    pub fn mode_label(&self) -> (s: &'static str)
        ensures
            self.manual ==> s@ == "Mode: Manual"@,
            !self.manual ==> s@ == "Mode: Auto-policy"@,
    {
        if self.manual {
            "Mode: Manual"
        } else {
            "Mode: Auto-policy"
        }
    }
}

/// The home counts as auto-assigned to a mine (to `slot`, when given).
pub open spec fn auto_assigned(home: MinerHome, slot: Option<usize>) -> bool {
    &&& !home.manual
    &&& home.mine is Some
    &&& (slot matches Some(s) ==> home.mine == Some(s))
}

/// Number of homes auto-assigned to a mine (to `slot`, or to any mine when `None`).
pub open spec fn auto_assigned_count(homes: Seq<MinerHome>, slot: Option<usize>) -> nat
    decreases homes.len(),
{
    if homes.len() == 0 {
        0
    } else {
        auto_assigned_count(homes.drop_last(), slot) + (if auto_assigned(homes.last(), slot) {
            1nat
        } else {
            0nat
        })
    }
}

/// Miners the policy assigned to the mine in `slot` (`Some`), or to any
/// mine (`None`); homes whose mine the player picked are not counted.
pub fn count_auto_assigned(homes: &Vec<MinerHome>, slot: Option<usize>) -> (n: usize)
    ensures
        n == auto_assigned_count(homes@, slot),
{
    let mut n: usize = 0;
    let mut i: usize = 0;
    while i < homes.len()
        invariant
            i <= homes@.len(),
            n == auto_assigned_count(homes@.take(i as int), slot),
            n <= i,
        decreases homes@.len() - i,
    {
        proof {
            assert(homes@.take(i + 1).drop_last() =~= homes@.take(i as int));
        }
        let h = homes[i];
        let counted = if h.manual {
            false
        } else {
            match (h.mine, slot) {
                (Some(m), Some(s)) => m == s,
                (Some(_), None) => true,
                (None, _) => false,
            }
        };
        if counted {
            n = n + 1;
        }
        i = i + 1;
    }
    proof {
        assert(homes@.take(i as int) =~= homes@);
    }
    n
}

} // verus!
