//! The factions tab's snapshots: which towns get one and in what order, the
//! town figures each shows, its recent actions newest first, and the next
//! upgrade it is working towards.

use vstd::prelude::*;

use crate::building::level_at;
use crate::combat_log::FACTION_PLAYER;
use crate::factions::{find_faction, first_of_faction};

verus! {

/// Highest level an upgrade node can reach.
pub const UPGRADE_LEVEL_CAP: u8 = 20;

/// What a snapshot shows of a town.
#[derive(Clone, Copy, Debug, PartialEq, Eq, Structural)]
pub struct TownInfo {
    pub faction: i32,
    pub food: i32,
    pub gold: i32,
}

/// How an AI player plays.
#[derive(Clone, Copy, Debug, PartialEq, Eq, Structural)]
pub enum AiKind {
    Builder,
    Raider,
}

/// Who runs the town a snapshot shows.
#[derive(Clone, Copy, Debug, PartialEq, Eq, Structural)]
pub enum SnapshotKind {
    Player,
    Builder,
    Raider,
}

/// An AI player: its town, its kind, and its recent actions, oldest first
/// (a label and two numbers each).
pub struct AiPlayerInfo {
    pub town_data_idx: usize,
    pub kind: AiKind,
    pub last_actions: Vec<(String, i32, i32)>,
}

/// One entry of the factions tab.
pub struct FactionSnapshot {
    pub town_data_idx: usize,
    pub kind: SnapshotKind,
    pub town: TownInfo,
    /// Recent actions, newest first.
    pub last_actions: Vec<(String, i32, i32)>,
}

/// The town at `t`; a town that is not listed counts as faction 0 with no
/// food and no gold.
pub open spec fn town_at(towns: Seq<TownInfo>, t: usize) -> TownInfo {
    if t < towns.len() {
        towns[t as int]
    } else {
        TownInfo { faction: 0, food: 0, gold: 0 }
    }
}

/// Factions of the towns, in town order.
pub open spec fn town_factions(towns: Seq<TownInfo>) -> Seq<i32> {
    towns.map_values(|t: TownInfo| t.faction)
}

/// The player's town, if some town is of the player's faction: the first.
pub open spec fn player_town(towns: Seq<TownInfo>) -> Option<int> {
    first_of_faction(town_factions(towns), FACTION_PLAYER)
}

/// Number of snapshots before the AI players': one for the player's town
/// when there is one.
pub open spec fn lead_count(towns: Seq<TownInfo>) -> int {
    if player_town(towns) is Some {
        1
    } else {
        0
    }
}

/// Who runs a town of an AI player of kind `k`.
pub open spec fn kind_of(k: AiKind) -> SnapshotKind {
    match k {
        AiKind::Builder => SnapshotKind::Builder,
        AiKind::Raider => SnapshotKind::Raider,
    }
}

/// `s` is the snapshot of town `t` run by `kind`, with `actions` newest
/// first.
pub open spec fn is_snapshot(
    s: FactionSnapshot,
    towns: Seq<TownInfo>,
    t: usize,
    kind: SnapshotKind,
    actions: Seq<(String, i32, i32)>,
) -> bool {
    &&& s.town_data_idx == t
    &&& s.kind == kind
    &&& s.town == town_at(towns, t)
    &&& s.last_actions@ == actions
}

fn town_or_default(towns: &Vec<TownInfo>, t: usize) -> (r: TownInfo)
    ensures
        r == town_at(towns@, t),
{
    if t < towns.len() {
        towns[t]
    } else {
        TownInfo { faction: 0, food: 0, gold: 0 }
    }
}

/// The items of `v` in reverse order.
pub fn reversed<T>(v: Vec<T>) -> (r: Vec<T>)
    ensures
        r@ == v@.reverse(),
{
    let ghost all = v@;
    let mut rest = v;
    let mut out: Vec<T> = Vec::new();
    while rest.len() > 0
        invariant
            rest@ == all.take(rest@.len() as int),
            rest@.len() <= all.len(),
            out@.len() + rest@.len() == all.len(),
            forall|j: int| 0 <= j < out@.len() ==> #[trigger] out@[j] == all[all.len() - 1 - j],
        decreases rest@.len(),
    {
        let x = rest.pop().unwrap();
        proof {
            assert(rest@ =~= all.take(rest@.len() as int));
        }
        out.push(x);
    }
    assert(out@ =~= all.reverse());
    out
}

/// The snapshots of the factions tab: the player's town first (the first
/// town of the player's faction, when there is one), then one per AI player
/// in turn, each with its town's figures and its recent actions newest
/// first.
pub fn faction_snapshots(towns: &Vec<TownInfo>, players: Vec<AiPlayerInfo>) -> (snaps: Vec<FactionSnapshot>)
    ensures
        snaps@.len() == lead_count(towns@) + players@.len(),
        player_town(towns@) matches Some(p) ==> is_snapshot(
            snaps@[0],
            towns@,
            p as usize,
            SnapshotKind::Player,
            Seq::empty(),
        ),
        forall|k: int|
            0 <= k < players@.len() ==> is_snapshot(
                #[trigger] snaps@[lead_count(towns@) + k],
                towns@,
                players@[k].town_data_idx,
                kind_of(players@[k].kind),
                players@[k].last_actions@.reverse(),
            ),
{
    let mut facs: Vec<i32> = Vec::new();
    let mut i: usize = 0;
    while i < towns.len()
        invariant
            i <= towns@.len(),
            facs@.len() == i,
            forall|j: int| 0 <= j < i ==> #[trigger] facs@[j] == towns@[j].faction,
        decreases towns@.len() - i,
    {
        facs.push(towns[i].faction);
        i = i + 1;
    }
    assert(facs@ =~= town_factions(towns@));
    let mut snaps: Vec<FactionSnapshot> = Vec::new();
    if let Some(p) = find_faction(&facs, FACTION_PLAYER) {
        snaps.push(
            FactionSnapshot {
                town_data_idx: p,
                kind: SnapshotKind::Player,
                town: town_or_default(towns, p),
                last_actions: Vec::new(),
            },
        );
    }
    let lead: usize = snaps.len();
    let ghost orig = players@;
    let mut players = players;
    let n_players: usize = players.len();
    let mut rev: Vec<AiPlayerInfo> = Vec::new();
    while players.len() > 0
        invariant
            players@ == orig.take(players@.len() as int),
            orig.len() == n_players,
            players@.len() <= orig.len(),
            rev@.len() + players@.len() == orig.len(),
            forall|j: int| 0 <= j < rev@.len() ==> #[trigger] rev@[j] == orig[orig.len() - 1 - j],
        decreases players@.len(),
    {
        let pl = players.pop().unwrap();
        proof {
            assert(players@ =~= orig.take(players@.len() as int));
        }
        rev.push(pl);
    }
    let mut k: usize = 0;
    while rev.len() > 0
        invariant
            lead == lead_count(towns@),
            orig.len() == n_players,
            rev@.len() + k == orig.len(),
            forall|j: int| 0 <= j < rev@.len() ==> #[trigger] rev@[j] == orig[orig.len() - 1 - j],
            snaps@.len() == lead + k,
            player_town(towns@) matches Some(p) ==> is_snapshot(
                snaps@[0],
                towns@,
                p as usize,
                SnapshotKind::Player,
                Seq::empty(),
            ),
            forall|q: int|
                0 <= q < k ==> is_snapshot(
                    #[trigger] snaps@[lead + q],
                    towns@,
                    orig[q].town_data_idx,
                    kind_of(orig[q].kind),
                    orig[q].last_actions@.reverse(),
                ),
        decreases rev@.len(),
    {
        let pl = rev.pop().unwrap();
        assert(pl == orig[k as int]);
        let AiPlayerInfo { town_data_idx, kind, last_actions } = pl;
        let kind = match kind {
            AiKind::Builder => SnapshotKind::Builder,
            AiKind::Raider => SnapshotKind::Raider,
        };
        let actions = reversed(last_actions);
        snaps.push(
            FactionSnapshot {
                town_data_idx,
                kind,
                town: town_or_default(towns, town_data_idx),
                last_actions: actions,
            },
        );
        k = k + 1;
    }
    snaps
}

/// The next upgrade a town is working towards: the first node below the
/// level cap whose prerequisites are met (`unlocked`, one flag per node);
/// nodes missing from `levels` are at level 0.
pub fn next_upgrade_node(levels: &Vec<u8>, unlocked: &Vec<bool>) -> (r: Option<usize>)
    ensures
        match r {
            Some(n) => {
                &&& n < unlocked@.len()
                &&& unlocked@[n as int]
                &&& level_at(levels@, n as int) < UPGRADE_LEVEL_CAP
                &&& forall|m: int|
                    0 <= m < n ==> !(#[trigger] unlocked@[m] && level_at(levels@, m) < UPGRADE_LEVEL_CAP)
            },
            None => forall|m: int|
                0 <= m < unlocked@.len() ==> !(#[trigger] unlocked@[m] && level_at(levels@, m)
                    < UPGRADE_LEVEL_CAP),
        },
{
    let mut n: usize = 0;
    while n < unlocked.len()
        invariant
            n <= unlocked@.len(),
            forall|m: int|
                0 <= m < n ==> !(#[trigger] unlocked@[m] && level_at(levels@, m) < UPGRADE_LEVEL_CAP),
        decreases unlocked@.len() - n,
    {
        let level: u8 = if n < levels.len() {
            levels[n]
        } else {
            0
        };
        if unlocked[n] && level < UPGRADE_LEVEL_CAP {
            return Some(n);
        }
        n = n + 1;
    }
    None
}

} // verus!
