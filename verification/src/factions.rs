//! The factions tab: when its snapshots are rebuilt, which faction is
//! shown, which squads belong to a faction, the squad commander's roles and
//! head counts, and the squad markers and target lines on the map.

use vstd::prelude::*;

use crate::combat_log::FACTION_PLAYER;

verus! {

/// Selection and refresh state of the factions tab, kept between frames.
pub struct FactionsView {
    pub frame_counter: u32,
    pub selected_idx: usize,
}

impl Default for FactionsView {
    fn default() -> (v: Self)
        ensures
            v.frame_counter == 0,
            v.selected_idx == 0,
    {
        FactionsView { frame_counter: 0, selected_idx: 0 }
    }
}

/// Index of the first snapshot of `faction`, if any.
pub open spec fn first_of_faction(factions: Seq<i32>, faction: i32) -> Option<int>
    decreases factions.len(),
{
    if factions.len() == 0 {
        None
    } else {
        match first_of_faction(factions.drop_last(), faction) {
            Some(i) => Some(i),
            None => if factions.last() == faction {
                Some(factions.len() - 1)
            } else {
                None
            },
        }
    }
}

impl FactionsView {
    /// Counts a frame; the snapshots are rebuilt every 30 frames, or when
    /// there are none. Returns whether to rebuild them.
    pub fn next_frame(&mut self, snapshots_empty: bool) -> (rebuild: bool)
        requires
            old(self).frame_counter < u32::MAX,
        ensures
            final(self).frame_counter == old(self).frame_counter + 1,
            rebuild == (final(self).frame_counter % 30 == 1 || snapshots_empty),
            final(self).selected_idx == old(self).selected_idx,
    {
        self.frame_counter = self.frame_counter + 1;
        self.frame_counter % 30 == 1 || snapshots_empty
    }

    /// Picks the faction to show among snapshots of the given factions (at
    /// least one): a requested faction that has a snapshot is selected
    /// (its first one); a selection past the end falls back to the first.
    pub fn select(&mut self, factions: &Vec<i32>, requested: Option<i32>)
        ensures
            final(self).selected_idx as int == picked_snapshot(factions@, old(self).selected_idx, requested),
            final(self).frame_counter == old(self).frame_counter,
    {
        if let Some(f) = requested {
            if let Some(i) = find_faction(factions, f) {
                self.selected_idx = i;
            }
        }
        if self.selected_idx >= factions.len() {
            self.selected_idx = 0;
        }
    }

    /// The tab's selection step, given the factions of the snapshots: with
    /// none, nothing changes; otherwise the faction is picked (as `select`)
    /// and the map overlay shows the picked snapshot's faction.
    pub fn show(&mut self, factions: &Vec<i32>, requested: Option<i32>, overlay: &mut Option<i32>)
        ensures
            factions@.len() == 0 ==> *final(overlay) == *old(overlay) && final(self).selected_idx
                == old(self).selected_idx,
            factions@.len() > 0 ==> {
                &&& final(self).selected_idx as int == picked_snapshot(
                    factions@,
                    old(self).selected_idx,
                    requested,
                )
                &&& final(self).selected_idx < factions@.len()
                &&& *final(overlay) == Some(factions@[final(self).selected_idx as int])
            },
            final(self).frame_counter == old(self).frame_counter,
    {
        if factions.len() == 0 {
            return;
        }
        self.select(factions, requested);
        *overlay = Some(factions[self.selected_idx]);
    }
}

/// Snapshot picked among snapshots of `factions`, from the selection
/// `selected` and the requested faction: the first snapshot of a requested
/// faction that has one, else the selection, falling back to the first
/// snapshot when past the end.
pub open spec fn picked_snapshot(factions: Seq<i32>, selected: usize, requested: Option<i32>) -> int {
    let picked = match requested {
        Some(f) => match first_of_faction(factions, f) {
            Some(i) => i,
            None => selected as int,
        },
        None => selected as int,
    };
    if picked < factions.len() {
        picked
    } else {
        0
    }
}

/// Index of the first snapshot of faction `f`.
pub(crate) fn find_faction(factions: &Vec<i32>, f: i32) -> (r: Option<usize>)
    ensures
        match first_of_faction(factions@, f) {
            Some(i) => r == Some(i as usize) && 0 <= i < factions@.len(),
            None => r.is_none(),
        },
{
    let mut i: usize = 0;
    while i < factions.len()
        invariant
            i <= factions@.len(),
            first_of_faction(factions@.take(i as int), f) is None,
        decreases factions@.len() - i,
    {
        proof {
            assert(factions@.take(i + 1).drop_last() =~= factions@.take(i as int));
        }
        if factions[i] == f {
            proof {
                lemma_first_of_faction_extend(factions@, f, i + 1);
            }
            return Some(i);
        }
        i = i + 1;
    }
    proof {
        assert(factions@.take(i as int) =~= factions@);
    }
    None
}

proof fn lemma_first_of_faction_extend(factions: Seq<i32>, f: i32, k: int)
    requires
        0 <= k <= factions.len(),
        first_of_faction(factions.take(k), f) is Some,
    ensures
        first_of_faction(factions, f) == first_of_faction(factions.take(k), f),
    decreases factions.len() - k,
{
    if k < factions.len() {
        assert(factions.take(k + 1).drop_last() =~= factions.take(k));
        lemma_first_of_faction_extend(factions, f, k + 1);
    } else {
        assert(factions.take(k) =~= factions);
    }
}

/// Who commands a squad.
#[derive(Clone, Copy, Debug, PartialEq, Eq, Structural)]
pub enum SquadOwner {
    Player,
    Town(usize),
}

/// A squad belongs to the faction of town `town`: the player's squads to
/// the player's faction, a town's squads to that town.
pub open spec fn spec_squad_owned(owner: SquadOwner, faction: i32, town: usize) -> bool {
    match owner {
        SquadOwner::Player => faction == FACTION_PLAYER,
        SquadOwner::Town(t) => t == town,
    }
}

/// The squads a faction's snapshot lists: those it owns that have members,
/// by squad index.
pub open spec fn listed_squads(owners: Seq<SquadOwner>, members: Seq<usize>, faction: i32, town: usize) -> Seq<usize>
    decreases owners.len(),
{
    if owners.len() == 0 {
        Seq::empty()
    } else {
        let i = owners.len() - 1;
        let rest = listed_squads(owners.drop_last(), members, faction, town);
        if spec_squad_owned(owners[i], faction, town) && i < members.len() && members[i] > 0 {
            rest.push(i as usize)
        } else {
            rest
        }
    }
}

/// Indices of the squads shown for the faction of town `town`, given each
/// squad's owner and member count (`owners` and `members` by squad).
pub fn faction_squads(owners: &Vec<SquadOwner>, members: &Vec<usize>, faction: i32, town: usize) -> (listed: Vec<usize>)
    requires
        owners@.len() == members@.len(),
    ensures
        listed@ == listed_squads(owners@, members@, faction, town),
{
    let mut listed: Vec<usize> = Vec::new();
    let mut i: usize = 0;
    while i < owners.len()
        invariant
            owners@.len() == members@.len(),
            i <= owners@.len(),
            listed@ == listed_squads(owners@.take(i as int), members@, faction, town),
        decreases owners@.len() - i,
    {
        proof {
            assert(owners@.take(i + 1).drop_last() =~= owners@.take(i as int));
        }
        let owned = match owners[i] {
            SquadOwner::Player => faction == FACTION_PLAYER,
            SquadOwner::Town(t) => t == town,
        };
        if owned && members[i] > 0 {
            listed.push(i);
        }
        i = i + 1;
    }
    proof {
        assert(owners@.take(i as int) =~= owners@);
    }
    listed
}

/// Role of a squad in the squad commander's table.
#[derive(Clone, Copy, Debug, PartialEq, Eq, Structural)]
pub enum SquadRole {
    /// Squads of the player, who commands them by hand.
    Manual,
    /// The first listed squad of an AI faction.
    Defense,
    /// An AI attack squad with no target size.
    Idle,
    /// An AI attack squad.
    Attack,
}

/// Role of the squad listed at `position`.
pub open spec fn spec_squad_role(player: bool, position: int, target_size: usize) -> SquadRole {
    if player {
        SquadRole::Manual
    } else if position == 0 {
        SquadRole::Defense
    } else if target_size == 0 {
        SquadRole::Idle
    } else {
        SquadRole::Attack
    }
}

/// Role of the squad listed at `position` (`player`: the faction is the player's).
pub fn squad_role(player: bool, position: usize, target_size: usize) -> (r: SquadRole)
    ensures
        r == spec_squad_role(player, position as int, target_size),
{
    if player {
        SquadRole::Manual
    } else if position == 0 {
        SquadRole::Defense
    } else if target_size == 0 {
        SquadRole::Idle
    } else {
        SquadRole::Attack
    }
}

/// A listed squad: its member count and target size.
#[derive(Clone, Copy, Debug, PartialEq, Eq, Structural)]
pub struct SquadLine {
    pub members: usize,
    pub target_size: usize,
}

/// Defenders, attackers and attack squads with members among the first
/// `k` listed squads.
pub open spec fn tally_upto(player: bool, squads: Seq<SquadLine>, k: int) -> (int, int, int)
    decreases k,
{
    if k <= 0 {
        (0, 0, 0)
    } else {
        let (d, o, a) = tally_upto(player, squads, k - 1);
        let s = squads[k - 1];
        match spec_squad_role(player, k - 1, s.target_size) {
            SquadRole::Defense => (d + s.members, o, a),
            SquadRole::Attack => (d, o + s.members, if s.members > 0 {
                a + 1
            } else {
                a
            }),
            _ => (d, o, a),
        }
    }
}

/// Total members of the first `k` listed squads.
pub open spec fn members_upto(squads: Seq<SquadLine>, k: int) -> int
    decreases k,
{
    if k <= 0 {
        0
    } else {
        members_upto(squads, k - 1) + squads[k - 1].members
    }
}

proof fn lemma_tally_bounds(player: bool, squads: Seq<SquadLine>, k: int)
    requires
        0 <= k <= squads.len(),
    ensures
        0 <= tally_upto(player, squads, k).0,
        0 <= tally_upto(player, squads, k).1,
        0 <= tally_upto(player, squads, k).2 <= k,
        tally_upto(player, squads, k).0 + tally_upto(player, squads, k).1 <= members_upto(squads, k),
        player ==> tally_upto(player, squads, k) == (0int, 0int, 0int),
    decreases k,
{
    if k > 0 {
        lemma_tally_bounds(player, squads, k - 1);
    }
}

/// The commander's head counts of an AI faction: members of the defense
/// squad, members of the attack squads, and attack squads with members.
pub fn commander_tally(player: bool, squads: &Vec<SquadLine>) -> (t: (usize, usize, usize))
    requires
        members_upto(squads@, squads@.len() as int) <= usize::MAX,
    ensures
        t.0 as int == tally_upto(player, squads@, squads@.len() as int).0,
        t.1 as int == tally_upto(player, squads@, squads@.len() as int).1,
        t.2 as int == tally_upto(player, squads@, squads@.len() as int).2,
{
    let mut defense: usize = 0;
    let mut offense: usize = 0;
    let mut active: usize = 0;
    let mut i: usize = 0;
    while i < squads.len()
        invariant
            i <= squads@.len(),
            members_upto(squads@, squads@.len() as int) <= usize::MAX,
            (defense as int, offense as int, active as int) == tally_upto(player, squads@, i as int),
        decreases squads@.len() - i,
    {
        proof {
            lemma_tally_bounds(player, squads@, i + 1);
            lemma_members_prefix(squads@, i + 1, squads@.len() as int);
        }
        let s = squads[i];
        match squad_role(player, i, s.target_size) {
            SquadRole::Defense => {
                defense = defense + s.members;
            },
            SquadRole::Attack => {
                offense = offense + s.members;
                if s.members > 0 {
                    active = active + 1;
                }
            },
            _ => {},
        }
        i = i + 1;
    }
    (defense, offense, active)
}

proof fn lemma_members_prefix(squads: Seq<SquadLine>, j: int, k: int)
    requires
        0 <= j <= k <= squads.len(),
    ensures
        members_upto(squads, j) <= members_upto(squads, k),
    decreases k - j,
{
    if j < k {
        lemma_members_prefix(squads, j, k - 1);
    }
}

/// The commander counts no soldier twice: defenders and attackers together
/// are at most the members of the listed squads, the attack squads with
/// members at most the listed squads, and a player faction shows no counts.
pub proof fn lemma_tally_within_members(player: bool, squads: Seq<SquadLine>)
    ensures
        ({
            let t = tally_upto(player, squads, squads.len() as int);
            &&& 0 <= t.0 && 0 <= t.1
            &&& t.0 + t.1 <= members_upto(squads, squads.len() as int)
            &&& 0 <= t.2 <= squads.len()
            &&& player ==> t == (0int, 0int, 0int)
        }),
{
    lemma_tally_bounds(player, squads, squads.len() as int);
}

/// Colours of the squad-target markers, as RGB, by squad index modulo 10.
pub open spec fn spec_marker_color(i: int) -> (u8, u8, u8) {
    let k = i % 10;
    if k == 0 {
        (255, 80, 80)
    } else if k == 1 {
        (80, 180, 255)
    } else if k == 2 {
        (80, 220, 80)
    } else if k == 3 {
        (255, 200, 40)
    } else if k == 4 {
        (200, 80, 255)
    } else if k == 5 {
        (255, 140, 40)
    } else if k == 6 {
        (40, 220, 200)
    } else if k == 7 {
        (255, 100, 180)
    } else if k == 8 {
        (180, 180, 80)
    } else {
        (140, 140, 255)
    }
}

/// Colour of the target marker of player squad `i`.
pub fn marker_color(i: usize) -> (c: (u8, u8, u8))
    ensures
        c == spec_marker_color(i as int),
{
    match i % 10 {
        0 => (255, 80, 80),
        1 => (80, 180, 255),
        2 => (80, 220, 80),
        3 => (255, 200, 40),
        4 => (200, 80, 255),
        5 => (255, 140, 40),
        6 => (40, 220, 200),
        7 => (255, 100, 180),
        8 => (180, 180, 80),
        _ => (140, 140, 255),
    }
}

/// A player squad gets a target marker when it has a target and members,
/// unless the player is dragging a selection box.
pub fn marker_shown(box_selecting: bool, player_squad: bool, has_target: bool, members: usize) -> (b: bool)
    ensures
        b == (!box_selecting && player_squad && has_target && members > 0),
{
    !box_selecting && player_squad && has_target && members > 0
}

/// Faction whose squad lines the map shows: the faction chosen in the
/// factions tab, while that tab is open.
pub fn overlay_faction(keeps_overlay: bool, chosen: Option<i32>) -> (f: Option<i32>)
    ensures
        f == (if keeps_overlay {
            chosen
        } else {
            None::<i32>
        }),
{
    if keeps_overlay {
        chosen
    } else {
        None
    }
}

/// Town whose centre a faction's squad lines start from, among the first
/// `k` towns (given each town's faction and whether it is a raider camp):
/// the last of the faction's towns that is not a camp, else its first town.
pub open spec fn line_start_upto(towns: Seq<(i32, bool)>, faction: i32, k: int) -> Option<int>
    decreases k,
{
    if k <= 0 {
        None
    } else {
        let prev = line_start_upto(towns, faction, k - 1);
        let t = towns[k - 1];
        if t.0 != faction {
            prev
        } else if !t.1 {
            Some(k - 1)
        } else if prev is None {
            Some(k - 1)
        } else {
            prev
        }
    }
}

/// Town whose centre the squad lines of `faction` start from, if the
/// faction has a town.
pub fn line_start_town(towns: &Vec<(i32, bool)>, faction: i32) -> (r: Option<usize>)
    ensures
        match line_start_upto(towns@, faction, towns@.len() as int) {
            Some(t) => r == Some(t as usize),
            None => r.is_none(),
        },
{
    let mut r: Option<usize> = None;
    let mut i: usize = 0;
    while i < towns.len()
        invariant
            i <= towns@.len(),
            match line_start_upto(towns@, faction, i as int) {
                Some(t) => r == Some(t as usize) && 0 <= t < i,
                None => r.is_none(),
            },
        decreases towns@.len() - i,
    {
        let (f, camp) = towns[i];
        if f == faction {
            if !camp || r.is_none() {
                r = Some(i);
            }
        }
        i = i + 1;
    }
    r
}

/// Number of the first `j` entries equal to `x`.
pub open spec fn count_upto(factions: Seq<i32>, x: i32, j: int) -> nat
    decreases j,
{
    if j <= 0 {
        0
    } else {
        count_upto(factions, x, j - 1) + (if factions[j - 1] == x {
            1nat
        } else {
            0nat
        })
    }
}

/// Palette positions (of five colours) of the squad target lines, given in
/// order the faction of each squad that has a line (a line too short to be
/// drawn still takes its colour): each faction's lines take the colours in
/// turn.
pub fn line_colors(factions: &Vec<i32>) -> (c: Vec<usize>)
    ensures
        c@.len() == factions@.len(),
        forall|i: int|
            0 <= i < c@.len() ==> #[trigger] c@[i] as int == count_upto(factions@, factions@[i], i) % 5,
{
    let mut c: Vec<usize> = Vec::new();
    let mut i: usize = 0;
    while i < factions.len()
        invariant
            i <= factions@.len(),
            c@.len() == i,
            forall|k: int| 0 <= k < i ==> #[trigger] c@[k] as int == count_upto(factions@, factions@[k], k) % 5,
        decreases factions@.len() - i,
    {
        let f = factions[i];
        let mut n: usize = 0;
        let mut j: usize = 0;
        while j < i
            invariant
                i < factions@.len(),
                f == factions@[i as int],
                j <= i,
                n == count_upto(factions@, f, j as int),
                n <= j,
            decreases i - j,
        {
            if factions[j] == f {
                n = n + 1;
            }
            j = j + 1;
        }
        c.push(n % 5);
        i = i + 1;
    }
    c
}

} // verus!
