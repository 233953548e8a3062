//! Tech-tree nodes: the state of a node, its colours, and the tab clamp.

use vstd::prelude::*;

use crate::town_view::{player_town_from, player_town_index};

verus! {

/// Visual state of an upgrade node.
#[derive(Clone, Copy, Debug, PartialEq, Eq, Structural)]
pub enum NodeState {
    /// Prerequisites not met.
    Locked,
    /// Prerequisites met, but not affordable.
    Unlocked,
    /// Can be bought now.
    Available,
    /// At its maximum level.
    Maxed,
}

/// State of a node at `level`, given its level cap and whether its
/// prerequisites are met (`unlocked`) and it can be bought (`available`).
pub open spec fn spec_node_state(level: u8, max_level: Option<u8>, unlocked: bool, available: bool) -> NodeState {
    if max_level matches Some(max) && level >= max {
        NodeState::Maxed
    } else if !unlocked {
        NodeState::Locked
    } else if available {
        NodeState::Available
    } else {
        NodeState::Unlocked
    }
}

/// State of an upgrade node: maxed out first, then locked, available or
/// merely unlocked.
pub fn node_state(level: u8, max_level: Option<u8>, unlocked: bool, available: bool) -> (s: NodeState)
    ensures
        s == spec_node_state(level, max_level, unlocked, available),
{
    if let Some(max) = max_level {
        if level >= max {
            return NodeState::Maxed;
        }
    }
    if !unlocked {
        return NodeState::Locked;
    }
    if available {
        NodeState::Available
    } else {
        NodeState::Unlocked
    }
}

/// Background colour of a node, as RGB.
pub fn node_bg(state: NodeState) -> (c: (u8, u8, u8))
    ensures
        state == NodeState::Locked ==> c == (26u8, 30u8, 38u8),
        state == NodeState::Unlocked ==> c == (38u8, 45u8, 58u8),
        state == NodeState::Available ==> c == (22u8, 74u8, 48u8),
        state == NodeState::Maxed ==> c == (40u8, 52u8, 88u8),
{
    match state {
        NodeState::Locked => (26, 30, 38),
        NodeState::Unlocked => (38, 45, 58),
        NodeState::Available => (22, 74, 48),
        NodeState::Maxed => (40, 52, 88),
    }
}

/// Border of a node: width in tenths of a pixel and RGB colour.
pub fn node_border(state: NodeState) -> (b: (u8, (u8, u8, u8)))
    ensures
        state == NodeState::Locked ==> b == (10u8, (66u8, 72u8, 84u8)),
        state == NodeState::Unlocked ==> b == (10u8, (98u8, 110u8, 132u8)),
        state == NodeState::Available ==> b == (20u8, (112u8, 221u8, 141u8)),
        state == NodeState::Maxed ==> b == (15u8, (150u8, 174u8, 255u8)),
{
    match state {
        NodeState::Locked => (10, (66, 72, 84)),
        NodeState::Unlocked => (10, (98, 110, 132)),
        NodeState::Available => (20, (112, 221, 141)),
        NodeState::Maxed => (15, (150, 174, 255)),
    }
}

/// Grey level of a node's text: dim on locked nodes.
pub fn node_text_gray(state: NodeState) -> (g: u8)
    ensures
        g == (if state == NodeState::Locked {
            124u8
        } else {
            220u8
        }),
{
    match state {
        NodeState::Locked => 124,
        _ => 220,
    }
}

/// Colour of a prerequisite line, as RGB: lit once the child is unlocked.
pub fn line_color(unlocked: bool) -> (c: (u8, u8, u8))
    ensures
        c == (if unlocked {
            (106u8, 126u8, 150u8)
        } else {
            (46u8, 46u8, 46u8)
        }),
{
    if unlocked {
        (106, 126, 150)
    } else {
        (46, 46, 46)
    }
}

/// Status line of a node.
#[derive(Clone, Copy, Debug, PartialEq, Eq, Structural)]
pub enum NodeStatus {
    /// "Unlocked": a maxed one-level node.
    Unlocked,
    /// "Locked".
    Locked,
    /// "Lv0".
    NotBought,
    /// "Lv{level}" with the node's current effect.
    Level,
}

/// Status line of a node in `state` at `level`, with its level cap.
pub fn node_status(state: NodeState, max_level: Option<u8>, level: u8) -> (s: NodeStatus)
    ensures
        s == (if state == NodeState::Maxed {
            if max_level == Some(1u8) {
                NodeStatus::Unlocked
            } else {
                NodeStatus::Level
            }
        } else if state == NodeState::Locked {
            NodeStatus::Locked
        } else if level == 0 {
            NodeStatus::NotBought
        } else {
            NodeStatus::Level
        }),
{
    match state {
        NodeState::Maxed => {
            if max_level == Some(1u8) {
                NodeStatus::Unlocked
            } else {
                NodeStatus::Level
            }
        },
        NodeState::Locked => NodeStatus::Locked,
        _ => {
            if level == 0 {
                NodeStatus::NotBought
            } else {
                NodeStatus::Level
            }
        },
    }
}

/// Colour of a node's status line, as RGB.
pub fn status_color(state: NodeState) -> (c: (u8, u8, u8))
    ensures
        c == (if state == NodeState::Available {
            (160u8, 220u8, 100u8)
        } else if state == NodeState::Maxed {
            (120u8, 120u8, 200u8)
        } else {
            (150u8, 150u8, 150u8)
        }),
{
    match state {
        NodeState::Available => (160, 220, 100),
        NodeState::Maxed => (120, 120, 200),
        _ => (150, 150, 150),
    }
}

/// Colour of a node's cost, as RGB.
pub fn cost_color(state: NodeState) -> (c: (u8, u8, u8))
    ensures
        c == (if state == NodeState::Available {
            (140u8, 220u8, 140u8)
        } else if state == NodeState::Locked {
            (105u8, 105u8, 105u8)
        } else {
            (165u8, 165u8, 165u8)
        }),
{
    match state {
        NodeState::Available => (140, 220, 140),
        NodeState::Locked => (105, 105, 105),
        _ => (165, 165, 165),
    }
}

/// Deepest row of a branch's entries (index, depth); 0 when there are none.
pub open spec fn max_depth(entries: Seq<(usize, u32)>) -> nat
    decreases entries.len(),
{
    if entries.len() == 0 {
        0
    } else {
        let m = max_depth(entries.drop_last());
        if entries.last().1 > m {
            entries.last().1 as nat
        } else {
            m
        }
    }
}

/// Node indices of the entries at `depth`, in entry order.
pub open spec fn row_at(entries: Seq<(usize, u32)>, depth: int) -> Seq<usize>
    decreases entries.len(),
{
    if entries.len() == 0 {
        Seq::empty()
    } else if entries.last().1 == depth {
        row_at(entries.drop_last(), depth).push(entries.last().0)
    } else {
        row_at(entries.drop_last(), depth)
    }
}

proof fn lemma_max_depth_bound(entries: Seq<(usize, u32)>, k: int)
    requires
        0 <= k < entries.len(),
    ensures
        entries[k].1 <= max_depth(entries),
    decreases entries.len(),
{
    if k < entries.len() - 1 {
        assert(entries.drop_last()[k] == entries[k]);
        lemma_max_depth_bound(entries.drop_last(), k);
    }
}

/// A branch's nodes grouped by depth: row `d` lists the nodes at depth `d`
/// in entry order, for every depth up to the deepest; no rows for a branch
/// without entries.
pub fn depth_rows(entries: &Vec<(usize, u32)>) -> (rows: Vec<Vec<usize>>)
    requires
        max_depth(entries@) < usize::MAX,
    ensures
        entries@.len() == 0 ==> rows@.len() == 0,
        entries@.len() > 0 ==> rows@.len() == max_depth(entries@) + 1,
        forall|d: int| 0 <= d < rows@.len() ==> (#[trigger] rows@[d])@ == row_at(entries@, d),
{
    let mut rows: Vec<Vec<usize>> = Vec::new();
    if entries.len() == 0 {
        return rows;
    }
    let mut max: u32 = 0;
    let mut k: usize = 0;
    while k < entries.len()
        invariant
            k <= entries@.len(),
            max == max_depth(entries@.take(k as int)),
        decreases entries@.len() - k,
    {
        proof {
            assert(entries@.take(k + 1).drop_last() =~= entries@.take(k as int));
        }
        if entries[k].1 > max {
            max = entries[k].1;
        }
        k = k + 1;
    }
    proof {
        assert(entries@.take(k as int) =~= entries@);
    }
    let n = max as usize + 1;
    let mut d: usize = 0;
    while d < n
        invariant
            n == max_depth(entries@) + 1,
            d <= n,
            rows@.len() == d,
            forall|j: int| 0 <= j < d ==> (#[trigger] rows@[j])@ == Seq::<usize>::empty(),
        decreases n - d,
    {
        rows.push(Vec::new());
        d = d + 1;
    }
    let mut k: usize = 0;
    while k < entries.len()
        invariant
            n == max_depth(entries@) + 1,
            rows@.len() == n,
            k <= entries@.len(),
            forall|j: int| 0 <= j < n ==> (#[trigger] rows@[j])@ == row_at(entries@.take(k as int), j),
        decreases entries@.len() - k,
    {
        proof {
            assert(entries@.take(k + 1).drop_last() =~= entries@.take(k as int));
            lemma_max_depth_bound(entries@, k as int);
        }
        let (idx, depth) = entries[k];
        let di = depth as usize;
        let mut row: Vec<usize> = Vec::new();
        rows.set_and_swap(di, &mut row);
        row.push(idx);
        rows.set_and_swap(di, &mut row);
        proof {
            assert forall|j: int| 0 <= j < n implies (#[trigger] rows@[j])@ == row_at(
                entries@.take(k + 1),
                j,
            ) by {
                assert(entries@.take(k + 1).last() == (idx, depth));
            }
        }
        k = k + 1;
    }
    proof {
        assert(entries@.take(k as int) =~= entries@);
    }
    rows
}

/// The tab shown: the stored tab, capped to the last branch.
pub fn active_branch_tab(stored: usize, branches: usize) -> (t: usize)
    ensures
        branches == 0 ==> t == 0,
        branches > 0 ==> t == (if stored < branches {
            stored
        } else {
            (branches - 1) as usize
        }),
{
    let last = if branches > 0 {
        branches - 1
    } else {
        0
    };
    if stored < last {
        stored
    } else {
        last
    }
}

/// A request to buy the next level of an upgrade for a town.
#[derive(Clone, Copy, Debug, PartialEq, Eq, Structural)]
pub struct UpgradeRequest {
    pub town_idx: usize,
    pub upgrade_idx: usize,
}

/// The requests made by clicks on tree nodes (node index and its state when
/// clicked), in click order: one for each click on an available node, for
/// town `town`; clicks on locked, unaffordable or maxed nodes make none.
pub open spec fn spec_requests(town: usize, clicks: Seq<(usize, NodeState)>) -> Seq<UpgradeRequest>
    decreases clicks.len(),
{
    if clicks.len() == 0 {
        Seq::empty()
    } else {
        let rest = spec_requests(town, clicks.drop_last());
        let (node, state) = clicks.last();
        if state == NodeState::Available {
            rest.push(UpgradeRequest { town_idx: town, upgrade_idx: node })
        } else {
            rest
        }
    }
}

/// Purchases made in the tech-tree window this frame: none while the window
/// is closed; otherwise one request per click on an available node, for the
/// player's town (the first town of the player's faction, town 0 when none).
pub fn upgrade_requests(window_open: bool, factions: &Vec<i32>, clicks: &Vec<(usize, NodeState)>) -> (reqs: Vec<
    UpgradeRequest,
>)
    ensures
        !window_open ==> reqs@.len() == 0,
        window_open ==> reqs@ == spec_requests(player_town_from(factions@, 0) as usize, clicks@),
{
    let mut reqs: Vec<UpgradeRequest> = Vec::new();
    if !window_open {
        return reqs;
    }
    let town = player_town_index(factions);
    let mut k: usize = 0;
    while k < clicks.len()
        invariant
            k <= clicks@.len(),
            town == player_town_from(factions@, 0),
            reqs@ == spec_requests(town, clicks@.take(k as int)),
        decreases clicks@.len() - k,
    {
        let (node, state) = clicks[k];
        proof {
            assert(clicks@.take(k + 1).drop_last() =~= clicks@.take(k as int));
            assert(clicks@.take(k + 1).last() == clicks@[k as int]);
        }
        if state == NodeState::Available {
            reqs.push(UpgradeRequest { town_idx: town, upgrade_idx: node });
        }
        k = k + 1;
    }
    proof {
        assert(clicks@.take(k as int) =~= clicks@);
    }
    reqs
}

} // verus!
