//! The inspector window: which of the selected NPC and building it shows,
//! the NPC tabs, the links it follows, renaming an NPC, its personal log,
//! and which buildings the player may destroy.

use vstd::prelude::*;

use crate::combat_log::FACTION_PLAYER;
use crate::text::{spec_trim, trimmed};

verus! {

/// Tab of the NPC inspector.
#[derive(Clone, Copy, Debug, PartialEq, Eq, Structural)]
pub enum InspectorNpcTab {
    Overview,
    Loadout,
    Skills,
    Economy,
    Log,
}

impl Default for InspectorNpcTab {
    fn default() -> (t: Self)
        ensures
            t == InspectorNpcTab::Overview,
    {
        InspectorNpcTab::Overview
    }
}

/// The name being typed for the inspected NPC.
pub struct InspectorRenameState {
    /// NPC the text belongs to.
    pub slot: i32,
    pub text: String,
}

impl Default for InspectorRenameState {
    fn default() -> (s: Self)
        ensures
            s.slot == 0,
            s.text@ == Seq::<char>::empty(),
    {
        InspectorRenameState { slot: 0, text: String::new() }
    }
}

/// Which pane the inspector shows and the NPC tab.
pub struct InspectorTabState {
    /// The NPC pane (rather than the building pane) is chosen.
    pub show_npc: bool,
    pub npc_tab: InspectorNpcTab,
}

impl Default for InspectorTabState {
    fn default() -> (s: Self)
        ensures
            !s.show_npc,
            s.npc_tab == InspectorNpcTab::Overview,
    {
        InspectorTabState { show_npc: false, npc_tab: InspectorNpcTab::Overview }
    }
}

/// Inspector state kept between frames.
pub struct InspectorUiState {
    pub rename: InspectorRenameState,
    pub tabs: InspectorTabState,
    /// Last selection click the pane choice followed.
    pub last_click_seq: u64,
}

impl Default for InspectorUiState {
    fn default() -> (s: Self)
        ensures
            s.rename.slot == 0,
            s.rename.text@ == Seq::<char>::empty(),
            !s.tabs.show_npc,
            s.tabs.npc_tab == InspectorNpcTab::Overview,
            s.last_click_seq == 0,
    {
        InspectorUiState {
            rename: InspectorRenameState::default(),
            tabs: InspectorTabState::default(),
            last_click_seq: 0,
        }
    }
}

/// The inspector is open while an NPC or a building is selected, or units
/// are under direct control.
pub open spec fn spec_inspector_visible(has_npc: bool, has_building: bool, dc_count: usize) -> bool {
    has_npc || has_building || dc_count > 0
}

impl InspectorUiState {
    /// Start of a frame: returns whether the inspector is shown, and picks
    /// the pane: the only selected kind, or, with both selected, the kind
    /// the latest selection click preferred (once per click).
    pub fn frame_start(
        &mut self,
        has_npc: bool,
        has_building: bool,
        dc_count: usize,
        click_seq: u64,
        prefer_npc: bool,
    ) -> (visible: bool)
        ensures
            visible == spec_inspector_visible(has_npc, has_building, dc_count),
            final(self).tabs.show_npc == (if !visible {
                old(self).tabs.show_npc
            } else if has_npc && !has_building {
                true
            } else if has_building && !has_npc {
                false
            } else if has_npc && has_building && old(self).last_click_seq != click_seq {
                prefer_npc
            } else {
                old(self).tabs.show_npc
            }),
            final(self).last_click_seq == (if visible && has_npc && has_building
                && old(self).last_click_seq != click_seq {
                click_seq
            } else {
                old(self).last_click_seq
            }),
            final(self).tabs.npc_tab == old(self).tabs.npc_tab,
            final(self).rename.slot == old(self).rename.slot,
            final(self).rename.text == old(self).rename.text,
    {
        let visible = has_npc || has_building || dc_count > 0;
        if visible {
            if has_npc && !has_building {
                self.tabs.show_npc = true;
            } else if has_building && !has_npc {
                self.tabs.show_npc = false;
            } else if has_npc && has_building && self.last_click_seq != click_seq {
                self.tabs.show_npc = prefer_npc;
                self.last_click_seq = click_seq;
            }
        }
        visible
    }
}

/// Panes drawn: (NPC pane, building pane). With both selected, the chosen
/// pane; otherwise the pane of what is selected.
pub fn shown_panes(has_npc: bool, has_building: bool, show_npc: bool) -> (r: (bool, bool))
    ensures
        r.0 == (has_npc && (!has_building || show_npc)),
        r.1 == (has_building && (!has_npc || !r.0)),
{
    let npc = has_npc && (!has_building || show_npc);
    let building = has_building && (!has_npc || !npc);
    (npc, building)
}

/// The inspector draws exactly one pane whenever an NPC or a building is
/// selected, and none otherwise, whatever pane was chosen.
pub proof fn lemma_one_pane_shown(has_npc: bool, has_building: bool, show_npc: bool)
    ensures
        ({
            let npc = has_npc && (!has_building || show_npc);
            let building = has_building && (!has_npc || !npc);
            &&& (has_npc || has_building) ==> (npc != building)
            &&& !(has_npc || has_building) ==> !npc && !building
        }),
{
}

impl InspectorRenameState {
    /// No NPC is shown: the name box belongs to no one (-1) and is empty.
    pub fn reset(&mut self)
        ensures
            final(self).slot == -1,
            final(self).text@ == Seq::<char>::empty(),
    {
        self.slot = -1;
        self.text = String::new();
    }

    /// When another NPC is inspected, the name box starts from its current name.
    pub fn follow(&mut self, selected: i32, current_name: &str)
        ensures
            old(self).slot != selected ==> final(self).slot == selected && final(self).text@
                == current_name@,
            old(self).slot == selected ==> final(self).slot == old(self).slot && final(self).text
                == old(self).text,
    {
        if self.slot != selected {
            self.slot = selected;
            self.text = String::from_str(current_name);
        }
    }

    /// The Rename button (or Enter): a name that is not blank once trimmed
    /// becomes the NPC's name, and the box shows it trimmed. Returns the new
    /// name, or `None` when the text is blank.
    pub fn apply(&mut self) -> (name: Option<String>)
        ensures
            spec_trim(old(self).text@).len() == 0 ==> name.is_none() && final(self).text
                == old(self).text,
            spec_trim(old(self).text@).len() > 0 ==> (name matches Some(n) && n@ == spec_trim(
                old(self).text@,
            ) && final(self).text@ == n@),
            final(self).slot == old(self).slot,
    {
        let t = trimmed(self.text.as_str());
        if t.unicode_len() == 0 {
            None
        } else {
            let kept = t.clone();
            self.text = t;
            Some(kept)
        }
    }
}

/// A link clicked in the inspector.
#[derive(Clone, Copy, Debug, PartialEq, Eq, Structural)]
pub enum InspectorAction {
    SelectNpc(i32),
    SelectBuilding(usize),
}

/// The building selected on the map: its grid cell, whether a building is
/// selected at all, and its slot and kind (kinds named by registry id).
#[derive(Clone, Copy, Debug, PartialEq, Eq, Structural)]
pub struct SelectedBuilding {
    pub col: usize,
    pub row: usize,
    pub active: bool,
    pub slot: Option<usize>,
    pub kind: Option<u32>,
}

/// What is selected on the map: an NPC slot (-1 for none) and a building.
#[derive(Clone, Copy, Debug, PartialEq, Eq, Structural)]
pub struct Selection {
    pub npc: i32,
    pub building: SelectedBuilding,
}

/// Follows a clicked link. An NPC link selects the NPC and drops the
/// building (its cell kept). A building link drops the NPC and, when the
/// linked building is on the map (`instance`: its kind and grid cell),
/// selects it; otherwise the building selection stays as it was.
pub fn apply_action(sel: &mut Selection, action: InspectorAction, instance: Option<(u32, usize, usize)>)
    ensures
        action matches InspectorAction::SelectNpc(n) ==> (final(sel).npc == n && final(sel).building
            == SelectedBuilding {
            active: false,
            slot: None,
            kind: None,
            ..old(sel).building
        }),
        action matches InspectorAction::SelectBuilding(b) ==> (final(sel).npc == -1 && final(sel).building
            == (match instance {
            Some((kind, col, row)) => SelectedBuilding {
                col,
                row,
                active: true,
                slot: Some(b),
                kind: Some(kind),
            },
            None => old(sel).building,
        })),
{
    match action {
        InspectorAction::SelectNpc(n) => {
            sel.npc = n;
            sel.building.active = false;
            sel.building.slot = None;
            sel.building.kind = None;
        },
        InspectorAction::SelectBuilding(b) => {
            sel.npc = -1;
            if let Some((kind, col, row)) = instance {
                sel.building = SelectedBuilding { col, row, active: true, slot: Some(b), kind: Some(kind) };
            }
        },
    }
}

/// Most personal-log entries listed at once.
pub const LOG_LINES: usize = 12;

/// Log entries listed for an NPC with `len` entries: the newest first, at
/// most `LOG_LINES` of them; and how many older entries are left out.
pub fn log_window(len: usize) -> (r: (Vec<usize>, usize))
    ensures
        r.0@.len() == (if len < LOG_LINES {
            len
        } else {
            LOG_LINES
        }),
        forall|k: int| 0 <= k < r.0@.len() ==> #[trigger] r.0@[k] == len - 1 - k,
        r.1 == (if len > LOG_LINES {
            len - LOG_LINES
        } else {
            0
        }),
{
    let shown = if len < LOG_LINES {
        len
    } else {
        LOG_LINES
    };
    let mut idx: Vec<usize> = Vec::new();
    let mut k: usize = 0;
    while k < shown
        invariant
            shown <= len,
            k <= shown,
            idx@.len() == k,
            forall|m: int| 0 <= m < k ==> #[trigger] idx@[m] == len - 1 - m,
        decreases shown - k,
    {
        idx.push(len - 1 - k);
        k = k + 1;
    }
    let older = if len > LOG_LINES {
        len - LOG_LINES
    } else {
        0
    };
    (idx, older)
}

/// The player may destroy a selected building of one of the player's towns,
/// except a fountain or a gold mine (`town_faction`: the faction of the
/// building's town, if that town exists).
pub fn is_destructible(fountain_or_mine: bool, town_faction: Option<i32>) -> (b: bool)
    ensures
        b == (!fountain_or_mine && town_faction == Some(FACTION_PLAYER)),
{
    if fountain_or_mine {
        return false;
    }
    match town_faction {
        Some(f) => f == FACTION_PLAYER,
        None => false,
    }
}

} // verus!
