//! The left panel: tab titles and help keys, panel open/close bookkeeping,
//! and the collapsing sections whose state is saved with the settings.

use vstd::prelude::*;

use crate::blackjack::BlackjackState;

verus! {

/// Tab of the left panel.
#[derive(Clone, Copy, Debug, PartialEq, Eq, Structural)]
pub enum LeftPanelTab {
    Roster,
    Upgrades,
    Policies,
    Patrols,
    Squads,
    Inventory,
    Factions,
    Blackjack,
    Profiler,
    Help,
}

impl Default for LeftPanelTab {
    fn default() -> (t: Self)
        ensures
            t == LeftPanelTab::Roster,
    {
        LeftPanelTab::Roster
    }
}

/// Name of a tab, used as the window title and in the saved settings.
pub open spec fn spec_tab_name(tab: LeftPanelTab) -> Seq<char> {
    match tab {
        LeftPanelTab::Roster => "Roster"@,
        LeftPanelTab::Upgrades => "Upgrades"@,
        LeftPanelTab::Policies => "Policies"@,
        LeftPanelTab::Patrols => "Patrols"@,
        LeftPanelTab::Squads => "Squads"@,
        LeftPanelTab::Inventory => "Inventory"@,
        LeftPanelTab::Factions => "Factions"@,
        LeftPanelTab::Blackjack => "Blackjack"@,
        LeftPanelTab::Profiler => "Profiler"@,
        LeftPanelTab::Help => "Help"@,
    }
}

/// Help-catalog key of the text shown at the top of a tab.
pub open spec fn spec_tab_help_key(tab: LeftPanelTab) -> Seq<char> {
    match tab {
        LeftPanelTab::Roster => "tab_roster"@,
        LeftPanelTab::Upgrades => "tab_upgrades"@,
        LeftPanelTab::Policies => "tab_policies"@,
        LeftPanelTab::Patrols => "tab_patrols"@,
        LeftPanelTab::Squads => "tab_squads"@,
        LeftPanelTab::Inventory => "tab_inventory"@,
        LeftPanelTab::Factions => "tab_factions"@,
        LeftPanelTab::Blackjack => "tab_blackjack"@,
        LeftPanelTab::Profiler => "tab_profiler"@,
        LeftPanelTab::Help => "tab_help"@,
    }
}

/// Name of a tab.
pub fn tab_to_str(tab: LeftPanelTab) -> (s: &'static str)
    ensures
        s@ == spec_tab_name(tab),
{
    match tab {
        LeftPanelTab::Roster => "Roster",
        LeftPanelTab::Upgrades => "Upgrades",
        LeftPanelTab::Policies => "Policies",
        LeftPanelTab::Patrols => "Patrols",
        LeftPanelTab::Squads => "Squads",
        LeftPanelTab::Inventory => "Inventory",
        LeftPanelTab::Factions => "Factions",
        LeftPanelTab::Blackjack => "Blackjack",
        LeftPanelTab::Profiler => "Profiler",
        LeftPanelTab::Help => "Help",
    }
}

/// Help-catalog key of a tab.
pub fn tab_help_key(tab: LeftPanelTab) -> (s: &'static str)
    ensures
        s@ == spec_tab_help_key(tab),
{
    match tab {
        LeftPanelTab::Roster => "tab_roster",
        LeftPanelTab::Upgrades => "tab_upgrades",
        LeftPanelTab::Policies => "tab_policies",
        LeftPanelTab::Patrols => "tab_patrols",
        LeftPanelTab::Squads => "tab_squads",
        LeftPanelTab::Inventory => "tab_inventory",
        LeftPanelTab::Factions => "tab_factions",
        LeftPanelTab::Blackjack => "tab_blackjack",
        LeftPanelTab::Profiler => "tab_profiler",
        LeftPanelTab::Help => "tab_help",
    }
}

/// Distinct tabs have distinct names, so a saved name restores its tab.
pub proof fn lemma_tab_names_distinct(a: LeftPanelTab, b: LeftPanelTab)
    requires
        a != b,
    ensures
        spec_tab_name(a) != spec_tab_name(b),
        spec_tab_help_key(a) != spec_tab_help_key(b),
{
    reveal_strlit("Roster");
    reveal_strlit("Upgrades");
    reveal_strlit("Policies");
    reveal_strlit("Patrols");
    reveal_strlit("Squads");
    reveal_strlit("Inventory");
    reveal_strlit("Factions");
    reveal_strlit("Blackjack");
    reveal_strlit("Profiler");
    reveal_strlit("Help");
    reveal_strlit("tab_roster");
    reveal_strlit("tab_upgrades");
    reveal_strlit("tab_policies");
    reveal_strlit("tab_patrols");
    reveal_strlit("tab_squads");
    reveal_strlit("tab_inventory");
    reveal_strlit("tab_factions");
    reveal_strlit("tab_blackjack");
    reveal_strlit("tab_profiler");
    reveal_strlit("tab_help");
    assert(spec_tab_name(a).len() != spec_tab_name(b).len() || spec_tab_name(a)[0] != spec_tab_name(b)[0]
        || spec_tab_name(a)[1] != spec_tab_name(b)[1] || spec_tab_name(a)[2] != spec_tab_name(b)[2]);
    assert(spec_tab_help_key(a).len() != spec_tab_help_key(b).len() || spec_tab_help_key(a)[4]
        != spec_tab_help_key(b)[4] || spec_tab_help_key(a)[5] != spec_tab_help_key(b)[5]
        || spec_tab_help_key(a)[6] != spec_tab_help_key(b)[6]);
}

/// Left-panel bookkeeping kept between frames.
pub struct PanelState {
    pub was_open: bool,
    pub prev_tab: LeftPanelTab,
    pub blackjack: BlackjackState,
}

impl Default for PanelState {
    fn default() -> (s: Self)
        ensures
            !s.was_open,
            s.prev_tab == LeftPanelTab::Roster,
            s.blackjack.wf(),
    {
        PanelState {
            was_open: false,
            prev_tab: LeftPanelTab::Roster,
            blackjack: BlackjackState::default(),
        }
    }
}

/// What the left panel must do with the saved settings this frame.
#[derive(Clone, Copy, Debug, PartialEq, Eq, Structural)]
pub enum PanelEvent {
    /// The panel was just closed: store the collapsed sections and save.
    Closed,
    /// The panel was just opened: restore the collapsed sections.
    Opened,
    /// Nothing to save or restore.
    Unchanged,
}

/// Start of a left-panel frame: detects the panel opening or closing. A
/// closed panel forgets its tab (back to Roster).
pub fn panel_frame_start(state: &mut PanelState, open: bool) -> (e: PanelEvent)
    ensures
        e == (if !open && old(state).was_open {
            PanelEvent::Closed
        } else if open && !old(state).was_open {
            PanelEvent::Opened
        } else {
            PanelEvent::Unchanged
        }),
        final(state).was_open == open,
        !open ==> final(state).prev_tab == LeftPanelTab::Roster,
        open ==> final(state).prev_tab == old(state).prev_tab,
        final(state).blackjack == old(state).blackjack,
{
    if !open {
        let mut e = PanelEvent::Unchanged;
        if state.was_open {
            state.was_open = false;
            e = PanelEvent::Closed;
        }
        state.prev_tab = LeftPanelTab::Roster;
        return e;
    }
    if !state.was_open {
        state.was_open = true;
        return PanelEvent::Opened;
    }
    PanelEvent::Unchanged
}

/// End of a left-panel frame: remembers the tab shown, or Roster once the
/// panel has been closed.
pub fn panel_frame_end(state: &mut PanelState, still_open: bool, tab: LeftPanelTab)
    ensures
        final(state).prev_tab == (if still_open {
            tab
        } else {
            LeftPanelTab::Roster
        }),
        final(state).was_open == old(state).was_open,
        final(state).blackjack == old(state).blackjack,
{
    state.prev_tab = if still_open {
        tab
    } else {
        LeftPanelTab::Roster
    };
}

/// The factions map overlay stays only while the Factions tab is open.
pub fn keeps_factions_overlay(open: bool, tab: LeftPanelTab) -> (b: bool)
    ensures
        b == (open && tab == LeftPanelTab::Factions),
{
    open && tab == LeftPanelTab::Factions
}

/// Number of collapsing sections whose state is saved.
pub const TRACKED_SECTION_COUNT: usize = 10;

/// Name and default state (open or not) of saved section `i`.
pub open spec fn spec_tracked_section(i: int) -> (Seq<char>, bool) {
    if i == 0 {
        ("Desires"@, true)
    } else if i == 1 {
        ("Economy"@, true)
    } else if i == 2 {
        ("Policies"@, false)
    } else if i == 3 {
        ("Military"@, true)
    } else if i == 4 {
        ("Economy Stats"@, false)
    } else if i == 5 {
        ("Military Stats"@, false)
    } else if i == 6 {
        ("Squad Commander"@, true)
    } else if i == 7 {
        ("Recent Actions"@, true)
    } else if i == 8 {
        ("Debug Actions"@, false)
    } else {
        ("NPC Target Thrash (sink, 1s window)"@, true)
    }
}

/// Name and default state of saved section `i`.
pub fn tracked_section(i: usize) -> (r: (&'static str, bool))
    requires
        i < TRACKED_SECTION_COUNT,
    ensures
        r.0@ == spec_tracked_section(i as int).0,
        r.1 == spec_tracked_section(i as int).1,
{
    match i {
        0 => ("Desires", true),
        1 => ("Economy", true),
        2 => ("Policies", false),
        3 => ("Military", true),
        4 => ("Economy Stats", false),
        5 => ("Military Stats", false),
        6 => ("Squad Commander", true),
        7 => ("Recent Actions", true),
        8 => ("Debug Actions", false),
        _ => ("NPC Target Thrash (sink, 1s window)", true),
    }
}

/// Sections to record as collapsed, given whether each tracked section is
/// open now: the closed ones, in section order.
pub fn collapsed_sections(open: &Vec<bool>) -> (r: Vec<usize>)
    requires
        open@.len() == TRACKED_SECTION_COUNT,
    ensures
        forall|i: usize| #[trigger] r@.contains(i) <==> (i < TRACKED_SECTION_COUNT && !open@[i as int]),
        forall|a: int, b: int| 0 <= a < b < r@.len() ==> #[trigger] r@[a] < #[trigger] r@[b],
{
    let mut r: Vec<usize> = Vec::new();
    let mut i: usize = 0;
    while i < TRACKED_SECTION_COUNT
        invariant
            open@.len() == TRACKED_SECTION_COUNT,
            i <= TRACKED_SECTION_COUNT,
            forall|k: usize| #[trigger] r@.contains(k) <==> (k < i && !open@[k as int]),
            forall|a: int, b: int| 0 <= a < b < r@.len() ==> #[trigger] r@[a] < #[trigger] r@[b],
            forall|a: int| 0 <= a < r@.len() ==> #[trigger] r@[a] < i,
        decreases TRACKED_SECTION_COUNT - i,
    {
        if !open[i] {
            let ghost before = r@;
            r.push(i);
            proof {
                assert forall|k: usize| #[trigger] r@.contains(k) <==> (k < i + 1 && !open@[k as int]) by {
                    if r@.contains(k) && k != i {
                        let m = choose|m: int| 0 <= m < r@.len() && r@[m] == k;
                        assert(before[m] == k);
                        assert(before.contains(k));
                    }
                    if k < i && !open@[k as int] {
                        assert(before.contains(k));
                        let m = choose|m: int| 0 <= m < before.len() && before[m] == k;
                        assert(r@[m] == k);
                    }
                    if k == i {
                        assert(r@[before.len() as int] == k);
                    }
                }
            }
        } else {
            proof {
                assert forall|k: usize| #[trigger] r@.contains(k) <==> (k < i + 1 && !open@[k as int]) by {
                    if r@.contains(k) {
                        let m = choose|m: int| 0 <= m < r@.len() && r@[m] == k;
                        assert(r@[m] < i);
                    }
                }
            }
        }
        i = i + 1;
    }
    r
}

/// Whether a tracked section opens when the panel is shown again: it stays
/// closed if it was saved as collapsed, else it takes its default.
pub fn restored_open(saved_collapsed: bool, default_open: bool) -> (b: bool)
    ensures
        b == (!saved_collapsed && default_open),
{
    if saved_collapsed {
        false
    } else {
        default_open
    }
}

/// Closing the panel and opening it again keeps every section the player
/// had collapsed collapsed; a section left open comes back open exactly
/// when it opens by default (so "Policies", "Economy Stats", "Military
/// Stats" and "Debug Actions" always come back closed).
pub proof fn lemma_sections_round_trip(open: Seq<bool>, collapsed: Seq<usize>, i: usize)
    requires
        open.len() == TRACKED_SECTION_COUNT,
        i < TRACKED_SECTION_COUNT,
        forall|k: usize| #[trigger] collapsed.contains(k) <==> (k < TRACKED_SECTION_COUNT && !open[k as int]),
    ensures
        (!collapsed.contains(i) && spec_tracked_section(i as int).1) == (open[i as int]
            && spec_tracked_section(i as int).1),
        !open[i as int] ==> collapsed.contains(i),
{
}

} // verus!
