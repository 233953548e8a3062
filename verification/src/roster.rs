//! The roster tab: which NPCs are listed, the sort header, and the row order.

use vstd::prelude::*;

use crate::combat_log::FACTION_PLAYER;
use crate::sorting::{is_stable_order, is_stable_text_order, stable_order, stable_text_order};
use crate::text::{spec_trim, trimmed};

verus! {

/// Column the roster can be sorted by.
#[derive(Clone, Copy, Debug, PartialEq, Eq, Structural)]
pub enum SortColumn {
    Name,
    Job,
    Level,
    Hp,
    State,
    Trait,
}

/// Roster settings kept between frames.
pub struct RosterState {
    pub sort_column: Option<SortColumn>,
    pub sort_descending: bool,
    pub job_filter: i32,
    pub frame_counter: u32,
    /// NPC the rename box belongs to (-1: none).
    pub rename_slot: i32,
    pub rename_text: String,
}

impl Default for RosterState {
    fn default() -> (s: Self)
        ensures
            s.sort_column is None,
            !s.sort_descending,
            s.job_filter == 0,
            s.frame_counter == 0,
            s.rename_slot == 0,
            s.rename_text@ == Seq::<char>::empty(),
    {
        RosterState {
            sort_column: None,
            sort_descending: false,
            job_filter: 0,
            frame_counter: 0,
            rename_slot: 0,
            rename_text: String::new(),
        }
    }
}

/// Arrow shown after a column title: down for a descending sort, up for an
/// ascending one, nothing on unsorted columns.
pub open spec fn spec_arrow(state: &RosterState, col: SortColumn) -> Seq<char> {
    if state.sort_column == Some(col) {
        if state.sort_descending {
            " \u{25BC}"@
        } else {
            " \u{25B2}"@
        }
    } else {
        ""@
    }
}

impl RosterState {
    /// Counts a frame; the cached rows are rebuilt every 30 frames, or when
    /// there are none. Returns whether to rebuild them.
    pub fn next_frame(&mut self, rows_empty: bool) -> (rebuild: bool)
        requires
            old(self).frame_counter < u32::MAX,
        ensures
            final(self).frame_counter == old(self).frame_counter + 1,
            rebuild == (final(self).frame_counter % 30 == 1 || rows_empty),
            final(self).sort_column == old(self).sort_column,
            final(self).sort_descending == old(self).sort_descending,
            final(self).job_filter == old(self).job_filter,
            final(self).rename_slot == old(self).rename_slot,
            final(self).rename_text == old(self).rename_text,
    {
        self.frame_counter = self.frame_counter + 1;
        self.frame_counter % 30 == 1 || rows_empty
    }

    /// A click on a column title: the sorted column flips direction, any
    /// other column becomes the sort column, descending. The rows are
    /// rebuilt on the next frame.
    pub fn click_column(&mut self, col: SortColumn)
        ensures
            final(self).sort_column == Some(col),
            old(self).sort_column == Some(col) ==> final(self).sort_descending == !old(
                self,
            ).sort_descending,
            old(self).sort_column != Some(col) ==> final(self).sort_descending,
            final(self).frame_counter == 0,
            final(self).job_filter == old(self).job_filter,
            final(self).rename_slot == old(self).rename_slot,
            final(self).rename_text == old(self).rename_text,
    {
        if self.sort_column == Some(col) {
            self.sort_descending = !self.sort_descending;
        } else {
            self.sort_column = Some(col);
            self.sort_descending = true;
        }
        self.frame_counter = 0;
    }

    /// A click on a job filter button (-1 for "All").
    pub fn set_job_filter(&mut self, job: i32)
        ensures
            final(self).job_filter == job,
            final(self).frame_counter == 0,
            final(self).sort_column == old(self).sort_column,
            final(self).sort_descending == old(self).sort_descending,
            final(self).rename_slot == old(self).rename_slot,
            final(self).rename_text == old(self).rename_text,
    {
        self.job_filter = job;
        self.frame_counter = 0;
    }

    /// Arrow shown after the title of `col`.
    pub fn arrow_str(&self, col: SortColumn) -> (s: &'static str)
        ensures
            s@ == spec_arrow(self, col),
    {
        if self.sort_column == Some(col) {
            if self.sort_descending {
                " \u{25BC}"
            } else {
                " \u{25B2}"
            }
        } else {
            ""
        }
    }

    /// Whether an NPC is listed: alive, of the player's faction unless all
    /// NPCs are shown, and of the filtered job (a negative filter shows all).
    pub fn row_visible(&self, dead: bool, faction: i32, job: i32, debug_all: bool) -> (b: bool)
        ensures
            b == (!dead && (debug_all || faction == FACTION_PLAYER) && (self.job_filter < 0 || job
                == self.job_filter)),
    {
        if dead {
            return false;
        }
        if !debug_all && faction != FACTION_PLAYER {
            return false;
        }
        !(self.job_filter >= 0 && job != self.job_filter)
    }

    /// Row order for the integer columns: by level descending when nothing
    /// is selected (the default view), by level or job in the chosen
    /// direction; `None` for the text and health columns. Equal keys keep
    /// their row order.
    pub fn integer_order(&self, levels: &Vec<i64>, jobs: &Vec<i64>) -> (order: Option<Vec<usize>>)
        ensures
            self.sort_column is None ==> (order matches Some(o) && is_stable_order(levels@, true, o@)),
            self.sort_column == Some(SortColumn::Level) ==> (order matches Some(o) && is_stable_order(
                levels@,
                self.sort_descending,
                o@,
            )),
            self.sort_column == Some(SortColumn::Job) ==> (order matches Some(o) && is_stable_order(
                jobs@,
                self.sort_descending,
                o@,
            )),
            (self.sort_column is Some && self.sort_column != Some(SortColumn::Level)
                && self.sort_column != Some(SortColumn::Job)) ==> (order is None),
    {
        match self.sort_column {
            None => Some(stable_order(levels, true)),
            Some(SortColumn::Level) => Some(stable_order(levels, self.sort_descending)),
            Some(SortColumn::Job) => Some(stable_order(jobs, self.sort_descending)),
            _ => None,
        }
    }

    /// Row order for the text columns (name, state, trait) in the chosen
    /// direction, equal texts keeping their row order; `None` for the other
    /// columns and with nothing selected.
    pub fn text_order(&self, names: &Vec<String>, states: &Vec<String>, traits: &Vec<String>) -> (order:
        Option<Vec<usize>>)
        ensures
            self.sort_column == Some(SortColumn::Name) ==> (order matches Some(o) && is_stable_text_order(
                names@,
                self.sort_descending,
                o@,
            )),
            self.sort_column == Some(SortColumn::State) ==> (order matches Some(o) && is_stable_text_order(
                states@,
                self.sort_descending,
                o@,
            )),
            self.sort_column == Some(SortColumn::Trait) ==> (order matches Some(o) && is_stable_text_order(
                traits@,
                self.sort_descending,
                o@,
            )),
            (self.sort_column != Some(SortColumn::Name) && self.sort_column != Some(SortColumn::State)
                && self.sort_column != Some(SortColumn::Trait)) ==> (order is None),
    {
        match self.sort_column {
            Some(SortColumn::Name) => Some(stable_text_order(names, self.sort_descending)),
            Some(SortColumn::State) => Some(stable_text_order(states, self.sort_descending)),
            Some(SortColumn::Trait) => Some(stable_text_order(traits, self.sort_descending)),
            _ => None,
        }
    }

    /// Keeps the rename box on the selected NPC: a newly selected NPC's box
    /// starts from its name (`current_name`, empty when it has none); with
    /// no NPC selected (negative `selected`) the box is cleared.
    pub fn follow_selection(&mut self, selected: i32, current_name: &str)
        ensures
            selected < 0 ==> final(self).rename_slot == -1 && final(self).rename_text@
                == Seq::<char>::empty(),
            selected >= 0 && old(self).rename_slot != selected ==> final(self).rename_slot == selected
                && final(self).rename_text@ == current_name@,
            selected >= 0 && old(self).rename_slot == selected ==> final(self).rename_slot
                == old(self).rename_slot && final(self).rename_text == old(self).rename_text,
            final(self).frame_counter == old(self).frame_counter,
            final(self).sort_column == old(self).sort_column,
            final(self).sort_descending == old(self).sort_descending,
            final(self).job_filter == old(self).job_filter,
    {
        if selected < 0 {
            self.rename_slot = -1;
            self.rename_text = String::new();
        } else if self.rename_slot != selected {
            self.rename_slot = selected;
            self.rename_text = String::from_str(current_name);
        }
    }

    /// The Apply button (or Enter): a name that is not blank once trimmed
    /// becomes the NPC's name, the box shows it trimmed and the rows are
    /// rebuilt on the next frame. Returns the new name, or `None` when blank.
    pub fn apply_rename(&mut self) -> (name: Option<String>)
        ensures
            spec_trim(old(self).rename_text@).len() == 0 ==> name.is_none() && final(self).rename_text
                == old(self).rename_text && final(self).frame_counter == old(self).frame_counter,
            spec_trim(old(self).rename_text@).len() > 0 ==> (name matches Some(n) && n@ == spec_trim(
                old(self).rename_text@,
            ) && final(self).rename_text@ == n@ && final(self).frame_counter == 0),
            final(self).rename_slot == old(self).rename_slot,
            final(self).sort_column == old(self).sort_column,
            final(self).sort_descending == old(self).sort_descending,
            final(self).job_filter == old(self).job_filter,
    {
        let t = trimmed(self.rename_text.as_str());
        if t.unicode_len() == 0 {
            None
        } else {
            let kept = t.clone();
            self.rename_text = t;
            self.frame_counter = 0;
            Some(kept)
        }
    }
}

} // verus!
