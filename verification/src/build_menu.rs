//! The build bar: opening and closing it, picking what to place, and the
//! colours of its entries. Building kinds are named by their registry id.

use vstd::prelude::*;

verus! {

/// What the next click on the map does.
#[derive(Clone, Copy, Debug, PartialEq, Eq, Structural)]
pub enum BuildChoice {
    /// Place a building of the given kind.
    Place(u32),
    /// Destroy the building clicked.
    Destroy,
}

/// State of the build bar kept between frames.
pub struct BuildMenuState {
    pub open: bool,
    /// Town the bar builds for.
    pub town: Option<usize>,
    pub selected: Option<BuildChoice>,
}

impl Default for BuildMenuState {
    fn default() -> (s: Self)
        ensures
            !s.open,
            s.town.is_none(),
            s.selected.is_none(),
    {
        BuildMenuState { open: false, town: None, selected: None }
    }
}

/// Selection after a click on `choice`: a second click deselects it.
pub open spec fn toggled(selected: Option<BuildChoice>, choice: BuildChoice) -> Option<BuildChoice> {
    if selected == Some(choice) {
        None
    } else {
        Some(choice)
    }
}

impl BuildMenuState {
    /// The "Build" button: opening the bar builds for the player's town
    /// (`player_town`); closing it drops the selection.
    pub fn toggle(&mut self, player_town: Option<usize>)
        ensures
            final(self).open == !old(self).open,
            final(self).open ==> final(self).town == player_town && final(self).selected
                == old(self).selected,
            !final(self).open ==> final(self).town == old(self).town && final(self).selected.is_none(),
    {
        self.open = !self.open;
        if self.open {
            self.town = player_town;
        } else {
            self.selected = None;
        }
    }

    /// An open bar without a town takes the player's town.
    pub fn ensure_town(&mut self, player_town: Option<usize>)
        ensures
            final(self).town == (if old(self).town.is_none() {
                player_town
            } else {
                old(self).town
            }),
            final(self).open == old(self).open,
            final(self).selected == old(self).selected,
    {
        if self.town.is_none() {
            self.town = player_town;
        }
    }

    /// A click on the entry of building `kind` costing `cost` food, with
    /// `food` in store: an affordable entry is selected, or deselected when
    /// it already was; an unaffordable one ignores the click.
    pub fn click_option(&mut self, kind: u32, cost: i32, food: i32)
        ensures
            food >= cost ==> final(self).selected == toggled(old(self).selected, BuildChoice::Place(kind)),
            food < cost ==> final(self).selected == old(self).selected,
            final(self).open == old(self).open,
            final(self).town == old(self).town,
    {
        if food >= cost {
            if self.selected == Some(BuildChoice::Place(kind)) {
                self.selected = None;
            } else {
                self.selected = Some(BuildChoice::Place(kind));
            }
        }
    }

    /// A click on the Destroy entry: selects destroying, or deselects it.
    pub fn click_destroy(&mut self)
        ensures
            final(self).selected == toggled(old(self).selected, BuildChoice::Destroy),
            final(self).open == old(self).open,
            final(self).town == old(self).town,
    {
        if self.selected == Some(BuildChoice::Destroy) {
            self.selected = None;
        } else {
            self.selected = Some(BuildChoice::Destroy);
        }
    }

    /// The bar's window was closed: the bar and the selection are cleared.
    pub fn close(&mut self)
        ensures
            !final(self).open,
            final(self).selected.is_none(),
            final(self).town == old(self).town,
    {
        self.open = false;
        self.selected = None;
    }
}

/// Clicking the same entry twice gives back the selection there was before
/// when that entry was not selected, and leaves nothing selected when it
/// was; either way, a click never selects anything but the clicked entry.
pub proof fn lemma_toggle_twice(selected: Option<BuildChoice>, choice: BuildChoice)
    ensures
        toggled(toggled(selected, choice), choice) == (if selected == Some(choice) {
            Some(choice)
        } else {
            None
        }),
        toggled(selected, choice) is None || toggled(selected, choice) == Some(choice),
{
}

/// The town builds from the camp list when it belongs to a raider faction
/// (any faction above the player's).
pub fn is_camp(faction: i32) -> (b: bool)
    ensures
        b == (faction > 0),
{
    faction > 0
}

/// Tint of an entry's sprite as RGBA: greyed out when unaffordable, green
/// when selected, white otherwise.
pub fn option_tint(selected: bool, can_afford: bool) -> (c: (u8, u8, u8, u8))
    ensures
        c == (if !can_afford {
            (100u8, 100u8, 100u8, 150u8)
        } else if selected {
            (120u8, 255u8, 120u8, 255u8)
        } else {
            (255u8, 255u8, 255u8, 255u8)
        }),
{
    if !can_afford {
        (100, 100, 100, 150)
    } else if selected {
        (120, 255, 120, 255)
    } else {
        (255, 255, 255, 255)
    }
}

/// Colour of an entry's label as RGB: green when selected, grey when
/// unaffordable, light otherwise.
pub fn option_label_color(selected: bool, can_afford: bool) -> (c: (u8, u8, u8))
    ensures
        c == (if selected {
            (120u8, 220u8, 120u8)
        } else if !can_afford {
            (120u8, 120u8, 120u8)
        } else {
            (200u8, 200u8, 200u8)
        }),
{
    if selected {
        (120, 220, 120)
    } else if !can_afford {
        (120, 120, 120)
    } else {
        (200, 200, 200)
    }
}

} // verus!
