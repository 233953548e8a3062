//! Game-interface logic of a town-siege strategy game: the casino blackjack
//! table, sprite-atlas extraction for HUD icons, the combat-log feed, the
//! inspector and build bar, the side-panel tabs (roster, squads, factions,
//! policies, patrols, inventory, tech tree), the lobby's AI slots, and small
//! display tables.

pub mod atlas;
pub mod betting;
pub mod blackjack;
pub mod build_menu;
pub mod building;
pub mod cards;
pub mod combat_log;
pub mod factions;
pub mod hud;
pub mod inspector;
pub mod inventory;
pub mod labels;
pub mod left_panel;
pub mod main_menu;
pub mod mining;
pub mod patrols;
pub mod policies;
pub mod roster;
pub mod snapshots;
pub mod sorting;
pub mod squads;
pub mod table_view;
pub mod tech_tree;
pub mod text;
pub mod town_view;
