//! Interaction logic of a character loadout editor: an incremental-search
//! selector and the rules of the panels that use it.

pub mod equipment;
pub mod equipment_grid;
pub mod panel;
pub mod potions;
pub mod prayers;
pub mod search_bar;
pub mod skills;
pub mod text;
