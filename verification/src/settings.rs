//! The randomizer settings that the seed pages speak of.
//!
//! A choice of which the pages only ever name some values has a variant for each of those and
//! `Other` for the rest.

use vstd::prelude::*;

verus! {

/// How rooms are assigned to areas.
#[derive(Clone, Copy, Debug, PartialEq, Eq, Structural)]
pub enum AreaAssignment {
    Random,
    Other,
}

/// What becomes of an item's dot on the map once the item is collected.
#[derive(Clone, Copy, Debug, PartialEq, Eq, Structural)]
pub enum ItemDotChange {
    Disappear,
    Other,
}

/// How large door locks are drawn on the map.
#[derive(Clone, Copy, Debug, PartialEq, Eq, Structural)]
pub enum DoorLocksSize {
    Small,
    Other,
}

/// Whether wall jumping has to be collected first.
#[derive(Clone, Copy, Debug, PartialEq, Eq, Structural)]
pub enum WallJump {
    Collectible,
    Other,
}

/// What an energy tank refills.
#[derive(Clone, Copy, Debug, PartialEq, Eq, Structural)]
pub enum ETankRefill {
    Disabled,
    Full,
    Other,
}

/// How much of the maps is revealed from the start.
#[derive(Clone, Copy, Debug, PartialEq, Eq, Structural)]
pub enum MapsRevealed {
    Partial,
    Full,
    Other,
}

/// How much a map station reveals.
#[derive(Clone, Copy, Debug, PartialEq, Eq, Structural)]
pub enum MapStationReveal {
    Partial,
    Other,
}

/// Whether an item serves as filler, and when it may be placed.
#[derive(Clone, Copy, Debug, PartialEq, Eq, Structural)]
pub enum FillerItemPriority {
    Semi,
    Yes,
    Early,
    Other,
}

/// A number of copies of an item, which is given by its name.
pub struct ItemCount {
    pub item: String,
    pub count: usize,
}

/// How early a key item is to be found. Item and priority are given by their names.
pub struct KeyItemPriority {
    pub item: String,
    pub priority: String,
}

/// How items are chosen and placed. A choice that the pages only print is given by its name.
pub struct ItemProgressionSettings {
    pub progression_rate: String,
    pub item_placement_style: String,
    pub random_tank: bool,
    pub item_pool: Vec<ItemCount>,
    pub starting_items: Vec<ItemCount>,
    pub key_item_priority: Vec<KeyItemPriority>,
    /// The name of each item with its priority, in the order in which they are listed.
    pub filler_items: Vec<(String, FillerItemPriority)>,
}

/// Settings outside the larger groups.
pub struct OtherSettings {
    pub area_assignment: AreaAssignment,
    pub item_dot_change: ItemDotChange,
    pub transition_letters: bool,
    pub door_locks_size: DoorLocksSize,
    pub wall_jump: WallJump,
    pub etank_refill: ETankRefill,
    pub maps_revealed: MapsRevealed,
    pub map_station_reveal: MapStationReveal,
    pub energy_free_shinesparks: bool,
    pub ultra_low_qol: bool,
}

pub struct RandomizerSettings {
    pub item_progression_settings: ItemProgressionSettings,
    pub other_settings: OtherSettings,
}

} // verus!
