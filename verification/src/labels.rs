//! Small display tables: item rarity order and equipment slot names.

use vstd::prelude::*;

verus! {

/// Loot rarity of an equipment item.
#[derive(Clone, Copy, Debug, PartialEq, Eq, Structural)]
pub enum Rarity {
    Common,
    Uncommon,
    Rare,
    Epic,
}

/// Rank of a rarity; a higher rank is rarer.
pub open spec fn spec_rarity_ord(r: Rarity) -> u8 {
    match r {
        Rarity::Common => 0,
        Rarity::Uncommon => 1,
        Rarity::Rare => 2,
        Rarity::Epic => 3,
    }
}

/// Rarity sort order (higher = rarer).
pub fn rarity_ord(r: Rarity) -> (ord: u8)
    ensures
        ord == spec_rarity_ord(r),
{
    match r {
        Rarity::Common => 0,
        Rarity::Uncommon => 1,
        Rarity::Rare => 2,
        Rarity::Epic => 3,
    }
}

/// Rarities are ranked without ties: different rarities have different ranks.
pub proof fn lemma_rarity_ord_injective(a: Rarity, b: Rarity)
    ensures
        spec_rarity_ord(a) == spec_rarity_ord(b) <==> a == b,
        spec_rarity_ord(a) <= 3,
{
}

/// Equipment slot of an NPC.
#[derive(Clone, Copy, Debug, PartialEq, Eq, Structural)]
pub enum EquipmentSlot {
    Helm,
    Armor,
    Weapon,
    Shield,
    Gloves,
    Boots,
    Belt,
    Amulet,
    Ring,
}

/// Display name of an equipment slot.
pub open spec fn spec_slot_label(slot: EquipmentSlot) -> Seq<char> {
    match slot {
        EquipmentSlot::Helm => "Helm"@,
        EquipmentSlot::Armor => "Armor"@,
        EquipmentSlot::Weapon => "Weapon"@,
        EquipmentSlot::Shield => "Shield"@,
        EquipmentSlot::Gloves => "Gloves"@,
        EquipmentSlot::Boots => "Boots"@,
        EquipmentSlot::Belt => "Belt"@,
        EquipmentSlot::Amulet => "Amulet"@,
        EquipmentSlot::Ring => "Ring"@,
    }
}

/// Display name of an equipment slot.
pub fn slot_label(slot: EquipmentSlot) -> (s: &'static str)
    ensures
        s@ == spec_slot_label(slot),
{
    match slot {
        EquipmentSlot::Helm => "Helm",
        EquipmentSlot::Armor => "Armor",
        EquipmentSlot::Weapon => "Weapon",
        EquipmentSlot::Shield => "Shield",
        EquipmentSlot::Gloves => "Gloves",
        EquipmentSlot::Boots => "Boots",
        EquipmentSlot::Belt => "Belt",
        EquipmentSlot::Amulet => "Amulet",
        EquipmentSlot::Ring => "Ring",
    }
}

} // verus!
