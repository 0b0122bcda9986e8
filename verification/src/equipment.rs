//! The equipment sub-record nested inside an item definition.

use crate::text::str_eq;
use vstd::prelude::*;

verus! {

/// The slot an equipable item occupies.
#[derive(Debug, Eq, PartialEq, Copy, Clone, Structural)]
pub enum EquipmentSlot {
    MainHand,
    OffHand,
    Head,
    Chest,
    Waist,
    Hands,
    Legs,
    Feet,
    Finger,
    Neck,
    Artifact,
    Accessory,
    NoSlot,
}

impl EquipmentSlot {
    /// The declared name of the variant.
    pub open spec fn name_spec(self) -> Seq<char> {
        match self {
            EquipmentSlot::MainHand => "MainHand"@,
            EquipmentSlot::OffHand => "OffHand"@,
            EquipmentSlot::Head => "Head"@,
            EquipmentSlot::Chest => "Chest"@,
            EquipmentSlot::Waist => "Waist"@,
            EquipmentSlot::Hands => "Hands"@,
            EquipmentSlot::Legs => "Legs"@,
            EquipmentSlot::Feet => "Feet"@,
            EquipmentSlot::Finger => "Finger"@,
            EquipmentSlot::Neck => "Neck"@,
            EquipmentSlot::Artifact => "Artifact"@,
            EquipmentSlot::Accessory => "Accessory"@,
            EquipmentSlot::NoSlot => "None"@,
        }
    }

    /// The variant whose declared name the text is, if any.
    pub open spec fn of_name(s: Seq<char>) -> Option<EquipmentSlot> {
        if s == "MainHand"@ {
            Some(EquipmentSlot::MainHand)
        } else if s == "OffHand"@ {
            Some(EquipmentSlot::OffHand)
        } else if s == "Head"@ {
            Some(EquipmentSlot::Head)
        } else if s == "Chest"@ {
            Some(EquipmentSlot::Chest)
        } else if s == "Waist"@ {
            Some(EquipmentSlot::Waist)
        } else if s == "Hands"@ {
            Some(EquipmentSlot::Hands)
        } else if s == "Legs"@ {
            Some(EquipmentSlot::Legs)
        } else if s == "Feet"@ {
            Some(EquipmentSlot::Feet)
        } else if s == "Finger"@ {
            Some(EquipmentSlot::Finger)
        } else if s == "Neck"@ {
            Some(EquipmentSlot::Neck)
        } else if s == "Artifact"@ {
            Some(EquipmentSlot::Artifact)
        } else if s == "Accessory"@ {
            Some(EquipmentSlot::Accessory)
        } else if s == "None"@ {
            Some(EquipmentSlot::NoSlot)
        } else {
            None
        }
    }

    /// Renders the variant as its declared name.
    pub fn to_text(&self) -> (r: String)
        ensures
            r@ == self.name_spec(),
    {
        match self {
            EquipmentSlot::MainHand => String::from_str("MainHand"),
            EquipmentSlot::OffHand => String::from_str("OffHand"),
            EquipmentSlot::Head => String::from_str("Head"),
            EquipmentSlot::Chest => String::from_str("Chest"),
            EquipmentSlot::Waist => String::from_str("Waist"),
            EquipmentSlot::Hands => String::from_str("Hands"),
            EquipmentSlot::Legs => String::from_str("Legs"),
            EquipmentSlot::Feet => String::from_str("Feet"),
            EquipmentSlot::Finger => String::from_str("Finger"),
            EquipmentSlot::Neck => String::from_str("Neck"),
            EquipmentSlot::Artifact => String::from_str("Artifact"),
            EquipmentSlot::Accessory => String::from_str("Accessory"),
            EquipmentSlot::NoSlot => String::from_str("None"),
        }
    }

    /// Reads a variant back from its declared name, by exact
    /// case-sensitive match.
    pub fn from_text(s: &str) -> (r: Option<EquipmentSlot>)
        ensures
            r == Self::of_name(s@),
    {
        if str_eq(s, "MainHand") {
            Some(EquipmentSlot::MainHand)
        } else if str_eq(s, "OffHand") {
            Some(EquipmentSlot::OffHand)
        } else if str_eq(s, "Head") {
            Some(EquipmentSlot::Head)
        } else if str_eq(s, "Chest") {
            Some(EquipmentSlot::Chest)
        } else if str_eq(s, "Waist") {
            Some(EquipmentSlot::Waist)
        } else if str_eq(s, "Hands") {
            Some(EquipmentSlot::Hands)
        } else if str_eq(s, "Legs") {
            Some(EquipmentSlot::Legs)
        } else if str_eq(s, "Feet") {
            Some(EquipmentSlot::Feet)
        } else if str_eq(s, "Finger") {
            Some(EquipmentSlot::Finger)
        } else if str_eq(s, "Neck") {
            Some(EquipmentSlot::Neck)
        } else if str_eq(s, "Artifact") {
            Some(EquipmentSlot::Artifact)
        } else if str_eq(s, "Accessory") {
            Some(EquipmentSlot::Accessory)
        } else if str_eq(s, "None") {
            Some(EquipmentSlot::NoSlot)
        } else {
            None
        }
    }
}

/// Reading a slot back from its rendered name yields the slot again.
pub proof fn lemma_slot_name_round_trip(v: EquipmentSlot)
    ensures
        EquipmentSlot::of_name(v.name_spec()) == Some(v),
{
    reveal_strlit("MainHand");
    reveal_strlit("OffHand");
    reveal_strlit("Head");
    reveal_strlit("Chest");
    reveal_strlit("Waist");
    reveal_strlit("Hands");
    reveal_strlit("Legs");
    reveal_strlit("Feet");
    reveal_strlit("Finger");
    reveal_strlit("Neck");
    reveal_strlit("Artifact");
    reveal_strlit("Accessory");
    reveal_strlit("None");
    assert("MainHand"@.len() == 8);
    assert("OffHand"@.len() == 7);
    assert("Head"@.len() == 4);
    assert("Chest"@.len() == 5);
    assert("Waist"@.len() == 5);
    assert("Hands"@.len() == 5);
    assert("Legs"@.len() == 4);
    assert("Feet"@.len() == 4);
    assert("Finger"@.len() == 6);
    assert("Neck"@.len() == 4);
    assert("Artifact"@.len() == 8);
    assert("Accessory"@.len() == 9);
    assert("None"@.len() == 4);
    assert("Head"@[0] == 'H');
    assert("Legs"@[0] == 'L');
    assert("Feet"@[0] == 'F');
    assert("Neck"@[0] == 'N');
    assert("None"@[0] == 'N');
    assert("Neck"@[1] == 'e');
    assert("None"@[1] == 'o');
    assert("Chest"@[0] == 'C');
    assert("Waist"@[0] == 'W');
    assert("Hands"@[0] == 'H');
    assert("MainHand"@[0] == 'M');
    assert("Artifact"@[0] == 'A');
}

/// The equipment data of an item: which slot it occupies and how much
/// armor it grants.
#[derive(Debug, PartialEq, Clone)]
pub struct EquipmentDef {
    pub slot: EquipmentSlot,
    pub armor: u32,
}

impl Default for EquipmentDef {
    /// An unequipable item: no slot, no armor.
    fn default() -> (r: Self)
        ensures
            r.slot == EquipmentSlot::NoSlot,
            r.armor == 0,
    {
        EquipmentDef { slot: EquipmentSlot::NoSlot, armor: 0 }
    }
}

} // verus!
