//! Item definitions: the record kind the editor manipulates most, with
//! its two closed enumerations and the shared handle wrapper.

use crate::equipment::EquipmentDef;
use crate::text::str_eq;
use std::sync::Arc;
use vstd::prelude::*;

verus! {

/// The broad category an item belongs to.
#[derive(Debug, Eq, PartialEq, Copy, Clone, Structural)]
pub enum ItemType {
    Equipment,
    Consumable,
    Material,
    Miscellaneous,
}

impl ItemType {
    /// The declared name of the variant.
    pub open spec fn name_spec(self) -> Seq<char> {
        match self {
            ItemType::Equipment => "Equipment"@,
            ItemType::Consumable => "Consumable"@,
            ItemType::Material => "Material"@,
            ItemType::Miscellaneous => "Miscellaneous"@,
        }
    }

    /// The variant whose declared name the text is, if any.
    pub open spec fn of_name(s: Seq<char>) -> Option<ItemType> {
        if s == "Equipment"@ {
            Some(ItemType::Equipment)
        } else if s == "Consumable"@ {
            Some(ItemType::Consumable)
        } else if s == "Material"@ {
            Some(ItemType::Material)
        } else if s == "Miscellaneous"@ {
            Some(ItemType::Miscellaneous)
        } else {
            None
        }
    }

    /// Renders the variant as its declared name.
    pub fn to_text(&self) -> (r: String)
        ensures
            r@ == self.name_spec(),
    {
        match self {
            ItemType::Equipment => String::from_str("Equipment"),
            ItemType::Consumable => String::from_str("Consumable"),
            ItemType::Material => String::from_str("Material"),
            ItemType::Miscellaneous => String::from_str("Miscellaneous"),
        }
    }

    /// Reads a variant back from its declared name, by exact
    /// case-sensitive match.
    pub fn from_text(s: &str) -> (r: Option<ItemType>)
        ensures
            r == Self::of_name(s@),
    {
        if str_eq(s, "Equipment") {
            Some(ItemType::Equipment)
        } else if str_eq(s, "Consumable") {
            Some(ItemType::Consumable)
        } else if str_eq(s, "Material") {
            Some(ItemType::Material)
        } else if str_eq(s, "Miscellaneous") {
            Some(ItemType::Miscellaneous)
        } else {
            None
        }
    }
}

/// Reading an item type back from its rendered name yields the type
/// again.
pub proof fn lemma_item_type_name_round_trip(v: ItemType)
    ensures
        ItemType::of_name(v.name_spec()) == Some(v),
{
    reveal_strlit("Equipment");
    reveal_strlit("Consumable");
    reveal_strlit("Material");
    reveal_strlit("Miscellaneous");
    assert("Equipment"@.len() == 9);
    assert("Consumable"@.len() == 10);
    assert("Material"@.len() == 8);
    assert("Miscellaneous"@.len() == 13);
}

/// How rare an item is.
#[derive(Debug, Eq, PartialEq, Copy, Clone, Structural)]
pub enum ItemRarity {
    Junk,
    Common,
    Uncommon,
    Rare,
    Epic,
    Mythical,
}

impl ItemRarity {
    /// The declared name of the variant.
    pub open spec fn name_spec(self) -> Seq<char> {
        match self {
            ItemRarity::Junk => "Junk"@,
            ItemRarity::Common => "Common"@,
            ItemRarity::Uncommon => "Uncommon"@,
            ItemRarity::Rare => "Rare"@,
            ItemRarity::Epic => "Epic"@,
            ItemRarity::Mythical => "Mythical"@,
        }
    }

    /// The variant whose declared name the text is, if any.
    pub open spec fn of_name(s: Seq<char>) -> Option<ItemRarity> {
        if s == "Junk"@ {
            Some(ItemRarity::Junk)
        } else if s == "Common"@ {
            Some(ItemRarity::Common)
        } else if s == "Uncommon"@ {
            Some(ItemRarity::Uncommon)
        } else if s == "Rare"@ {
            Some(ItemRarity::Rare)
        } else if s == "Epic"@ {
            Some(ItemRarity::Epic)
        } else if s == "Mythical"@ {
            Some(ItemRarity::Mythical)
        } else {
            None
        }
    }

    /// Renders the variant as its declared name.
    pub fn to_text(&self) -> (r: String)
        ensures
            r@ == self.name_spec(),
    {
        match self {
            ItemRarity::Junk => String::from_str("Junk"),
            ItemRarity::Common => String::from_str("Common"),
            ItemRarity::Uncommon => String::from_str("Uncommon"),
            ItemRarity::Rare => String::from_str("Rare"),
            ItemRarity::Epic => String::from_str("Epic"),
            ItemRarity::Mythical => String::from_str("Mythical"),
        }
    }

    /// Reads a variant back from its declared name, by exact
    /// case-sensitive match.
    pub fn from_text(s: &str) -> (r: Option<ItemRarity>)
        ensures
            r == Self::of_name(s@),
    {
        if str_eq(s, "Junk") {
            Some(ItemRarity::Junk)
        } else if str_eq(s, "Common") {
            Some(ItemRarity::Common)
        } else if str_eq(s, "Uncommon") {
            Some(ItemRarity::Uncommon)
        } else if str_eq(s, "Rare") {
            Some(ItemRarity::Rare)
        } else if str_eq(s, "Epic") {
            Some(ItemRarity::Epic)
        } else if str_eq(s, "Mythical") {
            Some(ItemRarity::Mythical)
        } else {
            None
        }
    }
}

/// Reading a rarity back from its rendered name yields the rarity again.
pub proof fn lemma_item_rarity_name_round_trip(v: ItemRarity)
    ensures
        ItemRarity::of_name(v.name_spec()) == Some(v),
{
    reveal_strlit("Junk");
    reveal_strlit("Common");
    reveal_strlit("Uncommon");
    reveal_strlit("Rare");
    reveal_strlit("Epic");
    reveal_strlit("Mythical");
    assert("Junk"@.len() == 4);
    assert("Common"@.len() == 6);
    assert("Uncommon"@.len() == 8);
    assert("Rare"@.len() == 4);
    assert("Epic"@.len() == 4);
    assert("Mythical"@.len() == 8);
    assert("Junk"@[0] == 'J');
    assert("Rare"@[0] == 'R');
    assert("Epic"@[0] == 'E');
    assert("Uncommon"@[0] == 'U');
    assert("Mythical"@[0] == 'M');
}

/// One item definition: the record the item registry stores and the
/// field-path engine edits.
#[derive(Debug, PartialEq, Clone)]
pub struct ItemDef {
    pub id: u32,
    pub name: String,
    pub rules_text: String,
    pub flavor_text: String,
    pub icon: String,
    pub item_type: ItemType,
    pub item_rarity: ItemRarity,
    pub max_stack: u32,
    pub buy_value: u32,
    pub sell_value: u32,
    pub equipment_def: EquipmentDef,
}

/// An item instance: a shared handle to its definition plus
/// instance-local text.
#[derive(Debug)]
pub struct Item {
    pub def: Arc<ItemDef>,
    pub text: String,
}

/// The mathematical value of an item definition: the same fields, with
/// every text field a character sequence.
pub struct ItemDefView {
    pub id: u32,
    pub name: Seq<char>,
    pub rules_text: Seq<char>,
    pub flavor_text: Seq<char>,
    pub icon: Seq<char>,
    pub item_type: ItemType,
    pub item_rarity: ItemRarity,
    pub max_stack: u32,
    pub buy_value: u32,
    pub sell_value: u32,
    pub equipment_def: EquipmentDef,
}

impl View for ItemDef {
    type V = ItemDefView;

    open spec fn view(&self) -> ItemDefView {
        ItemDefView {
            id: self.id,
            name: self.name@,
            rules_text: self.rules_text@,
            flavor_text: self.flavor_text@,
            icon: self.icon@,
            item_type: self.item_type,
            item_rarity: self.item_rarity,
            max_stack: self.max_stack,
            buy_value: self.buy_value,
            sell_value: self.sell_value,
            equipment_def: self.equipment_def,
        }
    }
}

} // verus!
