use asset_db::equipment::{EquipmentDef, EquipmentSlot};
use asset_db::item::{Item, ItemDef, ItemRarity, ItemType};
use asset_db::registry::{ItemLib, RegistryError};
use std::sync::Arc;

fn red_potion() -> ItemDef {
    ItemDef {
        name: "Red Potion".to_string(),
        rules_text: "".to_string(),
        flavor_text: "A vibrant red potion. Probably safe to drink.".to_string(),
        icon: "sprite/icon/red_potion.png".to_string(),
        id: 0,
        item_type: ItemType::Miscellaneous,
        item_rarity: ItemRarity::Common,
        max_stack: 50,
        buy_value: 10,
        sell_value: 5,
        equipment_def: Default::default(),
    }
}

fn iron_sword() -> ItemDef {
    ItemDef {
        name: "Iron Sword".to_string(),
        rules_text: "Pointy end first".to_string(),
        flavor_text: "A plain blade".to_string(),
        icon: "sprite/icon/iron_sword.png".to_string(),
        id: 1,
        item_type: ItemType::Equipment,
        item_rarity: ItemRarity::Uncommon,
        max_stack: 1,
        buy_value: 120,
        sell_value: 40,
        equipment_def: EquipmentDef { slot: EquipmentSlot::MainHand, armor: 2 },
    }
}

#[test]
fn item_new() {
    let item_def = ItemDef {
        name: "Cheddar Cheese".to_string(),
        rules_text: "Cheesed to meet you".to_string(),
        flavor_text: "Something quite flavorful".to_string(),
        icon: "sprite/icon/cheese.png".to_string(),
        id: 1,
        item_type: ItemType::Consumable,
        item_rarity: ItemRarity::Common,
        max_stack: 50,
        buy_value: 10,
        sell_value: 5,
        equipment_def: Default::default(),
    };
    let cheddar_cheese_def = Arc::new(item_def);
    let item_1 = Item { def: cheddar_cheese_def.clone(), text: String::new() };

    let item_2 = Item { def: cheddar_cheese_def.clone(), text: String::new() };

    assert_eq!(item_1.def.name, "Cheddar Cheese".to_string());
    assert_eq!(item_2.def.name, "Cheddar Cheese".to_string());
}

#[test]
fn itemlib_load_and_access() {
    let item_lib = ItemLib::from_defs(vec![red_potion()]).unwrap();
    let expected_item_def = ItemDef {
        name: "Red Potion".to_string(),
        rules_text: "".to_string(),
        flavor_text: "A vibrant red potion. Probably safe to drink.".to_string(),
        icon: "sprite/icon/red_potion.png".to_string(),
        id: 0,
        item_type: ItemType::Miscellaneous,
        item_rarity: ItemRarity::Common,
        max_stack: 50,
        buy_value: 10,
        sell_value: 5,
        equipment_def: Default::default(),
    };
    assert_eq!(*item_lib.id(0).unwrap(), expected_item_def);
    assert_eq!(item_lib.name("Red Potion".to_string()).unwrap().name, "Red Potion");
}

#[test]
fn registry_rejects_duplicate_id() {
    let mut dup = iron_sword();
    dup.id = 0;
    let r = ItemLib::from_defs(vec![red_potion(), dup]);
    assert_eq!(r.unwrap_err(), RegistryError::SourceMalformed);
}

#[test]
fn registry_rejects_duplicate_name() {
    let mut dup = iron_sword();
    dup.name = "Red Potion".to_string();
    let r = ItemLib::from_defs(vec![red_potion(), dup]);
    assert_eq!(r.unwrap_err(), RegistryError::SourceMalformed);
}

#[test]
fn registry_lookup_misses() {
    let lib = ItemLib::from_defs(vec![red_potion(), iron_sword()]).unwrap();
    assert_eq!(lib.id(77).unwrap_err(), RegistryError::UnknownId);
    assert_eq!(lib.name("Blue Potion".to_string()).unwrap_err(), RegistryError::UnknownName);
}

#[test]
fn registry_index_consistency_after_load() {
    let defs = vec![red_potion(), iron_sword()];
    let lib = ItemLib::from_defs(defs.clone()).unwrap();
    for d in &defs {
        assert_eq!(*lib.id(d.id).unwrap(), *d);
        assert_eq!(**lib.name(d.name.clone()).unwrap(), *d);
    }
}

#[test]
fn registry_update_replaces_slot() {
    let mut lib = ItemLib::from_defs(vec![red_potion(), iron_sword()]).unwrap();
    let mut edited = red_potion();
    edited.sell_value = 7;
    lib.update_def(Arc::new(edited.clone())).unwrap();
    assert_eq!(*lib.id(0).unwrap(), edited);
    // The untouched record is still found through both indices.
    assert_eq!(*lib.id(1).unwrap(), iron_sword());
    assert_eq!(**lib.name("Iron Sword".to_string()).unwrap(), iron_sword());
}

#[test]
fn registry_update_preserves_identity() {
    let mut lib = ItemLib::from_defs(vec![red_potion(), iron_sword()]).unwrap();
    let before = lib.defs.len();
    let mut edited = iron_sword();
    edited.buy_value = 5;
    lib.update_def(Arc::new(edited)).unwrap();
    assert_eq!(lib.defs.len(), before);
    assert_eq!(lib.id(1).unwrap().id, 1);
}

#[test]
fn registry_update_rebuilds_name_index() {
    let mut lib = ItemLib::from_defs(vec![red_potion(), iron_sword()]).unwrap();
    let mut renamed = red_potion();
    renamed.name = "Crimson Potion".to_string();
    lib.update_def(Arc::new(renamed)).unwrap();
    assert_eq!(lib.name("Crimson Potion".to_string()).unwrap().id, 0);
    assert_eq!(lib.name("Red Potion".to_string()).unwrap_err(), RegistryError::UnknownName);
}

#[test]
fn registry_update_refuses_taken_name() {
    let mut lib = ItemLib::from_defs(vec![red_potion(), iron_sword()]).unwrap();
    let mut renamed = red_potion();
    renamed.name = "Iron Sword".to_string();
    assert_eq!(lib.update_def(Arc::new(renamed)).unwrap_err(), RegistryError::DuplicateName);
    // The registry is untouched and both indices still work.
    assert_eq!(*lib.id(0).unwrap(), red_potion());
    assert_eq!(lib.name("Red Potion".to_string()).unwrap().id, 0);
    assert_eq!(lib.name("Iron Sword".to_string()).unwrap().id, 1);
}

#[test]
fn registry_update_keeps_own_name() {
    // Replacing a record without renaming it matches its own slot in
    // the name index, which is no collision.
    let mut lib = ItemLib::from_defs(vec![red_potion(), iron_sword()]).unwrap();
    let mut edited = red_potion();
    edited.sell_value = 9;
    lib.update_def(Arc::new(edited.clone())).unwrap();
    assert_eq!(*lib.id(0).unwrap(), edited);
}

#[test]
fn registry_update_unknown_id_never_inserts() {
    let mut lib = ItemLib::from_defs(vec![red_potion()]).unwrap();
    let mut stranger = iron_sword();
    stranger.id = 9;
    let r = lib.update_def(Arc::new(stranger));
    assert_eq!(r.unwrap_err(), RegistryError::UnknownId);
    assert_eq!(lib.defs.len(), 1);
}

#[test]
fn registry_keeps_source_order() {
    let lib = ItemLib::from_defs(vec![iron_sword(), red_potion()]).unwrap();
    assert_eq!(lib.defs[0].name, "Iron Sword");
    assert_eq!(lib.defs[1].name, "Red Potion");
}
