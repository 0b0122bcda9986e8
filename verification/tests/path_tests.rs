use asset_db::access::{
    get_string_value_from_path, item_schema, set_field_value_from_string, AccessError,
};
use asset_db::codec::CodecError;
use asset_db::equipment::{EquipmentDef, EquipmentSlot};
use asset_db::item::{ItemDef, ItemRarity, ItemType};
use asset_db::registry::ItemLib;
use asset_db::schema::get_def_paths;
use std::sync::Arc;

fn red_potion() -> ItemDef {
    ItemDef {
        name: "Red Potion".to_string(),
        rules_text: "".to_string(),
        flavor_text: "A vibrant red potion. Probably safe to drink.".to_string(),
        icon: "sprite/icon/red_potion.png".to_string(),
        id: 0,
        item_type: ItemType::Miscellaneous,
        item_rarity: ItemRarity::Common,
        max_stack: 50,
        buy_value: 10,
        sell_value: 5,
        equipment_def: Default::default(),
    }
}

#[test]
fn derived_paths_are_ordered_and_dotted() {
    let paths = get_def_paths(&item_schema());
    assert_eq!(
        paths,
        vec![
            "id".to_string(),
            "name".to_string(),
            "rules_text".to_string(),
            "flavor_text".to_string(),
            "icon".to_string(),
            "item_type".to_string(),
            "item_rarity".to_string(),
            "max_stack".to_string(),
            "buy_value".to_string(),
            "sell_value".to_string(),
            "equipment_def.slot".to_string(),
            "equipment_def.armor".to_string(),
        ]
    );
    // The ordering is deterministic and stable across calls.
    assert_eq!(paths, get_def_paths(&item_schema()));
}

#[test]
fn get_uses_declared_kind() {
    let d = red_potion();
    assert_eq!(get_string_value_from_path(&d, "id").unwrap(), "0");
    assert_eq!(get_string_value_from_path(&d, "name").unwrap(), "Red Potion");
    assert_eq!(get_string_value_from_path(&d, "item_type").unwrap(), "Miscellaneous");
    assert_eq!(get_string_value_from_path(&d, "item_rarity").unwrap(), "Common");
    assert_eq!(get_string_value_from_path(&d, "sell_value").unwrap(), "5");
    assert_eq!(get_string_value_from_path(&d, "equipment_def.slot").unwrap(), "None");
    assert_eq!(get_string_value_from_path(&d, "equipment_def.armor").unwrap(), "0");
}

#[test]
fn get_unknown_path_is_a_miss() {
    let d = red_potion();
    assert_eq!(
        get_string_value_from_path(&d, "weight").unwrap_err(),
        AccessError::PathNotFound
    );
    assert_eq!(
        get_string_value_from_path(&d, "equipment_def").unwrap_err(),
        AccessError::PathNotFound
    );
}

#[test]
fn set_assigns_through_declared_kind() {
    let mut d = red_potion();
    set_field_value_from_string(&mut d, "sell_value", "7".to_string()).unwrap();
    assert_eq!(d.sell_value, 7);
    set_field_value_from_string(&mut d, "item_rarity", "Epic".to_string()).unwrap();
    assert_eq!(d.item_rarity, ItemRarity::Epic);
    set_field_value_from_string(&mut d, "equipment_def.slot", "Head".to_string()).unwrap();
    assert_eq!(d.equipment_def.slot, EquipmentSlot::Head);
    set_field_value_from_string(&mut d, "name", "Blue Potion".to_string()).unwrap();
    assert_eq!(d.name, "Blue Potion");
}

#[test]
fn set_failure_leaves_record_unchanged() {
    let mut d = red_potion();
    let before = d.clone();
    assert_eq!(
        set_field_value_from_string(&mut d, "max_stack", "abc".to_string()).unwrap_err(),
        AccessError::DecodeFailure(CodecError::MalformedNumber)
    );
    assert_eq!(d, before);
    assert_eq!(
        set_field_value_from_string(&mut d, "item_rarity", "Legendary".to_string()).unwrap_err(),
        AccessError::DecodeFailure(CodecError::UnrecognizedVariant)
    );
    assert_eq!(d, before);
    assert_eq!(
        set_field_value_from_string(&mut d, "no_such_field", "1".to_string()).unwrap_err(),
        AccessError::PathNotFound
    );
    assert_eq!(d, before);
}

#[test]
fn path_round_trip_on_every_leaf() {
    let d = ItemDef {
        name: "Iron Sword".to_string(),
        rules_text: "Pointy end first".to_string(),
        flavor_text: "A plain blade".to_string(),
        icon: "sprite/icon/iron_sword.png".to_string(),
        id: 1,
        item_type: ItemType::Equipment,
        item_rarity: ItemRarity::Uncommon,
        max_stack: 1,
        buy_value: 120,
        sell_value: 40,
        equipment_def: EquipmentDef { slot: EquipmentSlot::MainHand, armor: 2 },
    };
    for path in get_def_paths(&item_schema()) {
        let mut edited = d.clone();
        let text = get_string_value_from_path(&edited, &path).unwrap();
        set_field_value_from_string(&mut edited, &path, text).unwrap();
        assert_eq!(edited, d);
    }
}

#[test]
fn set_isolation_between_paths() {
    let paths = get_def_paths(&item_schema());
    for p1 in &paths {
        let mut d = red_potion();
        let before: Vec<String> = paths
            .iter()
            .map(|p| get_string_value_from_path(&d, p).unwrap())
            .collect();
        // A value that decodes in any leaf's declared kind.
        let v = match p1.as_str() {
            "item_type" => "Equipment".to_string(),
            "item_rarity" => "Rare".to_string(),
            "equipment_def.slot" => "Feet".to_string(),
            _ => "33".to_string(),
        };
        set_field_value_from_string(&mut d, p1, v).unwrap();
        for (p2, old) in paths.iter().zip(before.iter()) {
            if p2 != p1 {
                assert_eq!(&get_string_value_from_path(&d, p2).unwrap(), old);
            }
        }
    }
}

#[test]
fn edit_session_scenario() {
    // Load a source, look the record up, derive its paths, edit one
    // leaf through its path, commit, and check that only that leaf
    // changed in what would be saved.
    let mut lib = ItemLib::from_defs(vec![red_potion()]).unwrap();
    let found = lib.id(0).unwrap();
    assert_eq!(found.name, "Red Potion");

    let paths = get_def_paths(&item_schema());
    assert!(paths.contains(&"sell_value".to_string()));
    assert!(paths.contains(&"equipment_def.armor".to_string()));

    let mut edited = found.clone();
    assert_eq!(get_string_value_from_path(&edited, "sell_value").unwrap(), "5");
    set_field_value_from_string(&mut edited, "sell_value", "7".to_string()).unwrap();
    assert_eq!(get_string_value_from_path(&edited, "sell_value").unwrap(), "7");

    lib.update_def(Arc::new(edited)).unwrap();
    let mut expected = red_potion();
    expected.sell_value = 7;
    assert_eq!(*lib.defs[0], expected);
    assert_eq!(lib.defs.len(), 1);
}
