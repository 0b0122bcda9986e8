use asset_db::aura::{Aura, AuraDef, AuraType};
use asset_db::registry::{AuraLib, RegistryError};
use std::sync::Arc;

fn well_fed() -> AuraDef {
    AuraDef {
        name: "Well Fed".to_string(),
        icon: "sprite/icon/cheese.png".to_string(),
        id: 0,
        aura_type: AuraType::Untyped,
        duration_bits: (60.0f32 * 60.0).to_bits(),
        rules_text: "You feel full! Your fortitudeness is through the roof.".to_string(),
    }
}

fn shocked() -> AuraDef {
    AuraDef {
        name: "Shocked".to_string(),
        icon: "sprite/icon/shocked.png".to_string(),
        id: 1,
        aura_type: AuraType::Magic,
        duration_bits: (8.0f32).to_bits(),
        rules_text: "Zapped.".to_string(),
    }
}

#[test]
fn auralib_load_and_access() {
    let aura_lib = AuraLib::from_defs(vec![well_fed(), shocked()]).unwrap();
    let expected_aura_def = AuraDef {
        name: "Well Fed".to_string(),
        icon: "sprite/icon/cheese.png".to_string(),
        id: 0,
        aura_type: AuraType::Untyped,
        duration_bits: (60.0f32 * 60.0).to_bits(),
        rules_text: "You feel full! Your fortitudeness is through the roof.".to_string(),
    };
    assert_eq!(*aura_lib.id(0).unwrap(), expected_aura_def);
    assert_eq!(aura_lib.name("Shocked".to_string()).unwrap().name, "Shocked");
}

#[test]
fn aura_new() {
    let aura_lib = AuraLib::from_defs(vec![well_fed(), shocked()]).unwrap();
    let _aura1 = Aura::new(aura_lib.name("Shocked".to_string()).unwrap());
    let _aura2 = Aura::new(aura_lib.name("Shocked".to_string()).unwrap());
}

#[test]
fn aura_registry_rejects_duplicates() {
    let mut dup_id = shocked();
    dup_id.id = 0;
    assert_eq!(
        AuraLib::from_defs(vec![well_fed(), dup_id]).unwrap_err(),
        RegistryError::SourceMalformed
    );
    let mut dup_name = shocked();
    dup_name.name = "Well Fed".to_string();
    assert_eq!(
        AuraLib::from_defs(vec![well_fed(), dup_name]).unwrap_err(),
        RegistryError::SourceMalformed
    );
}

#[test]
fn aura_registry_lookup_misses() {
    let lib = AuraLib::from_defs(vec![well_fed(), shocked()]).unwrap();
    assert_eq!(lib.id(55).unwrap_err(), RegistryError::UnknownId);
    assert_eq!(lib.name("Chilled".to_string()).unwrap_err(), RegistryError::UnknownName);
}

#[test]
fn aura_registry_update_replaces_slot() {
    let mut lib = AuraLib::from_defs(vec![well_fed(), shocked()]).unwrap();
    let before = lib.defs.len();
    let mut edited = shocked();
    edited.duration_bits = (12.5f32).to_bits();
    lib.update_def(Arc::new(edited.clone())).unwrap();
    assert_eq!(*lib.id(1).unwrap(), edited);
    assert_eq!(*lib.id(0).unwrap(), well_fed());
    assert_eq!(lib.defs.len(), before);
    assert_eq!(lib.id(1).unwrap().id, 1);
}

#[test]
fn aura_registry_update_refuses_taken_name() {
    let mut lib = AuraLib::from_defs(vec![well_fed(), shocked()]).unwrap();
    let mut renamed = shocked();
    renamed.name = "Well Fed".to_string();
    assert_eq!(lib.update_def(Arc::new(renamed)).unwrap_err(), RegistryError::DuplicateName);
    // The registry is untouched and both indices still work.
    assert_eq!(*lib.id(1).unwrap(), shocked());
    assert_eq!(lib.name("Shocked".to_string()).unwrap().id, 1);
}

#[test]
fn aura_registry_update_unknown_id_never_inserts() {
    let mut lib = AuraLib::from_defs(vec![well_fed()]).unwrap();
    let mut stranger = shocked();
    stranger.id = 9;
    assert_eq!(lib.update_def(Arc::new(stranger)).unwrap_err(), RegistryError::UnknownId);
    assert_eq!(lib.defs.len(), 1);
}

#[test]
fn aura_duration_bits_round_trip() {
    let d = well_fed();
    assert_eq!(f32::from_bits(d.duration_bits), 3600.0);
}
