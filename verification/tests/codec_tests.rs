use asset_db::aura::AuraType;
use asset_db::codec::{decode, decode_any, encode, CodecError, FieldKind, FieldValue};
use asset_db::equipment::EquipmentSlot;
use asset_db::item::{ItemRarity, ItemType};

#[test]
fn decode_strictness_on_numbers() {
    assert_eq!(decode("abc", FieldKind::Unsigned32).unwrap_err(), CodecError::MalformedNumber);
    assert_eq!(decode("", FieldKind::Unsigned32).unwrap_err(), CodecError::MalformedNumber);
    assert_eq!(decode("3.5", FieldKind::Unsigned32).unwrap_err(), CodecError::MalformedNumber);
    assert_eq!(decode("-1", FieldKind::Unsigned32).unwrap_err(), CodecError::MalformedNumber);
    assert_eq!(decode("5 ", FieldKind::Unsigned32).unwrap_err(), CodecError::MalformedNumber);
}

#[test]
fn decode_strictness_on_variants() {
    assert_eq!(
        decode("Legendary", FieldKind::ItemRarityEnum).unwrap_err(),
        CodecError::UnrecognizedVariant
    );
    assert_eq!(
        decode("common", FieldKind::ItemRarityEnum).unwrap_err(),
        CodecError::UnrecognizedVariant
    );
    assert_eq!(
        decode("Backpack", FieldKind::EquipmentSlotEnum).unwrap_err(),
        CodecError::UnrecognizedVariant
    );
}

#[test]
fn decode_unsigned_bounds() {
    assert_eq!(
        decode("4294967295", FieldKind::Unsigned32).unwrap(),
        FieldValue::Unsigned32(u32::MAX)
    );
    assert_eq!(decode("4294967296", FieldKind::Unsigned32).unwrap_err(), CodecError::MalformedNumber);
    assert_eq!(
        decode("18446744073709551615", FieldKind::Unsigned64).unwrap(),
        FieldValue::Unsigned64(u64::MAX)
    );
    assert_eq!(
        decode("18446744073709551616", FieldKind::Unsigned64).unwrap_err(),
        CodecError::MalformedNumber
    );
}

#[test]
fn decode_signed_bounds() {
    assert_eq!(
        decode("-2147483648", FieldKind::Signed32).unwrap(),
        FieldValue::Signed32(i32::MIN)
    );
    assert_eq!(decode("2147483647", FieldKind::Signed32).unwrap(), FieldValue::Signed32(i32::MAX));
    assert_eq!(decode("2147483648", FieldKind::Signed32).unwrap_err(), CodecError::MalformedNumber);
    assert_eq!(
        decode("-9223372036854775808", FieldKind::Signed64).unwrap(),
        FieldValue::Signed64(i64::MIN)
    );
    assert_eq!(
        decode("-9223372036854775809", FieldKind::Signed64).unwrap_err(),
        CodecError::MalformedNumber
    );
}

#[test]
fn decode_accepts_literal_grammar() {
    assert_eq!(decode("+5", FieldKind::Unsigned32).unwrap(), FieldValue::Unsigned32(5));
    assert_eq!(decode("007", FieldKind::Unsigned32).unwrap(), FieldValue::Unsigned32(7));
    assert_eq!(decode("-0", FieldKind::Signed32).unwrap(), FieldValue::Signed32(0));
    assert_eq!(decode("Common", FieldKind::ItemRarityEnum).unwrap(),
        FieldValue::ItemRarityValue(ItemRarity::Common));
    assert_eq!(decode("anything at all", FieldKind::Text).unwrap(),
        FieldValue::Text("anything at all".to_string()));
}

#[test]
fn encode_exact_values() {
    assert_eq!(encode(&FieldValue::Unsigned32(0)), "0");
    assert_eq!(encode(&FieldValue::Unsigned32(50)), "50");
    assert_eq!(encode(&FieldValue::Unsigned64(u64::MAX)), "18446744073709551615");
    assert_eq!(encode(&FieldValue::Signed64(-42)), "-42");
    assert_eq!(encode(&FieldValue::Signed32(i32::MIN)), "-2147483648");
    assert_eq!(encode(&FieldValue::Text("hi".to_string())), "hi");
    assert_eq!(encode(&FieldValue::ItemTypeValue(ItemType::Miscellaneous)), "Miscellaneous");
    assert_eq!(encode(&FieldValue::EquipmentSlotValue(EquipmentSlot::NoSlot)), "None");
    assert_eq!(encode(&FieldValue::AuraTypeValue(AuraType::Untyped)), "None");
}

#[test]
fn codec_round_trips_each_kind() {
    let values = vec![
        FieldValue::Unsigned32(123),
        FieldValue::Unsigned64(5_000_000_000),
        FieldValue::Signed32(-77),
        FieldValue::Signed64(-5_000_000_000),
        FieldValue::Text("free text".to_string()),
        FieldValue::ItemTypeValue(ItemType::Material),
        FieldValue::ItemRarityValue(ItemRarity::Mythical),
        FieldValue::EquipmentSlotValue(EquipmentSlot::OffHand),
        FieldValue::AuraTypeValue(AuraType::Poison),
    ];
    let kinds = vec![
        FieldKind::Unsigned32,
        FieldKind::Unsigned64,
        FieldKind::Signed32,
        FieldKind::Signed64,
        FieldKind::Text,
        FieldKind::ItemTypeEnum,
        FieldKind::ItemRarityEnum,
        FieldKind::EquipmentSlotEnum,
        FieldKind::AuraTypeEnum,
    ];
    for (v, k) in values.iter().zip(kinds.iter()) {
        assert_eq!(&decode(&encode(v), *k).unwrap(), v);
    }
}

#[test]
fn decode_any_priority_order() {
    assert_eq!(decode_any("5"), FieldValue::Unsigned32(5));
    assert_eq!(decode_any("5000000000"), FieldValue::Unsigned64(5_000_000_000));
    assert_eq!(decode_any("-3"), FieldValue::Signed32(-3));
    assert_eq!(decode_any("-5000000000"), FieldValue::Signed64(-5_000_000_000));
    assert_eq!(decode_any("3.5"), FieldValue::Text("3.5".to_string()));
    assert_eq!(decode_any("Common"), FieldValue::Text("Common".to_string()));
}

#[test]
fn enum_names_round_trip() {
    let slots = vec![
        EquipmentSlot::MainHand,
        EquipmentSlot::OffHand,
        EquipmentSlot::Head,
        EquipmentSlot::Chest,
        EquipmentSlot::Waist,
        EquipmentSlot::Hands,
        EquipmentSlot::Legs,
        EquipmentSlot::Feet,
        EquipmentSlot::Finger,
        EquipmentSlot::Neck,
        EquipmentSlot::Artifact,
        EquipmentSlot::Accessory,
        EquipmentSlot::NoSlot,
    ];
    for s in slots {
        assert_eq!(EquipmentSlot::from_text(&s.to_text()).unwrap(), s);
    }
    let auras = vec![AuraType::Physical, AuraType::Magic, AuraType::Poison, AuraType::Untyped];
    for a in auras {
        assert_eq!(AuraType::from_text(&a.to_text()).unwrap(), a);
    }
    let types = vec![
        ItemType::Equipment,
        ItemType::Consumable,
        ItemType::Material,
        ItemType::Miscellaneous,
    ];
    for t in types {
        assert_eq!(ItemType::from_text(&t.to_text()).unwrap(), t);
    }
}

#[test]
fn unknown_enum_name_is_rejected() {
    assert!(EquipmentSlot::from_text("mainhand").is_none());
    assert!(AuraType::from_text("Shadow").is_none());
    assert!(ItemType::from_text("").is_none());
}
