//! The value codec: converts between a leaf field's typed value and its
//! textual representation, the atomic unit of every edit.

use crate::aura::{lemma_aura_type_name_round_trip, AuraType};
use crate::decimal::{
    dec_rep, dec_rep_int, format_i32, format_i64, format_u32, format_u64, lemma_i32_round_trip,
    lemma_i64_round_trip, lemma_u32_round_trip, lemma_u64_round_trip, parse_i32, parse_i32_spec,
    parse_i64, parse_i64_spec, parse_u32, parse_u32_spec, parse_u64, parse_u64_spec,
};
use crate::equipment::{lemma_slot_name_round_trip, EquipmentSlot};
use crate::item::{
    lemma_item_rarity_name_round_trip, lemma_item_type_name_round_trip, ItemRarity, ItemType,
};
use vstd::prelude::*;

verus! {

/// The closed set of leaf field kinds a record may declare.
#[derive(Copy, Clone, Debug, Eq, PartialEq, Structural)]
pub enum FieldKind {
    Unsigned32,
    Unsigned64,
    Signed32,
    Signed64,
    Text,
    ItemTypeEnum,
    ItemRarityEnum,
    EquipmentSlotEnum,
    AuraTypeEnum,
}

/// A typed leaf value as executable code carries it.
#[derive(Debug, PartialEq, Clone)]
pub enum FieldValue {
    Unsigned32(u32),
    Unsigned64(u64),
    Signed32(i32),
    Signed64(i64),
    Text(String),
    ItemTypeValue(ItemType),
    ItemRarityValue(ItemRarity),
    EquipmentSlotValue(EquipmentSlot),
    AuraTypeValue(AuraType),
}

/// A typed leaf value as contracts speak of it: text is a character
/// sequence.
pub enum LeafVal {
    Unsigned32(u32),
    Unsigned64(u64),
    Signed32(i32),
    Signed64(i64),
    Text(Seq<char>),
    ItemTypeValue(ItemType),
    ItemRarityValue(ItemRarity),
    EquipmentSlotValue(EquipmentSlot),
    AuraTypeValue(AuraType),
}

impl View for FieldValue {
    type V = LeafVal;

    open spec fn view(&self) -> LeafVal {
        match self {
            FieldValue::Unsigned32(n) => LeafVal::Unsigned32(*n),
            FieldValue::Unsigned64(n) => LeafVal::Unsigned64(*n),
            FieldValue::Signed32(n) => LeafVal::Signed32(*n),
            FieldValue::Signed64(n) => LeafVal::Signed64(*n),
            FieldValue::Text(s) => LeafVal::Text(s@),
            FieldValue::ItemTypeValue(v) => LeafVal::ItemTypeValue(*v),
            FieldValue::ItemRarityValue(v) => LeafVal::ItemRarityValue(*v),
            FieldValue::EquipmentSlotValue(v) => LeafVal::EquipmentSlotValue(*v),
            FieldValue::AuraTypeValue(v) => LeafVal::AuraTypeValue(*v),
        }
    }
}

/// Why decoding failed: the text was not a numeric literal of the
/// declared kind, or matched no declared variant name.
#[derive(Debug, Eq, PartialEq, Clone, Structural)]
pub enum CodecError {
    MalformedNumber,
    UnrecognizedVariant,
}

/// The kind a value belongs to.
pub open spec fn kind_of(v: LeafVal) -> FieldKind {
    match v {
        LeafVal::Unsigned32(_) => FieldKind::Unsigned32,
        LeafVal::Unsigned64(_) => FieldKind::Unsigned64,
        LeafVal::Signed32(_) => FieldKind::Signed32,
        LeafVal::Signed64(_) => FieldKind::Signed64,
        LeafVal::Text(_) => FieldKind::Text,
        LeafVal::ItemTypeValue(_) => FieldKind::ItemTypeEnum,
        LeafVal::ItemRarityValue(_) => FieldKind::ItemRarityEnum,
        LeafVal::EquipmentSlotValue(_) => FieldKind::EquipmentSlotEnum,
        LeafVal::AuraTypeValue(_) => FieldKind::AuraTypeEnum,
    }
}

/// The text that encodes a value: canonical decimal for the integers,
/// the characters themselves for text, the declared variant name for an
/// enumeration.
pub open spec fn encode_spec(v: LeafVal) -> Seq<char> {
    match v {
        LeafVal::Unsigned32(n) => dec_rep(n as nat),
        LeafVal::Unsigned64(n) => dec_rep(n as nat),
        LeafVal::Signed32(n) => dec_rep_int(n as int),
        LeafVal::Signed64(n) => dec_rep_int(n as int),
        LeafVal::Text(s) => s,
        LeafVal::ItemTypeValue(t) => t.name_spec(),
        LeafVal::ItemRarityValue(t) => t.name_spec(),
        LeafVal::EquipmentSlotValue(t) => t.name_spec(),
        LeafVal::AuraTypeValue(t) => t.name_spec(),
    }
}

/// What decoding text against a declared kind yields: the parsed value,
/// or the error that names what went wrong.  Decoding as text always
/// succeeds; a numeric kind demands that kind's literal grammar; an
/// enumeration demands an exact variant name.
pub open spec fn decode_spec(s: Seq<char>, k: FieldKind) -> Result<LeafVal, CodecError> {
    match k {
        FieldKind::Unsigned32 => match parse_u32_spec(s) {
            Some(n) => Ok(LeafVal::Unsigned32(n)),
            None => Err(CodecError::MalformedNumber),
        },
        FieldKind::Unsigned64 => match parse_u64_spec(s) {
            Some(n) => Ok(LeafVal::Unsigned64(n)),
            None => Err(CodecError::MalformedNumber),
        },
        FieldKind::Signed32 => match parse_i32_spec(s) {
            Some(n) => Ok(LeafVal::Signed32(n)),
            None => Err(CodecError::MalformedNumber),
        },
        FieldKind::Signed64 => match parse_i64_spec(s) {
            Some(n) => Ok(LeafVal::Signed64(n)),
            None => Err(CodecError::MalformedNumber),
        },
        FieldKind::Text => Ok(LeafVal::Text(s)),
        FieldKind::ItemTypeEnum => match ItemType::of_name(s) {
            Some(t) => Ok(LeafVal::ItemTypeValue(t)),
            None => Err(CodecError::UnrecognizedVariant),
        },
        FieldKind::ItemRarityEnum => match ItemRarity::of_name(s) {
            Some(t) => Ok(LeafVal::ItemRarityValue(t)),
            None => Err(CodecError::UnrecognizedVariant),
        },
        FieldKind::EquipmentSlotEnum => match EquipmentSlot::of_name(s) {
            Some(t) => Ok(LeafVal::EquipmentSlotValue(t)),
            None => Err(CodecError::UnrecognizedVariant),
        },
        FieldKind::AuraTypeEnum => match AuraType::of_name(s) {
            Some(t) => Ok(LeafVal::AuraTypeValue(t)),
            None => Err(CodecError::UnrecognizedVariant),
        },
    }
}

/// The result of an executable decode, seen abstractly.
pub open spec fn decode_result_view(r: Result<FieldValue, CodecError>) -> Result<
    LeafVal,
    CodecError,
> {
    match r {
        Ok(v) => Ok(v@),
        Err(e) => Err(e),
    }
}

/// Encodes a value as text.  Total: every value the accessor can
/// produce has a textual form.
pub fn encode(v: &FieldValue) -> (r: String)
    ensures
        r@ == encode_spec(v@),
{
    match v {
        FieldValue::Unsigned32(n) => format_u32(*n),
        FieldValue::Unsigned64(n) => format_u64(*n),
        FieldValue::Signed32(n) => format_i32(*n),
        FieldValue::Signed64(n) => format_i64(*n),
        FieldValue::Text(s) => s.clone(),
        FieldValue::ItemTypeValue(t) => t.to_text(),
        FieldValue::ItemRarityValue(t) => t.to_text(),
        FieldValue::EquipmentSlotValue(t) => t.to_text(),
        FieldValue::AuraTypeValue(t) => t.to_text(),
    }
}

/// Decodes text against a declared kind; no silent truncation and no
/// coercion between kinds.
pub fn decode(s: &str, k: FieldKind) -> (r: Result<FieldValue, CodecError>)
    ensures
        decode_result_view(r) == decode_spec(s@, k),
{
    match k {
        FieldKind::Unsigned32 => match parse_u32(s) {
            Some(n) => Ok(FieldValue::Unsigned32(n)),
            None => Err(CodecError::MalformedNumber),
        },
        FieldKind::Unsigned64 => match parse_u64(s) {
            Some(n) => Ok(FieldValue::Unsigned64(n)),
            None => Err(CodecError::MalformedNumber),
        },
        FieldKind::Signed32 => match parse_i32(s) {
            Some(n) => Ok(FieldValue::Signed32(n)),
            None => Err(CodecError::MalformedNumber),
        },
        FieldKind::Signed64 => match parse_i64(s) {
            Some(n) => Ok(FieldValue::Signed64(n)),
            None => Err(CodecError::MalformedNumber),
        },
        FieldKind::Text => Ok(FieldValue::Text(s.to_owned())),
        FieldKind::ItemTypeEnum => match ItemType::from_text(s) {
            Some(t) => Ok(FieldValue::ItemTypeValue(t)),
            None => Err(CodecError::UnrecognizedVariant),
        },
        FieldKind::ItemRarityEnum => match ItemRarity::from_text(s) {
            Some(t) => Ok(FieldValue::ItemRarityValue(t)),
            None => Err(CodecError::UnrecognizedVariant),
        },
        FieldKind::EquipmentSlotEnum => match EquipmentSlot::from_text(s) {
            Some(t) => Ok(FieldValue::EquipmentSlotValue(t)),
            None => Err(CodecError::UnrecognizedVariant),
        },
        FieldKind::AuraTypeEnum => match AuraType::from_text(s) {
            Some(t) => Ok(FieldValue::AuraTypeValue(t)),
            None => Err(CodecError::UnrecognizedVariant),
        },
    }
}

/// What decoding yields when the caller does not pre-know the kind: the
/// numeric kinds are tried in a fixed priority order, and text is the
/// last resort that always succeeds.
pub open spec fn decode_any_spec(s: Seq<char>) -> LeafVal {
    if parse_u32_spec(s) is Some {
        LeafVal::Unsigned32(parse_u32_spec(s)->0)
    } else if parse_u64_spec(s) is Some {
        LeafVal::Unsigned64(parse_u64_spec(s)->0)
    } else if parse_i32_spec(s) is Some {
        LeafVal::Signed32(parse_i32_spec(s)->0)
    } else if parse_i64_spec(s) is Some {
        LeafVal::Signed64(parse_i64_spec(s)->0)
    } else {
        LeafVal::Text(s)
    }
}

/// Decodes text without a declared kind, by the fixed priority order.
pub fn decode_any(s: &str) -> (r: FieldValue)
    ensures
        r@ == decode_any_spec(s@),
{
    if let Some(n) = parse_u32(s) {
        FieldValue::Unsigned32(n)
    } else if let Some(n) = parse_u64(s) {
        FieldValue::Unsigned64(n)
    } else if let Some(n) = parse_i32(s) {
        FieldValue::Signed32(n)
    } else if let Some(n) = parse_i64(s) {
        FieldValue::Signed64(n)
    } else {
        FieldValue::Text(s.to_owned())
    }
}

/// A successful decode yields a value of the requested kind.
pub proof fn lemma_decode_spec_kind(s: Seq<char>, k: FieldKind)
    ensures
        decode_spec(s, k) is Ok ==> kind_of(decode_spec(s, k)->Ok_0) == k,
{
}

/// Decoding the encoding of a value against the value's own kind yields
/// the value back: the codec loses nothing.
pub proof fn lemma_codec_round_trip(v: LeafVal)
    ensures
        decode_spec(encode_spec(v), kind_of(v)) == Ok::<LeafVal, CodecError>(v),
{
    match v {
        LeafVal::Unsigned32(n) => lemma_u32_round_trip(n),
        LeafVal::Unsigned64(n) => lemma_u64_round_trip(n),
        LeafVal::Signed32(n) => lemma_i32_round_trip(n),
        LeafVal::Signed64(n) => lemma_i64_round_trip(n),
        LeafVal::Text(_) => {},
        LeafVal::ItemTypeValue(t) => lemma_item_type_name_round_trip(t),
        LeafVal::ItemRarityValue(t) => lemma_item_rarity_name_round_trip(t),
        LeafVal::EquipmentSlotValue(t) => lemma_slot_name_round_trip(t),
        LeafVal::AuraTypeValue(t) => lemma_aura_type_name_round_trip(t),
    }
}

} // verus!
