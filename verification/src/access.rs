//! The path accessor: locates a leaf field of an item definition by its
//! dotted path and performs a typed get or set through the value codec,
//! always in the leaf's declared kind.

use crate::codec::{
    decode, decode_spec, encode, encode_spec, kind_of, lemma_decode_spec_kind, CodecError,
    FieldKind, FieldValue, LeafVal,
};
use crate::item::{ItemDef, ItemDefView};
use crate::schema::{
    first_index_of, join_path, lemma_fields_kinds_push, lemma_fields_paths_push,
    lemma_first_index_of_correct, node_kinds, node_paths, resolve, SchemaField, SchemaNode,
};
use vstd::prelude::*;

verus! {

/// The dotted leaf paths of an item definition, depth-first in
/// declaration order.
pub open spec fn item_paths() -> Seq<Seq<char>> {
    seq![
        "id"@,
        "name"@,
        "rules_text"@,
        "flavor_text"@,
        "icon"@,
        "item_type"@,
        "item_rarity"@,
        "max_stack"@,
        "buy_value"@,
        "sell_value"@,
        "equipment_def.slot"@,
        "equipment_def.armor"@,
    ]
}

/// The declared kind of each item leaf, parallel to the paths.
pub open spec fn item_kinds() -> Seq<FieldKind> {
    seq![
        FieldKind::Unsigned32,
        FieldKind::Text,
        FieldKind::Text,
        FieldKind::Text,
        FieldKind::Text,
        FieldKind::ItemTypeEnum,
        FieldKind::ItemRarityEnum,
        FieldKind::Unsigned32,
        FieldKind::Unsigned32,
        FieldKind::Unsigned32,
        FieldKind::EquipmentSlotEnum,
        FieldKind::Unsigned32,
    ]
}

/// A leaf schema field.
fn leaf_field(name: &str, k: FieldKind) -> (r: SchemaField)
    ensures
        r.name@ == name@,
        r.node == SchemaNode::Leaf(k),
{
    SchemaField { name: name.to_owned(), node: SchemaNode::Leaf(k) }
}

/// The declared schema of an item definition, mirroring the fields of
/// [`ItemDef`] in declaration order.
pub fn item_schema() -> (r: SchemaNode)
    ensures
        node_paths(r, Seq::empty()) == item_paths(),
        node_kinds(r) == item_kinds(),
{
    let ghost e = Seq::<char>::empty();
    let mut equipment_fields: Vec<SchemaField> = Vec::new();
    let f = leaf_field("slot", FieldKind::EquipmentSlotEnum);
    proof {
        lemma_fields_paths_push(equipment_fields@, f, "equipment_def"@);
        lemma_fields_kinds_push(equipment_fields@, f);
    }
    equipment_fields.push(f);
    let f = leaf_field("armor", FieldKind::Unsigned32);
    proof {
        lemma_fields_paths_push(equipment_fields@, f, "equipment_def"@);
        lemma_fields_kinds_push(equipment_fields@, f);
    }
    equipment_fields.push(f);
    let equipment = SchemaNode::Record(equipment_fields);

    let mut fields: Vec<SchemaField> = Vec::new();
    let f = leaf_field("id", FieldKind::Unsigned32);
    proof {
        lemma_fields_paths_push(fields@, f, e);
        lemma_fields_kinds_push(fields@, f);
    }
    fields.push(f);
    let f = leaf_field("name", FieldKind::Text);
    proof {
        lemma_fields_paths_push(fields@, f, e);
        lemma_fields_kinds_push(fields@, f);
    }
    fields.push(f);
    let f = leaf_field("rules_text", FieldKind::Text);
    proof {
        lemma_fields_paths_push(fields@, f, e);
        lemma_fields_kinds_push(fields@, f);
    }
    fields.push(f);
    let f = leaf_field("flavor_text", FieldKind::Text);
    proof {
        lemma_fields_paths_push(fields@, f, e);
        lemma_fields_kinds_push(fields@, f);
    }
    fields.push(f);
    let f = leaf_field("icon", FieldKind::Text);
    proof {
        lemma_fields_paths_push(fields@, f, e);
        lemma_fields_kinds_push(fields@, f);
    }
    fields.push(f);
    let f = leaf_field("item_type", FieldKind::ItemTypeEnum);
    proof {
        lemma_fields_paths_push(fields@, f, e);
        lemma_fields_kinds_push(fields@, f);
    }
    fields.push(f);
    let f = leaf_field("item_rarity", FieldKind::ItemRarityEnum);
    proof {
        lemma_fields_paths_push(fields@, f, e);
        lemma_fields_kinds_push(fields@, f);
    }
    fields.push(f);
    let f = leaf_field("max_stack", FieldKind::Unsigned32);
    proof {
        lemma_fields_paths_push(fields@, f, e);
        lemma_fields_kinds_push(fields@, f);
    }
    fields.push(f);
    let f = leaf_field("buy_value", FieldKind::Unsigned32);
    proof {
        lemma_fields_paths_push(fields@, f, e);
        lemma_fields_kinds_push(fields@, f);
    }
    fields.push(f);
    let f = leaf_field("sell_value", FieldKind::Unsigned32);
    proof {
        lemma_fields_paths_push(fields@, f, e);
        lemma_fields_kinds_push(fields@, f);
    }
    fields.push(f);
    let f = SchemaField { name: String::from_str("equipment_def"), node: equipment };
    proof {
        lemma_fields_paths_push(fields@, f, e);
        lemma_fields_kinds_push(fields@, f);
    }
    fields.push(f);
    let r = SchemaNode::Record(fields);
    proof {
        reveal_strlit("equipment_def");
        reveal_strlit(".");
        reveal_strlit("slot");
        reveal_strlit("armor");
        reveal_strlit("equipment_def.slot");
        reveal_strlit("equipment_def.armor");
        assert(join_path("equipment_def"@, "slot"@) =~= "equipment_def.slot"@);
        assert(join_path("equipment_def"@, "armor"@) =~= "equipment_def.armor"@);
        assert(node_paths(r, e) =~~= item_paths());
        assert(node_kinds(r) =~= item_kinds());
    }
    r
}

/// The value of the item leaf at one derived-path position.
pub open spec fn item_leaf_val(d: ItemDefView, i: int) -> LeafVal {
    if i == 0 {
        LeafVal::Unsigned32(d.id)
    } else if i == 1 {
        LeafVal::Text(d.name)
    } else if i == 2 {
        LeafVal::Text(d.rules_text)
    } else if i == 3 {
        LeafVal::Text(d.flavor_text)
    } else if i == 4 {
        LeafVal::Text(d.icon)
    } else if i == 5 {
        LeafVal::ItemTypeValue(d.item_type)
    } else if i == 6 {
        LeafVal::ItemRarityValue(d.item_rarity)
    } else if i == 7 {
        LeafVal::Unsigned32(d.max_stack)
    } else if i == 8 {
        LeafVal::Unsigned32(d.buy_value)
    } else if i == 9 {
        LeafVal::Unsigned32(d.sell_value)
    } else if i == 10 {
        LeafVal::EquipmentSlotValue(d.equipment_def.slot)
    } else {
        LeafVal::Unsigned32(d.equipment_def.armor)
    }
}

/// The item with the leaf at one position replaced and every other
/// field unchanged.
pub open spec fn item_with_leaf(d: ItemDefView, i: int, v: LeafVal) -> ItemDefView {
    if i == 0 {
        ItemDefView { id: v->Unsigned32_0, ..d }
    } else if i == 1 {
        ItemDefView { name: v->Text_0, ..d }
    } else if i == 2 {
        ItemDefView { rules_text: v->Text_0, ..d }
    } else if i == 3 {
        ItemDefView { flavor_text: v->Text_0, ..d }
    } else if i == 4 {
        ItemDefView { icon: v->Text_0, ..d }
    } else if i == 5 {
        ItemDefView { item_type: v->ItemTypeValue_0, ..d }
    } else if i == 6 {
        ItemDefView { item_rarity: v->ItemRarityValue_0, ..d }
    } else if i == 7 {
        ItemDefView { max_stack: v->Unsigned32_0, ..d }
    } else if i == 8 {
        ItemDefView { buy_value: v->Unsigned32_0, ..d }
    } else if i == 9 {
        ItemDefView { sell_value: v->Unsigned32_0, ..d }
    } else if i == 10 {
        ItemDefView {
            equipment_def: crate::equipment::EquipmentDef {
                slot: v->EquipmentSlotValue_0,
                ..d.equipment_def
            },
            ..d
        }
    } else {
        ItemDefView {
            equipment_def: crate::equipment::EquipmentDef {
                armor: v->Unsigned32_0,
                ..d.equipment_def
            },
            ..d
        }
    }
}

/// Each leaf's value has that leaf's declared kind.
pub proof fn lemma_item_leaf_kind(d: ItemDefView, i: int)
    requires
        0 <= i < 12,
    ensures
        kind_of(item_leaf_val(d, i)) == item_kinds()[i],
{
}

/// Reads the leaf at one derived-path position, in its declared kind.
pub fn item_get_leaf(def: &ItemDef, i: usize) -> (r: FieldValue)
    requires
        i < 12,
    ensures
        r@ == item_leaf_val(def@, i as int),
{
    if i == 0 {
        FieldValue::Unsigned32(def.id)
    } else if i == 1 {
        FieldValue::Text(def.name.clone())
    } else if i == 2 {
        FieldValue::Text(def.rules_text.clone())
    } else if i == 3 {
        FieldValue::Text(def.flavor_text.clone())
    } else if i == 4 {
        FieldValue::Text(def.icon.clone())
    } else if i == 5 {
        FieldValue::ItemTypeValue(def.item_type)
    } else if i == 6 {
        FieldValue::ItemRarityValue(def.item_rarity)
    } else if i == 7 {
        FieldValue::Unsigned32(def.max_stack)
    } else if i == 8 {
        FieldValue::Unsigned32(def.buy_value)
    } else if i == 9 {
        FieldValue::Unsigned32(def.sell_value)
    } else if i == 10 {
        FieldValue::EquipmentSlotValue(def.equipment_def.slot)
    } else {
        FieldValue::Unsigned32(def.equipment_def.armor)
    }
}

/// Replaces the leaf at one derived-path position with a value of its
/// declared kind; every other field is left unchanged.
pub fn item_set_leaf(def: &mut ItemDef, i: usize, v: FieldValue)
    requires
        i < 12,
        kind_of(v@) == item_kinds()[i as int],
    ensures
        final(def)@ == item_with_leaf(old(def)@, i as int, v@),
{
    if i == 0 {
        match v {
            FieldValue::Unsigned32(n) => def.id = n,
            _ => proof { assert(false); },
        }
    } else if i == 1 {
        match v {
            FieldValue::Text(s) => def.name = s,
            _ => proof { assert(false); },
        }
    } else if i == 2 {
        match v {
            FieldValue::Text(s) => def.rules_text = s,
            _ => proof { assert(false); },
        }
    } else if i == 3 {
        match v {
            FieldValue::Text(s) => def.flavor_text = s,
            _ => proof { assert(false); },
        }
    } else if i == 4 {
        match v {
            FieldValue::Text(s) => def.icon = s,
            _ => proof { assert(false); },
        }
    } else if i == 5 {
        match v {
            FieldValue::ItemTypeValue(t) => def.item_type = t,
            _ => proof { assert(false); },
        }
    } else if i == 6 {
        match v {
            FieldValue::ItemRarityValue(t) => def.item_rarity = t,
            _ => proof { assert(false); },
        }
    } else if i == 7 {
        match v {
            FieldValue::Unsigned32(n) => def.max_stack = n,
            _ => proof { assert(false); },
        }
    } else if i == 8 {
        match v {
            FieldValue::Unsigned32(n) => def.buy_value = n,
            _ => proof { assert(false); },
        }
    } else if i == 9 {
        match v {
            FieldValue::Unsigned32(n) => def.sell_value = n,
            _ => proof { assert(false); },
        }
    } else if i == 10 {
        match v {
            FieldValue::EquipmentSlotValue(t) => def.equipment_def.slot = t,
            _ => proof { assert(false); },
        }
    } else {
        match v {
            FieldValue::Unsigned32(n) => def.equipment_def.armor = n,
            _ => proof { assert(false); },
        }
    }
}

/// Why a path access failed: no leaf of this record's schema matches
/// the dotted path, or the text did not decode in the leaf's declared
/// kind.
#[derive(Debug, Eq, PartialEq, Clone, Structural)]
pub enum AccessError {
    PathNotFound,
    DecodeFailure(CodecError),
}

/// The result of an executable get, seen abstractly.
pub open spec fn str_result_view(r: Result<String, AccessError>) -> Result<Seq<char>, AccessError> {
    match r {
        Ok(s) => Ok(s@),
        Err(e) => Err(e),
    }
}

/// What reading an item leaf through a path yields: the encoding of the
/// leaf's value in its declared kind, or a miss.
pub open spec fn get_value_spec(d: ItemDefView, path: Seq<char>) -> Result<Seq<char>, AccessError> {
    match first_index_of(item_paths(), path) {
        Some(i) => Ok(encode_spec(item_leaf_val(d, i))),
        None => Err(AccessError::PathNotFound),
    }
}

/// What writing text to an item leaf through a path yields: the record
/// with that one leaf replaced by the decoded value, or the error.
pub open spec fn set_value_spec(d: ItemDefView, path: Seq<char>, text: Seq<char>) -> Result<
    ItemDefView,
    AccessError,
> {
    match first_index_of(item_paths(), path) {
        None => Err(AccessError::PathNotFound),
        Some(i) => match decode_spec(text, item_kinds()[i]) {
            Ok(v) => Ok(item_with_leaf(d, i, v)),
            Err(e) => Err(AccessError::DecodeFailure(e)),
        },
    }
}

/// Reads the leaf at `path` and returns its textual form, always in the
/// leaf's declared kind.
pub fn get_string_value_from_path(def: &ItemDef, path: &str) -> (r: Result<String, AccessError>)
    ensures
        str_result_view(r) == get_value_spec(def@, path@),
{
    let schema = item_schema();
    match resolve(&schema, path) {
        None => Err(AccessError::PathNotFound),
        Some((i, _k)) => {
            proof {
                lemma_first_index_of_correct(item_paths(), path@);
            }
            let v = item_get_leaf(def, i);
            Ok(encode(&v))
        },
    }
}

/// Decodes text in the declared kind of the leaf at `path` and assigns
/// it there.  On any failure the record is left entirely unchanged; a
/// decode failure is surfaced, never dropped.
pub fn set_field_value_from_string(def: &mut ItemDef, path: &str, new_value: String) -> (r: Result<
    (),
    AccessError,
>)
    ensures
        match r {
            Ok(_) => set_value_spec(old(def)@, path@, new_value@) == Ok::<
                ItemDefView,
                AccessError,
            >(final(def)@),
            Err(e) => set_value_spec(old(def)@, path@, new_value@) == Err::<
                ItemDefView,
                AccessError,
            >(e) && final(def)@ == old(def)@,
        },
{
    let schema = item_schema();
    match resolve(&schema, path) {
        None => Err(AccessError::PathNotFound),
        Some((i, k)) => {
            proof {
                lemma_first_index_of_correct(item_paths(), path@);
            }
            match decode(new_value.as_str(), k) {
                Err(e) => Err(AccessError::DecodeFailure(e)),
                Ok(v) => {
                    proof {
                        lemma_decode_spec_kind(new_value@, k);
                    }
                    item_set_leaf(def, i, v);
                    Ok(())
                },
            }
        },
    }
}

/// Path round-trip: reading a derived leaf path always succeeds, and
/// writing back exactly the text that was read leaves the record
/// unchanged.
pub proof fn lemma_path_round_trip(d: ItemDefView, path: Seq<char>)
    requires
        item_paths().contains(path),
    ensures
        get_value_spec(d, path) is Ok,
        set_value_spec(d, path, get_value_spec(d, path)->Ok_0) == Ok::<ItemDefView, AccessError>(d),
{
    lemma_first_index_of_correct(item_paths(), path);
    match first_index_of(item_paths(), path) {
        None => {
            let j = choose|j: int|
                0 <= j < item_paths().len() && item_paths()[j] == path;
            assert(item_paths()[j] == path);
            assert(false);
        },
        Some(i) => {
            lemma_item_leaf_kind(d, i);
            crate::codec::lemma_codec_round_trip(item_leaf_val(d, i));
            assert(item_with_leaf(d, i, item_leaf_val(d, i)) == d);
        },
    }
}

/// Isolation: writing through one path never changes what any other
/// path reads.
pub proof fn lemma_set_isolation(d: ItemDefView, p1: Seq<char>, p2: Seq<char>, text: Seq<char>)
    requires
        p1 != p2,
        set_value_spec(d, p1, text) is Ok,
    ensures
        get_value_spec(set_value_spec(d, p1, text)->Ok_0, p2) == get_value_spec(d, p2),
{
    lemma_first_index_of_correct(item_paths(), p1);
    lemma_first_index_of_correct(item_paths(), p2);
    let i1 = first_index_of(item_paths(), p1)->Some_0;
    match first_index_of(item_paths(), p2) {
        None => {},
        Some(i2) => {
            assert(item_paths()[i1] == p1 && item_paths()[i2] == p2);
            assert(i1 != i2);
            let v = decode_spec(text, item_kinds()[i1])->Ok_0;
            assert(item_leaf_val(item_with_leaf(d, i1, v), i2) == item_leaf_val(d, i2));
        },
    }
}

} // verus!
