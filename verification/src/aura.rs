//! Aura definitions: the second record kind the registry holds, with
//! its closed category enumeration and the shared handle wrapper.  An
//! aura's duration is floating point on disk; the record here carries
//! its bit pattern, so the registry logic stays verifiable while the
//! application shell converts at the file boundary.

use crate::text::str_eq;
use std::sync::Arc;
use vstd::prelude::*;

verus! {

/// The category of an aura.
#[derive(Debug, Eq, PartialEq, Copy, Clone, Structural)]
pub enum AuraType {
    Physical,
    Magic,
    Poison,
    Untyped,
}

impl AuraType {
    /// The declared name of the variant.
    pub open spec fn name_spec(self) -> Seq<char> {
        match self {
            AuraType::Physical => "Physical"@,
            AuraType::Magic => "Magic"@,
            AuraType::Poison => "Poison"@,
            AuraType::Untyped => "None"@,
        }
    }

    /// The variant whose declared name the text is, if any.
    pub open spec fn of_name(s: Seq<char>) -> Option<AuraType> {
        if s == "Physical"@ {
            Some(AuraType::Physical)
        } else if s == "Magic"@ {
            Some(AuraType::Magic)
        } else if s == "Poison"@ {
            Some(AuraType::Poison)
        } else if s == "None"@ {
            Some(AuraType::Untyped)
        } else {
            None
        }
    }

    /// Renders the variant as its declared name.
    pub fn to_text(&self) -> (r: String)
        ensures
            r@ == self.name_spec(),
    {
        match self {
            AuraType::Physical => String::from_str("Physical"),
            AuraType::Magic => String::from_str("Magic"),
            AuraType::Poison => String::from_str("Poison"),
            AuraType::Untyped => String::from_str("None"),
        }
    }

    /// Reads a variant back from its declared name, by exact
    /// case-sensitive match.
    pub fn from_text(s: &str) -> (r: Option<AuraType>)
        ensures
            r == Self::of_name(s@),
    {
        if str_eq(s, "Physical") {
            Some(AuraType::Physical)
        } else if str_eq(s, "Magic") {
            Some(AuraType::Magic)
        } else if str_eq(s, "Poison") {
            Some(AuraType::Poison)
        } else if str_eq(s, "None") {
            Some(AuraType::Untyped)
        } else {
            None
        }
    }
}

/// Reading an aura type back from its rendered name yields the type
/// again.
pub proof fn lemma_aura_type_name_round_trip(v: AuraType)
    ensures
        AuraType::of_name(v.name_spec()) == Some(v),
{
    reveal_strlit("Physical");
    reveal_strlit("Magic");
    reveal_strlit("Poison");
    reveal_strlit("None");
    assert("Physical"@.len() == 8);
    assert("Magic"@.len() == 5);
    assert("Poison"@.len() == 6);
    assert("None"@.len() == 4);
}

/// One aura definition: the record the aura registry stores.  The
/// duration is kept as the bit pattern of its 32-bit float; the shell
/// converts to and from the float at the file boundary.
#[derive(Debug, PartialEq, Clone)]
pub struct AuraDef {
    pub id: u32,
    pub name: String,
    pub icon: String,
    pub duration_bits: u32,
    pub aura_type: AuraType,
    pub rules_text: String,
}

/// The mathematical value of an aura definition: the same fields, with
/// every text field a character sequence.
pub struct AuraDefView {
    pub id: u32,
    pub name: Seq<char>,
    pub icon: Seq<char>,
    pub duration_bits: u32,
    pub aura_type: AuraType,
    pub rules_text: Seq<char>,
}

impl View for AuraDef {
    type V = AuraDefView;

    open spec fn view(&self) -> AuraDefView {
        AuraDefView {
            id: self.id,
            name: self.name@,
            icon: self.icon@,
            duration_bits: self.duration_bits,
            aura_type: self.aura_type,
            rules_text: self.rules_text@,
        }
    }
}

/// An aura instance: a shared handle to its definition.
#[derive(Debug)]
pub struct Aura {
    pub def: Arc<AuraDef>,
}

impl Aura {
    /// Wraps another handle to the same definition.  (The standard
    /// library gives no specification for cloning a shared handle, so
    /// nothing is stated of the result; the field is public.)
    pub fn new(def: &Arc<AuraDef>) -> Aura {
        Aura { def: def.clone() }
    }
}

} // verus!
