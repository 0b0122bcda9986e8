//! The asset kinds the editor knows, and the interface every asset
//! library offers to the application shell.

use vstd::prelude::*;

verus! {

/// Which kind of asset a registry holds.
#[derive(Copy, Clone, Debug, PartialEq, Eq, Structural)]
pub enum AssetType {
    Aura,
    Item,
}

impl AssetType {
    /// The declared name of the variant.
    pub open spec fn name_spec(self) -> Seq<char> {
        match self {
            AssetType::Aura => "Aura"@,
            AssetType::Item => "Item"@,
        }
    }

    /// Renders the variant as its declared name.
    pub fn to_text(&self) -> (r: String)
        ensures
            r@ == self.name_spec(),
    {
        match self {
            AssetType::Aura => String::from_str("Aura"),
            AssetType::Item => String::from_str("Item"),
        }
    }
}

/// What every asset library offers the application shell: loading all
/// records of its kind from a source file and writing them back.  The
/// implementations live with the shell, where the file and the text
/// encoding are read.
pub trait AssetLib<T>: Sized {
    fn new(path: &str) -> Self;

    fn save(&self, path: &str);
}

} // verus!
