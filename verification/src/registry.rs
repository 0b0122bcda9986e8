//! The definition registries, one per record kind: an ordered
//! collection of shared record handles, indexed by both the stable
//! numeric id and the record name, with whole-slot replacement
//! updates.

use crate::aura::{AuraDef, AuraDefView};
use crate::item::{ItemDef, ItemDefView};
use std::sync::Arc;
use vstd::prelude::*;

verus! {

/// Why a registry operation failed.  An unreadable or malformed source
/// is fatal to the registry being loaded; a lookup miss is recoverable.
#[derive(Debug, Eq, PartialEq, Clone, Structural)]
pub enum RegistryError {
    /// The source file could not be read at all (reported by the
    /// application shell, which owns the file handling).
    SourceUnreadable,
    /// The source decoded, but its records break the registry's data
    /// model: a duplicated id or name.
    SourceMalformed,
    UnknownId,
    UnknownName,
    /// An update would have given two records one name; the registry
    /// keeps names unique and refuses the edit.
    DuplicateName,
}

/// The mathematical contents of a sequence of item records.
pub open spec fn def_views(s: Seq<ItemDef>) -> Seq<ItemDefView> {
    s.map_values(|d: ItemDef| d@)
}

/// No two records carry the same id.
pub open spec fn ids_unique(s: Seq<ItemDefView>) -> bool {
    forall|i: int, j: int| 0 <= i < j < s.len() ==> s[i].id != s[j].id
}

/// No two records carry the same name.
pub open spec fn names_unique_in(s: Seq<ItemDefView>) -> bool {
    forall|i: int, j: int| 0 <= i < j < s.len() ==> s[i].name != s[j].name
}

/// The item registry: the backing ordered collection of shared handles
/// and the two slot indices built over it.
#[derive(Debug)]
pub struct ItemLib {
    name_map: Vec<(String, usize)>,
    id_map: Vec<(u32, usize)>,
    pub defs: Vec<Arc<ItemDef>>,
}

impl View for ItemLib {
    type V = Seq<ItemDefView>;

    closed spec fn view(&self) -> Seq<ItemDefView> {
        self.defs@.map_values(|d: Arc<ItemDef>| d@)
    }
}

impl ItemLib {
    /// The registry's structural invariant: both indices run parallel
    /// to the backing collection, and ids are unique.
    pub closed spec fn wf(self) -> bool {
        &&& self.id_map@.len() == self.defs@.len()
        &&& self.name_map@.len() == self.defs@.len()
        &&& (forall|i: int|
            0 <= i < self.defs@.len() ==> (#[trigger] self.id_map@[i]).0 == self@[i].id
                && self.id_map@[i].1 == i)
        &&& (forall|i: int|
            0 <= i < self.defs@.len() ==> (#[trigger] self.name_map@[i]).0@ == self@[i].name
                && self.name_map@[i].1 == i)
        &&& ids_unique(self@)
    }

    /// Names are unique across the collection; established at load.
    pub open spec fn names_unique(self) -> bool {
        names_unique_in(self@)
    }

    /// Some record carries this id.
    pub open spec fn has_id(self, id: u32) -> bool {
        exists|i: int| 0 <= i < self@.len() && self@[i].id == id
    }

    /// The slot of the record with this id.
    pub open spec fn idx_of_id(self, id: u32) -> int {
        choose|i: int| 0 <= i < self@.len() && self@[i].id == id
    }

    /// The record with this id, if any.
    pub open spec fn spec_by_id(self, id: u32) -> Option<ItemDefView> {
        if self.has_id(id) {
            Some(self@[self.idx_of_id(id)])
        } else {
            None
        }
    }

    /// Some record carries this name.
    pub open spec fn has_name(self, name: Seq<char>) -> bool {
        exists|i: int| 0 <= i < self@.len() && self@[i].name == name
    }

    /// The slot of the record with this name.
    pub open spec fn idx_of_name(self, name: Seq<char>) -> int {
        choose|i: int| 0 <= i < self@.len() && self@[i].name == name
    }

    /// The record with this name, if any.
    pub open spec fn spec_by_name(self, name: Seq<char>) -> Option<ItemDefView> {
        if self.has_name(name) {
            Some(self@[self.idx_of_name(name)])
        } else {
            None
        }
    }
}

/// The slot an id is indexed at, by scanning the id index.
fn find_in_id_map(map: &Vec<(u32, usize)>, id: u32) -> (r: Option<usize>)
    ensures
        match r {
            Some(k) => exists|j: int|
                0 <= j < map@.len() && (#[trigger] map@[j]).0 == id && map@[j].1 == k,
            None => forall|j: int| 0 <= j < map@.len() ==> (#[trigger] map@[j]).0 != id,
        },
{
    let mut j: usize = 0;
    while j < map.len()
        invariant
            j <= map@.len(),
            forall|t: int| 0 <= t < j ==> (#[trigger] map@[t]).0 != id,
        decreases map@.len() - j,
    {
        if map[j].0 == id {
            return Some(map[j].1);
        }
        j = j + 1;
    }
    None
}

/// The slot a name is indexed at, by scanning the name index.
fn find_in_name_map(map: &Vec<(String, usize)>, name: &String) -> (r: Option<usize>)
    ensures
        match r {
            Some(k) => exists|j: int|
                0 <= j < map@.len() && (#[trigger] map@[j]).0@ == name@ && map@[j].1 == k,
            None => forall|j: int| 0 <= j < map@.len() ==> (#[trigger] map@[j]).0@ != name@,
        },
{
    let mut j: usize = 0;
    while j < map.len()
        invariant
            j <= map@.len(),
            forall|t: int| 0 <= t < j ==> (#[trigger] map@[t]).0@ != name@,
        decreases map@.len() - j,
    {
        if map[j].0 == *name {
            return Some(map[j].1);
        }
        j = j + 1;
    }
    None
}

/// Whether any slot other than `k` holds this name in the name index.
fn name_taken_elsewhere(map: &Vec<(String, usize)>, name: &String, k: usize) -> (r: bool)
    ensures
        r == exists|j: int| 0 <= j < map@.len() && j != k && (#[trigger] map@[j]).0@ == name@,
{
    let mut j: usize = 0;
    while j < map.len()
        invariant
            j <= map@.len(),
            forall|t: int| 0 <= t < j && t != k ==> (#[trigger] map@[t]).0@ != name@,
        decreases map@.len() - j,
    {
        if j != k && map[j].0 == *name {
            proof {
                let ghost jj = j as int;
                assert(0 <= jj < map@.len() && jj != k && map@[jj].0@ == name@);
            }
            return true;
        }
        j = j + 1;
    }
    false
}

impl ItemLib {
    /// Builds a registry from records in source order: wraps each
    /// record in a shared handle and builds both indices.  Fails, and
    /// produces no partial registry, when the source data breaks the
    /// data model by repeating an id or a name.
    #[verifier::loop_isolation(false)]
    pub fn from_defs(defs: Vec<ItemDef>) -> (r: Result<ItemLib, RegistryError>)
        ensures
            match r {
                Ok(lib) => lib.wf() && lib.names_unique() && lib@ == def_views(defs@),
                Err(e) => e == RegistryError::SourceMalformed && !(ids_unique(def_views(defs@))
                    && names_unique_in(def_views(defs@))),
            },
    {
        let ghost orig = def_views(defs@);
        let mut rest = defs;
        let mut lib = ItemLib { name_map: Vec::new(), id_map: Vec::new(), defs: Vec::new() };
        proof {
            assert(lib@ =~= Seq::<ItemDefView>::empty());
            assert(lib@ + def_views(rest@) =~= orig);
        }
        while rest.len() > 0
            invariant
                lib.wf(),
                lib.names_unique(),
                orig == lib@ + def_views(rest@),
            decreases rest@.len(),
        {
            let ghost prev = lib@;
            let ghost rest_before = rest@;
            let d = rest.remove(0);
            proof {
                assert(def_views(rest_before) =~= seq![d@] + def_views(rest@));
                assert(orig =~= lib@ + seq![d@] + def_views(rest@));
                assert(orig[prev.len() as int] == d@);
                assert(forall|t: int| 0 <= t < prev.len() ==> orig[t] == prev[t]);
            }
            match find_in_id_map(&lib.id_map, d.id) {
                Some(dup) => {
                    proof {
                        let j = choose|j: int|
                            0 <= j < lib.id_map@.len() && (#[trigger] lib.id_map@[j]).0 == d.id
                                && lib.id_map@[j].1 == dup;
                        assert(lib@[j].id == d@.id);
                        assert(orig[j].id == orig[prev.len() as int].id);
                        assert(!ids_unique(orig));
                    }
                    return Err(RegistryError::SourceMalformed);
                },
                None => {},
            }
            match find_in_name_map(&lib.name_map, &d.name) {
                Some(dup) => {
                    proof {
                        let j = choose|j: int|
                            0 <= j < lib.name_map@.len() && (#[trigger] lib.name_map@[j]).0@
                                == d.name@ && lib.name_map@[j].1 == dup;
                        assert(lib@[j].name == d@.name);
                        assert(orig[j].name == orig[prev.len() as int].name);
                        assert(!names_unique_in(orig));
                    }
                    return Err(RegistryError::SourceMalformed);
                },
                None => {},
            }
            proof {
                assert forall|t: int| 0 <= t < prev.len() implies prev[t].id != d@.id by {
                    assert(lib.id_map@[t].0 == lib@[t].id);
                }
                assert forall|t: int| 0 <= t < prev.len() implies prev[t].name != d@.name by {
                    assert(lib.name_map@[t].0@ == lib@[t].name);
                }
            }
            let k = lib.defs.len();
            lib.name_map.push((d.name.clone(), k));
            lib.id_map.push((d.id, k));
            lib.defs.push(Arc::new(d));
            proof {
                assert(lib@ =~= prev.push(d@));
                assert(orig =~= lib@ + def_views(rest@));
                assert forall|i: int| 0 <= i < lib.defs@.len() implies (
                #[trigger] lib.id_map@[i]).0 == lib@[i].id && lib.id_map@[i].1 == i by {
                    if i < k {
                        assert(lib@[i] == prev[i]);
                    }
                }
                assert forall|i: int| 0 <= i < lib.defs@.len() implies (
                #[trigger] lib.name_map@[i]).0@ == lib@[i].name && lib.name_map@[i].1 == i by {
                    if i < k {
                        assert(lib@[i] == prev[i]);
                    }
                }
                assert forall|i: int, j: int| 0 <= i < j < lib@.len() implies lib@[i].id
                    != lib@[j].id by {
                    if j < k {
                        assert(lib@[i] == prev[i] && lib@[j] == prev[j]);
                    } else {
                        assert(lib@[i] == prev[i] && lib@[j] == d@);
                    }
                }
                assert forall|i: int, j: int| 0 <= i < j < lib@.len() implies lib@[i].name
                    != lib@[j].name by {
                    if j < k {
                        assert(lib@[i] == prev[i] && lib@[j] == prev[j]);
                    } else {
                        assert(lib@[i] == prev[i] && lib@[j] == d@);
                    }
                }
            }
        }
        proof {
            assert(def_views(rest@) =~= Seq::<ItemDefView>::empty());
            assert(lib@ =~= orig);
        }
        Ok(lib)
    }

    /// Looks the id up in the id index and returns the record at the
    /// indexed slot.
    pub fn id(&self, id: u32) -> (r: Result<&ItemDef, RegistryError>)
        requires
            self.wf(),
        ensures
            match r {
                Ok(d) => self.spec_by_id(id) == Some(d@),
                Err(e) => e == RegistryError::UnknownId && self.spec_by_id(id) is None,
            },
    {
        match find_in_id_map(&self.id_map, id) {
            None => {
                proof {
                    assert forall|i: int| 0 <= i < self@.len() implies #[trigger] self@[i].id != id
                        by {
                        assert(self.id_map@[i].0 == self@[i].id);
                    }
                }
                Err(RegistryError::UnknownId)
            },
            Some(k) => {
                proof {
                    let j = choose|j: int|
                        0 <= j < self.id_map@.len() && (#[trigger] self.id_map@[j]).0 == id
                            && self.id_map@[j].1 == k;
                    assert(self@[j].id == id);
                    assert(k == j);
                    assert(self.has_id(id));
                    let i = self.idx_of_id(id);
                    assert(self@[i].id == id);
                    if i != k as int {
                        assert(self@[i].id != self@[k as int].id);
                        assert(false);
                    }
                }
                Ok(&self.defs[k])
            },
        }
    }

    /// Looks the name up in the name index and returns the shared
    /// handle at the indexed slot.
    pub fn name(&self, name: String) -> (r: Result<&Arc<ItemDef>, RegistryError>)
        requires
            self.wf(),
            self.names_unique(),
        ensures
            match r {
                Ok(d) => self.spec_by_name(name@) == Some(d@),
                Err(e) => e == RegistryError::UnknownName && self.spec_by_name(name@) is None,
            },
    {
        match find_in_name_map(&self.name_map, &name) {
            None => {
                proof {
                    assert forall|i: int| 0 <= i < self@.len() implies #[trigger] self@[i].name
                        != name@ by {
                        assert(self.name_map@[i].0@ == self@[i].name);
                    }
                }
                Err(RegistryError::UnknownName)
            },
            Some(k) => {
                proof {
                    let j = choose|j: int|
                        0 <= j < self.name_map@.len() && (#[trigger] self.name_map@[j]).0@ == name@
                            && self.name_map@[j].1 == k;
                    assert(self@[j].name == name@);
                    assert(k == j);
                    assert(self.has_name(name@));
                    let i = self.idx_of_name(name@);
                    assert(self@[i].name == name@);
                    if i != k as int {
                        assert(self@[i].name != self@[k as int].name);
                        assert(false);
                    }
                }
                Ok(&self.defs[k])
            },
        }
    }

    /// Replaces the slot indexed by the record's id with a new shared
    /// handle; the slot keeps its position and its id, and the name
    /// index is rebuilt for that slot.  Never inserts, and never lets
    /// two slots share one name: an unknown id or a name another slot
    /// already holds is a typed error and the registry is left
    /// unchanged.
    pub fn update_def(&mut self, def: Arc<ItemDef>) -> (r: Result<(), RegistryError>)
        requires
            old(self).wf(),
        ensures
            final(self).wf(),
            final(self)@.len() == old(self)@.len(),
            old(self).names_unique() ==> final(self).names_unique(),
            ({
                let k = old(self).idx_of_id(def@.id);
                let taken = exists|j: int|
                    0 <= j < old(self)@.len() && j != k && old(self)@[j].name == def@.name;
                match r {
                    Ok(_) => old(self).has_id(def@.id) && !taken && final(self)@ == old(
                        self,
                    )@.update(k, def@) && final(self)@[k].id == old(self)@[k].id,
                    Err(e) => final(self)@ == old(self)@ && ((e == RegistryError::UnknownId
                        && !old(self).has_id(def@.id)) || (e == RegistryError::DuplicateName
                        && old(self).has_id(def@.id) && taken)),
                }
            }),
    {
        match find_in_id_map(&self.id_map, def.id) {
            None => {
                proof {
                    assert forall|i: int| 0 <= i < self@.len() implies #[trigger] self@[i].id
                        != def@.id by {
                        assert(self.id_map@[i].0 == self@[i].id);
                    }
                }
                Err(RegistryError::UnknownId)
            },
            Some(k) => {
                let ghost prev = self@;
                proof {
                    let j = choose|j: int|
                        0 <= j < self.id_map@.len() && (#[trigger] self.id_map@[j]).0 == def@.id
                            && self.id_map@[j].1 == k;
                    assert(self@[j].id == def@.id);
                    assert(k == j);
                    assert(self.has_id(def@.id));
                    let i = self.idx_of_id(def@.id);
                    assert(self@[i].id == def@.id);
                    if i != k as int {
                        assert(self@[i].id != self@[k as int].id);
                        assert(false);
                    }
                }
                if name_taken_elsewhere(&self.name_map, &def.name, k) {
                    proof {
                        let j = choose|j: int|
                            0 <= j < self.name_map@.len() && j != k && (
                            #[trigger] self.name_map@[j]).0@ == def.name@;
                        assert(self@[j].name == def@.name);
                    }
                    return Err(RegistryError::DuplicateName);
                }
                proof {
                    assert forall|j: int|
                        0 <= j < self@.len() && j != k implies (#[trigger] self@[j]).name
                        != def@.name by {
                        assert(self.name_map@[j].0@ == self@[j].name);
                    }
                }
                let new_name = def.name.clone();
                self.name_map.set(k, (new_name, k));
                self.defs.set(k, def);
                proof {
                    assert(self@ =~= prev.update(k as int, def@));
                    assert forall|i: int, j: int| 0 <= i < j < self@.len() implies self@[i].id
                        != self@[j].id by {
                        assert(prev[i].id != prev[j].id);
                        assert(self@[i].id == prev[i].id && self@[j].id == prev[j].id);
                    }
                    if names_unique_in(prev) {
                        lemma_update_keeps_names_unique(prev, k as int, def@);
                    }
                }
                Ok(())
            },
        }
    }
}

/// Index consistency: looking a record's own id or name up yields that
/// record, for every record in a well-formed registry with unique
/// names.
pub proof fn lemma_index_consistency(lib: ItemLib, i: int)
    requires
        lib.wf(),
        lib.names_unique(),
        0 <= i < lib@.len(),
    ensures
        lib.spec_by_id(lib@[i].id) == Some(lib@[i]),
        lib.spec_by_name(lib@[i].name) == Some(lib@[i]),
{
    assert(lib.has_id(lib@[i].id));
    let j = lib.idx_of_id(lib@[i].id);
    assert(lib@[j].id == lib@[i].id);
    if i != j {
        assert(lib@[i].id != lib@[j].id);
    }
    assert(lib.has_name(lib@[i].name));
    let j2 = lib.idx_of_name(lib@[i].name);
    assert(lib@[j2].name == lib@[i].name);
    if i != j2 {
        assert(lib@[i].name != lib@[j2].name);
    }
}

/// A whole-slot replacement whose new name collides with no other slot
/// keeps names unique, so index consistency holds again after the
/// update.
pub proof fn lemma_update_keeps_names_unique(s: Seq<ItemDefView>, i: int, d: ItemDefView)
    requires
        names_unique_in(s),
        0 <= i < s.len(),
        forall|j: int| 0 <= j < s.len() && j != i ==> s[j].name != d.name,
    ensures
        names_unique_in(s.update(i, d)),
{
    let t = s.update(i, d);
    assert forall|a: int, b: int| 0 <= a < b < t.len() implies t[a].name != t[b].name by {
        if a != i && b != i {
            assert(t[a] == s[a] && t[b] == s[b]);
        } else if a == i {
            assert(t[a] == d && t[b] == s[b]);
        } else {
            assert(t[a] == s[a] && t[b] == d);
        }
    }
}

/// Index consistency after an update: in the updated registry the new
/// record is found under its own id and name, and every untouched
/// record is still found under its own.  The hypotheses are exactly
/// what a successful `update_def` ensures when the names were unique
/// before the call.
pub proof fn lemma_index_consistency_after_update(
    lib: ItemLib,
    prev: Seq<ItemDefView>,
    k: int,
    d: ItemDefView,
)
    requires
        lib.wf(),
        lib.names_unique(),
        0 <= k < prev.len(),
        lib@ == prev.update(k, d),
    ensures
        lib.spec_by_id(d.id) == Some(d),
        lib.spec_by_name(d.name) == Some(d),
        forall|i: int|
            0 <= i < prev.len() && i != k ==> #[trigger] lib.spec_by_id(prev[i].id) == Some(
                prev[i],
            ),
        forall|i: int|
            0 <= i < prev.len() && i != k ==> #[trigger] lib.spec_by_name(prev[i].name) == Some(
                prev[i],
            ),
{
    assert(lib@[k] == d);
    lemma_index_consistency(lib, k);
    assert forall|i: int|
        0 <= i < prev.len() && i != k implies #[trigger] lib.spec_by_id(prev[i].id) == Some(
        prev[i],
    ) by {
        assert(lib@[i] == prev[i]);
        lemma_index_consistency(lib, i);
    }
    assert forall|i: int|
        0 <= i < prev.len() && i != k implies #[trigger] lib.spec_by_name(prev[i].name) == Some(
        prev[i],
    ) by {
        assert(lib@[i] == prev[i]);
        lemma_index_consistency(lib, i);
    }
}

/// The mathematical contents of a sequence of aura records.
pub open spec fn aura_def_views(s: Seq<AuraDef>) -> Seq<AuraDefView> {
    s.map_values(|d: AuraDef| d@)
}

/// No two aura records carry the same id.
pub open spec fn aura_ids_unique(s: Seq<AuraDefView>) -> bool {
    forall|i: int, j: int| 0 <= i < j < s.len() ==> s[i].id != s[j].id
}

/// No two aura records carry the same name.
pub open spec fn aura_names_unique_in(s: Seq<AuraDefView>) -> bool {
    forall|i: int, j: int| 0 <= i < j < s.len() ==> s[i].name != s[j].name
}

/// The aura registry: the backing ordered collection of shared handles
/// and the two slot indices built over it.
#[derive(Debug)]
pub struct AuraLib {
    name_map: Vec<(String, usize)>,
    id_map: Vec<(u32, usize)>,
    pub defs: Vec<Arc<AuraDef>>,
}

impl View for AuraLib {
    type V = Seq<AuraDefView>;

    closed spec fn view(&self) -> Seq<AuraDefView> {
        self.defs@.map_values(|d: Arc<AuraDef>| d@)
    }
}

impl AuraLib {
    /// The registry's structural invariant: both indices run parallel
    /// to the backing collection, and ids are unique.
    pub closed spec fn wf(self) -> bool {
        &&& self.id_map@.len() == self.defs@.len()
        &&& self.name_map@.len() == self.defs@.len()
        &&& (forall|i: int|
            0 <= i < self.defs@.len() ==> (#[trigger] self.id_map@[i]).0 == self@[i].id
                && self.id_map@[i].1 == i)
        &&& (forall|i: int|
            0 <= i < self.defs@.len() ==> (#[trigger] self.name_map@[i]).0@ == self@[i].name
                && self.name_map@[i].1 == i)
        &&& aura_ids_unique(self@)
    }

    /// Names are unique across the collection; established at load.
    pub open spec fn names_unique(self) -> bool {
        aura_names_unique_in(self@)
    }

    /// Some record carries this id.
    pub open spec fn has_id(self, id: u32) -> bool {
        exists|i: int| 0 <= i < self@.len() && self@[i].id == id
    }

    /// The slot of the record with this id.
    pub open spec fn idx_of_id(self, id: u32) -> int {
        choose|i: int| 0 <= i < self@.len() && self@[i].id == id
    }

    /// The record with this id, if any.
    pub open spec fn spec_by_id(self, id: u32) -> Option<AuraDefView> {
        if self.has_id(id) {
            Some(self@[self.idx_of_id(id)])
        } else {
            None
        }
    }

    /// Some record carries this name.
    pub open spec fn has_name(self, name: Seq<char>) -> bool {
        exists|i: int| 0 <= i < self@.len() && self@[i].name == name
    }

    /// The slot of the record with this name.
    pub open spec fn idx_of_name(self, name: Seq<char>) -> int {
        choose|i: int| 0 <= i < self@.len() && self@[i].name == name
    }

    /// The record with this name, if any.
    pub open spec fn spec_by_name(self, name: Seq<char>) -> Option<AuraDefView> {
        if self.has_name(name) {
            Some(self@[self.idx_of_name(name)])
        } else {
            None
        }
    }
}

impl AuraLib {
    /// Builds a registry from records in source order: wraps each
    /// record in a shared handle and builds both indices.  Fails, and
    /// produces no partial registry, when the source data breaks the
    /// data model by repeating an id or a name.
    #[verifier::loop_isolation(false)]
    pub fn from_defs(defs: Vec<AuraDef>) -> (r: Result<AuraLib, RegistryError>)
        ensures
            match r {
                Ok(lib) => lib.wf() && lib.names_unique() && lib@ == aura_def_views(defs@),
                Err(e) => e == RegistryError::SourceMalformed && !(aura_ids_unique(aura_def_views(defs@))
                    && aura_names_unique_in(aura_def_views(defs@))),
            },
    {
        let ghost orig = aura_def_views(defs@);
        let mut rest = defs;
        let mut lib = AuraLib { name_map: Vec::new(), id_map: Vec::new(), defs: Vec::new() };
        proof {
            assert(lib@ =~= Seq::<AuraDefView>::empty());
            assert(lib@ + aura_def_views(rest@) =~= orig);
        }
        while rest.len() > 0
            invariant
                lib.wf(),
                lib.names_unique(),
                orig == lib@ + aura_def_views(rest@),
            decreases rest@.len(),
        {
            let ghost prev = lib@;
            let ghost rest_before = rest@;
            let d = rest.remove(0);
            proof {
                assert(aura_def_views(rest_before) =~= seq![d@] + aura_def_views(rest@));
                assert(orig =~= lib@ + seq![d@] + aura_def_views(rest@));
                assert(orig[prev.len() as int] == d@);
                assert(forall|t: int| 0 <= t < prev.len() ==> orig[t] == prev[t]);
            }
            match find_in_id_map(&lib.id_map, d.id) {
                Some(dup) => {
                    proof {
                        let j = choose|j: int|
                            0 <= j < lib.id_map@.len() && (#[trigger] lib.id_map@[j]).0 == d.id
                                && lib.id_map@[j].1 == dup;
                        assert(lib@[j].id == d@.id);
                        assert(orig[j].id == orig[prev.len() as int].id);
                        assert(!aura_ids_unique(orig));
                    }
                    return Err(RegistryError::SourceMalformed);
                },
                None => {},
            }
            match find_in_name_map(&lib.name_map, &d.name) {
                Some(dup) => {
                    proof {
                        let j = choose|j: int|
                            0 <= j < lib.name_map@.len() && (#[trigger] lib.name_map@[j]).0@
                                == d.name@ && lib.name_map@[j].1 == dup;
                        assert(lib@[j].name == d@.name);
                        assert(orig[j].name == orig[prev.len() as int].name);
                        assert(!aura_names_unique_in(orig));
                    }
                    return Err(RegistryError::SourceMalformed);
                },
                None => {},
            }
            proof {
                assert forall|t: int| 0 <= t < prev.len() implies prev[t].id != d@.id by {
                    assert(lib.id_map@[t].0 == lib@[t].id);
                }
                assert forall|t: int| 0 <= t < prev.len() implies prev[t].name != d@.name by {
                    assert(lib.name_map@[t].0@ == lib@[t].name);
                }
            }
            let k = lib.defs.len();
            lib.name_map.push((d.name.clone(), k));
            lib.id_map.push((d.id, k));
            lib.defs.push(Arc::new(d));
            proof {
                assert(lib@ =~= prev.push(d@));
                assert(orig =~= lib@ + aura_def_views(rest@));
                assert forall|i: int| 0 <= i < lib.defs@.len() implies (
                #[trigger] lib.id_map@[i]).0 == lib@[i].id && lib.id_map@[i].1 == i by {
                    if i < k {
                        assert(lib@[i] == prev[i]);
                    }
                }
                assert forall|i: int| 0 <= i < lib.defs@.len() implies (
                #[trigger] lib.name_map@[i]).0@ == lib@[i].name && lib.name_map@[i].1 == i by {
                    if i < k {
                        assert(lib@[i] == prev[i]);
                    }
                }
                assert forall|i: int, j: int| 0 <= i < j < lib@.len() implies lib@[i].id
                    != lib@[j].id by {
                    if j < k {
                        assert(lib@[i] == prev[i] && lib@[j] == prev[j]);
                    } else {
                        assert(lib@[i] == prev[i] && lib@[j] == d@);
                    }
                }
                assert forall|i: int, j: int| 0 <= i < j < lib@.len() implies lib@[i].name
                    != lib@[j].name by {
                    if j < k {
                        assert(lib@[i] == prev[i] && lib@[j] == prev[j]);
                    } else {
                        assert(lib@[i] == prev[i] && lib@[j] == d@);
                    }
                }
            }
        }
        proof {
            assert(aura_def_views(rest@) =~= Seq::<AuraDefView>::empty());
            assert(lib@ =~= orig);
        }
        Ok(lib)
    }

    /// Looks the id up in the id index and returns the record at the
    /// indexed slot.
    pub fn id(&self, id: u32) -> (r: Result<&AuraDef, RegistryError>)
        requires
            self.wf(),
        ensures
            match r {
                Ok(d) => self.spec_by_id(id) == Some(d@),
                Err(e) => e == RegistryError::UnknownId && self.spec_by_id(id) is None,
            },
    {
        match find_in_id_map(&self.id_map, id) {
            None => {
                proof {
                    assert forall|i: int| 0 <= i < self@.len() implies #[trigger] self@[i].id != id
                        by {
                        assert(self.id_map@[i].0 == self@[i].id);
                    }
                }
                Err(RegistryError::UnknownId)
            },
            Some(k) => {
                proof {
                    let j = choose|j: int|
                        0 <= j < self.id_map@.len() && (#[trigger] self.id_map@[j]).0 == id
                            && self.id_map@[j].1 == k;
                    assert(self@[j].id == id);
                    assert(k == j);
                    assert(self.has_id(id));
                    let i = self.idx_of_id(id);
                    assert(self@[i].id == id);
                    if i != k as int {
                        assert(self@[i].id != self@[k as int].id);
                        assert(false);
                    }
                }
                Ok(&self.defs[k])
            },
        }
    }

    /// Looks the name up in the name index and returns the shared
    /// handle at the indexed slot.
    pub fn name(&self, name: String) -> (r: Result<&Arc<AuraDef>, RegistryError>)
        requires
            self.wf(),
            self.names_unique(),
        ensures
            match r {
                Ok(d) => self.spec_by_name(name@) == Some(d@),
                Err(e) => e == RegistryError::UnknownName && self.spec_by_name(name@) is None,
            },
    {
        match find_in_name_map(&self.name_map, &name) {
            None => {
                proof {
                    assert forall|i: int| 0 <= i < self@.len() implies #[trigger] self@[i].name
                        != name@ by {
                        assert(self.name_map@[i].0@ == self@[i].name);
                    }
                }
                Err(RegistryError::UnknownName)
            },
            Some(k) => {
                proof {
                    let j = choose|j: int|
                        0 <= j < self.name_map@.len() && (#[trigger] self.name_map@[j]).0@ == name@
                            && self.name_map@[j].1 == k;
                    assert(self@[j].name == name@);
                    assert(k == j);
                    assert(self.has_name(name@));
                    let i = self.idx_of_name(name@);
                    assert(self@[i].name == name@);
                    if i != k as int {
                        assert(self@[i].name != self@[k as int].name);
                        assert(false);
                    }
                }
                Ok(&self.defs[k])
            },
        }
    }

    /// Replaces the slot indexed by the record's id with a new shared
    /// handle; the slot keeps its position and its id, and the name
    /// index is rebuilt for that slot.  Never inserts, and never lets
    /// two slots share one name: an unknown id or a name another slot
    /// already holds is a typed error and the registry is left
    /// unchanged.
    pub fn update_def(&mut self, def: Arc<AuraDef>) -> (r: Result<(), RegistryError>)
        requires
            old(self).wf(),
        ensures
            final(self).wf(),
            final(self)@.len() == old(self)@.len(),
            old(self).names_unique() ==> final(self).names_unique(),
            ({
                let k = old(self).idx_of_id(def@.id);
                let taken = exists|j: int|
                    0 <= j < old(self)@.len() && j != k && old(self)@[j].name == def@.name;
                match r {
                    Ok(_) => old(self).has_id(def@.id) && !taken && final(self)@ == old(
                        self,
                    )@.update(k, def@) && final(self)@[k].id == old(self)@[k].id,
                    Err(e) => final(self)@ == old(self)@ && ((e == RegistryError::UnknownId
                        && !old(self).has_id(def@.id)) || (e == RegistryError::DuplicateName
                        && old(self).has_id(def@.id) && taken)),
                }
            }),
    {
        match find_in_id_map(&self.id_map, def.id) {
            None => {
                proof {
                    assert forall|i: int| 0 <= i < self@.len() implies #[trigger] self@[i].id
                        != def@.id by {
                        assert(self.id_map@[i].0 == self@[i].id);
                    }
                }
                Err(RegistryError::UnknownId)
            },
            Some(k) => {
                let ghost prev = self@;
                proof {
                    let j = choose|j: int|
                        0 <= j < self.id_map@.len() && (#[trigger] self.id_map@[j]).0 == def@.id
                            && self.id_map@[j].1 == k;
                    assert(self@[j].id == def@.id);
                    assert(k == j);
                    assert(self.has_id(def@.id));
                    let i = self.idx_of_id(def@.id);
                    assert(self@[i].id == def@.id);
                    if i != k as int {
                        assert(self@[i].id != self@[k as int].id);
                        assert(false);
                    }
                }
                if name_taken_elsewhere(&self.name_map, &def.name, k) {
                    proof {
                        let j = choose|j: int|
                            0 <= j < self.name_map@.len() && j != k && (
                            #[trigger] self.name_map@[j]).0@ == def.name@;
                        assert(self@[j].name == def@.name);
                    }
                    return Err(RegistryError::DuplicateName);
                }
                proof {
                    assert forall|j: int|
                        0 <= j < self@.len() && j != k implies (#[trigger] self@[j]).name
                        != def@.name by {
                        assert(self.name_map@[j].0@ == self@[j].name);
                    }
                }
                let new_name = def.name.clone();
                self.name_map.set(k, (new_name, k));
                self.defs.set(k, def);
                proof {
                    assert(self@ =~= prev.update(k as int, def@));
                    assert forall|i: int, j: int| 0 <= i < j < self@.len() implies self@[i].id
                        != self@[j].id by {
                        assert(prev[i].id != prev[j].id);
                        assert(self@[i].id == prev[i].id && self@[j].id == prev[j].id);
                    }
                    if aura_names_unique_in(prev) {
                        lemma_aura_update_keeps_names_unique(prev, k as int, def@);
                    }
                }
                Ok(())
            },
        }
    }
}

/// Index consistency: looking a record's own id or name up yields that
/// record, for every record in a well-formed registry with unique
/// names.
pub proof fn lemma_aura_index_consistency(lib: AuraLib, i: int)
    requires
        lib.wf(),
        lib.names_unique(),
        0 <= i < lib@.len(),
    ensures
        lib.spec_by_id(lib@[i].id) == Some(lib@[i]),
        lib.spec_by_name(lib@[i].name) == Some(lib@[i]),
{
    assert(lib.has_id(lib@[i].id));
    let j = lib.idx_of_id(lib@[i].id);
    assert(lib@[j].id == lib@[i].id);
    if i != j {
        assert(lib@[i].id != lib@[j].id);
    }
    assert(lib.has_name(lib@[i].name));
    let j2 = lib.idx_of_name(lib@[i].name);
    assert(lib@[j2].name == lib@[i].name);
    if i != j2 {
        assert(lib@[i].name != lib@[j2].name);
    }
}

/// A whole-slot replacement whose new name collides with no other slot
/// keeps names unique, so index consistency holds again after the
/// update.
pub proof fn lemma_aura_update_keeps_names_unique(s: Seq<AuraDefView>, i: int, d: AuraDefView)
    requires
        aura_names_unique_in(s),
        0 <= i < s.len(),
        forall|j: int| 0 <= j < s.len() && j != i ==> s[j].name != d.name,
    ensures
        aura_names_unique_in(s.update(i, d)),
{
    let t = s.update(i, d);
    assert forall|a: int, b: int| 0 <= a < b < t.len() implies t[a].name != t[b].name by {
        if a != i && b != i {
            assert(t[a] == s[a] && t[b] == s[b]);
        } else if a == i {
            assert(t[a] == d && t[b] == s[b]);
        } else {
            assert(t[a] == s[a] && t[b] == d);
        }
    }
}

/// Index consistency after an update: in the updated registry the new
/// record is found under its own id and name, and every untouched
/// record is still found under its own.  The hypotheses are exactly
/// what a successful `update_def` ensures when the names were unique
/// before the call.
pub proof fn lemma_aura_index_consistency_after_update(
    lib: AuraLib,
    prev: Seq<AuraDefView>,
    k: int,
    d: AuraDefView,
)
    requires
        lib.wf(),
        lib.names_unique(),
        0 <= k < prev.len(),
        lib@ == prev.update(k, d),
    ensures
        lib.spec_by_id(d.id) == Some(d),
        lib.spec_by_name(d.name) == Some(d),
        forall|i: int|
            0 <= i < prev.len() && i != k ==> #[trigger] lib.spec_by_id(prev[i].id) == Some(
                prev[i],
            ),
        forall|i: int|
            0 <= i < prev.len() && i != k ==> #[trigger] lib.spec_by_name(prev[i].name) == Some(
                prev[i],
            ),
{
    assert(lib@[k] == d);
    lemma_aura_index_consistency(lib, k);
    assert forall|i: int|
        0 <= i < prev.len() && i != k implies #[trigger] lib.spec_by_id(prev[i].id) == Some(
        prev[i],
    ) by {
        assert(lib@[i] == prev[i]);
        lemma_aura_index_consistency(lib, i);
    }
    assert forall|i: int|
        0 <= i < prev.len() && i != k implies #[trigger] lib.spec_by_name(prev[i].name) == Some(
        prev[i],
    ) by {
        assert(lib@[i] == prev[i]);
        lemma_aura_index_consistency(lib, i);
    }
}

} // verus!
