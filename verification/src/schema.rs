//! The path deriver: walks a record's declared field structure and
//! produces the ordered list of dotted leaf-field paths, depth-first in
//! declaration order.

use crate::codec::FieldKind;
use vstd::prelude::*;

verus! {

/// One declared field: its name and its structure.
pub struct SchemaField {
    pub name: String,
    pub node: SchemaNode,
}

/// The declared structure of a record type, fixed at compile time: a
/// leaf of one of the closed kinds, or a nested record with named
/// fields in declaration order.
pub enum SchemaNode {
    Leaf(FieldKind),
    Record(Vec<SchemaField>),
}

/// Appends a field name to a dotted prefix.
pub open spec fn join_path(prefix: Seq<char>, name: Seq<char>) -> Seq<char> {
    if prefix.len() == 0 {
        name
    } else {
        prefix + "."@ + name
    }
}

/// The leaf paths of a node: a leaf contributes the accumulated prefix,
/// a nested record the paths of its fields in declaration order.
pub open spec fn node_paths(node: SchemaNode, prefix: Seq<char>) -> Seq<Seq<char>>
    decreases node,
{
    match node {
        SchemaNode::Leaf(_) => seq![prefix],
        SchemaNode::Record(fields) => fields_paths(fields@, prefix),
    }
}

/// The concatenated leaf paths of a field list.
pub open spec fn fields_paths(fields: Seq<SchemaField>, prefix: Seq<char>) -> Seq<Seq<char>>
    decreases fields,
{
    if fields.len() == 0 {
        Seq::empty()
    } else {
        fields_paths(fields.drop_last(), prefix) + node_paths(
            fields.last().node,
            join_path(prefix, fields.last().name@),
        )
    }
}

/// The declared kinds of a node's leaves, in the same order as the
/// paths.
pub open spec fn node_kinds(node: SchemaNode) -> Seq<FieldKind>
    decreases node,
{
    match node {
        SchemaNode::Leaf(k) => seq![k],
        SchemaNode::Record(fields) => fields_kinds(fields@),
    }
}

/// The concatenated leaf kinds of a field list.
pub open spec fn fields_kinds(fields: Seq<SchemaField>) -> Seq<FieldKind>
    decreases fields,
{
    if fields.len() == 0 {
        Seq::empty()
    } else {
        fields_kinds(fields.drop_last()) + node_kinds(fields.last().node)
    }
}

/// A node derives as many kinds as paths, whatever the prefix.
pub proof fn lemma_node_paths_kinds_len(node: SchemaNode, prefix: Seq<char>)
    ensures
        node_paths(node, prefix).len() == node_kinds(node).len(),
    decreases node,
{
    match node {
        SchemaNode::Leaf(_) => {},
        SchemaNode::Record(fields) => {
            lemma_fields_paths_kinds_len(fields@, prefix);
        },
    }
}

/// A field list derives as many kinds as paths, whatever the prefix.
pub proof fn lemma_fields_paths_kinds_len(fields: Seq<SchemaField>, prefix: Seq<char>)
    ensures
        fields_paths(fields, prefix).len() == fields_kinds(fields).len(),
    decreases fields,
{
    if fields.len() > 0 {
        lemma_fields_paths_kinds_len(fields.drop_last(), prefix);
        lemma_node_paths_kinds_len(
            fields.last().node,
            join_path(prefix, fields.last().name@),
        );
    }
}

/// The views of a list of strings.
pub open spec fn views_of(ss: Seq<String>) -> Seq<Seq<char>> {
    ss.map_values(|s: String| s@)
}

/// Nesting depth of a node; the termination measure of the executable
/// walks.
pub open spec fn node_height(node: SchemaNode) -> nat
    decreases node,
{
    match node {
        SchemaNode::Leaf(_) => 0,
        SchemaNode::Record(fields) => fields_height(fields@) + 1,
    }
}

/// Largest nesting depth in a field list.
pub open spec fn fields_height(fields: Seq<SchemaField>) -> nat
    decreases fields,
{
    if fields.len() == 0 {
        0
    } else if fields_height(fields.drop_last()) >= node_height(fields.last().node) {
        fields_height(fields.drop_last())
    } else {
        node_height(fields.last().node)
    }
}

/// Every field's node is at most as deep as the list's height.
proof fn lemma_fields_height_bound(fields: Seq<SchemaField>, i: int)
    requires
        0 <= i < fields.len(),
    ensures
        node_height(fields[i].node) <= fields_height(fields),
    decreases fields,
{
    if i == fields.len() - 1 {
        assert(fields.last() == fields[i]);
    } else {
        lemma_fields_height_bound(fields.drop_last(), i);
        assert(fields.drop_last()[i] == fields[i]);
    }
}

/// Walks the declared fields depth-first, appending each leaf's dotted
/// path to `paths`.
pub fn get_def_paths_helper(def: &SchemaNode, current_path: &str, paths: &mut Vec<String>)
    ensures
        views_of(final(paths)@) == views_of(old(paths)@) + node_paths(*def, current_path@),
    decreases node_height(*def),
{
    match def {
        SchemaNode::Leaf(_) => {
            paths.push(current_path.to_owned());
            proof {
                assert(views_of(paths@) =~= views_of(old(paths)@) + seq![current_path@]);
            }
        },
        SchemaNode::Record(fields) => {
            let ghost prefix = current_path@;
            let mut i: usize = 0;
            while i < fields.len()
                invariant
                    i <= fields.len(),
                    prefix == current_path@,
                    def is Record,
                    def->Record_0@ == fields@,
                    views_of(paths@) == views_of(old(paths)@) + fields_paths(
                        fields@.take(i as int),
                        prefix,
                    ),
                decreases fields.len() - i,
            {
                let child_path: String = if current_path.is_empty() {
                    fields[i].name.clone()
                } else {
                    current_path.to_owned().concat(".").concat(fields[i].name.as_str())
                };
                proof {
                    assert(child_path@ == join_path(prefix, fields@[i as int].name@));
                    lemma_fields_height_bound(fields@, i as int);
                    assert(node_height(*def) == fields_height(fields@) + 1);
                }
                get_def_paths_helper(&fields[i].node, child_path.as_str(), paths);
                proof {
                    assert(fields@.take(i + 1).drop_last() =~= fields@.take(i as int));
                    assert(fields@.take(i + 1).last() == fields@[i as int]);
                    assert(views_of(paths@) =~= views_of(old(paths)@) + fields_paths(
                        fields@.take(i + 1),
                        prefix,
                    ));
                }
                i = i + 1;
            }
            proof {
                assert(fields@.take(fields@.len() as int) =~= fields@);
            }
        },
    }
}

/// Derives the ordered list of leaf paths of a record schema: the
/// ordering is deterministic, following field declaration order
/// depth-first.
pub fn get_def_paths(def: &SchemaNode) -> (r: Vec<String>)
    ensures
        views_of(r@) == node_paths(*def, Seq::empty()),
{
    let mut field_paths: Vec<String> = Vec::new();
    proof {
        reveal_strlit("");
        assert(""@ =~= Seq::<char>::empty());
        assert(views_of(field_paths@) =~= Seq::<Seq<char>>::empty());
    }
    get_def_paths_helper(def, "", &mut field_paths);
    field_paths
}

/// Walks the declared fields depth-first, appending each leaf's
/// declared kind to `kinds`.
fn get_def_kinds_helper(def: &SchemaNode, kinds: &mut Vec<FieldKind>)
    ensures
        final(kinds)@ == old(kinds)@ + node_kinds(*def),
    decreases node_height(*def),
{
    match def {
        SchemaNode::Leaf(k) => {
            kinds.push(*k);
            proof {
                assert(kinds@ =~= old(kinds)@ + seq![*k]);
            }
        },
        SchemaNode::Record(fields) => {
            let mut i: usize = 0;
            while i < fields.len()
                invariant
                    i <= fields.len(),
                    def is Record,
                    def->Record_0@ == fields@,
                    kinds@ == old(kinds)@ + fields_kinds(fields@.take(i as int)),
                decreases fields.len() - i,
            {
                proof {
                    lemma_fields_height_bound(fields@, i as int);
                    assert(node_height(*def) == fields_height(fields@) + 1);
                }
                get_def_kinds_helper(&fields[i].node, kinds);
                proof {
                    assert(fields@.take(i + 1).drop_last() =~= fields@.take(i as int));
                    assert(fields@.take(i + 1).last() == fields@[i as int]);
                    assert(kinds@ =~= old(kinds)@ + fields_kinds(fields@.take(i + 1)));
                }
                i = i + 1;
            }
            proof {
                assert(fields@.take(fields@.len() as int) =~= fields@);
            }
        },
    }
}

/// Derives the ordered list of leaf kinds of a record schema, parallel
/// to the derived paths.
pub fn get_def_kinds(def: &SchemaNode) -> (r: Vec<FieldKind>)
    ensures
        r@ == node_kinds(*def),
{
    let mut kinds: Vec<FieldKind> = Vec::new();
    proof {
        assert(kinds@ =~= Seq::<FieldKind>::empty());
    }
    get_def_kinds_helper(def, &mut kinds);
    kinds
}

/// Appending a field appends its leaf paths.
pub proof fn lemma_fields_paths_push(fields: Seq<SchemaField>, f: SchemaField, prefix: Seq<char>)
    ensures
        fields_paths(fields.push(f), prefix) == fields_paths(fields, prefix) + node_paths(
            f.node,
            join_path(prefix, f.name@),
        ),
{
    assert(fields.push(f).drop_last() =~= fields);
    assert(fields.push(f).last() == f);
}

/// Appending a field appends its leaf kinds.
pub proof fn lemma_fields_kinds_push(fields: Seq<SchemaField>, f: SchemaField)
    ensures
        fields_kinds(fields.push(f)) == fields_kinds(fields) + node_kinds(f.node),
{
    assert(fields.push(f).drop_last() =~= fields);
    assert(fields.push(f).last() == f);
}

/// The position of the first derived path equal to `path`, if any.
pub open spec fn first_index_of(paths: Seq<Seq<char>>, path: Seq<char>) -> Option<int>
    decreases paths.len(),
{
    if paths.len() == 0 {
        None
    } else if paths[0] == path {
        Some(0)
    } else {
        match first_index_of(paths.drop_first(), path) {
            Some(i) => Some(i + 1),
            None => None,
        }
    }
}

/// A found index names the first match; a miss means no path matches.
pub proof fn lemma_first_index_of_correct(paths: Seq<Seq<char>>, path: Seq<char>)
    ensures
        match first_index_of(paths, path) {
            Some(i) => 0 <= i < paths.len() && paths[i] == path && (forall|j: int|
                0 <= j < i ==> paths[j] != path),
            None => forall|j: int| 0 <= j < paths.len() ==> paths[j] != path,
        },
    decreases paths.len(),
{
    if paths.len() > 0 && paths[0] != path {
        lemma_first_index_of_correct(paths.drop_first(), path);
        match first_index_of(paths.drop_first(), path) {
            Some(i) => {
                assert(paths.drop_first()[i] == paths[i + 1]);
                assert forall|j: int| 0 <= j < i + 1 implies paths[j] != path by {
                    if j > 0 {
                        assert(paths.drop_first()[j - 1] == paths[j]);
                    }
                }
            },
            None => {
                assert forall|j: int| 0 <= j < paths.len() implies paths[j] != path by {
                    if j > 0 {
                        assert(paths.drop_first()[j - 1] == paths[j]);
                    }
                }
            },
        }
    }
}

/// Searching is insensitive to a prefix already known not to match.
proof fn lemma_first_index_of_skip(paths: Seq<Seq<char>>, path: Seq<char>, i: int)
    requires
        0 <= i <= paths.len(),
        forall|j: int| 0 <= j < i ==> paths[j] != path,
    ensures
        first_index_of(paths, path) == match first_index_of(paths.skip(i), path) {
            Some(k) => Some(i + k),
            None => None::<int>,
        },
    decreases i,
{
    if i == 0 {
        assert(paths.skip(0) =~= paths);
    } else {
        assert forall|j: int| 0 <= j < i - 1 implies paths.drop_first()[j] != path by {
            assert(paths.drop_first()[j] == paths[j + 1]);
        }
        lemma_first_index_of_skip(paths.drop_first(), path, i - 1);
        assert(paths.drop_first().skip(i - 1) =~= paths.skip(i));
    }
}

/// Resolves a dotted path against a record schema: the position of the
/// first matching derived path, with that leaf's declared kind.
pub fn resolve(def: &SchemaNode, path: &str) -> (r: Option<(usize, FieldKind)>)
    ensures
        ({
            let paths = node_paths(*def, Seq::empty());
            let kinds = node_kinds(*def);
            match r {
                Some(p) => first_index_of(paths, path@) == Some(p.0 as int) && p.0 < kinds.len()
                    && kinds[p.0 as int] == p.1,
                None => first_index_of(paths, path@) is None,
            }
        }),
{
    let paths = get_def_paths(def);
    let kinds = get_def_kinds(def);
    proof {
        lemma_node_paths_kinds_len(*def, Seq::empty());
    }
    let n = paths.len();
    let mut i: usize = 0;
    while i < n
        invariant
            i <= n,
            n == paths@.len(),
            views_of(paths@) == node_paths(*def, Seq::empty()),
            kinds@ == node_kinds(*def),
            paths@.len() == kinds@.len(),
            forall|j: int| 0 <= j < i ==> views_of(paths@)[j] != path@,
        decreases n - i,
    {
        if crate::text::str_eq(path, paths[i].as_str()) {
            proof {
                lemma_first_index_of_skip(views_of(paths@), path@, i as int);
                assert(views_of(paths@).skip(i as int)[0] == views_of(paths@)[i as int]);
            }
            return Some((i, kinds[i]));
        }
        i = i + 1;
    }
    proof {
        lemma_first_index_of_skip(views_of(paths@), path@, paths@.len() as int);
    }
    None
}

} // verus!
