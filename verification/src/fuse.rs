//! Fuse: merging the values of an override document into a definition tree.

use crate::model::{
    find_key, lemma_find_key, node_shape_ok, well_formed, Error, ErrorView, OptionMap, OptionView,
    Tree,
};
use crate::value::{fields_view, Json, Value};
use vstd::prelude::*;

verus! {

/// How fusing ended.
#[derive(Debug, Clone, Copy, PartialEq, Eq, Structural)]
pub enum FuseStatus {
    /// Every key of the override was found.
    Done,
    /// A key of the override names no option.
    UnknownKey,
    /// A submenu was given something that is neither an object nor nothing.
    Unsupported,
}

/// The tree as fusing leaves it, and how fusing ended. Fusing stops at the
/// first key that cannot be placed; what was placed before stays.
pub struct Fused {
    pub tree: Tree,
    pub status: FuseStatus,
}

/// The node with its override set.
pub open spec fn with_value(node: OptionView, value: Json) -> OptionView {
    OptionView { value: Some(value), ..node }
}

/// The node with other children.
pub open spec fn with_children(node: OptionView, children: Tree) -> OptionView {
    OptionView { options: Some(children), ..node }
}

/// Fusing an override value into one level of a tree: nothing to do for an
/// absent value, field by field for an object.
pub open spec fn fuse_value(value: Json, tree: Tree) -> Fused
    decreases value, 0int,
{
    match value {
        Json::Null => Fused { tree, status: FuseStatus::Done },
        Json::Object(fields) => fuse_fields(fields, fields.len() as int, tree),
        _ => Fused { tree, status: FuseStatus::Unsupported },
    }
}

/// Fusing the first `n` fields of an override object, in order. A field
/// whose key names a submenu is fused into the children of that submenu; a
/// field whose key names a leaf becomes the override of that leaf.
pub open spec fn fuse_fields(fields: Seq<(Seq<char>, Json)>, n: int, tree: Tree) -> Fused
    decreases fields, n,
{
    if n <= 0 || n > fields.len() {
        Fused { tree, status: FuseStatus::Done }
    } else {
        let before = fuse_fields(fields, n - 1, tree);
        if before.status is Done {
            fuse_field(fields[n - 1].0, fields[n - 1].1, before.tree)
        } else {
            before
        }
    }
}

/// Fusing one field of an override object.
pub open spec fn fuse_field(key: Seq<char>, value: Json, tree: Tree) -> Fused
    decreases value, 1int,
{
    match find_key(tree, key) {
        None => Fused { tree, status: FuseStatus::UnknownKey },
        Some(i) => match tree[i].1.options {
            Some(children) => {
                let inner = fuse_value(value, children);
                Fused {
                    tree: tree.update(i, (tree[i].0, with_children(tree[i].1, inner.tree))),
                    status: inner.status,
                }
            },
            None => Fused {
                tree: tree.update(i, (tree[i].0, with_value(tree[i].1, value))),
                status: FuseStatus::Done,
            },
        },
    }
}

/// Whether every key of the override, at every depth, names an option of the
/// tree.
pub open spec fn fuse_succeeds(value: Json, tree: Tree) -> bool {
    fuse_value(value, tree).status is Done
}

/// Once fusing has stopped, later fields change nothing.
pub proof fn lemma_fuse_stops(fields: Seq<(Seq<char>, Json)>, n: int, m: int, tree: Tree)
    requires
        0 <= n <= m <= fields.len(),
        !(fuse_fields(fields, n, tree).status is Done),
    ensures
        fuse_fields(fields, m, tree) == fuse_fields(fields, n, tree),
    decreases m - n,
{
    if n < m {
        lemma_fuse_stops(fields, n, m - 1, tree);
    }
}

/// Merges the values of `value` into `config` as far as that goes, and says
/// how it ended. Each field of the override object is looked up by its key; a
/// submenu takes the nested override, a leaf takes the value as its override.
pub fn fuse_walk(value: &Value, config: &mut OptionMap) -> (status: FuseStatus)
    ensures
        final(config)@ == fuse_value(value@, old(config)@).tree,
        status == fuse_value(value@, old(config)@).status,
    decreases value,
{
    match value {
        Value::Object(fields) => {
            let ghost all = fields_view(fields@);
            let ghost start = config@;
            let mut k: usize = 0;
            while k < fields.len()
                invariant
                    k <= fields.len(),
                    value is Object && value->Object_0 == *fields,
                    all == fields_view(fields@),
                    value@ == Json::Object(all),
                    start == old(config)@,
                    fuse_fields(all, k as int, start) == (Fused {
                        tree: config@,
                        status: FuseStatus::Done,
                    }),
                decreases fields.len() - k,
            {
                let ghost before = config@;
                let name = fields[k].0.as_str();
                let item = &fields[k].1;
                let ghost step = fuse_field(name@, item@, before);
                proof {
                    assert(all[k as int] == (fields@[k as int].0@, fields@[k as int].1@));
                    assert(fuse_fields(all, k + 1, start) == step);
                    lemma_find_key(before, name@);
                    if !(step.status is Done) {
                        lemma_fuse_stops(all, k + 1, fields.len() as int, start);
                    }
                    assert(fuse_value(value@, start) == fuse_fields(all, fields.len() as int, start));
                }
                match config.get_mut(name) {
                    None => {
                        assert(step == Fused { tree: before, status: FuseStatus::UnknownKey });
                        return FuseStatus::UnknownKey;
                    },
                    Some(c) => {
                        let ghost i = find_key(before, name@).unwrap();
                        let ghost node = before[i].1;
                        match &mut c.options {
                            Some(children) => {
                                assert(node.options == Some(children@));
                                let ghost inner = fuse_value(item@, children@);
                                assert(step.status == inner.status);
                                match fuse_walk(item, children) {
                                    FuseStatus::Done => {
                                        assert((*c)@ == with_children(node, inner.tree));
                                    },
                                    stopped => {
                                        assert((*c)@ == with_children(node, inner.tree));
                                        return stopped;
                                    },
                                }
                            },
                            None => {
                                assert(node.options is None);
                                c.__value = Some(item.duplicate());
                                assert((*c)@ == with_value(node, item@));
                            },
                        }
                    },
                }
                k = k + 1;
            }
            FuseStatus::Done
        },
        Value::Null => FuseStatus::Done,
        _ => FuseStatus::Unsupported,
    }
}

/// Merges the values of `value` into `config`. Stops with `InvalidKey` at the
/// first key that names no option; what was merged before stays.
pub fn fuse(value: &Value, config: &mut OptionMap) -> (r: Result<(), Error>)
    requires
        !(fuse_value(value@, old(config)@).status is Unsupported),
    ensures
        final(config)@ == fuse_value(value@, old(config)@).tree,
        r is Ok <==> fuse_succeeds(value@, old(config)@),
        r matches Err(e) ==> e@ == ErrorView::InvalidKey,
{
    match fuse_walk(value, config) {
        FuseStatus::Done => Ok(()),
        _ => Err(Error::InvalidKey),
    }
}

/// Whether `value` can be merged into `config`: whether no submenu is given
/// something that is neither an object nor nothing before merging ends.
pub fn fuse_supported(value: &Value, config: &OptionMap) -> (ok: bool)
    ensures
        ok == !(fuse_value(value@, config@).status is Unsupported),
{
    let mut copy = config.duplicate();
    match fuse_walk(value, &mut copy) {
        FuseStatus::Unsupported => false,
        _ => true,
    }
}

/// A node that is a typed leaf or a pure submenu stays one when fusing gives
/// it an override or other children.
pub proof fn lemma_fuse_field_well_formed(key: Seq<char>, value: Json, tree: Tree)
    requires
        well_formed(tree),
    ensures
        well_formed(fuse_field(key, value, tree).tree),
    decreases value, 1int,
{
    lemma_find_key(tree, key);
    match find_key(tree, key) {
        None => {},
        Some(i) => {
            let node = tree[i].1;
            assert(node_shape_ok(node));
            let after = fuse_field(key, value, tree).tree;
            match node.options {
                Some(children) => {
                    assert(well_formed(children));
                    lemma_fuse_value_well_formed(value, children);
                },
                None => {},
            }
            assert forall|j: int| 0 <= j < after.len() implies node_shape_ok(
                #[trigger] after[j].1,
            ) && (after[j].1.options matches Some(c) ==> well_formed(c)) by {
                if j != i {
                    assert(after[j] == tree[j]);
                    assert(node_shape_ok(tree[j].1));
                }
            }
        },
    }
}

/// Fusing keeps a tree well formed.
pub proof fn lemma_fuse_value_well_formed(value: Json, tree: Tree)
    requires
        well_formed(tree),
    ensures
        well_formed(fuse_value(value, tree).tree),
    decreases value, 0int,
{
    match value {
        Json::Object(fields) => lemma_fuse_fields_well_formed(fields, fields.len() as int, tree),
        _ => {},
    }
}

/// Fusing the first `n` fields keeps a tree well formed.
pub proof fn lemma_fuse_fields_well_formed(fields: Seq<(Seq<char>, Json)>, n: int, tree: Tree)
    requires
        well_formed(tree),
    ensures
        well_formed(fuse_fields(fields, n, tree).tree),
    decreases fields, n,
{
    if 0 < n <= fields.len() {
        lemma_fuse_fields_well_formed(fields, n - 1, tree);
        let before = fuse_fields(fields, n - 1, tree);
        if before.status is Done {
            lemma_fuse_field_well_formed(fields[n - 1].0, fields[n - 1].1, before.tree);
        }
    }
}

} // verus!
