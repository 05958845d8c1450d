//! Laws of fusing: it succeeds exactly where every key of the override names
//! an option of the definition.

use crate::fuse::{fuse_field, fuse_fields, fuse_value};
use crate::model::{find_key, lemma_find_key, OptionView, Tree};
use crate::value::Json;
use vstd::prelude::*;

verus! {

/// Two trees have the same keys in the same places, and submenus in the
/// same places, at every depth.
pub open spec fn same_keys(a: Tree, b: Tree) -> bool
    decreases a,
{
    a.len() == b.len() && forall|i: int|
        0 <= i < a.len() ==> (#[trigger] a[i]).0 == b[i].0 && same_kind(a[i].1, b[i].1)
}

/// Two nodes are both leaves, or both submenus with the same keys below.
pub open spec fn same_kind(a: OptionView, b: OptionView) -> bool
    decreases a,
{
    match a.options {
        Some(children) => b.options is Some && same_keys(children, b.options->Some_0),
        None => b.options is None,
    }
}

/// Every key of the override, at every depth, names an option of the tree.
pub open spec fn keys_known(value: Json, tree: Tree) -> bool
    decreases value, 0int,
{
    match value {
        Json::Object(fields) => forall|k: int|
            0 <= k < fields.len() ==> field_known((#[trigger] fields[k]).0, fields[k].1, tree),
        _ => true,
    }
}

/// The key names an option, and what is given to a submenu names options of
/// that submenu.
pub open spec fn field_known(key: Seq<char>, value: Json, tree: Tree) -> bool
    decreases value, 1int,
{
    match find_key(tree, key) {
        None => false,
        Some(i) => match tree[i].1.options {
            Some(children) => keys_known(value, children),
            None => true,
        },
    }
}

/// The override gives every submenu that it names an object or nothing, at
/// every depth.
pub open spec fn shape_supported(value: Json, tree: Tree) -> bool
    decreases value, 0int,
{
    match value {
        Json::Null => true,
        Json::Object(fields) => forall|k: int|
            0 <= k < fields.len() ==> field_supported(
                (#[trigger] fields[k]).0,
                fields[k].1,
                tree,
            ),
        _ => false,
    }
}

/// A field that names a submenu gives it an object or nothing.
pub open spec fn field_supported(key: Seq<char>, value: Json, tree: Tree) -> bool
    decreases value, 1int,
{
    match find_key(tree, key) {
        None => true,
        Some(i) => match tree[i].1.options {
            Some(children) => shape_supported(value, children),
            None => true,
        },
    }
}

/// A tree has the same keys as itself.
pub proof fn lemma_same_keys_reflexive(a: Tree)
    ensures
        same_keys(a, a),
    decreases a,
{
    assert forall|i: int| 0 <= i < a.len() implies (#[trigger] a[i]).0 == a[i].0 && same_kind(
        a[i].1,
        a[i].1,
    ) by {
        match a[i].1.options {
            Some(children) => lemma_same_keys_reflexive(children),
            None => {},
        }
    }
}

/// Having the same keys carries over.
pub proof fn lemma_same_keys_transitive(a: Tree, b: Tree, c: Tree)
    requires
        same_keys(a, b),
        same_keys(b, c),
    ensures
        same_keys(a, c),
    decreases a,
{
    assert forall|i: int| 0 <= i < a.len() implies (#[trigger] a[i]).0 == c[i].0 && same_kind(
        a[i].1,
        c[i].1,
    ) by {
        assert(a[i].0 == b[i].0 && same_kind(a[i].1, b[i].1));
        assert(b[i].0 == c[i].0 && same_kind(b[i].1, c[i].1));
        match a[i].1.options {
            Some(children) => lemma_same_keys_transitive(
                children,
                b[i].1.options->Some_0,
                c[i].1.options->Some_0,
            ),
            None => {},
        }
    }
}

/// In trees with the same keys a key stands at the same place.
pub proof fn lemma_same_keys_find(a: Tree, b: Tree, key: Seq<char>)
    requires
        same_keys(a, b),
    ensures
        find_key(a, key) == find_key(b, key),
    decreases a.len(),
{
    if a.len() > 0 {
        let front_a = a.drop_last();
        let front_b = b.drop_last();
        assert forall|i: int| 0 <= i < front_a.len() implies (#[trigger] front_a[i]).0
            == front_b[i].0 && same_kind(front_a[i].1, front_b[i].1) by {
            assert(a[i].0 == b[i].0 && same_kind(a[i].1, b[i].1));
        }
        lemma_same_keys_find(front_a, front_b, key);
        assert(a[a.len() - 1].0 == b[a.len() - 1].0);
    }
}

/// Whether the keys of an override are known, and whether its shape is
/// supported, depends on the keys of the tree alone.
pub proof fn lemma_same_keys_known(value: Json, a: Tree, b: Tree)
    requires
        same_keys(a, b),
    ensures
        keys_known(value, a) == keys_known(value, b),
        shape_supported(value, a) == shape_supported(value, b),
    decreases value, 0int,
{
    match value {
        Json::Object(fields) => {
            assert forall|k: int| 0 <= k < fields.len() implies field_known(
                (#[trigger] fields[k]).0,
                fields[k].1,
                a,
            ) == field_known(fields[k].0, fields[k].1, b) && field_supported(
                fields[k].0,
                fields[k].1,
                a,
            ) == field_supported(fields[k].0, fields[k].1, b) by {
                lemma_same_keys_field(fields[k].0, fields[k].1, a, b);
            }
        },
        _ => {},
    }
}

/// The same for one field.
pub proof fn lemma_same_keys_field(key: Seq<char>, value: Json, a: Tree, b: Tree)
    requires
        same_keys(a, b),
    ensures
        field_known(key, value, a) == field_known(key, value, b),
        field_supported(key, value, a) == field_supported(key, value, b),
    decreases value, 1int,
{
    lemma_same_keys_find(a, b, key);
    lemma_find_key(a, key);
    match find_key(a, key) {
        None => {},
        Some(i) => {
            assert(a[i].0 == b[i].0 && same_kind(a[i].1, b[i].1));
            match a[i].1.options {
                Some(children) => lemma_same_keys_known(value, children, b[i].1.options->Some_0),
                None => {},
            }
        },
    }
}

/// Fusing a value keeps the keys of the tree, succeeds exactly where the
/// keys of a supported override are known, and gives up only on an
/// unsupported shape.
pub proof fn lemma_fuse_value_keys(value: Json, tree: Tree)
    ensures
        same_keys(tree, fuse_value(value, tree).tree),
        shape_supported(value, tree) ==> !(fuse_value(value, tree).status is Unsupported),
        fuse_value(value, tree).status is Done ==> keys_known(value, tree),
        shape_supported(value, tree) && keys_known(value, tree) ==> fuse_value(
            value,
            tree,
        ).status is Done,
    decreases value, 0int,
{
    match value {
        Json::Object(fields) => {
            lemma_fuse_fields_keys(fields, fields.len() as int, tree);
        },
        _ => {
            lemma_same_keys_reflexive(tree);
        },
    }
}

/// The same for the first `n` fields of an override object.
pub proof fn lemma_fuse_fields_keys(fields: Seq<(Seq<char>, Json)>, n: int, tree: Tree)
    requires
        0 <= n <= fields.len(),
    ensures
        same_keys(tree, fuse_fields(fields, n, tree).tree),
        (forall|k: int| 0 <= k < n ==> field_supported((#[trigger] fields[k]).0, fields[k].1, tree))
            ==> !(fuse_fields(fields, n, tree).status is Unsupported),
        fuse_fields(fields, n, tree).status is Done ==> forall|k: int|
            0 <= k < n ==> field_known((#[trigger] fields[k]).0, fields[k].1, tree),
        (forall|k: int|
            0 <= k < n ==> field_supported((#[trigger] fields[k]).0, fields[k].1, tree)
                && field_known(fields[k].0, fields[k].1, tree)) ==> fuse_fields(
            fields,
            n,
            tree,
        ).status is Done,
    decreases fields, n,
{
    if n == 0 {
        lemma_same_keys_reflexive(tree);
    } else {
        lemma_fuse_fields_keys(fields, n - 1, tree);
        let before = fuse_fields(fields, n - 1, tree);
        let key = fields[n - 1].0;
        let value = fields[n - 1].1;
        if before.status is Done {
            lemma_fuse_field_keys(key, value, before.tree);
            lemma_same_keys_transitive(
                tree,
                before.tree,
                fuse_field(key, value, before.tree).tree,
            );
            lemma_same_keys_field(key, value, tree, before.tree);
        }
    }
}

/// The same for one field.
pub proof fn lemma_fuse_field_keys(key: Seq<char>, value: Json, tree: Tree)
    ensures
        same_keys(tree, fuse_field(key, value, tree).tree),
        field_supported(key, value, tree) ==> !(fuse_field(key, value, tree).status is Unsupported),
        fuse_field(key, value, tree).status is Done ==> field_known(key, value, tree),
        field_supported(key, value, tree) && field_known(key, value, tree) ==> fuse_field(
            key,
            value,
            tree,
        ).status is Done,
    decreases value, 1int,
{
    lemma_find_key(tree, key);
    lemma_same_keys_reflexive(tree);
    match find_key(tree, key) {
        None => {},
        Some(i) => {
            let node = tree[i].1;
            let after = fuse_field(key, value, tree).tree;
            match node.options {
                Some(children) => {
                    lemma_fuse_value_keys(value, children);
                },
                None => {},
            }
            assert forall|j: int| 0 <= j < tree.len() implies (#[trigger] tree[j]).0
                == after[j].0 && same_kind(tree[j].1, after[j].1) by {
                if j != i {
                    assert(after[j] == tree[j]);
                    assert(same_kind(tree[j].1, tree[j].1));
                }
            }
        },
    }
}

/// Fusing is key-exhaustive: an override of supported shape is fused to the
/// end exactly where every one of its keys names an option of the
/// definition, and stops at an unknown key otherwise.
pub proof fn lemma_fuse_key_exhaustive(value: Json, tree: Tree)
    requires
        shape_supported(value, tree),
    ensures
        keys_known(value, tree) ==> fuse_value(value, tree).status is Done,
        !keys_known(value, tree) ==> fuse_value(value, tree).status is UnknownKey,
{
    lemma_fuse_value_keys(value, tree);
}

} // verus!
