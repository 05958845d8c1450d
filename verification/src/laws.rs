//! Laws of the pipeline, each proved from the definitions of the passes.

use crate::enums::{numeric_char, pascal_case, variant_marker, variant_name, variant_names};
use crate::flatten::{
    current_node_rows, current_rows, flatten_node, flattened, Flat, Row,
};
use crate::fuse::with_children;
use crate::model::{ErrorView, ItemView, OptionView, Tree};
use crate::predicate::depends_holds;
use crate::prune::{prune_node, pruned};
use crate::validate::{reach, validate_node};
use crate::text::child_prefix;
use vstd::prelude::*;

verus! {

/// What is kept of the first `n` entries depends on those entries alone.
pub proof fn lemma_pruned_prefix(
    a: Tree,
    b: Tree,
    n: int,
    all_config: Tree,
    features: Seq<Seq<char>>,
    prefix: Seq<char>,
)
    requires
        0 <= n <= a.len(),
        n <= b.len(),
        forall|i: int| 0 <= i < n ==> a[i] == b[i],
    ensures
        pruned(a, n, all_config, features, prefix) == pruned(b, n, all_config, features, prefix),
    decreases n,
{
    if n > 0 {
        lemma_pruned_prefix(a, b, n - 1, all_config, features, prefix);
    }
}

/// What pruning has kept of the first `n` entries, pruning against the same
/// tree and features keeps unchanged.
pub proof fn lemma_prune_idempotent(
    part: Tree,
    n: int,
    all_config: Tree,
    features: Seq<Seq<char>>,
    prefix: Seq<char>,
)
    requires
        0 <= n <= part.len(),
        pruned(part, n, all_config, features, prefix) is Ok,
    ensures
        ({
            let kept = pruned(part, n, all_config, features, prefix)->Ok_0;
            pruned(kept, kept.len() as int, all_config, features, prefix) == Ok::<Tree, ErrorView>(
                kept,
            )
        }),
    decreases part, n,
{
    let kept = pruned(part, n, all_config, features, prefix)->Ok_0;
    if n > 0 {
        let before = pruned(part, n - 1, all_config, features, prefix)->Ok_0;
        lemma_prune_idempotent(part, n - 1, all_config, features, prefix);
        let name = part[n - 1].0;
        let node = part[n - 1].1;
        let own = prune_node(name, node, all_config, features, prefix)->Ok_0;
        match own {
            None => {
                assert(kept == before);
            },
            Some(stays) => {
                assert(kept == before.push((name, stays)));
                lemma_pruned_prefix(
                    kept,
                    before,
                    before.len() as int,
                    all_config,
                    features,
                    prefix,
                );
                match node.options {
                    Some(children) => {
                        lemma_prune_idempotent(
                            children,
                            children.len() as int,
                            all_config,
                            features,
                            child_prefix(prefix, name),
                        );
                        let rest = pruned(
                            children,
                            children.len() as int,
                            all_config,
                            features,
                            child_prefix(prefix, name),
                        )->Ok_0;
                        assert(stays == with_children(node, rest));
                        assert(with_children(stays, rest) == stays);
                    },
                    None => {
                        assert(stays == node);
                    },
                }
                assert(prune_node(name, stays, all_config, features, prefix) == Ok::<
                    Option<OptionView>,
                    ErrorView,
                >(Some(stays)));
                assert(kept[kept.len() - 1] == (name, stays));
            },
        }
    } else {
        assert(kept =~= Seq::empty());
    }
}

/// Pruning is idempotent: pruning what pruning has kept, against the same
/// tree and the same features, gives it back unchanged.
pub proof fn lemma_prune_twice(tree: Tree, all_config: Tree, features: Seq<Seq<char>>)
    requires
        pruned(tree, tree.len() as int, all_config, features, Seq::empty()) is Ok,
    ensures
        ({
            let kept = pruned(tree, tree.len() as int, all_config, features, Seq::empty())->Ok_0;
            pruned(kept, kept.len() as int, all_config, features, Seq::empty()) == Ok::<
                Tree,
                ErrorView,
            >(kept)
        }),
{
    lemma_prune_idempotent(tree, tree.len() as int, all_config, features, Seq::empty());
}

/// An override of an option that is not reachable is rejected as
/// inapplicable, with the dotted path of the option, whatever the `valid`
/// expression of the option is.
pub proof fn lemma_unreachable_override_rejected(
    name: Seq<char>,
    node: OptionView,
    all_config: Tree,
    features: Seq<Seq<char>>,
    take: bool,
    prefix: Seq<char>,
)
    requires
        node.value is Some,
        reach(take, depends_holds(node.depends, all_config, features)) == Some(false),
    ensures
        validate_node(name, node, all_config, features, take, prefix) == Err::<(), ErrorView>(
            ErrorView::InvalidConfiguration(prefix + name),
        ),
{
}

/// Every declared enumeration value gives exactly one variant identifier,
/// in declaration order, and a value that starts with a number is given
/// the marker before it is put in Pascal case.
pub proof fn lemma_variant_names(values: Seq<ItemView>, n: int)
    requires
        0 <= n <= values.len(),
    ensures
        variant_names(values, n).len() == n,
        forall|k: int|
            0 <= k < n ==> #[trigger] variant_names(values, n)[k] == variant_name(
                values[k].value,
            ),
        forall|k: int|
            0 <= k < n && numeric_char(values[k].value[0]) ==> #[trigger] variant_names(
                values,
                n,
            )[k] == pascal_case(variant_marker() + values[k].value),
    decreases n,
{
    if n > 0 {
        lemma_variant_names(values, n - 1);
    }
}

/// No node of the tree, at any depth, has a default.
pub open spec fn without_defaults(tree: Tree) -> bool
    decreases tree,
{
    forall|i: int|
        0 <= i < tree.len() ==> (#[trigger] tree[i].1).default_value is None && (
        tree[i].1.options matches Some(children) ==> without_defaults(children))
}

/// A row without its type.
pub open spec fn untyped(rows: Seq<Row>) -> Seq<(Seq<char>, Seq<char>)> {
    Seq::new(rows.len(), |i: int| (rows[i].0, rows[i].1))
}

/// Over a tree that holds explicit values only, flattening gives exactly
/// those values: the rows of the effective configuration are the rows of
/// the current values, and no expression is evaluated.
pub proof fn lemma_explicit_values_only(
    tree: Tree,
    n: int,
    all_config: Tree,
    features: Seq<Seq<char>>,
    prefix: Seq<char>,
)
    requires
        0 <= n <= tree.len(),
        without_defaults(tree),
    ensures
        flattened(tree, n, all_config, features, prefix).error is None,
        untyped(flattened(tree, n, all_config, features, prefix).rows) == current_rows(
            tree,
            n,
            prefix,
        ),
    decreases tree, n,
{
    if n > 0 {
        lemma_explicit_values_only(tree, n - 1, all_config, features, prefix);
        let name = tree[n - 1].0;
        let node = tree[n - 1].1;
        assert(node.default_value is None);
        let before = flattened(tree, n - 1, all_config, features, prefix);
        let own = flatten_node(name, node, all_config, features, prefix);
        match node.value {
            Some(v) => {
                assert(untyped(own.rows) =~= current_node_rows(name, node, prefix));
            },
            None => match node.options {
                Some(children) => {
                    assert(without_defaults(children));
                    lemma_explicit_values_only(
                        children,
                        children.len() as int,
                        all_config,
                        features,
                        child_prefix(prefix, name),
                    );
                    assert(untyped(own.rows) == current_node_rows(name, node, prefix));
                },
                None => {
                    assert(untyped(own.rows) =~= current_node_rows(name, node, prefix));
                },
            },
        }
        assert(own.error is None);
        assert(flattened(tree, n, all_config, features, prefix) == Flat {
            rows: before.rows + own.rows,
            error: own.error,
        });
        assert(current_rows(tree, n, prefix) == current_rows(tree, n - 1, prefix)
            + current_node_rows(name, node, prefix));
        assert(untyped(before.rows + own.rows) =~= untyped(before.rows) + untyped(own.rows));
    } else {
        assert(untyped(flattened(tree, n, all_config, features, prefix).rows) =~= current_rows(
            tree,
            n,
            prefix,
        ));
    }
}

/// The tree with the default of every node taken away.
pub open spec fn strip_defaults(tree: Tree) -> Tree
    decreases tree,
{
    Seq::new(
        tree.len(),
        |i: int|
            if 0 <= i < tree.len() {
                (tree[i].0, strip_node(tree[i].1))
            } else {
                (Seq::empty(), arbitrary())
            },
    )
}

/// The node with its default and those of the nodes below taken away.
pub open spec fn strip_node(node: OptionView) -> OptionView
    decreases node,
{
    OptionView {
        default_value: None,
        options: match node.options {
            Some(children) => Some(strip_defaults(children)),
            None => None,
        },
        ..node
    }
}

/// The current values do not depend on defaults: no default stands in for
/// a missing override.
pub proof fn lemma_current_rows_ignore_defaults(tree: Tree, n: int, prefix: Seq<char>)
    requires
        0 <= n <= tree.len(),
    ensures
        current_rows(strip_defaults(tree), n, prefix) == current_rows(tree, n, prefix),
    decreases tree, n,
{
    if n > 0 {
        lemma_current_rows_ignore_defaults(tree, n - 1, prefix);
        let name = tree[n - 1].0;
        let node = tree[n - 1].1;
        let bare = strip_defaults(tree);
        assert(bare.len() == tree.len());
        assert(bare[n - 1] == (name, strip_node(node)));
        match node.options {
            Some(children) => {
                lemma_current_rows_ignore_defaults(
                    children,
                    children.len() as int,
                    child_prefix(prefix, name),
                );
                assert(strip_defaults(children).len() == children.len());
                assert(strip_node(node).options == Some(strip_defaults(children)));
            },
            None => {
                assert(strip_node(node).options is None);
            },
        }
        assert(strip_node(node).value == node.value);
        assert(current_node_rows(name, strip_node(node), prefix) == current_node_rows(
            name,
            node,
            prefix,
        ));
    } else {
        assert(strip_defaults(tree).len() == tree.len());
    }
}

} // verus!
