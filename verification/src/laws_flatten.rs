//! Laws of flattening: the rows are exactly the rows of the nodes that
//! flattening reaches, each once.

use crate::flatten::{
    default_applies, flatten_node, flattened, row_of, Flat, Row,
};
use crate::model::{OptionView, Tree};
use crate::predicate::depends_holds;
use crate::value::json_text;
use crate::text::child_prefix;
use vstd::prelude::*;

verus! {

/// Flattening looks below a node that has children, no override, and no
/// default that stands in for one.
pub open spec fn descends(node: OptionView, all_config: Tree, features: Seq<Seq<char>>) -> bool {
    node.value is None && default_applies(node, all_config, features) == Some(false)
        && node.options is Some
}

/// The row that a node gives by itself: its override, else its default
/// where its `depends` holds. A node with neither gives none.
pub open spec fn own_row(
    name: Seq<char>,
    node: OptionView,
    all_config: Tree,
    features: Seq<Seq<char>>,
    prefix: Seq<char>,
) -> Option<Row> {
    match node.value {
        Some(v) => Some(row_of(prefix, name, json_text(v), node)),
        None => match node.default_value {
            Some(d) => if depends_holds(node.depends, all_config, features) == Some(true) {
                Some(row_of(prefix, name, json_text(d), node))
            } else {
                None
            },
            None => None,
        },
    }
}

/// The row of the node that a path of positions leads to, one position for
/// each level, where flattening reaches that node and the node gives a row.
pub open spec fn row_at(
    tree: Tree,
    path: Seq<int>,
    all_config: Tree,
    features: Seq<Seq<char>>,
    prefix: Seq<char>,
) -> Option<Row>
    decreases path.len(),
{
    if path.len() == 0 || !(0 <= path[0] < tree.len()) {
        None
    } else {
        let name = tree[path[0]].0;
        let node = tree[path[0]].1;
        if path.len() == 1 {
            own_row(name, node, all_config, features, prefix)
        } else if descends(node, all_config, features) {
            row_at(
                node.options->Some_0,
                path.drop_first(),
                all_config,
                features,
                child_prefix(prefix, name),
            )
        } else {
            None
        }
    }
}

/// The place among the rows at which the row of a path stands: after the
/// rows of the entries before it, and after the rows before it below.
pub open spec fn row_index(
    tree: Tree,
    path: Seq<int>,
    all_config: Tree,
    features: Seq<Seq<char>>,
    prefix: Seq<char>,
) -> int
    decreases path.len(),
{
    if path.len() == 0 || !(0 <= path[0] < tree.len()) {
        0
    } else {
        let before = flattened(tree, path[0], all_config, features, prefix).rows.len();
        if path.len() == 1 || tree[path[0]].1.options is None {
            before as int
        } else {
            before + row_index(
                tree[path[0]].1.options->Some_0,
                path.drop_first(),
                all_config,
                features,
                child_prefix(prefix, tree[path[0]].0),
            )
        }
    }
}

/// The rows of more entries begin with the rows of fewer, and a failure
/// among fewer is a failure among more.
pub proof fn lemma_rows_extend(
    tree: Tree,
    i: int,
    j: int,
    all_config: Tree,
    features: Seq<Seq<char>>,
    prefix: Seq<char>,
)
    requires
        0 <= i <= j <= tree.len(),
    ensures
        flattened(tree, i, all_config, features, prefix).rows.len() <= flattened(
            tree,
            j,
            all_config,
            features,
            prefix,
        ).rows.len(),
        forall|k: int|
            0 <= k < flattened(tree, i, all_config, features, prefix).rows.len()
                ==> #[trigger] flattened(tree, j, all_config, features, prefix).rows[k]
                == flattened(tree, i, all_config, features, prefix).rows[k],
        flattened(tree, j, all_config, features, prefix).error is None ==> flattened(
            tree,
            i,
            all_config,
            features,
            prefix,
        ).error is None,
    decreases j - i,
{
    if i < j {
        lemma_rows_extend(tree, i, j - 1, all_config, features, prefix);
    }
}

/// Completeness: where flattening does not fail, the row of every node that
/// it reaches stands among the rows, at the place that [`row_index`] gives.
pub proof fn lemma_flatten_complete(
    tree: Tree,
    path: Seq<int>,
    all_config: Tree,
    features: Seq<Seq<char>>,
    prefix: Seq<char>,
)
    requires
        flattened(tree, tree.len() as int, all_config, features, prefix).error is None,
        row_at(tree, path, all_config, features, prefix) is Some,
    ensures
        ({
            let rows = flattened(tree, tree.len() as int, all_config, features, prefix).rows;
            let at = row_index(tree, path, all_config, features, prefix);
            &&& flattened(tree, path[0], all_config, features, prefix).rows.len() <= at
            &&& at < flattened(tree, path[0] + 1, all_config, features, prefix).rows.len()
            &&& at < rows.len()
            &&& rows[at] == row_at(tree, path, all_config, features, prefix)->Some_0
        }),
    decreases path.len(),
{
    let i = path[0];
    let name = tree[i].0;
    let node = tree[i].1;
    let before = flattened(tree, i, all_config, features, prefix);
    let after = flattened(tree, i + 1, all_config, features, prefix);
    let own = flatten_node(name, node, all_config, features, prefix);
    lemma_rows_extend(tree, i + 1, tree.len() as int, all_config, features, prefix);
    lemma_rows_extend(tree, i, i + 1, all_config, features, prefix);
    assert(after == Flat { rows: before.rows + own.rows, error: own.error });
    let at = row_index(tree, path, all_config, features, prefix);
    if path.len() == 1 {
        assert(own.rows.len() == 1);
        assert(after.rows[at] == own.rows[0]);
    } else {
        let children = node.options->Some_0;
        assert(own == flattened(
            children,
            children.len() as int,
            all_config,
            features,
            child_prefix(prefix, name),
        ));
        lemma_flatten_complete(
            children,
            path.drop_first(),
            all_config,
            features,
            child_prefix(prefix, name),
        );
        let below = row_index(
            children,
            path.drop_first(),
            all_config,
            features,
            child_prefix(prefix, name),
        );
        assert(after.rows[at] == own.rows[below]);
    }
}

/// Soundness: every row is the row of a node that flattening reaches. The
/// result is a path to that node; a node that gives no row of its own, a
/// submenu among them, stands behind no row.
pub proof fn lemma_flatten_sound(
    tree: Tree,
    n: int,
    k: int,
    all_config: Tree,
    features: Seq<Seq<char>>,
    prefix: Seq<char>,
) -> (path: Seq<int>)
    requires
        0 <= n <= tree.len(),
        0 <= k < flattened(tree, n, all_config, features, prefix).rows.len(),
    ensures
        path.len() > 0,
        0 <= path[0] < n,
        row_at(tree, path, all_config, features, prefix) == Some(
            flattened(tree, n, all_config, features, prefix).rows[k],
        ),
        row_index(tree, path, all_config, features, prefix) == k,
    decreases tree, n,
{
    let before = flattened(tree, n - 1, all_config, features, prefix);
    if k < before.rows.len() {
        lemma_flatten_sound(tree, n - 1, k, all_config, features, prefix)
    } else {
        let name = tree[n - 1].0;
        let node = tree[n - 1].1;
        let own = flatten_node(name, node, all_config, features, prefix);
        let below = k - before.rows.len();
        assert(flattened(tree, n, all_config, features, prefix).rows[k] == own.rows[below]);
        if own_row(name, node, all_config, features, prefix) is Some {
            let path = seq![n - 1];
            assert(own.rows.len() == 1);
            path
        } else {
            let children = node.options->Some_0;
            let rest = lemma_flatten_sound(
                children,
                children.len() as int,
                below,
                all_config,
                features,
                child_prefix(prefix, name),
            );
            let path = seq![n - 1] + rest;
            assert(path.drop_first() =~= rest);
            path
        }
    }
}

/// Exactly once: the rows of two different nodes that flattening reaches
/// stand at different places.
pub proof fn lemma_flatten_once(
    tree: Tree,
    p: Seq<int>,
    q: Seq<int>,
    all_config: Tree,
    features: Seq<Seq<char>>,
    prefix: Seq<char>,
)
    requires
        flattened(tree, tree.len() as int, all_config, features, prefix).error is None,
        row_at(tree, p, all_config, features, prefix) is Some,
        row_at(tree, q, all_config, features, prefix) is Some,
        p != q,
    ensures
        row_index(tree, p, all_config, features, prefix) != row_index(
            tree,
            q,
            all_config,
            features,
            prefix,
        ),
    decreases p.len(),
{
    lemma_flatten_complete(tree, p, all_config, features, prefix);
    lemma_flatten_complete(tree, q, all_config, features, prefix);
    if p[0] < q[0] {
        lemma_rows_extend(tree, p[0] + 1, q[0], all_config, features, prefix);
    } else if q[0] < p[0] {
        lemma_rows_extend(tree, q[0] + 1, p[0], all_config, features, prefix);
    } else {
        let i = p[0];
        let name = tree[i].0;
        let node = tree[i].1;
        if p.len() == 1 && q.len() == 1 {
            assert(p =~= q);
        } else if p.len() == 1 || q.len() == 1 {
            assert(!descends(node, all_config, features));
        } else {
            let children = node.options->Some_0;
            let own = flatten_node(name, node, all_config, features, prefix);
            lemma_rows_extend(tree, i + 1, tree.len() as int, all_config, features, prefix);
            assert(own.error is None);
            if p.drop_first() == q.drop_first() {
                assert(p =~= seq![p[0]] + p.drop_first());
                assert(q =~= seq![q[0]] + q.drop_first());
            }
            lemma_flatten_once(
                children,
                p.drop_first(),
                q.drop_first(),
                all_config,
                features,
                child_prefix(prefix, name),
            );
        }
    }
}

} // verus!
