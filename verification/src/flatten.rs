//! Flatten: the ordered list of rows that a tree resolves to.

use crate::model::{well_formed, Error, ErrorView, OptionMap, OptionView, Tree, ValueType};
use crate::predicate::{depends_holds, is_valid_depends};
use crate::text::{child_prefix, deeper, joined, texts};
use crate::value::json_text;
use vstd::prelude::*;
use vstd::string::*;

verus! {

/// One row of the effective configuration: the dotted path of an option, its
/// value as text, and its type.
pub type Row = (Seq<char>, Seq<char>, ValueType);

/// The contents of a list of rows.
pub open spec fn rows_view(rows: Seq<(String, String, ValueType)>) -> Seq<Row> {
    Seq::new(rows.len(), |i: int| (rows[i].0@, rows[i].1@, rows[i].2))
}

/// The contents of a list of rows without types.
pub open spec fn pairs_view(rows: Seq<(String, String)>) -> Seq<(Seq<char>, Seq<char>)> {
    Seq::new(rows.len(), |i: int| (rows[i].0@, rows[i].1@))
}

/// The rows that flattening gives, and the failure that stopped it, if one
/// did. The rows before a failure stay.
pub struct Flat {
    pub rows: Seq<Row>,
    pub error: Option<ErrorView>,
}

/// The row of a node.
pub open spec fn row_of(prefix: Seq<char>, name: Seq<char>, text: Seq<char>, node: OptionView) -> Row {
    (prefix + name, text, node.value_type->Some_0)
}

/// The rows of the first `n` entries of one level, depth first in insertion
/// order.
pub open spec fn flattened(
    tree: Tree,
    n: int,
    all_config: Tree,
    features: Seq<Seq<char>>,
    prefix: Seq<char>,
) -> Flat
    decreases tree, n,
{
    if n <= 0 || n > tree.len() {
        Flat { rows: Seq::empty(), error: None }
    } else {
        let before = flattened(tree, n - 1, all_config, features, prefix);
        if before.error is Some {
            before
        } else {
            let own = flatten_node(tree[n - 1].0, tree[n - 1].1, all_config, features, prefix);
            Flat { rows: before.rows + own.rows, error: own.error }
        }
    }
}

/// Whether the default of a node stands in for its missing override: it
/// does where the node has a default and its `depends` holds. `None` where
/// the expression cannot be evaluated; without a default it is not looked at.
pub open spec fn default_applies(node: OptionView, all_config: Tree, features: Seq<Seq<char>>) -> Option<
    bool,
> {
    match node.default_value {
        Some(_) => depends_holds(node.depends, all_config, features),
        None => Some(false),
    }
}

/// The rows of one node: its override if it has one; else its default, if it
/// has one and its `depends` holds; else, for a submenu, the rows of its
/// children under the extended prefix; else none.
pub open spec fn flatten_node(
    name: Seq<char>,
    node: OptionView,
    all_config: Tree,
    features: Seq<Seq<char>>,
    prefix: Seq<char>,
) -> Flat
    decreases node, 0int,
{
    match node.value {
        Some(v) => Flat { rows: seq![row_of(prefix, name, json_text(v), node)], error: None },
        None => match default_applies(node, all_config, features) {
            None => Flat {
                rows: Seq::empty(),
                error: Some(ErrorView::PredicateEvaluationFailure(prefix + name)),
            },
            Some(true) => Flat {
                rows: seq![row_of(prefix, name, json_text(node.default_value->Some_0), node)],
                error: None,
            },
            Some(false) => match node.options {
                Some(children) => flattened(
                    children,
                    children.len() as int,
                    all_config,
                    features,
                    child_prefix(prefix, name),
                ),
                None => Flat { rows: Seq::empty(), error: None },
            },
        },
    }
}

/// The rows of the explicit overrides among the first `n` entries of one
/// level: no default stands in for a missing override.
pub open spec fn current_rows(tree: Tree, n: int, prefix: Seq<char>) -> Seq<(Seq<char>, Seq<char>)>
    decreases tree, n,
{
    if n <= 0 || n > tree.len() {
        Seq::empty()
    } else {
        current_rows(tree, n - 1, prefix) + current_node_rows(tree[n - 1].0, tree[n - 1].1, prefix)
    }
}

/// The override of one node, or the overrides below it.
pub open spec fn current_node_rows(name: Seq<char>, node: OptionView, prefix: Seq<char>) -> Seq<
    (Seq<char>, Seq<char>),
>
    decreases node, 0int,
{
    match node.value {
        Some(v) => seq![(prefix + name, json_text(v))],
        None => match node.options {
            Some(children) => current_rows(
                children,
                children.len() as int,
                child_prefix(prefix, name),
            ),
            None => Seq::empty(),
        },
    }
}

/// After a failure nothing more is looked at.
pub proof fn lemma_flattened_stops(
    tree: Tree,
    n: int,
    m: int,
    all_config: Tree,
    features: Seq<Seq<char>>,
    prefix: Seq<char>,
)
    requires
        0 <= n <= m <= tree.len(),
        flattened(tree, n, all_config, features, prefix).error is Some,
    ensures
        flattened(tree, m, all_config, features, prefix) == flattened(
            tree,
            n,
            all_config,
            features,
            prefix,
        ),
    decreases m - n,
{
    if n < m {
        lemma_flattened_stops(tree, n, m - 1, all_config, features, prefix);
    }
}

/// Appends to `result` the rows of `config`, depth first: for each option
/// its override, else its default where its `depends` holds against
/// `all_config` and `features`, else the rows of its children. Fails at the
/// first expression that cannot be evaluated, naming the option by its
/// dotted path; the rows found before stay.
pub fn create_result(
    result: &mut Vec<(String, String, ValueType)>,
    config: &OptionMap,
    all_config: &OptionMap,
    features: &Vec<String>,
    prefix: String,
) -> (r: Result<(), Error>)
    requires
        well_formed(config@),
    ensures
        rows_view(final(result)@) == rows_view(old(result)@) + flattened(
            config@,
            config@.len() as int,
            all_config@,
            texts(features@),
            prefix@,
        ).rows,
        match flattened(
            config@,
            config@.len() as int,
            all_config@,
            texts(features@),
            prefix@,
        ).error {
            None => r is Ok,
            Some(e) => r matches Err(x) && x@ == e,
        },
    decreases config@,
{
    let items = config.entries();
    let ghost tree = config@;
    let ghost all = all_config@;
    let ghost names = texts(features@);
    let ghost start = rows_view(result@);
    let mut i: usize = 0;
    assert(start + Seq::<Row>::empty() =~= start);
    while i < items.len()
        invariant
            i <= items.len(),
            tree == config@,
            all == all_config@,
            names == texts(features@),
            start == rows_view(old(result)@),
            well_formed(tree),
            items.len() == tree.len(),
            forall|j: int|
                0 <= j < items.len() ==> (#[trigger] items[j]).0@ == tree[j].0 && items[j].1@
                    == tree[j].1,
            flattened(tree, i as int, all, names, prefix@).error is None,
            rows_view(result@) == start + flattened(tree, i as int, all, names, prefix@).rows,
        decreases items.len() - i,
    {
        let name = items[i].0.as_str();
        let item = items[i].1;
        let ghost node = tree[i as int].1;
        let ghost before = flattened(tree, i as int, all, names, prefix@);
        let ghost own = flatten_node(name@, node, all, names, prefix@);
        let ghost shown = rows_view(result@);
        proof {
            assert(item@ == node);
            assert(flattened(tree, i + 1, all, names, prefix@) == Flat {
                rows: before.rows + own.rows,
                error: own.error,
            });
            if own.error is Some {
                lemma_flattened_stops(tree, i + 1, tree.len() as int, all, names, prefix@);
            }
            assert(start + (before.rows + own.rows) =~= (start + before.rows) + own.rows);
        }
        match &item.__value {
            Some(value) => {
                let row = (
                    joined(prefix.as_str(), name),
                    value.to_text(),
                    item.value_type.unwrap(),
                );
                result.push(row);
                assert(rows_view(result@) =~= shown + own.rows);
            },
            None => {
                let applies = match &item.default_value {
                    Some(_) => is_valid_depends(&item.depends, all_config, features),
                    None => Some(false),
                };
                match applies {
                    None => {
                        assert(rows_view(result@) =~= shown + own.rows);
                        return Err(
                            Error::PredicateEvaluationFailure(joined(prefix.as_str(), name)),
                        );
                    },
                    Some(true) => {
                        match &item.default_value {
                            Some(value) => {
                                let row = (
                                    joined(prefix.as_str(), name),
                                    value.to_text(),
                                    item.value_type.unwrap(),
                                );
                                result.push(row);
                                assert(rows_view(result@) =~= shown + own.rows);
                            },
                            None => {},
                        }
                    },
                    Some(false) => {
                        match &item.options {
                            Some(children) => {
                                assert(node.options->Some_0 == children@);
                                match create_result(
                                    result,
                                    children,
                                    all_config,
                                    features,
                                    deeper(prefix.as_str(), name),
                                ) {
                                    Ok(()) => {},
                                    Err(e) => {
                                        return Err(e);
                                    },
                                }
                            },
                            None => {
                                assert(rows_view(result@) =~= shown + own.rows);
                            },
                        }
                    },
                }
            },
        }
        i = i + 1;
    }
    Ok(())
}

/// Appends to `result` the explicit overrides of `config`, depth first, each
/// with its dotted path. Defaults are not looked at.
pub fn create_current_config_result(
    result: &mut Vec<(String, String)>,
    config: &OptionMap,
    prefix: String,
)
    ensures
        pairs_view(final(result)@) == pairs_view(old(result)@) + current_rows(
            config@,
            config@.len() as int,
            prefix@,
        ),
    decreases config@,
{
    let items = config.entries();
    let ghost tree = config@;
    let ghost start = pairs_view(result@);
    let mut i: usize = 0;
    assert(start + Seq::<(Seq<char>, Seq<char>)>::empty() =~= start);
    while i < items.len()
        invariant
            i <= items.len(),
            tree == config@,
            start == pairs_view(old(result)@),
            items.len() == tree.len(),
            forall|j: int|
                0 <= j < items.len() ==> (#[trigger] items[j]).0@ == tree[j].0 && items[j].1@
                    == tree[j].1,
            pairs_view(result@) == start + current_rows(tree, i as int, prefix@),
        decreases items.len() - i,
    {
        let name = items[i].0.as_str();
        let item = items[i].1;
        let ghost node = tree[i as int].1;
        let ghost before = current_rows(tree, i as int, prefix@);
        let ghost own = current_node_rows(name@, node, prefix@);
        let ghost shown = pairs_view(result@);
        proof {
            assert(item@ == node);
            assert(current_rows(tree, i + 1, prefix@) == before + own);
            assert(start + (before + own) =~= (start + before) + own);
        }
        match &item.__value {
            Some(value) => {
                let row = (joined(prefix.as_str(), name), value.to_text());
                result.push(row);
                assert(pairs_view(result@) =~= shown + own);
            },
            None => {
                match &item.options {
                    Some(children) => {
                        assert(node.options->Some_0 == children@);
                        create_current_config_result(
                            result,
                            children,
                            deeper(prefix.as_str(), name),
                        );
                    },
                    None => {
                        assert(pairs_view(result@) =~= shown + own);
                    },
                }
            },
        }
        i = i + 1;
    }
}

} // verus!
