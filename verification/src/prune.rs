//! Prune: dropping the options whose own `depends` does not hold.

use crate::fuse::with_children;
use crate::model::{
    find_key, lemma_find_key, node_shape_ok, well_formed, Error, ErrorView, OptionMap, OptionView,
    Tree,
};
use crate::predicate::{depends_holds, is_valid_depends};
use crate::text::{child_prefix, deeper, joined, texts};
use vstd::prelude::*;
use vstd::string::*;

verus! {

/// The content of a pruned tree or of the failure in its place.
pub open spec fn tree_view(r: Result<OptionMap, Error>) -> Result<Tree, ErrorView> {
    match r {
        Ok(m) => Ok(m@),
        Err(e) => Err(e@),
    }
}

/// What is kept of the first `n` entries of one level, in their order; the
/// first expression that cannot be evaluated is the result instead.
/// `prefix` is the prefix of the dotted paths of this level.
pub open spec fn pruned(
    part: Tree,
    n: int,
    all_config: Tree,
    features: Seq<Seq<char>>,
    prefix: Seq<char>,
) -> Result<Tree, ErrorView>
    decreases part, n,
{
    if n <= 0 || n > part.len() {
        Ok(Seq::empty())
    } else {
        match pruned(part, n - 1, all_config, features, prefix) {
            Err(e) => Err(e),
            Ok(kept) => match prune_node(
                part[n - 1].0,
                part[n - 1].1,
                all_config,
                features,
                prefix,
            ) {
                Err(e) => Err(e),
                Ok(None) => Ok(kept),
                Ok(Some(node)) => Ok(kept.push((part[n - 1].0, node))),
            },
        }
    }
}

/// What is kept of one node: the node with its children pruned where its own
/// `depends` holds, nothing where it does not. Each node is tested by its own
/// expression alone. The children are pruned first, and then the node is
/// decided as a whole. A failure names the option by its dotted path.
pub open spec fn prune_node(
    name: Seq<char>,
    node: OptionView,
    all_config: Tree,
    features: Seq<Seq<char>>,
    prefix: Seq<char>,
) -> Result<Option<OptionView>, ErrorView>
    decreases node, 0int,
{
    let below = match node.options {
        Some(children) => match pruned(
            children,
            children.len() as int,
            all_config,
            features,
            child_prefix(prefix, name),
        ) {
            Err(e) => Err(e),
            Ok(rest) => Ok(with_children(node, rest)),
        },
        None => Ok(node),
    };
    match below {
        Err(e) => Err(e),
        Ok(stays) => match depends_holds(node.depends, all_config, features) {
            None => Err(ErrorView::PredicateEvaluationFailure(prefix + name)),
            Some(true) => Ok(Some(stays)),
            Some(false) => Ok(None),
        },
    }
}

/// After a failure nothing more is looked at.
pub proof fn lemma_pruned_stops(
    part: Tree,
    n: int,
    m: int,
    all_config: Tree,
    features: Seq<Seq<char>>,
    prefix: Seq<char>,
)
    requires
        0 <= n <= m <= part.len(),
        pruned(part, n, all_config, features, prefix) is Err,
    ensures
        pruned(part, m, all_config, features, prefix) == pruned(
            part,
            n,
            all_config,
            features,
            prefix,
        ),
    decreases m - n,
{
    if n < m {
        lemma_pruned_stops(part, n, m - 1, all_config, features, prefix);
    }
}

/// Every key that is kept stood among the entries looked at: the position
/// among the first `n` entries at which the `k`-th kept key stood.
pub proof fn lemma_pruned_key(
    part: Tree,
    n: int,
    all_config: Tree,
    features: Seq<Seq<char>>,
    prefix: Seq<char>,
    k: int,
) -> (j: int)
    requires
        0 <= n <= part.len(),
        pruned(part, n, all_config, features, prefix) is Ok,
        0 <= k < pruned(part, n, all_config, features, prefix)->Ok_0.len(),
    ensures
        0 <= j < n,
        part[j].0 == pruned(part, n, all_config, features, prefix)->Ok_0[k].0,
    decreases n,
{
    let before = pruned(part, n - 1, all_config, features, prefix)->Ok_0;
    if k < before.len() {
        lemma_pruned_key(part, n - 1, all_config, features, prefix, k)
    } else {
        n - 1
    }
}

/// Pruning keeps a tree well formed.
pub proof fn lemma_pruned_well_formed(
    part: Tree,
    n: int,
    all_config: Tree,
    features: Seq<Seq<char>>,
    prefix: Seq<char>,
)
    requires
        well_formed(part),
    ensures
        pruned(part, n, all_config, features, prefix) matches Ok(kept) ==> well_formed(kept),
    decreases part, n,
{
    if 0 < n <= part.len() {
        lemma_pruned_well_formed(part, n - 1, all_config, features, prefix);
        let name = part[n - 1].0;
        let node = part[n - 1].1;
        assert(node_shape_ok(node));
        if let Some(children) = node.options {
            assert(well_formed(children));
            lemma_pruned_well_formed(
                children,
                children.len() as int,
                all_config,
                features,
                child_prefix(prefix, name),
            );
        }
        if let Ok(kept) = pruned(part, n, all_config, features, prefix) {
            let before = pruned(part, n - 1, all_config, features, prefix)->Ok_0;
            assert forall|j: int| 0 <= j < kept.len() implies node_shape_ok(
                #[trigger] kept[j].1,
            ) && (kept[j].1.options matches Some(c) ==> well_formed(c)) by {
                if j < before.len() {
                    assert(kept[j] == before[j]);
                    assert(node_shape_ok(before[j].1));
                } else {
                    let own = prune_node(name, node, all_config, features, prefix);
                    assert(own is Ok && own->Ok_0 is Some);
                    assert(kept[j].1 == own->Ok_0->Some_0);
                    match node.options {
                        Some(children) => {
                            let rest = pruned(
                                children,
                                children.len() as int,
                                all_config,
                                features,
                                child_prefix(prefix, name),
                            );
                            assert(rest is Ok);
                            assert(kept[j].1 == with_children(node, rest->Ok_0));
                        },
                        None => {
                            assert(kept[j].1 == node);
                        },
                    }
                }
            }
        }
    }
}

/// Builds a tree of the options of `config_part` whose own `depends` holds
/// against `all_config` and `features`, the children of each submenu pruned in
/// the same way. Fails at the first expression that cannot be evaluated,
/// naming the option by its dotted path.
pub fn remove_non_applicable(
    config_part: &OptionMap,
    all_config: &OptionMap,
    features: &Vec<String>,
) -> (r: Result<OptionMap, Error>)
    ensures
        tree_view(r) == pruned(
            config_part@,
            config_part@.len() as int,
            all_config@,
            texts(features@),
            Seq::empty(),
        ),
{
    proof {
        reveal_strlit("");
        assert(""@ =~= Seq::<char>::empty());
    }
    prune_below(config_part, all_config, features, "")
}

/// Prunes one level of a tree; `prefix` is the prefix of the dotted paths
/// of this level.
pub fn prune_below(
    config_part: &OptionMap,
    all_config: &OptionMap,
    features: &Vec<String>,
    prefix: &str,
) -> (r: Result<OptionMap, Error>)
    ensures
        tree_view(r) == pruned(
            config_part@,
            config_part@.len() as int,
            all_config@,
            texts(features@),
            prefix@,
        ),
    decreases config_part@,
{
    let items = config_part.entries();
    let ghost part = config_part@;
    let ghost all = all_config@;
    let ghost names = texts(features@);
    let mut building = OptionMap::new();
    let mut i: usize = 0;
    while i < items.len()
        invariant
            i <= items.len(),
            part == config_part@,
            all == all_config@,
            names == texts(features@),
            items.len() == part.len(),
            forall|j: int|
                0 <= j < items.len() ==> (#[trigger] items[j]).0@ == part[j].0 && items[j].1@
                    == part[j].1,
            forall|a: int, b: int| 0 <= a < b < part.len() ==> part[a].0 != part[b].0,
            pruned(part, i as int, all, names, prefix@) == Ok::<Tree, ErrorView>(building@),
        decreases items.len() - i,
    {
        let name = items[i].0;
        let item = items[i].1;
        let ghost node = part[i as int].1;
        let ghost kept = building@;
        proof {
            assert(item@ == node);
            if pruned(part, i + 1, all, names, prefix@) is Err {
                lemma_pruned_stops(part, i + 1, part.len() as int, all, names, prefix@);
            }
            lemma_find_key(kept, name@);
            assert(items[i as int].0@ == part[i as int].0);
            if let Some(at) = find_key(kept, name@) {
                let j = lemma_pruned_key(part, i as int, all, names, prefix@, at);
                assert(part[j].0 == part[i as int].0);
            }
        }
        let options = match &item.options {
            Some(children) => {
                assert(node.options->Some_0 == children@);
                let below = deeper(prefix, name.as_str());
                match prune_below(children, all_config, features, below.as_str()) {
                    Ok(rest) => Some(rest),
                    Err(e) => {
                        return Err(e);
                    },
                }
            },
            None => None,
        };
        let take = match is_valid_depends(&item.depends, all_config, features) {
            None => {
                return Err(Error::PredicateEvaluationFailure(joined(prefix, name.as_str())));
            },
            Some(take) => take,
        };
        if take {
            let copy = item.with_options(options);
            assert(prune_node(name@, node, all, names, prefix@) == Ok::<
                Option<OptionView>,
                ErrorView,
            >(Some(copy@)));
            building.insert(name.clone(), copy);
        }
        i = i + 1;
    }
    Ok(building)
}

} // verus!
