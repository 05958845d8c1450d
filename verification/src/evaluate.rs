//! The resolution pipeline as a whole: fuse, validate, prune, flatten.

use crate::flatten::{
    create_current_config_result, create_result, current_rows, flattened, pairs_view, rows_view,
    Row,
};
use crate::fuse::{fuse, fuse_value, lemma_fuse_value_well_formed};
use crate::model::{node_shape_ok, well_formed, Error, ErrorView, OptionMap, Tree, ValueType};
use crate::prune::{lemma_pruned_well_formed, pruned, remove_non_applicable, tree_view};
use crate::text::{text_eq, texts};
use crate::validate::{validate, validated};
use crate::value::{fields_view, Json, Value};
use vstd::prelude::*;
use vstd::string::*;

verus! {

/// The contents of a list of borrowed texts.
pub open spec fn strs(list: Seq<&str>) -> Seq<Seq<char>> {
    Seq::new(list.len(), |i: int| list[i]@)
}

/// The overrides that a document holds for a namespace: the value of the
/// first field of that name.
pub open spec fn namespace_value(document: Json, namespace: Seq<char>) -> Option<Json> {
    match document {
        Json::Object(fields) => first_field(fields, fields.len() as int, namespace),
        _ => None,
    }
}

/// The value of the first of the first `n` fields that has the key.
pub open spec fn first_field(fields: Seq<(Seq<char>, Json)>, n: int, key: Seq<char>) -> Option<
    Json,
>
    decreases n,
{
    if n <= 0 || n > fields.len() {
        None
    } else {
        match first_field(fields, n - 1, key) {
            Some(v) => Some(v),
            None => if fields[n - 1].0 == key {
                Some(fields[n - 1].1)
            } else {
                None
            },
        }
    }
}

/// The overrides of a namespace, nothing where the document has none for it.
pub open spec fn overrides_of(document: Json, namespace: Seq<char>) -> Json {
    match namespace_value(document, namespace) {
        Some(v) => v,
        None => Json::Null,
    }
}

/// The tree after fusing and pruning, or `InvalidKey` where fusing stopped.
pub open spec fn resolved_tree(over: Json, tree: Tree, features: Seq<Seq<char>>) -> Result<
    Tree,
    ErrorView,
> {
    let fused = fuse_value(over, tree);
    if fused.status is Done {
        pruned(fused.tree, fused.tree.len() as int, fused.tree, features, Seq::empty())
    } else {
        Err(ErrorView::InvalidKey)
    }
}

/// The effective configuration: the overrides fused into the tree, the fused
/// tree validated and pruned against itself, and the pruned tree flattened
/// against itself.
pub open spec fn effective_configuration(over: Json, tree: Tree, features: Seq<Seq<char>>) -> Result<
    Seq<Row>,
    ErrorView,
> {
    let fused = fuse_value(over, tree);
    if fused.status is Done {
        match validated(
            fused.tree,
            fused.tree.len() as int,
            fused.tree,
            features,
            true,
            Seq::empty(),
        ) {
            Err(e) => Err(e),
            Ok(()) => match pruned(
                fused.tree,
                fused.tree.len() as int,
                fused.tree,
                features,
                Seq::empty(),
            ) {
                Err(e) => Err(e),
                Ok(kept) => {
                    let flat = flattened(kept, kept.len() as int, kept, features, Seq::empty());
                    match flat.error {
                        Some(e) => Err(e),
                        None => Ok(flat.rows),
                    }
                },
            },
        }
    } else {
        Err(ErrorView::InvalidKey)
    }
}

/// The explicit overrides of the tree pruned against itself.
pub open spec fn current_values(tree: Tree, features: Seq<Seq<char>>) -> Result<
    Seq<(Seq<char>, Seq<char>)>,
    ErrorView,
> {
    match pruned(tree, tree.len() as int, tree, features, Seq::empty()) {
        Err(e) => Err(e),
        Ok(kept) => Ok(current_rows(kept, kept.len() as int, Seq::empty())),
    }
}

/// The content of a list of rows or of the failure in its place.
pub open spec fn rows_result_view(r: Result<Vec<(String, String, ValueType)>, Error>) -> Result<
    Seq<Row>,
    ErrorView,
> {
    match r {
        Ok(rows) => Ok(rows_view(rows@)),
        Err(e) => Err(e@),
    }
}

/// The content of a list of pairs or of the failure in its place.
pub open spec fn pairs_result_view(r: Result<Vec<(String, String)>, Error>) -> Result<
    Seq<(Seq<char>, Seq<char>)>,
    ErrorView,
> {
    match r {
        Ok(rows) => Ok(pairs_view(rows@)),
        Err(e) => Err(e@),
    }
}

/// Owned copies of feature names.
pub fn owned_features(features: &Vec<&str>) -> (r: Vec<String>)
    ensures
        texts(r@) == strs(features@),
{
    let mut out: Vec<String> = Vec::new();
    let mut i: usize = 0;
    while i < features.len()
        invariant
            i <= features.len(),
            out.len() == i,
            forall|j: int| 0 <= j < i ==> (#[trigger] out@[j])@ == features@[j]@,
        decreases features.len() - i,
    {
        out.push(String::from_str(features[i]));
        i = i + 1;
    }
    assert(texts(out@) =~= strs(features@));
    out
}

/// The overrides that a document holds for a namespace.
pub fn namespace_overrides<'a>(input: &'a Value, crate_name: &str) -> (r: Option<&'a Value>)
    ensures
        match r {
            Some(v) => namespace_value(input@, crate_name@) == Some(v@),
            None => namespace_value(input@, crate_name@) is None,
        },
{
    match input {
        Value::Object(fields) => {
            let mut i: usize = 0;
            while i < fields.len()
                invariant
                    i <= fields.len(),
                    input@ == Json::Object(fields_view(fields@)),
                    first_field(fields_view(fields@), i as int, crate_name@) is None,
                decreases fields.len() - i,
            {
                assert(fields_view(fields@)[i as int] == (
                    fields@[i as int].0@,
                    fields@[i as int].1@,
                ));
                if text_eq(fields[i].0.as_str(), crate_name) {
                    proof {
                        lemma_first_field_stays(
                            fields_view(fields@),
                            i + 1,
                            fields.len() as int,
                            crate_name@,
                        );
                    }
                    return Some(&fields[i].1);
                }
                i = i + 1;
            }
            None
        },
        _ => None,
    }
}

/// Once a field with the key is found, later fields change nothing.
pub proof fn lemma_first_field_stays(fields: Seq<(Seq<char>, Json)>, n: int, m: int, key: Seq<char>)
    requires
        0 <= n <= m <= fields.len(),
        first_field(fields, n, key) is Some,
    ensures
        first_field(fields, m, key) == first_field(fields, n, key),
    decreases m - n,
{
    if n < m {
        lemma_first_field_stays(fields, n, m - 1, key);
    }
}

/// Whether every node of the tree, at every depth, is a leaf with a type or
/// a pure submenu.
pub fn is_well_formed(config: &OptionMap) -> (ok: bool)
    ensures
        ok == well_formed(config@),
    decreases config@,
{
    let items = config.entries();
    let ghost tree = config@;
    let mut i: usize = 0;
    while i < items.len()
        invariant
            i <= items.len(),
            tree == config@,
            items.len() == tree.len(),
            forall|j: int|
                0 <= j < items.len() ==> (#[trigger] items[j]).0@ == tree[j].0 && items[j].1@
                    == tree[j].1,
            forall|j: int|
                0 <= j < i ==> node_shape_ok(#[trigger] tree[j].1) && (
                tree[j].1.options matches Some(children) ==> well_formed(children)),
        decreases items.len() - i,
    {
        let item = items[i].1;
        let ghost node = tree[i as int].1;
        assert(item@ == node);
        let typed = item.value_type.is_some();
        let pure = item.options.is_some() && item.__value.is_none()
            && item.default_value.is_none();
        if !(typed || pure) {
            assert(!node_shape_ok(tree[i as int].1));
            return false;
        }
        match &item.options {
            Some(children) => {
                assert(node.options->Some_0 == children@);
                if !is_well_formed(children) {
                    assert(!well_formed(tree[i as int].1.options->Some_0));
                    return false;
                }
            },
            None => {},
        }
        i = i + 1;
    }
    true
}

/// Resolves a definition against the overrides of one namespace and the
/// active features: fuses the overrides in, validates, prunes, and flattens
/// what is left into the effective configuration.
pub fn evaluate_config_str(
    input: &Value,
    crate_name: &str,
    config: OptionMap,
    features: Vec<&str>,
) -> (r: Result<Vec<(String, String, ValueType)>, Error>)
    requires
        input@ is Object,
        well_formed(config@),
        !(fuse_value(overrides_of(input@, crate_name@), config@).status is Unsupported),
    ensures
        rows_result_view(r) == effective_configuration(
            overrides_of(input@, crate_name@),
            config@,
            strs(features@),
        ),
{
    let names = owned_features(&features);
    let mut config = config;
    let ghost start = config@;
    let ghost over = overrides_of(input@, crate_name@);
    let fused = match namespace_overrides(input, crate_name) {
        Some(value) => fuse(value, &mut config),
        None => fuse(&Value::Null, &mut config),
    };
    match fused {
        Ok(()) => {},
        Err(e) => {
            return Err(e);
        },
    }
    match validate(&config, &config, &names, true) {
        Ok(()) => {},
        Err(e) => {
            return Err(e);
        },
    }
    let config = match remove_non_applicable(&config, &config, &names) {
        Ok(kept) => kept,
        Err(e) => {
            return Err(e);
        },
    };
    proof {
        lemma_fuse_value_well_formed(over, start);
        let tree = fuse_value(over, start).tree;
        lemma_pruned_well_formed(tree, tree.len() as int, tree, texts(names@), Seq::empty());
    }
    let mut result: Vec<(String, String, ValueType)> = Vec::new();
    assert(rows_view(result@) =~= Seq::<Row>::empty());
    let done = create_result(&mut result, &config, &config, &names, String::from_str(""));
    proof {
        reveal_strlit("");
        assert(""@ =~= Seq::<char>::empty());
        let flat = flattened(config@, config@.len() as int, config@, texts(names@), Seq::empty());
        assert(rows_view(result@) =~= flat.rows);
    }
    match done {
        Ok(()) => Ok(result),
        Err(e) => Err(e),
    }
}

/// Fuses overrides into a definition and prunes the fused tree against
/// itself, without validating.
pub fn resolve_tree(over: &Value, config: OptionMap, features: &Vec<String>) -> (r: Result<
    OptionMap,
    Error,
>)
    requires
        !(fuse_value(over@, config@).status is Unsupported),
    ensures
        tree_view(r) == resolved_tree(over@, config@, texts(features@)),
{
    let mut config = config;
    match fuse(over, &mut config) {
        Ok(()) => {},
        Err(e) => {
            return Err(e);
        },
    }
    remove_non_applicable(&config, &config, features)
}

/// Resolves a definition to the tree that an editor shows: fuses the
/// overrides of one namespace in and prunes, without validating.
pub fn evaluate_config_str_to_cfg(
    input: &Value,
    crate_name: &str,
    config: OptionMap,
    features: Vec<&str>,
) -> (r: Result<OptionMap, Error>)
    requires
        namespace_value(input@, crate_name@) is Some,
        !(fuse_value(overrides_of(input@, crate_name@), config@).status is Unsupported),
    ensures
        tree_view(r) == resolved_tree(
            overrides_of(input@, crate_name@),
            config@,
            strs(features@),
        ),
{
    let names = owned_features(&features);
    match namespace_overrides(input, crate_name) {
        Some(value) => resolve_tree(value, config, &names),
        None => resolve_tree(&Value::Null, config, &names),
    }
}

/// The explicit overrides that a fused tree holds, with their dotted paths,
/// after pruning: what is written back when a configuration is saved.
pub fn current_config_values(config: OptionMap, features: Vec<&str>) -> (r: Result<
    Vec<(String, String)>,
    Error,
>)
    ensures
        pairs_result_view(r) == current_values(config@, strs(features@)),
{
    let names = owned_features(&features);
    current_values_of(&config, &names)
}

/// The explicit overrides of a tree after pruning it against itself.
pub fn current_values_of(config: &OptionMap, features: &Vec<String>) -> (r: Result<
    Vec<(String, String)>,
    Error,
>)
    ensures
        pairs_result_view(r) == current_values(config@, texts(features@)),
{
    let config = match remove_non_applicable(config, config, features) {
        Ok(kept) => kept,
        Err(e) => {
            return Err(e);
        },
    };
    let mut result: Vec<(String, String)> = Vec::new();
    assert(pairs_view(result@) =~= Seq::<(Seq<char>, Seq<char>)>::empty());
    create_current_config_result(&mut result, &config, String::from_str(""));
    proof {
        reveal_strlit("");
        assert(""@ =~= Seq::<char>::empty());
        assert(pairs_view(result@) =~= current_rows(
            config@,
            config@.len() as int,
            Seq::empty(),
        ));
    }
    Ok(result)
}

} // verus!
