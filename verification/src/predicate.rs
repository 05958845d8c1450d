//! The predicate evaluator: `depends` and `valid` expressions, and the two
//! predicates that they can call, `feature(name)` and `enabled(path)`.

use crate::model::{find_key, map_entries, OptionMap, OptionView, Tree};
use crate::text::{copied, split, split_on, text_eq, texts};
use crate::value::{truthy, Json, Value};
use vstd::prelude::*;
use vstd::string::*;

verus! {

/// The bound on the operations that one expression may take. An expression
/// that needs more cannot be evaluated.
pub const MAX_SCRIPT_OPERATIONS: u64 = 1000000;

/// The bound on how deeply an expression may be nested.
pub const MAX_SCRIPT_DEPTH: usize = 64;

/// The bound on the length, in bytes, of a text that an expression builds.
pub const MAX_SCRIPT_TEXT: usize = 4096;

/// The bounds within which an expression is evaluated. An expression that
/// would go beyond one of them cannot be evaluated.
pub struct ScriptLimits {
    pub operations: u64,
    pub depth: usize,
    pub text_size: usize,
}

/// The bounds that the library evaluates every expression within.
pub open spec fn standard_limits() -> ScriptLimits {
    ScriptLimits {
        operations: MAX_SCRIPT_OPERATIONS,
        depth: MAX_SCRIPT_DEPTH,
        text_size: MAX_SCRIPT_TEXT,
    }
}

/// What a `valid` expression is given as `value`: a boolean, an integer or a
/// text.
pub enum Candidate {
    Bool(bool),
    Number(i64),
    Text(String),
}

impl View for Candidate {
    type V = Json;

    open spec fn view(&self) -> Json {
        match self {
            Candidate::Bool(b) => Json::Bool(*b),
            Candidate::Number(n) => Json::Number(*n),
            Candidate::Text(s) => Json::Text(s@),
        }
    }
}

/// The candidate that stands for a value: the value itself where it is a
/// boolean, an integer or a text, and `false` for any other shape.
pub open spec fn candidate_of(value: Json) -> Json {
    match value {
        Json::Bool(_) | Json::Number(_) | Json::Text(_) => value,
        _ => Json::Bool(false),
    }
}

/// The node that a path of keys leads to: every key but the last names a
/// submenu, and each key is looked up among the children of the one before.
pub open spec fn lookup_path(tree: Tree, path: Seq<Seq<char>>) -> Option<OptionView>
    decreases path.len(),
{
    if path.len() == 0 {
        None
    } else {
        match find_key(tree, path[0]) {
            None => None,
            Some(i) => if path.len() == 1 {
                Some(tree[i].1)
            } else {
                match tree[i].1.options {
                    Some(children) => lookup_path(children, path.drop_first()),
                    None => None,
                }
            },
        }
    }
}

/// The value that a node currently has: its override, else its default.
pub open spec fn effective_value(node: OptionView) -> Option<Json> {
    if node.value is Some {
        node.value
    } else {
        node.default_value
    }
}

/// The current value of the option at a dotted path. The outer `None` says
/// that the path leads nowhere: a key is missing, or a leaf is asked for
/// children. The inner `None` says that the option has neither an override
/// nor a default.
pub open spec fn resolved_value(all_config: Tree, path: Seq<char>) -> Option<Option<Json>> {
    match lookup_path(all_config, split_on(path, '.')) {
        Some(node) => Some(effective_value(node)),
        None => None,
    }
}

/// What `enabled(path)` answers: the truthiness of the current value, `false`
/// for an option without a value, and `None` where the path leads nowhere.
pub open spec fn enabled(all_config: Tree, path: Seq<char>) -> Option<bool> {
    match resolved_value(all_config, path) {
        None => None,
        Some(None) => Some(false),
        Some(Some(v)) => Some(truthy(v)),
    }
}

/// What `feature(name)` answers: whether the name is among the active features.
pub open spec fn feature_active(features: Seq<Seq<char>>, name: Seq<char>) -> bool {
    features.contains(name)
}

/// The content of a resolved value.
pub open spec fn resolved_view(r: Option<Option<Value>>) -> Option<Option<Json>> {
    match r {
        None => None,
        Some(None) => Some(None),
        Some(Some(v)) => Some(Some(v@)),
    }
}

/// Resolves the option at a dotted path to its current value.
pub fn get_value(option: &str, all_config: &OptionMap) -> (r: Option<Option<Value>>)
    ensures
        resolved_view(r) == resolved_value(all_config@, option@),
{
    let parts = split(option, '.');
    let ghost path = split_on(option@, '.');
    let mut current = all_config;
    let mut k: usize = 0;
    assert(path.skip(0) =~= path);
    while k + 1 < parts.len()
        invariant
            k < parts.len(),
            path == split_on(option@, '.'),
            texts(parts@) == path,
            lookup_path(all_config@, path) == lookup_path(current@, path.skip(k as int)),
        decreases parts.len() - k,
    {
        let ghost rest = path.skip(k as int);
        assert(rest[0] == parts[k as int]@);
        assert(rest.len() > 1);
        assert(rest.drop_first() =~= path.skip(k + 1));
        match current.get(parts[k].as_str()) {
            Some(next) => {
                match &next.options {
                    Some(children) => {
                        current = children;
                    },
                    None => {
                        return None;
                    },
                }
            },
            None => {
                return None;
            },
        }
        k = k + 1;
    }
    let ghost rest = path.skip(k as int);
    assert(rest[0] == parts[k as int]@);
    assert(rest.len() == 1);
    match current.get(parts[k].as_str()) {
        Some(node) => {
            match &node.__value {
                Some(v) => Some(Some(v.duplicate())),
                None => match &node.default_value {
                    Some(d) => Some(Some(d.duplicate())),
                    None => Some(None),
                },
            }
        },
        None => None,
    }
}

/// Answers `enabled(path)`: whether the option at the path currently resolves
/// to a truthy value. `None` where the path leads nowhere.
pub fn is_value_resolves_to_set(option: &str, all_config: &OptionMap) -> (r: Option<bool>)
    ensures
        r == enabled(all_config@, option@),
{
    match get_value(option, all_config) {
        None => None,
        Some(None) => Some(false),
        Some(Some(value)) => Some(value.is_truthy()),
    }
}

/// Answers `feature(name)`: whether the name is an active feature.
pub fn has_feature(features: &Vec<String>, what: &str) -> (r: bool)
    ensures
        r == feature_active(texts(features@), what@),
{
    let mut i: usize = 0;
    while i < features.len()
        invariant
            i <= features.len(),
            forall|j: int| 0 <= j < i ==> texts(features@)[j] != what@,
        decreases features.len() - i,
    {
        if text_eq(features[i].as_str(), what) {
            assert(texts(features@)[i as int] == what@);
            return true;
        }
        i = i + 1;
    }
    false
}

/// What `rhai` gives for a `depends` script, with `feature` and `enabled`
/// answering as [`feature_active`] and [`enabled`] say and within the given
/// bounds: the boolean that the script evaluates to, or `None` where it
/// cannot be parsed, fails while running (an `enabled` whose path leads
/// nowhere fails it), goes beyond a bound, or gives something that is no
/// boolean.
pub uninterp spec fn depends_outcome(
    script: Seq<char>,
    all_config: Seq<(Seq<char>, OptionView)>,
    features: Seq<Seq<char>>,
    limits: ScriptLimits,
) -> Option<bool>;

/// What `rhai` gives for a `valid` script, with the variable `value` bound
/// to the candidate, and all else as for [`depends_outcome`].
pub uninterp spec fn valid_outcome(
    script: Seq<char>,
    value: Json,
    all_config: Seq<(Seq<char>, OptionView)>,
    features: Seq<Seq<char>>,
    limits: ScriptLimits,
) -> Option<bool>;

/// Evaluates a script with `rhai::Engine::eval`, in a fresh engine without
/// the standard functions that knows `feature` and `enabled`. Trusted: the
/// outcome is a function of the script, the tree, the features and the
/// bounds alone, and the call returns. `rhai` is built without modules,
/// timestamps, script functions, arrays and object maps, and `eval` is
/// switched off, so a script reaches nothing but its own text and the two
/// predicates; the bounds, each above zero (to `rhai` zero means no bound),
/// end a script that would run on, nest too deeply or build a text without
/// end.
#[verifier::external_body]
fn eval_depends(
    script: &str,
    all_config: OptionMap,
    features: Vec<String>,
    limits: &ScriptLimits,
) -> (r: Option<bool>)
    requires
        limits.operations > 0,
        limits.depth > 0,
        limits.text_size > 0,
    ensures
        r == depends_outcome(script@, map_entries(all_config), texts(features@), *limits),
{
    let mut engine = rhai::Engine::new_raw();
    engine.set_max_operations(limits.operations).set_max_expr_depths(limits.depth);
    engine.set_max_string_size(limits.text_size).disable_symbol("eval");
    engine.register_fn("feature", move |what: &str| has_feature(&features, what));
    engine.register_fn("enabled", move |what: &str| {
        is_value_resolves_to_set(what, &all_config).ok_or_else(|| Box::<rhai::EvalAltResult>::from(what))
    });
    engine.eval::<bool>(script).ok()
}

/// Evaluates a script with `rhai::Engine::eval_with_scope`, in an engine set
/// up as for [`eval_depends`], with the candidate in scope as `value`.
/// Trusted: the outcome is a function of the script, the candidate, the
/// tree, the features and the bounds alone, and the call returns.
#[verifier::external_body]
fn eval_valid(
    script: &str,
    value: Candidate,
    all_config: OptionMap,
    features: Vec<String>,
    limits: &ScriptLimits,
) -> (r: Option<bool>)
    requires
        limits.operations > 0,
        limits.depth > 0,
        limits.text_size > 0,
    ensures
        r == valid_outcome(script@, value@, map_entries(all_config), texts(features@), *limits),
{
    let mut engine = rhai::Engine::new_raw();
    engine.set_max_operations(limits.operations).set_max_expr_depths(limits.depth);
    engine.set_max_string_size(limits.text_size).disable_symbol("eval");
    engine.register_fn("feature", move |what: &str| has_feature(&features, what));
    engine.register_fn("enabled", move |what: &str| {
        is_value_resolves_to_set(what, &all_config).ok_or_else(|| Box::<rhai::EvalAltResult>::from(what))
    });
    let mut scope = rhai::Scope::new();
    match value {
        Candidate::Bool(b) => scope.push("value", b),
        Candidate::Number(n) => scope.push("value", n),
        Candidate::Text(s) => scope.push("value", s),
    };
    engine.eval_with_scope::<bool>(&mut scope, script).ok()
}

/// Whether a `depends` expression holds. An option without one is always
/// reachable. `None` where the expression cannot be evaluated.
pub open spec fn depends_holds(
    depends: Option<Seq<char>>,
    all_config: Tree,
    features: Seq<Seq<char>>,
) -> Option<bool> {
    match depends {
        None => Some(true),
        Some(script) => depends_outcome(script, all_config, features, standard_limits()),
    }
}

/// Whether a `valid` expression accepts a value. An option without one
/// accepts every value. The expression sees the value as [`candidate_of`]
/// says. `None` where the expression cannot be evaluated.
pub open spec fn value_accepted(
    valid: Option<Seq<char>>,
    value: Json,
    all_config: Tree,
    features: Seq<Seq<char>>,
) -> Option<bool> {
    match valid {
        None => Some(true),
        Some(script) => valid_outcome(
            script,
            candidate_of(value),
            all_config,
            features,
            standard_limits(),
        ),
    }
}

/// The content of an optional text.
pub open spec fn text_view(text: Option<String>) -> Option<Seq<char>> {
    match text {
        Some(s) => Some(s@),
        None => None,
    }
}

/// The bounds that the library evaluates every expression within.
pub fn script_limits() -> (limits: ScriptLimits)
    ensures
        limits == standard_limits(),
{
    ScriptLimits {
        operations: MAX_SCRIPT_OPERATIONS,
        depth: MAX_SCRIPT_DEPTH,
        text_size: MAX_SCRIPT_TEXT,
    }
}

/// The candidate that stands for a value.
pub fn candidate(value: &Value) -> (c: Candidate)
    ensures
        c@ == candidate_of(value@),
{
    match value {
        Value::Bool(b) => Candidate::Bool(*b),
        Value::Number(n) => Candidate::Number(*n),
        Value::String(s) => Candidate::Text(s.clone()),
        _ => Candidate::Bool(false),
    }
}

/// Evaluates the `depends` expression of an option.
pub fn is_valid_depends(depends: &Option<String>, all_config: &OptionMap, features: &Vec<String>) -> (r:
    Option<bool>)
    ensures
        r == depends_holds(text_view(*depends), all_config@, texts(features@)),
{
    match depends {
        None => Some(true),
        Some(script) => eval_depends(
            script.as_str(),
            all_config.duplicate(),
            copied(features),
            &script_limits(),
        ),
    }
}

/// Evaluates the `valid` expression of an option on a candidate value.
pub fn is_value_valid(
    validation: &Option<String>,
    value: &Value,
    all_config: &OptionMap,
    features: &Vec<String>,
) -> (r: Option<bool>)
    ensures
        r == value_accepted(text_view(*validation), value@, all_config@, texts(features@)),
{
    match validation {
        None => Some(true),
        Some(script) => eval_valid(
            script.as_str(),
            candidate(value),
            all_config.duplicate(),
            copied(features),
            &script_limits(),
        ),
    }
}

} // verus!
