//! Validate: rejecting overrides that are given for unreachable options or
//! that fail the `valid` expression of their option.

use crate::model::{Error, ErrorView, OptionMap, OptionView, Tree};
use crate::predicate::{depends_holds, is_valid_depends, is_value_valid, value_accepted};
use crate::text::{child_prefix, deeper, joined, texts};
use vstd::prelude::*;
use vstd::string::*;

verus! {

/// The content of a result without a value.
pub open spec fn unit_view(r: Result<(), Error>) -> Result<(), ErrorView> {
    match r {
        Ok(()) => Ok(()),
        Err(e) => Err(e@),
    }
}

/// Reachability handed down the tree: a node is reachable when its parent is
/// and its own `depends` holds. Below an unreachable parent the expression is
/// not looked at. `None` where it had to be evaluated and could not be.
pub open spec fn reach(take: bool, depends: Option<bool>) -> Option<bool> {
    if take {
        depends
    } else {
        Some(false)
    }
}

/// The verdict on an override of the option at a dotted path: rejected as
/// inapplicable where the option is not reachable, whatever its `valid`
/// expression says; otherwise by what the `valid` expression gave.
pub open spec fn override_check(path: Seq<char>, take: bool, accepted: Option<bool>) -> Result<
    (),
    ErrorView,
> {
    if !take {
        Err(ErrorView::InvalidConfiguration(path))
    } else {
        match accepted {
            None => Err(ErrorView::PredicateEvaluationFailure(path)),
            Some(false) => Err(ErrorView::InvalidConfigurationValue(path)),
            Some(true) => Ok(()),
        }
    }
}

/// Validating the first `n` entries of one level, in order; the first
/// failure is the result. `prefix` is the prefix of the dotted paths of
/// this level.
pub open spec fn validated(
    part: Tree,
    n: int,
    all_config: Tree,
    features: Seq<Seq<char>>,
    take: bool,
    prefix: Seq<char>,
) -> Result<(), ErrorView>
    decreases part, n,
{
    if n <= 0 || n > part.len() {
        Ok(())
    } else {
        match validated(part, n - 1, all_config, features, take, prefix) {
            Err(e) => Err(e),
            Ok(()) => validate_node(
                part[n - 1].0,
                part[n - 1].1,
                all_config,
                features,
                take,
                prefix,
            ),
        }
    }
}

/// Validating one node: its reachability, then its override if it has one,
/// then its children with its reachability as theirs. A failure names the
/// option by its dotted path.
pub open spec fn validate_node(
    name: Seq<char>,
    node: OptionView,
    all_config: Tree,
    features: Seq<Seq<char>>,
    take: bool,
    prefix: Seq<char>,
) -> Result<(), ErrorView>
    decreases node, 0int,
{
    match reach(take, depends_holds(node.depends, all_config, features)) {
        None => Err(ErrorView::PredicateEvaluationFailure(prefix + name)),
        Some(own) => {
            let verdict = match node.value {
                Some(v) => override_check(
                    prefix + name,
                    own,
                    value_accepted(node.valid, v, all_config, features),
                ),
                None => Ok(()),
            };
            match verdict {
                Err(e) => Err(e),
                Ok(()) => match node.options {
                    Some(children) => validated(
                        children,
                        children.len() as int,
                        all_config,
                        features,
                        own,
                        child_prefix(prefix, name),
                    ),
                    None => Ok(()),
                },
            }
        },
    }
}

/// After a failure nothing more is looked at.
pub proof fn lemma_validated_stops(
    part: Tree,
    n: int,
    m: int,
    all_config: Tree,
    features: Seq<Seq<char>>,
    take: bool,
    prefix: Seq<char>,
)
    requires
        0 <= n <= m <= part.len(),
        validated(part, n, all_config, features, take, prefix) is Err,
    ensures
        validated(part, m, all_config, features, take, prefix) == validated(
            part,
            n,
            all_config,
            features,
            take,
            prefix,
        ),
    decreases m - n,
{
    if n < m {
        lemma_validated_stops(part, n, m - 1, all_config, features, take, prefix);
    }
}

/// Decides on an override of the option at a dotted path, given whether the
/// option is reachable and what its `valid` expression gave for the value.
pub fn override_verdict(path: &str, take: bool, accepted: Option<bool>) -> (r: Result<(), Error>)
    ensures
        unit_view(r) == override_check(path@, take, accepted),
{
    if !take {
        Err(Error::InvalidConfiguration(String::from_str(path)))
    } else {
        match accepted {
            None => Err(Error::PredicateEvaluationFailure(String::from_str(path))),
            Some(false) => Err(Error::InvalidConfigurationValue(String::from_str(path))),
            Some(true) => Ok(()),
        }
    }
}

/// Walks the tree depth first. `take` says whether the tree is reachable.
/// Fails at the first override that is given for an unreachable option or
/// that its `valid` expression rejects, and at the first expression that
/// cannot be evaluated; the failure names the option by its dotted path.
pub fn validate(
    config_part: &OptionMap,
    all_config: &OptionMap,
    features: &Vec<String>,
    take: bool,
) -> (r: Result<(), Error>)
    ensures
        unit_view(r) == validated(
            config_part@,
            config_part@.len() as int,
            all_config@,
            texts(features@),
            take,
            Seq::empty(),
        ),
{
    proof {
        reveal_strlit("");
        assert(""@ =~= Seq::<char>::empty());
    }
    validate_below(config_part, all_config, features, take, "")
}

/// Walks one level of the tree depth first; `prefix` is the prefix of the
/// dotted paths of this level.
pub fn validate_below(
    config_part: &OptionMap,
    all_config: &OptionMap,
    features: &Vec<String>,
    take: bool,
    prefix: &str,
) -> (r: Result<(), Error>)
    ensures
        unit_view(r) == validated(
            config_part@,
            config_part@.len() as int,
            all_config@,
            texts(features@),
            take,
            prefix@,
        ),
    decreases config_part@,
{
    let items = config_part.entries();
    let ghost part = config_part@;
    let ghost all = all_config@;
    let ghost names = texts(features@);
    let mut i: usize = 0;
    while i < items.len()
        invariant
            i <= items.len(),
            part == config_part@,
            all == all_config@,
            names == texts(features@),
            items.len() == part.len(),
            forall|j: int|
                0 <= j < items.len() ==> (#[trigger] items[j]).0@ == part[j].0 && items[j].1@
                    == part[j].1,
            validated(part, i as int, all, names, take, prefix@) == Ok::<(), ErrorView>(()),
        decreases items.len() - i,
    {
        let name = items[i].0.as_str();
        let item = items[i].1;
        let ghost node = part[i as int].1;
        proof {
            assert(item@ == node);
            assert(validated(part, i + 1, all, names, take, prefix@) == validate_node(
                name@,
                node,
                all,
                names,
                take,
                prefix@,
            ));
            if validated(part, i + 1, all, names, take, prefix@) is Err {
                lemma_validated_stops(part, i + 1, part.len() as int, all, names, take, prefix@);
            }
        }
        let own = if take {
            is_valid_depends(&item.depends, all_config, features)
        } else {
            Some(false)
        };
        let own = match own {
            None => {
                return Err(Error::PredicateEvaluationFailure(joined(prefix, name)));
            },
            Some(own) => own,
        };
        match &item.__value {
            Some(value) => {
                let accepted = if own {
                    is_value_valid(&item.valid, value, all_config, features)
                } else {
                    None
                };
                match override_verdict(joined(prefix, name).as_str(), own, accepted) {
                    Ok(()) => {},
                    Err(e) => {
                        return Err(e);
                    },
                }
            },
            None => {},
        }
        match &item.options {
            Some(children) => {
                assert(node.options->Some_0 == children@);
                let below = deeper(prefix, name);
                match validate_below(children, all_config, features, own, below.as_str()) {
                    Ok(()) => {},
                    Err(e) => {
                        return Err(e);
                    },
                }
            },
            None => {},
        }
        i = i + 1;
    }
    Ok(())
}

} // verus!
