//! Enum extraction: the type and variant identifiers that generated code
//! uses for the enumeration options of a definition.

use crate::model::{items_view, ItemView, OptionMap, OptionView, Tree, ValueType};
use crate::text::{joined, texts};
use convert_case::Casing;
use vstd::prelude::*;
use vstd::string::*;

verus! {

/// The identifiers generated for one enumeration option.
#[derive(Debug)]
pub struct EnumDefinition {
    pub name: String,
    pub variant_names: Vec<String>,
}

/// The mathematical content of an [`EnumDefinition`].
pub struct EnumView {
    pub name: Seq<char>,
    pub variant_names: Seq<Seq<char>>,
}

impl View for EnumDefinition {
    type V = EnumView;

    open spec fn view(&self) -> EnumView {
        EnumView { name: self.name@, variant_names: texts(self.variant_names@) }
    }
}

impl Clone for EnumDefinition {
    fn clone(&self) -> (r: Self)
        ensures
            r@ == self@,
    {
        let mut names: Vec<String> = Vec::new();
        let mut i: usize = 0;
        while i < self.variant_names.len()
            invariant
                i <= self.variant_names.len(),
                names.len() == i,
                forall|j: int| 0 <= j < i ==> (#[trigger] names@[j])@ == self.variant_names@[j]@,
            decreases self.variant_names.len() - i,
        {
            names.push(self.variant_names[i].clone());
            i = i + 1;
        }
        assert(texts(names@) =~= texts(self.variant_names@));
        EnumDefinition { name: self.name.clone(), variant_names: names }
    }
}

/// The contents of a list of enum definitions.
pub open spec fn enums_view(list: Seq<EnumDefinition>) -> Seq<EnumView> {
    Seq::new(list.len(), |i: int| list[i]@)
}

/// What `convert_case` gives for a text in Pascal case.
pub uninterp spec fn pascal_case(s: Seq<char>) -> Seq<char>;

/// Whether `char::is_numeric` holds of a character: whether it is a number
/// of any script.
pub uninterp spec fn numeric_char(c: char) -> bool;

/// The marker put before a value that starts with a number.
pub open spec fn variant_marker() -> Seq<char> {
    "Variant"@
}

/// The variant identifier of an enumeration value: the value in Pascal case,
/// with the marker put first where the value starts with a number.
pub open spec fn variant_name(value: Seq<char>) -> Seq<char> {
    if numeric_char(value[0]) {
        pascal_case(variant_marker() + value)
    } else {
        pascal_case(value)
    }
}

/// The type identifier of the option `name` under `prefix`.
pub open spec fn enum_type_name(prefix: Seq<char>, name: Seq<char>) -> Seq<char> {
    pascal_case(prefix) + pascal_case(name)
}

/// The variant identifiers of the first `n` values, in declaration order.
pub open spec fn variant_names(values: Seq<ItemView>, n: int) -> Seq<Seq<char>>
    decreases n,
{
    if n <= 0 || n > values.len() {
        Seq::empty()
    } else {
        variant_names(values, n - 1).push(variant_name(values[n - 1].value))
    }
}

/// Every enumeration option, at every depth, declares its values, and none
/// of them is empty.
pub open spec fn enums_declared(tree: Tree) -> bool
    decreases tree,
{
    forall|i: int|
        0 <= i < tree.len() ==> node_enum_declared(#[trigger] tree[i].1) && (
        tree[i].1.options matches Some(children) ==> enums_declared(children))
}

/// An enumeration option declares its values, and none of them is empty.
pub open spec fn node_enum_declared(node: OptionView) -> bool {
    node.value_type == Some(ValueType::Enum) ==> (node.values is Some && forall|k: int|
        0 <= k < node.values->Some_0.len() ==> (#[trigger] node.values->Some_0[k]).value.len()
            > 0)
}

/// The definitions of the enumeration options among the first `n` entries
/// of one level, depth first in insertion order.
pub open spec fn enum_definitions(tree: Tree, n: int, prefix: Seq<char>) -> Seq<EnumView>
    decreases tree, n,
{
    if n <= 0 || n > tree.len() {
        Seq::empty()
    } else {
        enum_definitions(tree, n - 1, prefix) + node_enum_definitions(
            tree[n - 1].0,
            tree[n - 1].1,
            prefix,
        )
    }
}

/// The definition of one enumeration option, or those of the options below
/// a node that is none. The type is named by the path from the root.
pub open spec fn node_enum_definitions(name: Seq<char>, node: OptionView, prefix: Seq<char>) -> Seq<
    EnumView,
>
    decreases node, 0int,
{
    if node.value_type == Some(ValueType::Enum) {
        seq![
            EnumView {
                name: enum_type_name(prefix, name),
                variant_names: variant_names(
                    node.values->Some_0,
                    node.values->Some_0.len() as int,
                ),
            },
        ]
    } else {
        match node.options {
            Some(children) => enum_definitions(
                children,
                children.len() as int,
                enum_type_name(prefix, name),
            ),
            None => Seq::empty(),
        }
    }
}

/// `convert_case::Casing::to_case` with `Case::Pascal`. Trusted: the result
/// is a function of the text alone; what Pascal case is, is left to
/// `convert_case`.
#[verifier::external_body]
fn to_pascal(s: &str) -> (r: String)
    ensures
        r@ == pascal_case(s@),
{
    s.to_case(convert_case::Case::Pascal)
}

/// `char::is_numeric`. Trusted: the result is a function of the character
/// alone.
#[verifier::external_body]
pub(crate) fn is_numeric(c: char) -> (r: bool)
    ensures
        r == numeric_char(c),
{
    c.is_numeric()
}

/// The variant identifier of an enumeration value.
pub fn to_variant_name(str: &str) -> (r: String)
    requires
        str@.len() > 0,
    ensures
        r@ == variant_name(str@),
{
    if is_numeric(str.get_char(0)) {
        let marked = joined("Variant", str);
        to_pascal(marked.as_str())
    } else {
        to_pascal(str)
    }
}

/// Whether every enumeration option of the tree, at every depth, declares
/// its values, none of them empty.
pub fn has_declared_enums(config: &OptionMap) -> (ok: bool)
    ensures
        ok == enums_declared(config@),
    decreases config@,
{
    let items = config.entries();
    let ghost tree = config@;
    let mut i: usize = 0;
    while i < items.len()
        invariant
            i <= items.len(),
            tree == config@,
            items.len() == tree.len(),
            forall|j: int|
                0 <= j < items.len() ==> (#[trigger] items[j]).0@ == tree[j].0 && items[j].1@
                    == tree[j].1,
            forall|j: int|
                0 <= j < i ==> node_enum_declared(#[trigger] tree[j].1) && (
                tree[j].1.options matches Some(children) ==> enums_declared(children)),
        decreases items.len() - i,
    {
        let item = items[i].1;
        let ghost node = tree[i as int].1;
        assert(item@ == node);
        let is_enum = match item.value_type {
            Some(ValueType::Enum) => true,
            _ => false,
        };
        if is_enum {
            match &item.values {
                None => {
                    assert(!node_enum_declared(tree[i as int].1));
                    return false;
                },
                Some(values) => {
                    let ghost declared = items_view(values@);
                    assert(node.values == Some(declared));
                    let mut k: usize = 0;
                    while k < values.len()
                        invariant
                            k <= values.len(),
                            tree == config@,
                            i < tree.len(),
                            node == tree[i as int].1,
                            node.value_type == Some(ValueType::Enum),
                            node.values == Some(declared),
                            declared == items_view(values@),
                            forall|j: int|
                                0 <= j < k ==> (#[trigger] declared[j]).value.len() > 0,
                        decreases values.len() - k,
                    {
                        assert(declared[k as int].value == values@[k as int].value@);
                        if values[k].value.as_str().unicode_len() == 0 {
                            assert(node.values->Some_0[k as int].value.len() == 0);
                            assert(!node_enum_declared(tree[i as int].1));
                            return false;
                        }
                        k = k + 1;
                    }
                },
            }
        }
        match &item.options {
            Some(children) => {
                assert(node.options->Some_0 == children@);
                if !has_declared_enums(children) {
                    assert(!enums_declared(tree[i as int].1.options->Some_0));
                    return false;
                }
            },
            None => {},
        }
        i = i + 1;
    }
    true
}

/// The definitions of all enumeration options of a definition tree, whether
/// they are reachable or not.
pub fn extract_all_enum_definitions(config: &OptionMap) -> (r: Vec<EnumDefinition>)
    requires
        enums_declared(config@),
    ensures
        enums_view(r@) == enum_definitions(config@, config@.len() as int, Seq::empty()),
{
    let mut result: Vec<EnumDefinition> = Vec::new();
    assert(enums_view(result@) =~= Seq::<EnumView>::empty());
    extract_all_enum_definitions_recusive(&mut result, config, String::from_str(""));
    proof {
        reveal_strlit("");
        assert(""@ =~= Seq::<char>::empty());
        assert(enums_view(result@) =~= enum_definitions(
            config@,
            config@.len() as int,
            Seq::empty(),
        ));
    }
    result
}

/// Appends to `result` the definitions of the enumeration options of
/// `config`, depth first; `prefix` is the path above this level.
pub fn extract_all_enum_definitions_recusive(
    result: &mut Vec<EnumDefinition>,
    config: &OptionMap,
    prefix: String,
)
    requires
        enums_declared(config@),
    ensures
        enums_view(final(result)@) == enums_view(old(result)@) + enum_definitions(
            config@,
            config@.len() as int,
            prefix@,
        ),
    decreases config@,
{
    let items = config.entries();
    let ghost tree = config@;
    let ghost start = enums_view(result@);
    let mut i: usize = 0;
    assert(start + Seq::<EnumView>::empty() =~= start);
    while i < items.len()
        invariant
            i <= items.len(),
            tree == config@,
            enums_declared(tree),
            start == enums_view(old(result)@),
            items.len() == tree.len(),
            forall|j: int|
                0 <= j < items.len() ==> (#[trigger] items[j]).0@ == tree[j].0 && items[j].1@
                    == tree[j].1,
            enums_view(result@) == start + enum_definitions(tree, i as int, prefix@),
        decreases items.len() - i,
    {
        let name = items[i].0.as_str();
        let item = items[i].1;
        let ghost node = tree[i as int].1;
        let ghost before = enum_definitions(tree, i as int, prefix@);
        let ghost own = node_enum_definitions(name@, node, prefix@);
        let ghost shown = enums_view(result@);
        proof {
            assert(item@ == node);
            assert(node_enum_declared(tree[i as int].1));
            assert(enum_definitions(tree, i + 1, prefix@) == before + own);
            assert(start + (before + own) =~= (start + before) + own);
        }
        let path = joined(to_pascal(prefix.as_str()).as_str(), to_pascal(name).as_str());
        let is_enum = match item.value_type {
            Some(ValueType::Enum) => true,
            _ => false,
        };
        if is_enum {
            match &item.values {
                Some(values) => {
                    let ghost declared = items_view(values@);
                    assert(node.values == Some(declared));
                    let mut names: Vec<String> = Vec::new();
                    let mut k: usize = 0;
                    assert(texts(names@) =~= variant_names(declared, 0));
                    while k < values.len()
                        invariant
                            k <= values.len(),
                            declared == items_view(values@),
                            forall|j: int|
                                0 <= j < declared.len() ==> (#[trigger] declared[j]).value.len()
                                    > 0,
                            texts(names@) == variant_names(declared, k as int),
                        decreases values.len() - k,
                    {
                        let ghost had = texts(names@);
                        assert(declared[k as int].value == values@[k as int].value@);
                        let variant = to_variant_name(values[k].value.as_str());
                        names.push(variant);
                        assert(texts(names@) =~= had.push(variant@));
                        k = k + 1;
                    }
                    result.push(EnumDefinition { name: path, variant_names: names });
                    assert(enums_view(result@) =~= shown + own);
                },
                None => {},
            }
        } else {
            match &item.options {
                Some(children) => {
                    assert(node.options->Some_0 == children@);
                    extract_all_enum_definitions_recusive(result, children, path);
                },
                None => {
                    assert(enums_view(result@) =~= shown + own);
                },
            }
        }
        i = i + 1;
    }
}

} // verus!
