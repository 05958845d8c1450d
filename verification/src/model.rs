//! The definition model: a tree of options, each a submenu or a leaf, kept in
//! insertion order.

use crate::value::{Json, Value};
use linked_hash_map::LinkedHashMap;
use vstd::prelude::*;
use vstd::string::*;

verus! {

/// Why an evaluation was rejected. An option is named by its dotted path.
#[derive(Debug)]
pub enum Error {
    /// An override names an option that the definition does not have.
    InvalidKey,
    /// An override was given for the named option, which is not reachable.
    InvalidConfiguration(String),
    /// The override given for the named option fails its `valid` expression.
    InvalidConfigurationValue(String),
    /// A `depends` or `valid` expression of the named option could not be
    /// evaluated to a boolean.
    PredicateEvaluationFailure(String),
}

/// The mathematical content of an [`Error`].
pub enum ErrorView {
    InvalidKey,
    InvalidConfiguration(Seq<char>),
    InvalidConfigurationValue(Seq<char>),
    PredicateEvaluationFailure(Seq<char>),
}

impl View for Error {
    type V = ErrorView;

    open spec fn view(&self) -> ErrorView {
        match self {
            Error::InvalidKey => ErrorView::InvalidKey,
            Error::InvalidConfiguration(name) => ErrorView::InvalidConfiguration(name@),
            Error::InvalidConfigurationValue(name) => ErrorView::InvalidConfigurationValue(name@),
            Error::PredicateEvaluationFailure(name) => ErrorView::PredicateEvaluationFailure(
                name@,
            ),
        }
    }
}

/// The type of a leaf option.
#[derive(Debug, Clone, Copy, PartialEq, Eq, Structural)]
pub enum ValueType {
    Bool,
    U32,
    Enum,
    String,
}

impl ValueType {
    /// The name of the type as generated code writes it.
    pub open spec fn name(self) -> Seq<char> {
        match self {
            ValueType::Bool => "bool"@,
            ValueType::U32 => "u32"@,
            ValueType::Enum => "enum"@,
            ValueType::String => "string"@,
        }
    }

    /// The name of the type as generated code writes it.
    pub fn to_string(&self) -> (text: String)
        ensures
            text@ == self.name(),
    {
        match self {
            ValueType::Bool => String::from_str("bool"),
            ValueType::U32 => String::from_str("u32"),
            ValueType::Enum => String::from_str("enum"),
            ValueType::String => String::from_str("string"),
        }
    }
}

/// One legal value of an enumeration option, with its label.
#[derive(Debug)]
pub struct ValueItem {
    pub description: String,
    pub value: String,
}

/// The mathematical content of a [`ValueItem`].
pub struct ItemView {
    pub description: Seq<char>,
    pub value: Seq<char>,
}

impl View for ValueItem {
    type V = ItemView;

    open spec fn view(&self) -> ItemView {
        ItemView { description: self.description@, value: self.value@ }
    }
}

impl Clone for ValueItem {
    fn clone(&self) -> (r: Self)
        ensures
            r@ == self@,
    {
        ValueItem { description: self.description.clone(), value: self.value.clone() }
    }
}

/// The contents of a list of enumeration values.
pub open spec fn items_view(items: Seq<ValueItem>) -> Seq<ItemView> {
    Seq::new(items.len(), |i: int| items[i]@)
}

/// A node of the definition tree. A node with `options` is a submenu; a node
/// with a `value_type` is a leaf. `__value` is the override that fusing put
/// there.
#[derive(Debug)]
pub struct ConfigOption {
    pub description: String,
    pub value_type: Option<ValueType>,
    pub depends: Option<String>,
    pub valid: Option<String>,
    pub values: Option<Vec<ValueItem>>,
    pub default_value: Option<Value>,
    pub options: Option<OptionMap>,
    pub __value: Option<Value>,
}

/// The mathematical content of a [`ConfigOption`]: the children of a submenu
/// are a sequence of named nodes, in insertion order.
#[verifier::ext_equal]
pub struct OptionView {
    pub description: Seq<char>,
    pub value_type: Option<ValueType>,
    pub depends: Option<Seq<char>>,
    pub valid: Option<Seq<char>>,
    pub values: Option<Seq<ItemView>>,
    pub default_value: Option<Json>,
    pub options: Option<Seq<(Seq<char>, OptionView)>>,
    pub value: Option<Json>,
}

/// One level of a tree: named nodes in insertion order.
pub type Tree = Seq<(Seq<char>, OptionView)>;

/// An insertion-ordered map from option names to options, held in a
/// `linked_hash_map::LinkedHashMap`. The map itself is not looked into:
/// what it holds is [`map_entries`], and the methods below that start with
/// `raw_` say, unproved, what the methods of the map do to it.
#[verifier::external_body]
#[derive(Debug)]
pub struct OptionMap {
    inner: LinkedHashMap<String, ConfigOption>,
}

/// What an [`OptionMap`] holds: its entries in iteration order, each key with
/// the content of its option.
pub uninterp spec fn map_entries(m: OptionMap) -> Seq<(Seq<char>, OptionView)>;

impl View for OptionMap {
    type V = Seq<(Seq<char>, OptionView)>;

    open spec fn view(&self) -> Seq<(Seq<char>, OptionView)> {
        map_entries(*self)
    }
}

impl View for ConfigOption {
    type V = OptionView;

    open spec fn view(&self) -> OptionView {
        OptionView {
            description: self.description@,
            value_type: self.value_type,
            depends: match self.depends {
                Some(e) => Some(e@),
                None => None,
            },
            valid: match self.valid {
                Some(e) => Some(e@),
                None => None,
            },
            values: match self.values {
                Some(items) => Some(items_view(items@)),
                None => None,
            },
            default_value: match self.default_value {
                Some(v) => Some(v@),
                None => None,
            },
            options: match self.options {
                Some(m) => Some(m@),
                None => None,
            },
            value: match self.__value {
                Some(v) => Some(v@),
                None => None,
            },
        }
    }
}

/// The first position at which `key` stands in `entries`, if it stands there.
pub open spec fn find_key(entries: Tree, key: Seq<char>) -> Option<int>
    decreases entries.len(),
{
    if entries.len() == 0 {
        None
    } else {
        match find_key(entries.drop_last(), key) {
            Some(i) => Some(i),
            None => if entries.last().0 == key {
                Some(entries.len() - 1)
            } else {
                None
            },
        }
    }
}

/// No key stands twice in `entries`.
pub open spec fn distinct_keys(entries: Tree) -> bool {
    forall|i: int, j: int| 0 <= i < j < entries.len() ==> entries[i].0 != entries[j].0
}

/// The entries after `node` was inserted under `key`: a new key is appended; a
/// key that was there is given the new node and moved to the end.
pub open spec fn inserted(entries: Tree, key: Seq<char>, node: OptionView) -> Tree {
    match find_key(entries, key) {
        Some(i) => entries.remove(i).push((key, node)),
        None => entries.push((key, node)),
    }
}

/// A node is a leaf with a type, or a pure submenu: one that has children
/// and neither an override nor a default.
pub open spec fn node_shape_ok(node: OptionView) -> bool {
    node.value_type is Some || (node.options is Some && node.value is None
        && node.default_value is None)
}

/// Every node of the tree, at every depth, is a typed leaf or a pure submenu.
pub open spec fn well_formed(tree: Tree) -> bool
    decreases tree,
{
    forall|i: int|
        0 <= i < tree.len() ==> node_shape_ok(#[trigger] tree[i].1) && (
        tree[i].1.options matches Some(children) ==> well_formed(children))
}

/// What [`find_key`] finds is the first entry with the key, and where it
/// finds nothing no entry has the key.
pub proof fn lemma_find_key(entries: Tree, key: Seq<char>)
    ensures
        match find_key(entries, key) {
            Some(i) => 0 <= i < entries.len() && entries[i].0 == key && forall|j: int|
                0 <= j < i ==> entries[j].0 != key,
            None => forall|j: int| 0 <= j < entries.len() ==> entries[j].0 != key,
        },
    decreases entries.len(),
{
    if entries.len() > 0 {
        let front = entries.drop_last();
        lemma_find_key(front, key);
        assert forall|j: int| 0 <= j < front.len() implies front[j] == entries[j] by {}
        match find_key(front, key) {
            Some(i) => {
                assert forall|j: int| 0 <= j < i implies entries[j].0 != key by {
                    assert(front[j].0 != key);
                }
            },
            None => {
                assert forall|j: int| 0 <= j < front.len() implies entries[j].0 != key by {
                    assert(front[j].0 != key);
                }
            },
        }
    }
}

impl OptionMap {
    /// `LinkedHashMap::new`. Trusted: the new map holds nothing.
    #[verifier::external_body]
    fn raw_new() -> (m: OptionMap)
        ensures
            map_entries(m) == Seq::<(Seq<char>, OptionView)>::empty(),
    {
        OptionMap { inner: LinkedHashMap::new() }
    }

    /// `LinkedHashMap::iter`, collected. Trusted: the entries come in
    /// insertion order, each key once.
    #[verifier::external_body]
    fn raw_entries(&self) -> (r: Vec<(&String, &ConfigOption)>)
        ensures
            r.len() == map_entries(*self).len(),
            forall|i: int|
                0 <= i < r.len() ==> (#[trigger] r[i]).0@ == map_entries(*self)[i].0 && r[i].1@
                    == map_entries(*self)[i].1,
            forall|i: int, j: int| 0 <= i < j < r.len() ==> r[i].0@ != r[j].0@,
    {
        self.inner.iter().collect()
    }

    /// `LinkedHashMap::get`. Trusted: the option stored under the key, or
    /// `None` where no entry has the key.
    #[verifier::external_body]
    fn raw_get(&self, key: &str) -> (r: Option<&ConfigOption>)
        ensures
            match r {
                Some(item) => find_key(map_entries(*self), key@) matches Some(i) && item@
                    == map_entries(*self)[i].1,
                None => find_key(map_entries(*self), key@) is None,
            },
    {
        self.inner.get(key)
    }

    /// `LinkedHashMap::insert`. Trusted: a new key is appended; for a key
    /// that is present the stored option is replaced and the entry moves to
    /// the end.
    #[verifier::external_body]
    fn raw_insert(&mut self, key: String, item: ConfigOption)
        ensures
            map_entries(*final(self)) == inserted(map_entries(*old(self)), key@, item@),
    {
        self.inner.insert(key, item);
    }

    /// `LinkedHashMap::get_mut`. Trusted: a mutable borrow of the option
    /// stored under the key; the key and the place of the entry stay.
    #[verifier::external_body]
    fn raw_get_mut(&mut self, key: &str) -> (r: Option<&mut ConfigOption>)
        ensures
            match r {
                Some(item) => find_key(map_entries(*old(self)), key@) matches Some(i) && (*item)@
                    == map_entries(*old(self))[i].1 && map_entries(*final(self)) == map_entries(
                    *old(self),
                ).update(i, (map_entries(*old(self))[i].0, (*final(item))@)),
                None => find_key(map_entries(*old(self)), key@) is None && map_entries(
                    *final(self),
                ) == map_entries(*old(self)),
            },
    {
        self.inner.get_mut(key)
    }

    /// A mutable borrow of the option stored under `key`. What is written
    /// through it replaces the option in place.
    pub fn get_mut(&mut self, key: &str) -> (r: Option<&mut ConfigOption>)
        ensures
            match r {
                Some(item) => find_key(old(self)@, key@) matches Some(i) && (*item)@ == old(
                    self,
                )@[i].1 && final(self)@ == old(self)@.update(
                    i,
                    (old(self)@[i].0, (*final(item))@),
                ),
                None => find_key(old(self)@, key@) is None && final(self)@ == old(self)@,
            },
    {
        self.raw_get_mut(key)
    }

    /// An empty map.
    pub fn new() -> (m: OptionMap)
        ensures
            m@ == Seq::<(Seq<char>, OptionView)>::empty(),
    {
        OptionMap::raw_new()
    }

    /// The entries in insertion order.
    pub fn entries(&self) -> (r: Vec<(&String, &ConfigOption)>)
        ensures
            r.len() == self@.len(),
            forall|i: int|
                0 <= i < r.len() ==> (#[trigger] r[i]).0@ == self@[i].0 && r[i].1@ == self@[i].1,
            distinct_keys(self@),
    {
        let r = self.raw_entries();
        assert forall|i: int, j: int| 0 <= i < j < self@.len() implies self@[i].0 != self@[j].0 by {
            assert(r[i].0@ != r[j].0@);
        }
        r
    }

    /// The number of entries.
    pub fn len(&self) -> (n: usize)
        ensures
            n == self@.len(),
    {
        self.raw_entries().len()
    }

    /// The option stored under `key`.
    pub fn get(&self, key: &str) -> (r: Option<&ConfigOption>)
        ensures
            match r {
                Some(item) => find_key(self@, key@) matches Some(i) && item@ == self@[i].1,
                None => find_key(self@, key@) is None,
            },
    {
        self.raw_get(key)
    }

    /// Stores `item` under `key`. A new key is appended; a key that is
    /// present gets the new option and moves to the end.
    pub fn insert(&mut self, key: String, item: ConfigOption)
        ensures
            final(self)@ == inserted(old(self)@, key@, item@),
    {
        self.raw_insert(key, item)
    }

    /// A deep copy.
    pub fn duplicate(&self) -> (r: OptionMap)
        ensures
            r@ == self@,
        decreases self@, 0int,
    {
        let items = self.entries();
        let mut out = OptionMap::new();
        let mut i: usize = 0;
        while i < items.len()
            invariant
                i <= items.len(),
                items.len() == self@.len(),
                forall|j: int|
                    0 <= j < items.len() ==> (#[trigger] items[j]).0@ == self@[j].0 && items[j].1@
                        == self@[j].1,
                distinct_keys(self@),
                out@ == self@.take(i as int),
            decreases items.len() - i,
        {
            let key = items[i].0.clone();
            let item = items[i].1.duplicate();
            proof {
                lemma_find_key(out@, key@);
                assert(self@.take(i as int).push(self@[i as int]) =~= self@.take(i as int + 1));
            }
            out.insert(key, item);
            i = i + 1;
        }
        assert(self@.take(i as int) =~= self@);
        out
    }
}

impl Clone for OptionMap {
    fn clone(&self) -> (r: Self)
        ensures
            r@ == self@,
    {
        self.duplicate()
    }
}

impl ConfigOption {
    /// A deep copy.
    pub fn duplicate(&self) -> (r: ConfigOption)
        ensures
            r@ == self@,
        decreases self@, 1int,
    {
        let options = match &self.options {
            Some(m) => {
                assert(self@.options->Some_0 == m@);
                Some(m.duplicate())
            },
            None => None,
        };
        self.with_options(options)
    }

    /// A copy of everything but the children, with `options` in their place.
    pub fn with_options(&self, options: Option<OptionMap>) -> (r: ConfigOption)
        ensures
            r@ == (OptionView {
                options: match options {
                    Some(m) => Some(m@),
                    None => None,
                },
                ..self@
            }),
    {
        ConfigOption {
            description: self.description.clone(),
            value_type: self.value_type,
            depends: clone_text(&self.depends),
            valid: clone_text(&self.valid),
            values: clone_items(&self.values),
            default_value: clone_value(&self.default_value),
            options,
            __value: clone_value(&self.__value),
        }
    }
}

impl Clone for ConfigOption {
    fn clone(&self) -> (r: Self)
        ensures
            r@ == self@,
    {
        self.duplicate()
    }
}

fn clone_text(text: &Option<String>) -> (r: Option<String>)
    ensures
        r == *text,
{
    match text {
        Some(s) => Some(s.clone()),
        None => None,
    }
}

fn clone_value(value: &Option<Value>) -> (r: Option<Value>)
    ensures
        r is Some == value is Some,
        r matches Some(v) ==> v@ == value.unwrap()@,
{
    match value {
        Some(v) => Some(v.duplicate()),
        None => None,
    }
}

fn clone_items(items: &Option<Vec<ValueItem>>) -> (r: Option<Vec<ValueItem>>)
    ensures
        r is Some == items is Some,
        r matches Some(v) ==> items_view(v@) == items_view(items.unwrap()@),
{
    match items {
        Some(list) => {
            let mut out: Vec<ValueItem> = Vec::new();
            let mut i: usize = 0;
            while i < list.len()
                invariant
                    i <= list.len(),
                    out.len() == i,
                    forall|j: int| 0 <= j < i ==> (#[trigger] out@[j])@ == list@[j]@,
                decreases list.len() - i,
            {
                out.push(list[i].clone());
                i = i + 1;
            }
            assert(items_view(out@) =~= items_view(list@));
            Some(out)
        },
        None => None,
    }
}

} // verus!
