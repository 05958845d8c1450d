//! The repository that an editor works on: the definitions of several
//! namespaces, one override document for all of them, and the place in the
//! tree that is shown.

use crate::evaluate::{
    current_values, current_values_of, namespace_overrides, namespace_value, resolve_tree,
    resolved_tree,
};
use crate::flatten::pairs_view;
use crate::fuse::{fuse_supported, fuse_value};
use crate::model::{
    find_key, items_view, ConfigOption, ItemView, OptionMap, OptionView, Tree, ValueItem,
};
use crate::text::{text_eq, texts};
use crate::value::{fields_view, json_text, Json, Value};
use vstd::prelude::*;
use vstd::string::*;

verus! {

/// The definition of one namespace with the features that are active for it.
pub struct Namespace {
    pub name: String,
    pub config: OptionMap,
    pub features: Vec<String>,
}

/// The mathematical content of a [`Namespace`].
pub struct NamespaceView {
    pub name: Seq<char>,
    pub config: Tree,
    pub features: Seq<Seq<char>>,
}

impl View for Namespace {
    type V = NamespaceView;

    open spec fn view(&self) -> NamespaceView {
        NamespaceView { name: self.name@, config: self.config@, features: texts(self.features@) }
    }
}

/// The contents of a list of namespaces.
pub open spec fn namespaces_view(list: Seq<Namespace>) -> Seq<NamespaceView> {
    Seq::new(list.len(), |i: int| list[i]@)
}

/// The state of an editing session. `path` leads from a namespace down
/// through submenus to the level that is shown; it is empty at the root,
/// where the namespaces are shown.
pub struct Repository {
    pub data: Vec<Namespace>,
    pub user_cfg: Value,
    pub path: Vec<String>,
}

/// The mathematical content of a [`Repository`].
pub struct RepositoryView {
    pub data: Seq<NamespaceView>,
    pub user_cfg: Json,
    pub path: Seq<Seq<char>>,
}

impl View for Repository {
    type V = RepositoryView;

    open spec fn view(&self) -> RepositoryView {
        RepositoryView {
            data: namespaces_view(self.data@),
            user_cfg: self.user_cfg@,
            path: texts(self.path@),
        }
    }
}

/// The first of the first `n` namespaces that has the name.
pub open spec fn find_namespace(data: Seq<NamespaceView>, n: int, name: Seq<char>) -> Option<int>
    decreases n,
{
    if n <= 0 || n > data.len() {
        None
    } else {
        match find_namespace(data, n - 1, name) {
            Some(i) => Some(i),
            None => if data[n - 1].name == name {
                Some(n - 1)
            } else {
                None
            },
        }
    }
}

/// The tree that is shown for a namespace: its definition with its overrides
/// fused in, pruned. `None` where the document has no overrides for the
/// namespace, or where they cannot be fused or the tree cannot be pruned.
pub open spec fn shown_tree(space: NamespaceView, document: Json) -> Option<Tree> {
    match namespace_value(document, space.name) {
        None => None,
        Some(over) => if fuse_value(over, space.config).status is Unsupported {
            None
        } else {
            match resolved_tree(over, space.config, space.features) {
                Ok(tree) => Some(tree),
                Err(_) => None,
            }
        },
    }
}

/// The level that a list of keys leads to, each key naming a submenu of the
/// level before.
pub open spec fn descend(tree: Tree, keys: Seq<Seq<char>>) -> Option<Tree>
    decreases keys.len(),
{
    if keys.len() == 0 {
        Some(tree)
    } else {
        match find_key(tree, keys[0]) {
            None => None,
            Some(i) => match tree[i].1.options {
                Some(children) => descend(children, keys.drop_first()),
                None => None,
            },
        }
    }
}

/// The level that is shown below the root, where the path leads to one.
pub open spec fn level(r: RepositoryView) -> Option<Tree> {
    if r.path.len() == 0 {
        None
    } else {
        match find_namespace(r.data, r.data.len() as int, r.path[0]) {
            None => None,
            Some(i) => match shown_tree(r.data[i], r.user_cfg) {
                None => None,
                Some(tree) => descend(tree, r.path.drop_first()),
            },
        }
    }
}

/// The path leads somewhere: to the root, or to a level of a shown tree.
pub open spec fn resolved(r: RepositoryView) -> bool {
    r.path.len() == 0 || level(r) is Some
}

/// The names of the namespaces.
pub open spec fn namespace_names(data: Seq<NamespaceView>) -> Seq<Seq<char>> {
    Seq::new(data.len(), |i: int| data[i].name)
}

/// The keys of one level.
pub open spec fn keys_of(tree: Tree) -> Seq<Seq<char>> {
    Seq::new(tree.len(), |i: int| tree[i].0)
}

/// The names of what is shown: the namespaces at the root, the keys of the
/// level below it.
pub open spec fn level_names(r: RepositoryView) -> Seq<Seq<char>> {
    if r.path.len() == 0 {
        namespace_names(r.data)
    } else {
        keys_of(level(r)->Some_0)
    }
}

/// Once a namespace with the name is found, later ones change nothing.
pub proof fn lemma_find_namespace_stays(data: Seq<NamespaceView>, n: int, m: int, name: Seq<char>)
    requires
        0 <= n <= m <= data.len(),
        find_namespace(data, n, name) is Some,
    ensures
        find_namespace(data, m, name) == find_namespace(data, n, name),
    decreases m - n,
{
    if n < m {
        lemma_find_namespace_stays(data, n, m - 1, name);
    }
}

impl Repository {
    /// A session at the root.
    pub fn new(data: Vec<Namespace>, user_cfg: Value) -> (r: Self)
        ensures
            r@.data == namespaces_view(data@),
            r@.user_cfg == user_cfg@,
            r@.path.len() == 0,
    {
        Repository { data, user_cfg, path: Vec::new() }
    }

    /// The position of the namespace with the name.
    pub fn namespace_index(&self, name: &str) -> (r: Option<usize>)
        ensures
            match r {
                Some(i) => find_namespace(self@.data, self@.data.len() as int, name@) == Some(
                    i as int,
                ) && i < self.data.len(),
                None => find_namespace(self@.data, self@.data.len() as int, name@) is None,
            },
    {
        let ghost data = self@.data;
        let mut i: usize = 0;
        while i < self.data.len()
            invariant
                i <= self.data.len(),
                data == self@.data,
                data.len() == self.data.len(),
                find_namespace(data, i as int, name@) is None,
            decreases self.data.len() - i,
        {
            assert(data[i as int] == self.data@[i as int]@);
            if text_eq(self.data[i].name.as_str(), name) {
                proof {
                    lemma_find_namespace_stays(data, i + 1, data.len() as int, name@);
                }
                return Some(i);
            }
            i = i + 1;
        }
        None
    }

    /// The tree that is shown for the namespace at a position.
    pub fn shown(&self, index: usize) -> (r: Option<OptionMap>)
        requires
            index < self.data.len(),
        ensures
            match r {
                Some(tree) => shown_tree(self@.data[index as int], self@.user_cfg) == Some(tree@),
                None => shown_tree(self@.data[index as int], self@.user_cfg) is None,
            },
    {
        let space = &self.data[index];
        assert(self@.data[index as int] == space@);
        match namespace_overrides(&self.user_cfg, space.name.as_str()) {
            None => None,
            Some(over) => {
                if !fuse_supported(over, &space.config) {
                    return None;
                }
                match resolve_tree(over, space.config.duplicate(), &space.features) {
                    Ok(tree) => Some(tree),
                    Err(_) => None,
                }
            },
        }
    }

    /// The level that is shown below the root.
    pub fn current(&self) -> (r: Option<OptionMap>)
        ensures
            match r {
                Some(tree) => level(self@) == Some(tree@),
                None => level(self@) is None,
            },
    {
        if self.path.len() == 0 {
            return None;
        }
        let ghost keys = texts(self.path@);
        assert(keys[0] == self.path@[0]@);
        let index = match self.namespace_index(self.path[0].as_str()) {
            Some(i) => i,
            None => {
                return None;
            },
        };
        let tree = match self.shown(index) {
            Some(t) => t,
            None => {
                return None;
            },
        };
        let ghost top = tree@;
        let mut here = &tree;
        let mut k: usize = 1;
        assert(keys.drop_first() =~= keys.skip(1));
        assert(level(self@) == descend(top, keys.drop_first()));
        while k < self.path.len()
            invariant
                1 <= k <= self.path.len(),
                keys == texts(self.path@),
                level(self@) == descend(top, keys.drop_first()),
                descend(top, keys.drop_first()) == descend(here@, keys.skip(k as int)),
            decreases self.path.len() - k,
        {
            let ghost rest = keys.skip(k as int);
            assert(rest[0] == self.path@[k as int]@);
            assert(rest.drop_first() =~= keys.skip(k + 1));
            match here.get(self.path[k].as_str()) {
                None => {
                    return None;
                },
                Some(next) => match &next.options {
                    Some(children) => {
                        here = children;
                    },
                    None => {
                        return None;
                    },
                },
            }
            k = k + 1;
        }
        assert(keys.skip(k as int).len() == 0);
        Some(here.duplicate())
    }

    /// Whether the path leads somewhere.
    pub fn resolves(&self) -> (ok: bool)
        ensures
            ok == resolved(self@),
    {
        if self.path.len() == 0 {
            true
        } else {
            self.current().is_some()
        }
    }

    /// The names of what is shown: the namespaces at the root, the keys of
    /// the level below it.
    pub fn get_current_level(&self) -> (r: Vec<String>)
        requires
            resolved(self@),
        ensures
            texts(r@) == level_names(self@),
    {
        let mut res: Vec<String> = Vec::new();
        if self.path.len() == 0 {
            let mut i: usize = 0;
            while i < self.data.len()
                invariant
                    i <= self.data.len(),
                    res.len() == i,
                    forall|j: int| 0 <= j < i ==> (#[trigger] res@[j])@ == self.data@[j].name@,
                decreases self.data.len() - i,
            {
                res.push(self.data[i].name.clone());
                i = i + 1;
            }
            assert(texts(res@) =~= namespace_names(self@.data));
        } else {
            match self.current() {
                Some(tree) => {
                    let items = tree.entries();
                    let mut i: usize = 0;
                    while i < items.len()
                        invariant
                            i <= items.len(),
                            items.len() == tree@.len(),
                            forall|j: int|
                                0 <= j < items.len() ==> (#[trigger] items[j]).0@ == tree@[j].0,
                            res.len() == i,
                            forall|j: int| 0 <= j < i ==> (#[trigger] res@[j])@ == tree@[j].0,
                        decreases items.len() - i,
                    {
                        res.push(items[i].0.clone());
                        i = i + 1;
                    }
                    assert(texts(res@) =~= keys_of(tree@));
                },
                None => {},
            }
        }
        res
    }

    /// The number of names that are shown.
    pub fn get_count(&self) -> (n: usize)
        requires
            resolved(self@),
        ensures
            n == level_names(self@).len(),
    {
        if self.path.len() == 0 {
            self.data.len()
        } else {
            match self.current() {
                Some(tree) => tree.len(),
                None => 0,
            }
        }
    }

    /// Steps into the entry at a position of what is shown.
    pub fn select(&mut self, select: usize)
        requires
            resolved(old(self)@),
            select < level_names(old(self)@).len(),
        ensures
            final(self)@.path == old(self)@.path.push(level_names(old(self)@)[select as int]),
            final(self)@.data == old(self)@.data,
            final(self)@.user_cfg == old(self)@.user_cfg,
    {
        let names = self.get_current_level();
        let ghost before = texts(self.path@);
        assert(texts(names@)[select as int] == names@[select as int]@);
        self.path.push(names[select].clone());
        assert(texts(self.path@) =~= before.push(names@[select as int]@));
    }

    /// Steps up one level; at the root nothing changes.
    pub fn up(&mut self)
        ensures
            final(self)@.path == (if old(self)@.path.len() == 0 {
                old(self)@.path
            } else {
                old(self)@.path.drop_last()
            }),
            final(self)@.data == old(self)@.data,
            final(self)@.user_cfg == old(self)@.user_cfg,
    {
        if self.path.len() > 0 {
            let ghost before = texts(self.path@);
            self.path.pop();
            assert(texts(self.path@) =~= before.drop_last());
        }
    }

    /// Whether the entry at a position of what is shown is a leaf. At the
    /// root nothing is.
    pub fn is_value(&self, which: usize) -> (r: bool)
        requires
            resolved(self@),
            self@.path.len() > 0 ==> which < level_names(self@).len(),
        ensures
            r == (self@.path.len() > 0 && level(self@)->Some_0[which as int].1.options is None),
    {
        if self.path.len() == 0 {
            false
        } else {
            match self.current() {
                Some(tree) => {
                    let items = tree.entries();
                    items[which].1.options.is_none()
                },
                None => false,
            }
        }
    }

    /// The option at a position of what is shown. At the root there is none.
    pub fn get_option(&self, which: usize) -> (r: Option<ConfigOption>)
        requires
            resolved(self@),
            self@.path.len() > 0 ==> which < level_names(self@).len(),
        ensures
            match r {
                Some(option) => self@.path.len() > 0 && option@ == level(
                    self@,
                )->Some_0[which as int].1,
                None => self@.path.len() == 0,
            },
    {
        if self.path.len() == 0 {
            None
        } else {
            match self.current() {
                Some(tree) => {
                    let items = tree.entries();
                    Some(items[which].1.duplicate())
                },
                None => None,
            }
        }
    }
}

/// The label of the first of the first `n` enumeration values that equals
/// the text.
pub open spec fn label_of(items: Seq<ItemView>, n: int, text: Seq<char>) -> Option<Seq<char>>
    decreases n,
{
    if n <= 0 || n > items.len() {
        None
    } else {
        match label_of(items, n - 1, text) {
            Some(d) => Some(d),
            None => if items[n - 1].value == text {
                Some(items[n - 1].description)
            } else {
                None
            },
        }
    }
}

/// How a value is shown: as it is written where the option declares no
/// values, else by the label of the declared value that it equals. `None`
/// where it equals none of them.
pub open spec fn display_text(value: Json, values: Option<Seq<ItemView>>) -> Option<Seq<char>> {
    match values {
        None => Some(json_text(value)),
        Some(items) => match value {
            Json::Text(s) => label_of(items, items.len() as int, s),
            _ => None,
        },
    }
}

/// How an option is described: its description, a space, and its override in
/// brackets, else its default marked as such, else nothing.
pub open spec fn description_of(node: OptionView) -> Option<Seq<char>> {
    match node.value {
        Some(v) => match display_text(v, node.values) {
            Some(shown) => Some(node.description + " "@ + ("("@ + shown + ")"@)),
            None => None,
        },
        None => match node.default_value {
            Some(d) => match display_text(d, node.values) {
                Some(shown) => Some(node.description + " "@ + ("(DEFAULT = "@ + shown + ")"@)),
                None => None,
            },
            None => Some(node.description + " "@),
        },
    }
}

/// Every option of the level can be described.
pub open spec fn describable(tree: Tree) -> bool {
    forall|i: int| 0 <= i < tree.len() ==> description_of(#[trigger] tree[i].1) is Some
}

/// The descriptions of one level.
pub open spec fn descriptions_of(tree: Tree) -> Seq<Seq<char>> {
    Seq::new(tree.len(), |i: int| description_of(tree[i].1)->Some_0)
}

/// The title after walking the keys down an unresolved definition: the
/// description of the last submenu walked into.
pub open spec fn title_below(tree: Tree, keys: Seq<Seq<char>>, title: Seq<char>) -> Option<
    Seq<char>,
>
    decreases keys.len(),
{
    if keys.len() == 0 {
        Some(title)
    } else {
        match find_key(tree, keys[0]) {
            None => None,
            Some(i) => match tree[i].1.options {
                Some(children) => title_below(children, keys.drop_first(), tree[i].1.description),
                None => None,
            },
        }
    }
}

/// The title of what is shown: `Root` at the root, the name of the
/// namespace at its top level, the description of the submenu below that.
pub open spec fn title_of(r: RepositoryView) -> Option<Seq<char>> {
    if r.path.len() == 0 {
        Some("Root"@)
    } else {
        match find_namespace(r.data, r.data.len() as int, r.path[0]) {
            None => None,
            Some(i) => title_below(r.data[i].config, r.path.drop_first(), r.path[0]),
        }
    }
}

/// The first of the first `n` fields that has the key.
pub open spec fn field_index(fields: Seq<(Seq<char>, Json)>, n: int, key: Seq<char>) -> Option<int>
    decreases n,
{
    if n <= 0 || n > fields.len() {
        None
    } else {
        match field_index(fields, n - 1, key) {
            Some(i) => Some(i),
            None => if fields[n - 1].0 == key {
                Some(n - 1)
            } else {
                None
            },
        }
    }
}

/// The fields with `value` under `key`: in the place of the first field of
/// that key, or as a new last field.
pub open spec fn with_field(fields: Seq<(Seq<char>, Json)>, key: Seq<char>, value: Json) -> Seq<
    (Seq<char>, Json),
> {
    match field_index(fields, fields.len() as int, key) {
        Some(i) => fields.update(i, (key, value)),
        None => fields.push((key, value)),
    }
}

/// The object with `value` under `key` at the end of a path of keys, each
/// naming an object within the one before; an object that is missing on
/// the way is made. `None` where something on the way is no object.
pub open spec fn document_set(document: Json, keys: Seq<Seq<char>>, key: Seq<char>, value: Json) -> Option<
    Json,
>
    decreases keys.len(),
{
    match document {
        Json::Object(fields) => if keys.len() == 0 {
            Some(Json::Object(with_field(fields, key, value)))
        } else {
            let inner = match field_index(fields, fields.len() as int, keys[0]) {
                Some(i) => fields[i].1,
                None => Json::Object(Seq::empty()),
            };
            match document_set(inner, keys.drop_first(), key, value) {
                Some(changed) => Some(Json::Object(with_field(fields, keys[0], changed))),
                None => None,
            }
        },
        _ => None,
    }
}

/// The override document after a value was set for the entry named `key` of
/// the level that is shown. `None` at the root, where the document has no
/// object for the namespace, and where something on the way is no object.
pub open spec fn updated_document(r: RepositoryView, key: Seq<char>, value: Json) -> Option<Json> {
    if r.path.len() == 0 {
        None
    } else {
        match r.user_cfg {
            Json::Object(fields) => match field_index(fields, fields.len() as int, r.path[0]) {
                None => None,
                Some(i) => match document_set(fields[i].1, r.path.drop_first(), key, value) {
                    Some(changed) => Some(Json::Object(with_field(fields, r.path[0], changed))),
                    None => None,
                },
            },
            _ => None,
        }
    }
}

/// The lines of the first `n` pairs, each a path, an equals sign and a value.
pub open spec fn lines_text(pairs: Seq<(Seq<char>, Seq<char>)>, n: int) -> Seq<char>
    decreases n,
{
    if n <= 0 || n > pairs.len() {
        Seq::empty()
    } else {
        lines_text(pairs, n - 1) + pairs[n - 1].0 + "="@ + pairs[n - 1].1 + "\n"@
    }
}

/// What is saved for one namespace: its name in brackets, then its current
/// values. `None` where its tree cannot be shown or its values cannot be
/// listed.
pub open spec fn section_text(space: NamespaceView, document: Json) -> Option<Seq<char>> {
    match shown_tree(space, document) {
        None => None,
        Some(tree) => match current_values(tree, space.features) {
            Err(_) => None,
            Ok(pairs) => Some(
                "["@ + space.name + "]"@ + "\n"@ + lines_text(pairs, pairs.len() as int),
            ),
        },
    }
}

/// What is saved for the first `n` namespaces.
pub open spec fn saved_text(r: RepositoryView, n: int) -> Option<Seq<char>>
    decreases n,
{
    if n <= 0 || n > r.data.len() {
        Some(Seq::empty())
    } else {
        match saved_text(r, n - 1) {
            None => None,
            Some(before) => match section_text(r.data[n - 1], r.user_cfg) {
                None => None,
                Some(section) => Some(before + section),
            },
        }
    }
}

/// Once a field with the key is found, later fields change nothing.
pub proof fn lemma_field_index_stays(fields: Seq<(Seq<char>, Json)>, n: int, m: int, key: Seq<char>)
    requires
        0 <= n <= m <= fields.len(),
        field_index(fields, n, key) is Some,
    ensures
        field_index(fields, m, key) == field_index(fields, n, key),
    decreases m - n,
{
    if n < m {
        lemma_field_index_stays(fields, n, m - 1, key);
    }
}

/// Once a value with the text is found, later values change nothing.
pub proof fn lemma_label_stays(items: Seq<ItemView>, n: int, m: int, text: Seq<char>)
    requires
        0 <= n <= m <= items.len(),
        label_of(items, n, text) is Some,
    ensures
        label_of(items, m, text) == label_of(items, n, text),
    decreases m - n,
{
    if n < m {
        lemma_label_stays(items, n, m - 1, text);
    }
}

/// The position of the first field that has the key.
pub fn find_field(fields: &Vec<(String, Value)>, key: &str) -> (r: Option<usize>)
    ensures
        match r {
            Some(i) => field_index(fields_view(fields@), fields.len() as int, key@) == Some(
                i as int,
            ) && i < fields.len(),
            None => field_index(fields_view(fields@), fields.len() as int, key@) is None,
        },
{
    let ghost all = fields_view(fields@);
    let mut i: usize = 0;
    while i < fields.len()
        invariant
            i <= fields.len(),
            all == fields_view(fields@),
            field_index(all, i as int, key@) is None,
        decreases fields.len() - i,
    {
        assert(all[i as int] == (fields@[i as int].0@, fields@[i as int].1@));
        if text_eq(fields[i].0.as_str(), key) {
            proof {
                lemma_field_index_stays(all, i + 1, fields.len() as int, key@);
            }
            return Some(i);
        }
        i = i + 1;
    }
    None
}

/// The fields with `value` under `key`.
pub fn set_field(fields: &Vec<(String, Value)>, key: &str, value: Value) -> (r: Vec<(String, Value)>)
    ensures
        fields_view(r@) == with_field(fields_view(fields@), key@, value@),
{
    let ghost all = fields_view(fields@);
    let at = find_field(fields, key);
    let mut out: Vec<(String, Value)> = Vec::new();
    let mut i: usize = 0;
    let mut pending = Some(value);
    assert(fields_view(out@) =~= all.take(0));
    while i < fields.len()
        invariant
            i <= fields.len(),
            all == fields_view(fields@),
            match at {
                Some(a) => a < fields.len() && (pending is Some <==> i <= a),
                None => pending is Some,
            },
            pending matches Some(v) ==> v@ == value@,
            fields_view(out@) == (if at is Some && at->Some_0 < i {
                all.take(i as int).update(at->Some_0 as int, (key@, value@))
            } else {
                all.take(i as int)
            }),
        decreases fields.len() - i,
    {
        let ghost had = fields_view(out@);
        assert(all[i as int] == (fields@[i as int].0@, fields@[i as int].1@));
        let replace = match at {
            Some(a) => a == i,
            None => false,
        };
        if replace {
            match pending.take() {
                Some(v) => {
                    out.push((String::from_str(key), v));
                    assert(fields_view(out@) =~= had.push((key@, value@)));
                },
                None => {},
            }
            assert(fields_view(out@) =~= all.take(i + 1).update(i as int, (key@, value@)));
        } else {
            out.push((fields[i].0.clone(), fields[i].1.duplicate()));
            assert(fields_view(out@) =~= had.push(all[i as int]));
            proof {
                if at is Some && at->Some_0 < i {
                    assert(fields_view(out@) =~= all.take(i + 1).update(
                        at->Some_0 as int,
                        (key@, value@),
                    ));
                } else {
                    assert(fields_view(out@) =~= all.take(i + 1));
                }
            }
        }
        i = i + 1;
    }
    assert(all.take(i as int) =~= all);
    match pending {
        Some(v) => {
            let ghost had = fields_view(out@);
            out.push((String::from_str(key), v));
            assert(fields_view(out@) =~= had.push((key@, value@)));
        },
        None => {},
    }
    out
}

/// The object with `value` under `key` at the end of the keys from
/// position `from` on.
pub fn set_in_document(
    document: &Value,
    keys: &Vec<String>,
    from: usize,
    key: &str,
    value: &Value,
) -> (r: Option<Value>)
    requires
        from <= keys.len(),
    ensures
        match r {
            Some(changed) => document_set(document@, texts(keys@).skip(from as int), key@, value@)
                == Some(changed@),
            None => document_set(document@, texts(keys@).skip(from as int), key@, value@) is None,
        },
    decreases keys.len() - from,
{
    let ghost rest = texts(keys@).skip(from as int);
    match document {
        Value::Object(fields) => {
            if from == keys.len() {
                Some(Value::Object(set_field(fields, key, value.duplicate())))
            } else {
                assert(rest[0] == keys@[from as int]@);
                assert(rest.drop_first() =~= texts(keys@).skip(from + 1));
                let step = keys[from].as_str();
                let inner = match find_field(fields, step) {
                    Some(i) => {
                        assert(fields_view(fields@)[i as int].1 == fields@[i as int].1@);
                        set_in_document(&fields[i].1, keys, from + 1, key, value)
                    },
                    None => {
                        let empty = Value::Object(Vec::new());
                        assert(fields_view(Seq::<(String, Value)>::empty()) =~= Seq::<
                            (Seq<char>, Json),
                        >::empty());
                        set_in_document(&empty, keys, from + 1, key, value)
                    },
                };
                match inner {
                    Some(changed) => Some(Value::Object(set_field(fields, step, changed))),
                    None => None,
                }
            }
        },
        _ => None,
    }
}

/// How a value is shown.
pub fn display_value(value: &Value, values: &Option<Vec<ValueItem>>) -> (r: Option<String>)
    ensures
        match r {
            Some(shown) => display_text(
                value@,
                match values {
                    Some(items) => Some(items_view(items@)),
                    None => None,
                },
            ) == Some(shown@),
            None => display_text(
                value@,
                match values {
                    Some(items) => Some(items_view(items@)),
                    None => None,
                },
            ) is None,
        },
{
    match values {
        None => Some(value.to_text()),
        Some(items) => match value {
            Value::String(s) => {
                let ghost all = items_view(items@);
                let mut i: usize = 0;
                while i < items.len()
                    invariant
                        i <= items.len(),
                        values is Some && values->Some_0 == *items,
                        value is String && value->String_0 == *s,
                        all == items_view(items@),
                        label_of(all, i as int, s@) is None,
                    decreases items.len() - i,
                {
                    assert(all[i as int] == items@[i as int]@);
                    if text_eq(items[i].value.as_str(), s.as_str()) {
                        proof {
                            lemma_label_stays(all, i + 1, items.len() as int, s@);
                        }
                        return Some(items[i].description.clone());
                    }
                    i = i + 1;
                }
                None
            },
            _ => None,
        },
    }
}

/// How an option is described.
pub fn describe(option: &ConfigOption) -> (r: Option<String>)
    ensures
        match r {
            Some(text) => description_of(option@) == Some(text@),
            None => description_of(option@) is None,
        },
{
    let mut out = option.description.clone();
    out.append(" ");
    match &option.__value {
        Some(value) => match display_value(value, &option.values) {
            Some(shown) => {
                out.append("(");
                out.append(shown.as_str());
                out.append(")");
                assert(out@ =~= option@.description + " "@ + ("("@ + shown@ + ")"@));
                Some(out)
            },
            None => None,
        },
        None => match &option.default_value {
            Some(value) => match display_value(value, &option.values) {
                Some(shown) => {
                    out.append("(DEFAULT = ");
                    out.append(shown.as_str());
                    out.append(")");
                    assert(out@ =~= option@.description + " "@ + ("(DEFAULT = "@ + shown@ + ")"@));
                    Some(out)
                },
                None => None,
            },
            None => Some(out),
        },
    }
}

impl Repository {
    /// Whether every option of what is shown can be described. At the root
    /// everything can.
    pub fn can_describe(&self) -> (ok: bool)
        requires
            resolved(self@),
        ensures
            ok == (self@.path.len() > 0 ==> describable(level(self@)->Some_0)),
    {
        if self.path.len() == 0 {
            return true;
        }
        match self.current() {
            Some(tree) => {
                let items = tree.entries();
                let mut i: usize = 0;
                while i < items.len()
                    invariant
                        i <= items.len(),
                        items.len() == tree@.len(),
                        forall|j: int|
                            0 <= j < items.len() ==> (#[trigger] items[j]).1@ == tree@[j].1,
                        forall|j: int|
                            0 <= j < i ==> description_of(#[trigger] tree@[j].1) is Some,
                        self@.path.len() > 0,
                        level(self@) == Some(tree@),
                    decreases items.len() - i,
                {
                    assert(items[i as int].1@ == tree@[i as int].1);
                    if describe(items[i].1).is_none() {
                        assert(description_of(tree@[i as int].1) is None);
                        return false;
                    }
                    i = i + 1;
                }
                true
            },
            None => true,
        }
    }

    /// The descriptions of what is shown: the names of the namespaces at
    /// the root, below it each option with its current value.
    pub fn get_current_level_desc(&self) -> (r: Vec<String>)
        requires
            resolved(self@),
            self@.path.len() > 0 ==> describable(level(self@)->Some_0),
        ensures
            texts(r@) == (if self@.path.len() == 0 {
                namespace_names(self@.data)
            } else {
                descriptions_of(level(self@)->Some_0)
            }),
    {
        if self.path.len() == 0 {
            return self.get_current_level();
        }
        let mut res: Vec<String> = Vec::new();
        match self.current() {
            Some(tree) => {
                let items = tree.entries();
                let mut i: usize = 0;
                while i < items.len()
                    invariant
                        i <= items.len(),
                        describable(tree@),
                        items.len() == tree@.len(),
                        forall|j: int|
                            0 <= j < items.len() ==> (#[trigger] items[j]).1@ == tree@[j].1,
                        res.len() == i,
                        forall|j: int|
                            0 <= j < i ==> (#[trigger] res@[j])@ == description_of(
                                tree@[j].1,
                            )->Some_0,
                    decreases items.len() - i,
                {
                    assert(description_of(tree@[i as int].1) is Some);
                    assert(items[i as int].1@ == tree@[i as int].1);
                    match describe(items[i].1) {
                        Some(text) => {
                            res.push(text);
                        },
                        None => {},
                    }
                    i = i + 1;
                }
                assert(texts(res@) =~= descriptions_of(tree@));
            },
            None => {},
        }
        res
    }

    /// The title of what is shown, where there is one.
    pub fn try_current_title(&self) -> (r: Option<String>)
        ensures
            match r {
                Some(title) => title_of(self@) == Some(title@),
                None => title_of(self@) is None,
            },
    {
        if self.path.len() == 0 {
            return Some(String::from_str("Root"));
        }
        let ghost keys = texts(self.path@);
        assert(keys[0] == self.path@[0]@);
        let index = match self.namespace_index(self.path[0].as_str()) {
            Some(i) => i,
            None => {
                return None;
            },
        };
        assert(self@.data[index as int] == self.data@[index as int]@);
        let mut title = self.path[0].clone();
        let mut here = &self.data[index].config;
        let ghost top = here@;
        let mut k: usize = 1;
        assert(keys.drop_first() =~= keys.skip(1));
        while k < self.path.len()
            invariant
                1 <= k <= self.path.len(),
                keys == texts(self.path@),
                title_of(self@) == title_below(top, keys.drop_first(), keys[0]),
                title_below(top, keys.drop_first(), keys[0]) == title_below(
                    here@,
                    keys.skip(k as int),
                    title@,
                ),
            decreases self.path.len() - k,
        {
            let ghost rest = keys.skip(k as int);
            assert(rest[0] == self.path@[k as int]@);
            assert(rest.drop_first() =~= keys.skip(k + 1));
            match here.get(self.path[k].as_str()) {
                None => {
                    return None;
                },
                Some(next) => match &next.options {
                    Some(children) => {
                        title = next.description.clone();
                        here = children;
                    },
                    None => {
                        return None;
                    },
                },
            }
            k = k + 1;
        }
        assert(keys.skip(k as int).len() == 0);
        Some(title)
    }

    /// The title of what is shown.
    pub fn current_title(&self) -> (r: String)
        requires
            title_of(self@) is Some,
        ensures
            title_of(self@) == Some(r@),
    {
        match self.try_current_title() {
            Some(title) => title,
            None => String::from_str(""),
        }
    }

    /// Sets the value of the entry at a position of what is shown, where
    /// that can be done: rewrites the override document so that it holds
    /// the value at the path of that entry. Says whether it was done;
    /// nothing changes where it was not.
    pub fn try_set_value(&mut self, which: usize, value: Value) -> (done: bool)
        ensures
            final(self)@.data == old(self)@.data,
            final(self)@.path == old(self)@.path,
            done == (resolved(old(self)@) && which < level_names(old(self)@).len()
                && updated_document(
                old(self)@,
                level_names(old(self)@)[which as int],
                value@,
            ) is Some),
            done ==> Some(final(self)@.user_cfg) == updated_document(
                old(self)@,
                level_names(old(self)@)[which as int],
                value@,
            ),
            !done ==> final(self)@.user_cfg == old(self)@.user_cfg,
    {
        if self.path.len() == 0 || !self.resolves() {
            return false;
        }
        let names = self.get_current_level();
        if which >= names.len() {
            return false;
        }
        let ghost keys = texts(self.path@);
        assert(texts(names@)[which as int] == names@[which as int]@);
        assert(keys[0] == self.path@[0]@);
        let changed = match &self.user_cfg {
            Value::Object(fields) => match find_field(fields, self.path[0].as_str()) {
                None => None,
                Some(i) => {
                    assert(fields_view(fields@)[i as int] == (
                        fields@[i as int].0@,
                        fields@[i as int].1@,
                    ));
                    assert(keys.drop_first() =~= keys.skip(1));
                    match set_in_document(
                        &fields[i].1,
                        &self.path,
                        1,
                        names[which].as_str(),
                        &value,
                    ) {
                        Some(inner) => Some(
                            Value::Object(set_field(fields, self.path[0].as_str(), inner)),
                        ),
                        None => None,
                    }
                },
            },
            _ => None,
        };
        match changed {
            Some(document) => {
                self.user_cfg = document;
                true
            },
            None => false,
        }
    }

    /// Sets the value of the entry at a position of what is shown.
    pub fn set_value(&mut self, which: usize, value: Value)
        requires
            resolved(old(self)@),
            which < level_names(old(self)@).len(),
            updated_document(old(self)@, level_names(old(self)@)[which as int], value@) is Some,
        ensures
            final(self)@.data == old(self)@.data,
            final(self)@.path == old(self)@.path,
            Some(final(self)@.user_cfg) == updated_document(
                old(self)@,
                level_names(old(self)@)[which as int],
                value@,
            ),
    {
        self.try_set_value(which, value);
    }

    /// What is saved: for every namespace a section with its current
    /// values. `None` where a tree cannot be shown or its values cannot be
    /// listed.
    pub fn try_create_config(&self) -> (r: Option<String>)
        ensures
            match r {
                Some(text) => saved_text(self@, self@.data.len() as int) == Some(text@),
                None => saved_text(self@, self@.data.len() as int) is None,
            },
    {
        let mut out = String::from_str("");
        proof {
            reveal_strlit("");
            assert(out@ =~= Seq::<char>::empty());
        }
        let mut i: usize = 0;
        while i < self.data.len()
            invariant
                i <= self.data.len(),
                saved_text(self@, i as int) == Some(out@),
            decreases self.data.len() - i,
        {
            let ghost before = out@;
            assert(self@.data[i as int] == self.data@[i as int]@);
            proof {
                if section_text(self@.data[i as int], self@.user_cfg) is None {
                    lemma_saved_text_stops(self@, i + 1, self@.data.len() as int);
                }
            }
            let tree = match self.shown(i) {
                Some(t) => t,
                None => {
                    return None;
                },
            };
            let pairs = match current_values_of(&tree, &self.data[i].features) {
                Ok(p) => p,
                Err(_) => {
                    return None;
                },
            };
            out.append("[");
            out.append(self.data[i].name.as_str());
            out.append("]");
            out.append("\n");
            let ghost head = out@;
            let ghost all = pairs_view(pairs@);
            let mut k: usize = 0;
            assert(head + lines_text(all, 0) =~= head);
            while k < pairs.len()
                invariant
                    k <= pairs.len(),
                    all == pairs_view(pairs@),
                    out@ == head + lines_text(all, k as int),
                decreases pairs.len() - k,
            {
                assert(all[k as int] == (pairs@[k as int].0@, pairs@[k as int].1@));
                out.append(pairs[k].0.as_str());
                out.append("=");
                out.append(pairs[k].1.as_str());
                out.append("\n");
                assert(out@ =~= head + lines_text(all, k + 1));
                k = k + 1;
            }
            assert(out@ =~= before + section_text(
                self@.data[i as int],
                self@.user_cfg,
            )->Some_0);
            i = i + 1;
        }
        Some(out)
    }

    /// What is saved: for every namespace a section with its current values.
    pub fn create_config(&self) -> (r: String)
        requires
            saved_text(self@, self@.data.len() as int) is Some,
        ensures
            saved_text(self@, self@.data.len() as int) == Some(r@),
    {
        match self.try_create_config() {
            Some(text) => text,
            None => String::from_str(""),
        }
    }
}

/// After a namespace that cannot be saved nothing is.
pub proof fn lemma_saved_text_stops(r: RepositoryView, n: int, m: int)
    requires
        0 <= n <= m <= r.data.len(),
        saved_text(r, n) is None,
    ensures
        saved_text(r, m) is None,
    decreases m - n,
{
    if n < m {
        lemma_saved_text_stops(r, n, m - 1);
    }
}

} // verus!
