//! The editor: what each key does to an editing session. The loop that
//! waits for keys and draws is not here; it hands each key to the editor and
//! does what the editor answers.

use crate::enums::{is_numeric, numeric_char};
use crate::model::{items_view, ConfigOption, ItemView, OptionView, ValueItem, ValueType};
use crate::repository::{
    level, level_names, resolved, saved_text, updated_document, Repository, RepositoryView,
};
use crate::text::{chars_of, text_eq, text_of};
use crate::value::{json_text, Json, Value};
use vstd::prelude::*;
use vstd::string::*;

verus! {

/// A key as the editor sees it.
#[derive(Debug, Clone, Copy, PartialEq, Eq, Structural)]
pub enum Key {
    Char(char),
    Esc,
    Enter,
    Left,
    Right,
    Up,
    Down,
    Backspace,
    Other,
}

/// Which characters the input line takes: numbers only, or all.
#[derive(Debug, Clone, Copy, PartialEq, Eq, Structural)]
pub enum InputMode {
    Number,
    Chars,
}

/// The value of a decimal digit.
pub open spec fn digit_value(c: char) -> Option<int> {
    if '0' <= c <= '9' {
        Some(c as int - '0' as int)
    } else {
        None
    }
}

/// Every character is a decimal digit.
pub open spec fn all_digits(text: Seq<char>) -> bool {
    forall|i: int| 0 <= i < text.len() ==> digit_value(#[trigger] text[i]) is Some
}

/// The number that decimal digits write.
pub open spec fn digits_value(text: Seq<char>) -> int
    decreases text.len(),
{
    if text.len() == 0 {
        0
    } else {
        digits_value(text.drop_last()) * 10 + digit_value(text.last()).unwrap_or(0)
    }
}

/// The digits of a text that may start with a plus sign.
pub open spec fn unsigned_part(text: Seq<char>) -> Seq<char> {
    if text.len() > 0 && text[0] == '+' {
        text.skip(1)
    } else {
        text
    }
}

/// The number that a text writes: decimal digits, at least one, with or
/// without a plus sign before them, that write a number below 2^32.
pub open spec fn number_of(text: Seq<char>) -> Option<u32> {
    let digits = unsigned_part(text);
    if digits.len() > 0 && all_digits(digits) && digits_value(digits) <= u32::MAX {
        Some(digits_value(digits) as u32)
    } else {
        None
    }
}

/// Digits before a position write no more than all of them do.
pub proof fn lemma_digits_value_grows(text: Seq<char>, n: int)
    requires
        0 <= n <= text.len(),
    ensures
        0 <= digits_value(text.take(n)) <= digits_value(text),
    decreases text.len() - n,
{
    if n < text.len() {
        lemma_digits_value_grows(text, n + 1);
        assert(text.take(n + 1).drop_last() =~= text.take(n));
        lemma_digits_value_nonnegative(text.take(n));
    } else {
        assert(text.take(n) =~= text);
        lemma_digits_value_nonnegative(text);
    }
}

/// Digits write no negative number.
pub proof fn lemma_digits_value_nonnegative(text: Seq<char>)
    ensures
        0 <= digits_value(text),
    decreases text.len(),
{
    if text.len() > 0 {
        lemma_digits_value_nonnegative(text.drop_last());
    }
}

/// Reads a number below 2^32 from a text of decimal digits.
pub fn parse_number(text: &Vec<char>) -> (r: Option<u32>)
    ensures
        r == number_of(text@),
{
    let start: usize = if text.len() > 0 && text[0] == '+' {
        1
    } else {
        0
    };
    let ghost digits = unsigned_part(text@);
    assert(digits =~= text@.skip(start as int));
    if start == text.len() {
        return None;
    }
    let mut value: u64 = 0;
    let mut i: usize = start;
    assert(digits.take(0) =~= Seq::<char>::empty());
    while i < text.len()
        invariant
            start <= i <= text.len(),
            digits == unsigned_part(text@),
            digits == text@.skip(start as int),
            all_digits(digits.take(i - start)),
            value == digits_value(digits.take(i - start)),
            value <= u32::MAX,
        decreases text.len() - i,
    {
        let c = text[i];
        let ghost before = digits.take(i - start);
        let ghost here = digits.take(i - start + 1);
        proof {
            assert(digits[i - start] == c);
            assert(here.drop_last() =~= before);
            assert(here.last() == c);
        }
        if c < '0' || c > '9' {
            assert(digit_value(digits[i - start]) is None);
            return None;
        }
        let d: u64 = (c as u32 - '0' as u32) as u64;
        let next: u64 = value * 10 + d;
        assert(next == digits_value(here));
        if next > 4294967295 {
            proof {
                lemma_digits_value_grows(digits, i - start + 1);
            }
            return None;
        }
        assert forall|j: int| 0 <= j < here.len() implies digit_value(
            #[trigger] here[j],
        ) is Some by {
            if j < before.len() {
                assert(here[j] == before[j]);
            }
        }
        value = next;
        i = i + 1;
    }
    assert(digits.take(i - start) =~= digits);
    Some(value as u32)
}

/// The value that the editor changes: the override of an option, else its
/// default. There is none where the option has no default.
pub open spec fn shown_value(node: OptionView) -> Option<Json> {
    match node.default_value {
        None => None,
        Some(d) => match node.value {
            Some(v) => Some(v),
            None => Some(d),
        },
    }
}

/// The value of a boolean option after it was toggled. `None` where the
/// option has no boolean to toggle.
pub open spec fn toggled(node: OptionView) -> Option<Json> {
    match shown_value(node) {
        Some(Json::Bool(b)) => Some(Json::Bool(!b)),
        _ => None,
    }
}

/// The position of the first of the first `n` declared values that equals
/// the text.
pub open spec fn choice_index(items: Seq<ItemView>, n: int, text: Seq<char>) -> Option<int>
    decreases n,
{
    if n <= 0 || n > items.len() {
        None
    } else {
        match choice_index(items, n - 1, text) {
            Some(i) => Some(i),
            None => if items[n - 1].value == text {
                Some(n - 1)
            } else {
                None
            },
        }
    }
}

/// The value of an enumeration option after it was moved on: the declared
/// value after the current one, the first after the last. `None` where the
/// current value is none of the declared values.
pub open spec fn next_choice(node: OptionView) -> Option<Json> {
    match (shown_value(node), node.values) {
        (Some(Json::Text(s)), Some(items)) => match choice_index(items, items.len() as int, s) {
            Some(i) => Some(Json::Text(items[(i + 1) % (items.len() as int)].value)),
            None => None,
        },
        _ => None,
    }
}

/// The text with which the input line opens: the override of the option as
/// it is written, and `otherwise` as it is written where there is none.
pub open spec fn opened_input(node: OptionView, otherwise: Json) -> Seq<char> {
    match node.value {
        Some(v) => json_text(v),
        None => json_text(otherwise),
    }
}

/// Once a declared value with the text is found, later ones change nothing.
pub proof fn lemma_choice_index_stays(items: Seq<ItemView>, n: int, m: int, text: Seq<char>)
    requires
        0 <= n <= m <= items.len(),
        choice_index(items, n, text) is Some,
    ensures
        choice_index(items, m, text) == choice_index(items, n, text),
    decreases m - n,
{
    if n < m {
        lemma_choice_index_stays(items, n, m - 1, text);
    }
}

/// The value that the editor changes.
pub fn current_value(option: &ConfigOption) -> (r: Option<&Value>)
    ensures
        match r {
            Some(v) => shown_value(option@) == Some(v@),
            None => shown_value(option@) is None,
        },
{
    match &option.default_value {
        None => None,
        Some(d) => match &option.__value {
            Some(v) => Some(v),
            None => Some(d),
        },
    }
}

/// The value of a boolean option after it was toggled.
pub fn toggle(option: &ConfigOption) -> (r: Option<Value>)
    ensures
        match r {
            Some(v) => toggled(option@) == Some(v@),
            None => toggled(option@) is None,
        },
{
    match current_value(option) {
        Some(Value::Bool(b)) => Some(Value::Bool(!*b)),
        _ => None,
    }
}

/// The position of the first declared value that equals the text.
pub fn find_choice(items: &Vec<ValueItem>, text: &str) -> (r: Option<usize>)
    ensures
        match r {
            Some(i) => i < items.len() && choice_index(
                items_view(items@),
                items.len() as int,
                text@,
            ) == Some(i as int),
            None => choice_index(items_view(items@), items.len() as int, text@) is None,
        },
{
    let ghost all = items_view(items@);
    let mut i: usize = 0;
    while i < items.len()
        invariant
            i <= items.len(),
            all == items_view(items@),
            choice_index(all, i as int, text@) is None,
        decreases items.len() - i,
    {
        assert(all[i as int] == items@[i as int]@);
        if text_eq(items[i].value.as_str(), text) {
            proof {
                lemma_choice_index_stays(all, i + 1, items.len() as int, text@);
            }
            return Some(i);
        }
        i = i + 1;
    }
    None
}

/// The value of an enumeration option after it was moved on.
pub fn next_value(option: &ConfigOption) -> (r: Option<Value>)
    ensures
        match r {
            Some(v) => next_choice(option@) == Some(v@),
            None => next_choice(option@) is None,
        },
{
    match current_value(option) {
        Some(Value::String(s)) => match &option.values {
            Some(items) => {
                let ghost all = items_view(items@);
                match find_choice(items, s.as_str()) {
                    Some(i) => {
                        let next = (i + 1) % items.len();
                        assert(all[next as int] == items@[next as int]@);
                        Some(Value::String(items[next].value.clone()))
                    },
                    None => None,
                }
            },
            None => None,
        },
        _ => None,
    }
}

/// The text with which the input line opens.
pub fn input_text(option: &ConfigOption, otherwise: &Value) -> (r: Vec<char>)
    ensures
        r@ == opened_input(option@, otherwise@),
{
    let text = match &option.__value {
        Some(v) => v.to_text(),
        None => otherwise.to_text(),
    };
    chars_of(text.as_str())
}

/// What the loop around the editor does after a key: goes on, ends, or
/// saves the text and ends.
#[derive(Debug)]
pub enum Action {
    Continue,
    Quit,
    Save(String),
}

/// The mathematical content of an [`Action`].
pub enum ActionView {
    Continue,
    Quit,
    Save(Seq<char>),
}

impl View for Action {
    type V = ActionView;

    open spec fn view(&self) -> ActionView {
        match self {
            Action::Continue => ActionView::Continue,
            Action::Quit => ActionView::Quit,
            Action::Save(text) => ActionView::Save(text@),
        }
    }
}

/// An editing session on the screen: the repository, the entry that is
/// selected among those shown, and the input line, which is open while a
/// number or a text is typed.
pub struct Editor {
    pub repository: Repository,
    pub selected: usize,
    pub show_input: bool,
    pub input: Vec<char>,
    pub input_mode: InputMode,
    pub cursor_position: usize,
}

/// The mathematical content of an [`Editor`].
pub struct EditorView {
    pub repository: RepositoryView,
    pub selected: usize,
    pub show_input: bool,
    pub input: Seq<char>,
    pub input_mode: InputMode,
    pub cursor_position: usize,
}

impl View for Editor {
    type V = EditorView;

    open spec fn view(&self) -> EditorView {
        EditorView {
            repository: self.repository@,
            selected: self.selected,
            show_input: self.show_input,
            input: self.input@,
            input_mode: self.input_mode,
            cursor_position: self.cursor_position,
        }
    }
}

/// What a key asks for while the list is shown.
pub enum Command {
    Quit,
    Back,
    Forward,
    Down,
    Up,
    Save,
    Nothing,
}

/// What a key asks for while the list is shown: `q` or escape to quit, `h`
/// or left to step up, `l`, right or enter to step in or to change a value,
/// `j` or down and `k` or up to move, `s` to save.
pub open spec fn command_of(key: Key) -> Command {
    match key {
        Key::Esc => Command::Quit,
        Key::Left => Command::Back,
        Key::Right | Key::Enter => Command::Forward,
        Key::Down => Command::Down,
        Key::Up => Command::Up,
        Key::Char(c) => if c == 'q' {
            Command::Quit
        } else if c == 'h' {
            Command::Back
        } else if c == 'l' {
            Command::Forward
        } else if c == 'j' {
            Command::Down
        } else if c == 'k' {
            Command::Up
        } else if c == 's' {
            Command::Save
        } else {
            Command::Nothing
        },
        _ => Command::Nothing,
    }
}

/// The repository one level up; at the root, as it is.
pub open spec fn stepped_up(r: RepositoryView) -> RepositoryView {
    RepositoryView {
        path: if r.path.len() == 0 {
            r.path
        } else {
            r.path.drop_last()
        },
        ..r
    }
}

/// The repository within the entry at a position of what is shown.
pub open spec fn stepped_in(r: RepositoryView, which: int) -> RepositoryView {
    RepositoryView { path: r.path.push(level_names(r)[which]), ..r }
}

/// The editor after the selected entry was given a value. `None` where
/// nothing is selected or the override document cannot take the value.
pub open spec fn value_set(e: EditorView, value: Json) -> Option<EditorView> {
    let r = e.repository;
    if resolved(r) && e.selected < level_names(r).len() {
        match updated_document(r, level_names(r)[e.selected as int], value) {
            Some(document) => Some(
                EditorView { repository: RepositoryView { user_cfg: document, ..r }, ..e },
            ),
            None => None,
        }
    } else {
        None
    }
}

/// The editor with the input line opened on a text, the cursor behind it.
pub open spec fn input_opened(e: EditorView, mode: InputMode, text: Seq<char>) -> EditorView {
    EditorView {
        show_input: true,
        input: text,
        input_mode: mode,
        cursor_position: text.len() as usize,
        ..e
    }
}

/// The editor with the input line closed.
pub open spec fn input_closed(e: EditorView) -> EditorView {
    EditorView { show_input: false, ..e }
}

/// The editor after the selected leaf was activated: a boolean is toggled,
/// an enumeration takes its next value, for a number or a text the input
/// line opens, and a leaf without a type is left alone. `None` where the
/// leaf has no value that could be changed so.
pub open spec fn activated(e: EditorView, node: OptionView) -> Option<EditorView> {
    match node.value_type {
        None => Some(e),
        Some(ValueType::Bool) => match toggled(node) {
            Some(v) => value_set(e, v),
            None => None,
        },
        Some(ValueType::Enum) => match next_choice(node) {
            Some(v) => value_set(e, v),
            None => None,
        },
        Some(ValueType::U32) => Some(
            input_opened(e, InputMode::Number, opened_input(node, Json::Number(0))),
        ),
        Some(ValueType::String) => Some(
            input_opened(e, InputMode::Chars, opened_input(node, Json::Text(Seq::empty()))),
        ),
    }
}

/// The editor after stepping forward: into the selected namespace or
/// submenu, with its first entry selected, or with the selected leaf
/// activated. `None` where nothing is selected.
pub open spec fn forwarded(e: EditorView) -> Option<EditorView> {
    let r = e.repository;
    if !resolved(r) || e.selected >= level_names(r).len() {
        None
    } else if r.path.len() > 0 && level(r)->Some_0[e.selected as int].1.options is None {
        activated(e, level(r)->Some_0[e.selected as int].1)
    } else {
        Some(EditorView { repository: stepped_in(r, e.selected as int), selected: 0, ..e })
    }
}

/// The editor and the action after a key while the list is shown. `None`
/// where the key cannot be answered: nothing is shown to move in, or to
/// step into, or to save, or the selected value cannot be changed.
pub open spec fn list_stepped(e: EditorView, key: Key) -> Option<(EditorView, ActionView)> {
    let r = e.repository;
    match command_of(key) {
        Command::Quit => Some((e, ActionView::Quit)),
        Command::Back => Some(
            (
                EditorView { repository: stepped_up(r), selected: 0, show_input: false, ..e },
                ActionView::Continue,
            ),
        ),
        Command::Forward => match forwarded(e) {
            Some(next) => Some((next, ActionView::Continue)),
            None => None,
        },
        Command::Down => if resolved(r) && level_names(r).len() > 0 {
            if e.selected < level_names(r).len() - 1 {
                Some((EditorView { selected: (e.selected + 1) as usize, ..e }, ActionView::Continue))
            } else {
                Some((e, ActionView::Continue))
            }
        } else {
            None
        },
        Command::Up => if e.selected > 0 {
            Some((EditorView { selected: (e.selected - 1) as usize, ..e }, ActionView::Continue))
        } else {
            Some((e, ActionView::Continue))
        },
        Command::Save => match saved_text(r, r.data.len() as int) {
            Some(text) => Some((e, ActionView::Save(text))),
            None => None,
        },
        Command::Nothing => Some((e, ActionView::Continue)),
    }
}

/// The editor after enter on the input line: the selected leaf takes what
/// was typed, a number for a number and the text for a text, and the line
/// closes. Where no leaf is selected the line stays as it is. `None` where
/// nothing is shown at the selected position, what was typed is no number
/// below 2^32, or the override document cannot take the value.
pub open spec fn committed(e: EditorView) -> Option<EditorView> {
    let r = e.repository;
    if !resolved(r) {
        None
    } else if r.path.len() == 0 {
        Some(e)
    } else if e.selected >= level_names(r).len() {
        None
    } else {
        let node = level(r)->Some_0[e.selected as int].1;
        if node.options is Some {
            Some(e)
        } else {
            match node.value_type {
                Some(ValueType::U32) => match number_of(e.input) {
                    Some(n) => match value_set(e, Json::Number(n as i64)) {
                        Some(next) => Some(input_closed(next)),
                        None => None,
                    },
                    None => None,
                },
                Some(ValueType::String) => match value_set(e, Json::Text(e.input)) {
                    Some(next) => Some(input_closed(next)),
                    None => None,
                },
                _ => Some(input_closed(e)),
            }
        }
    }
}

/// The editor after a key while the input line is open: escape closes the
/// line, backspace takes the character before the cursor, left and right
/// move the cursor within the text, enter commits, and a character is put
/// in at the cursor where the line takes it. `None` where the cursor
/// stands behind the text and a character is to be taken or put in, and
/// where enter cannot commit.
pub open spec fn input_stepped(e: EditorView, key: Key) -> Option<EditorView> {
    match key {
        Key::Esc => Some(input_closed(e)),
        Key::Backspace => if e.cursor_position == 0 {
            Some(e)
        } else if e.cursor_position <= e.input.len() {
            Some(
                EditorView {
                    input: e.input.remove(e.cursor_position - 1),
                    cursor_position: (e.cursor_position - 1) as usize,
                    ..e
                },
            )
        } else {
            None
        },
        Key::Left => if e.cursor_position > 0 {
            Some(EditorView { cursor_position: (e.cursor_position - 1) as usize, ..e })
        } else {
            Some(e)
        },
        Key::Right => if e.cursor_position < e.input.len() {
            Some(EditorView { cursor_position: (e.cursor_position + 1) as usize, ..e })
        } else {
            Some(e)
        },
        Key::Enter => committed(e),
        Key::Char(c) => if e.input_mode is Chars || numeric_char(c) {
            if e.cursor_position <= e.input.len() {
                Some(
                    EditorView {
                        input: e.input.insert(e.cursor_position as int, c),
                        cursor_position: (e.cursor_position + 1) as usize,
                        ..e
                    },
                )
            } else {
                None
            }
        } else {
            Some(e)
        },
        _ => Some(e),
    }
}

/// The editor and the action after a key.
pub open spec fn stepped(e: EditorView, key: Key) -> Option<(EditorView, ActionView)> {
    if e.show_input {
        match input_stepped(e, key) {
            Some(next) => Some((next, ActionView::Continue)),
            None => None,
        }
    } else {
        list_stepped(e, key)
    }
}

/// What a key asks for while the list is shown.
pub fn command(key: Key) -> (c: Command)
    ensures
        c == command_of(key),
{
    match key {
        Key::Esc => Command::Quit,
        Key::Left => Command::Back,
        Key::Right | Key::Enter => Command::Forward,
        Key::Down => Command::Down,
        Key::Up => Command::Up,
        Key::Char(c) => if c == 'q' {
            Command::Quit
        } else if c == 'h' {
            Command::Back
        } else if c == 'l' {
            Command::Forward
        } else if c == 'j' {
            Command::Down
        } else if c == 'k' {
            Command::Up
        } else if c == 's' {
            Command::Save
        } else {
            Command::Nothing
        },
        _ => Command::Nothing,
    }
}

impl Editor {
    /// A session with the first entry selected and the input line closed.
    pub fn new(repository: Repository) -> (e: Editor)
        ensures
            e@ == (EditorView {
                repository: repository@,
                selected: 0,
                show_input: false,
                input: Seq::empty(),
                input_mode: InputMode::Chars,
                cursor_position: 0,
            }),
    {
        Editor {
            repository,
            selected: 0,
            show_input: false,
            input: Vec::new(),
            input_mode: InputMode::Chars,
            cursor_position: 0,
        }
    }

    /// Gives the selected entry a value, where that can be done, and says
    /// whether it was done.
    pub fn set(&mut self, value: Value) -> (done: bool)
        ensures
            match value_set(old(self)@, value@) {
                Some(next) => done && final(self)@ == next,
                None => !done && final(self)@ == old(self)@,
            },
    {
        self.repository.try_set_value(self.selected, value)
    }

    /// Activates the selected leaf, where that can be done, and says
    /// whether it was done.
    pub fn activate(&mut self, option: &ConfigOption) -> (done: bool)
        ensures
            match activated(old(self)@, option@) {
                Some(next) => done && final(self)@ == next,
                None => !done && final(self)@ == old(self)@,
            },
    {
        match option.value_type {
            None => true,
            Some(ValueType::Bool) => match toggle(option) {
                Some(v) => self.set(v),
                None => false,
            },
            Some(ValueType::Enum) => match next_value(option) {
                Some(v) => self.set(v),
                None => false,
            },
            Some(ValueType::U32) => {
                let text = input_text(option, &Value::Number(0));
                self.cursor_position = text.len();
                self.input = text;
                self.input_mode = InputMode::Number;
                self.show_input = true;
                true
            },
            Some(ValueType::String) => {
                proof {
                    reveal_strlit("");
                    assert(""@ =~= Seq::<char>::empty());
                }
                let text = input_text(option, &Value::String(String::from_str("")));
                self.cursor_position = text.len();
                self.input = text;
                self.input_mode = InputMode::Chars;
                self.show_input = true;
                true
            },
        }
    }

    /// Steps forward from the selected entry, where that can be done, and
    /// says whether it was done.
    pub fn forward(&mut self) -> (done: bool)
        ensures
            match forwarded(old(self)@) {
                Some(next) => done && final(self)@ == next,
                None => !done && final(self)@ == old(self)@,
            },
    {
        if !self.repository.resolves() {
            return false;
        }
        if self.selected >= self.repository.get_count() {
            return false;
        }
        if self.repository.is_value(self.selected) {
            match self.repository.get_option(self.selected) {
                Some(option) => self.activate(&option),
                None => true,
            }
        } else {
            self.repository.select(self.selected);
            self.selected = 0;
            true
        }
    }

    /// Answers a key while the list is shown.
    pub fn list_key(&mut self, key: Key) -> (r: Option<Action>)
        ensures
            match list_stepped(old(self)@, key) {
                Some((next, action)) => final(self)@ == next && r is Some && r->Some_0@ == action,
                None => r is None && final(self)@ == old(self)@,
            },
    {
        match command(key) {
            Command::Quit => Some(Action::Quit),
            Command::Back => {
                self.repository.up();
                self.selected = 0;
                self.show_input = false;
                Some(Action::Continue)
            },
            Command::Forward => if self.forward() {
                Some(Action::Continue)
            } else {
                None
            },
            Command::Down => {
                if !self.repository.resolves() {
                    return None;
                }
                let count = self.repository.get_count();
                if count == 0 {
                    return None;
                }
                if self.selected < count - 1 {
                    self.selected = self.selected + 1;
                }
                Some(Action::Continue)
            },
            Command::Up => {
                if self.selected > 0 {
                    self.selected = self.selected - 1;
                }
                Some(Action::Continue)
            },
            Command::Save => match self.repository.try_create_config() {
                Some(text) => Some(Action::Save(text)),
                None => None,
            },
            Command::Nothing => Some(Action::Continue),
        }
    }

    /// Commits what was typed, where that can be done, and says whether it
    /// was done.
    pub fn commit(&mut self) -> (done: bool)
        ensures
            match committed(old(self)@) {
                Some(next) => done && final(self)@ == next,
                None => !done && final(self)@ == old(self)@,
            },
    {
        if !self.repository.resolves() {
            return false;
        }
        if self.repository.path.len() == 0 {
            return true;
        }
        if self.selected >= self.repository.get_count() {
            return false;
        }
        if !self.repository.is_value(self.selected) {
            return true;
        }
        let option = match self.repository.get_option(self.selected) {
            Some(option) => option,
            None => {
                return true;
            },
        };
        match option.value_type {
            Some(ValueType::U32) => match parse_number(&self.input) {
                Some(n) => {
                    if self.set(Value::Number(n as i64)) {
                        self.show_input = false;
                        true
                    } else {
                        false
                    }
                },
                None => false,
            },
            Some(ValueType::String) => {
                let text = text_of(&self.input);
                if self.set(Value::String(text)) {
                    self.show_input = false;
                    true
                } else {
                    false
                }
            },
            _ => {
                self.show_input = false;
                true
            },
        }
    }

    /// Answers a key while the input line is open, where that can be done,
    /// and says whether it was done.
    pub fn input_key(&mut self, key: Key) -> (done: bool)
        ensures
            match input_stepped(old(self)@, key) {
                Some(next) => done && final(self)@ == next,
                None => !done && final(self)@ == old(self)@,
            },
    {
        match key {
            Key::Esc => {
                self.show_input = false;
                true
            },
            Key::Backspace => {
                if self.cursor_position == 0 {
                    true
                } else if self.cursor_position <= self.input.len() {
                    self.input.remove(self.cursor_position - 1);
                    self.cursor_position = self.cursor_position - 1;
                    true
                } else {
                    false
                }
            },
            Key::Left => {
                if self.cursor_position > 0 {
                    self.cursor_position = self.cursor_position - 1;
                }
                true
            },
            Key::Right => {
                if self.cursor_position < self.input.len() {
                    self.cursor_position = self.cursor_position + 1;
                }
                true
            },
            Key::Enter => self.commit(),
            Key::Char(c) => {
                let takes = match self.input_mode {
                    InputMode::Chars => true,
                    InputMode::Number => is_numeric(c),
                };
                if !takes {
                    true
                } else if self.cursor_position <= self.input.len() {
                    self.input.insert(self.cursor_position, c);
                    assert(self.cursor_position < self.input.len());
                    self.cursor_position = self.cursor_position + 1;
                    true
                } else {
                    false
                }
            },
            _ => true,
        }
    }

    /// Answers a key, where that can be done: changes the session as the
    /// key asks and says what the loop around the editor is to do. Where it
    /// cannot be done nothing changes.
    pub fn try_step(&mut self, key: Key) -> (r: Option<Action>)
        ensures
            match stepped(old(self)@, key) {
                Some((next, action)) => final(self)@ == next && r is Some && r->Some_0@ == action,
                None => r is None && final(self)@ == old(self)@,
            },
    {
        if self.show_input {
            if self.input_key(key) {
                Some(Action::Continue)
            } else {
                None
            }
        } else {
            self.list_key(key)
        }
    }

    /// Answers a key: changes the session as the key asks and says what the
    /// loop around the editor is to do.
    pub fn step(&mut self, key: Key) -> (action: Action)
        requires
            stepped(old(self)@, key) is Some,
        ensures
            final(self)@ == stepped(old(self)@, key)->Some_0.0,
            action@ == stepped(old(self)@, key)->Some_0.1,
    {
        match self.try_step(key) {
            Some(action) => action,
            None => Action::Continue,
        }
    }
}

} // verus!
