//! Configuration values: what a definition gives as a default and what an
//! override document assigns.

use vstd::prelude::*;
use vstd::string::*;

verus! {

/// A structured value as it is found in a definition or in an override
/// document. Objects keep their fields in the order in which they were given.
#[derive(Debug, PartialEq)]
pub enum Value {
    Null,
    Bool(bool),
    Number(i64),
    String(String),
    Array(Vec<Value>),
    Object(Vec<(String, Value)>),
}

/// The mathematical content of a [`Value`].
pub enum Json {
    Null,
    Bool(bool),
    Number(i64),
    Text(Seq<char>),
    Array(Seq<Json>),
    Object(Seq<(Seq<char>, Json)>),
}

impl View for Value {
    type V = Json;

    open spec fn view(&self) -> Json
        decreases self,
    {
        match self {
            Value::Null => Json::Null,
            Value::Bool(b) => Json::Bool(*b),
            Value::Number(n) => Json::Number(*n),
            Value::String(s) => Json::Text(s@),
            Value::Array(items) => Json::Array(values_view(items@)),
            Value::Object(fields) => Json::Object(fields_view(fields@)),
        }
    }
}

/// The contents of a sequence of values.
pub open spec fn values_view(items: Seq<Value>) -> Seq<Json>
    decreases items,
{
    Seq::new(
        items.len(),
        |i: int|
            if 0 <= i < items.len() {
                items[i].view()
            } else {
                Json::Null
            },
    )
}

/// The contents of a sequence of named values.
pub open spec fn fields_view(fields: Seq<(String, Value)>) -> Seq<(Seq<char>, Json)>
    decreases fields,
{
    Seq::new(
        fields.len(),
        |i: int|
            if 0 <= i < fields.len() {
                (fields[i].0@, fields[i].1.view())
            } else {
                (Seq::empty(), Json::Null)
            },
    )
}

/// Truthiness coercion: a boolean counts as itself, a number counts when it
/// is not zero, a text counts when it is not empty, and nothing else counts.
pub open spec fn truthy(v: Json) -> bool {
    match v {
        Json::Bool(b) => b,
        Json::Number(n) => n != 0,
        Json::Text(s) => s.len() > 0,
        _ => false,
    }
}

/// Whether a value is neither an array nor an object.
pub open spec fn is_scalar(v: Json) -> bool {
    !(v is Array) && !(v is Object)
}

pub open spec fn digit_char(d: nat) -> char {
    if d == 0 {
        '0'
    } else if d == 1 {
        '1'
    } else if d == 2 {
        '2'
    } else if d == 3 {
        '3'
    } else if d == 4 {
        '4'
    } else if d == 5 {
        '5'
    } else if d == 6 {
        '6'
    } else if d == 7 {
        '7'
    } else if d == 8 {
        '8'
    } else {
        '9'
    }
}

/// The decimal digits of a natural number, most significant first.
pub open spec fn nat_text(n: nat) -> Seq<char>
    decreases n,
{
    if n < 10 {
        seq![digit_char(n)]
    } else {
        nat_text(n / 10).push(digit_char(n % 10))
    }
}

/// The decimal text of an integer, with a leading minus sign below zero.
pub open spec fn int_text(n: int) -> Seq<char> {
    if n < 0 {
        seq!['-'] + nat_text((-n) as nat)
    } else {
        nat_text(n as nat)
    }
}

/// The JSON string literal that `serde_json` writes for a text: the text in
/// double quotes, with the escapes that `serde_json` chooses.
pub uninterp spec fn json_string_literal(s: Seq<char>) -> Seq<char>;

/// The compact JSON text of a value that is neither an array nor an object.
pub open spec fn scalar_text(v: Json) -> Seq<char> {
    match v {
        Json::Bool(b) => if b {
            "true"@
        } else {
            "false"@
        },
        Json::Number(n) => int_text(n as int),
        Json::Text(s) => json_string_literal(s),
        _ => "null"@,
    }
}

/// The compact JSON text of a value.
pub open spec fn json_text(v: Json) -> Seq<char>
    decreases v, 0int,
{
    match v {
        Json::Array(items) => seq!['['] + items_text(items, items.len() as int) + seq![']'],
        Json::Object(fields) => seq!['{'] + fields_text(fields, fields.len() as int) + seq!['}'],
        _ => scalar_text(v),
    }
}

/// The texts of the first `n` items, separated by commas.
pub open spec fn items_text(items: Seq<Json>, n: int) -> Seq<char>
    decreases items, n,
{
    if n <= 0 || n > items.len() {
        Seq::empty()
    } else if n == 1 {
        json_text(items[0])
    } else {
        items_text(items, n - 1) + seq![','] + json_text(items[n - 1])
    }
}

/// One field of an object: its key as a JSON string literal, a colon, its value.
pub open spec fn field_text(key: Seq<char>, v: Json) -> Seq<char>
    decreases v, 1int,
{
    json_string_literal(key) + seq![':'] + json_text(v)
}

/// The texts of the first `n` fields, separated by commas.
pub open spec fn fields_text(fields: Seq<(Seq<char>, Json)>, n: int) -> Seq<char>
    decreases fields, n,
{
    if n <= 0 || n > fields.len() {
        Seq::empty()
    } else if n == 1 {
        field_text(fields[0].0, fields[0].1)
    } else {
        fields_text(fields, n - 1) + seq![','] + field_text(fields[n - 1].0, fields[n - 1].1)
    }
}

/// `to_string` of a `serde_json::Value` that is neither an array nor an
/// object. Trusted: `null`, `true` and `false` are written as these words,
/// an integer in decimal with a minus sign below zero, and a text as the
/// JSON string literal that `serde_json` chooses for it.
#[verifier::external_body]
fn scalar_to_text(v: &Value) -> (text: String)
    requires
        is_scalar(v@),
    ensures
        text@ == scalar_text(v@),
        v@ matches Json::Text(s) ==> text@ == json_string_literal(s),
{
    match v {
        Value::Bool(b) => serde_json::Value::Bool(*b),
        Value::Number(n) => serde_json::Value::Number((*n).into()),
        Value::String(s) => serde_json::Value::String(s.clone()),
        _ => serde_json::Value::Null,
    }.to_string()
}

impl Clone for Value {
    fn clone(&self) -> (r: Self)
        ensures
            r@ == self@,
    {
        self.duplicate()
    }
}

impl Value {
    /// A deep copy.
    pub fn duplicate(&self) -> (r: Self)
        ensures
            r@ == self@,
        decreases self,
    {
        match self {
            Value::Null => Value::Null,
            Value::Bool(b) => Value::Bool(*b),
            Value::Number(n) => Value::Number(*n),
            Value::String(s) => Value::String(s.clone()),
            Value::Array(items) => {
                let mut out: Vec<Value> = Vec::new();
                let mut i: usize = 0;
                while i < items.len()
                    invariant
                        self is Array && self->Array_0 == *items,
                        i <= items.len(),
                        out.len() == i,
                        forall|j: int| 0 <= j < i ==> (#[trigger] out@[j])@ == items@[j]@,
                    decreases items.len() - i,
                {
                    out.push(items[i].duplicate());
                    i = i + 1;
                }
                assert(values_view(out@) =~= values_view(items@));
                let r = Value::Array(out);
                r
            },
            Value::Object(fields) => {
                let mut out: Vec<(String, Value)> = Vec::new();
                let mut i: usize = 0;
                while i < fields.len()
                    invariant
                        self is Object && self->Object_0 == *fields,
                        i <= fields.len(),
                        out.len() == i,
                        forall|j: int|
                            0 <= j < i ==> (#[trigger] out@[j]).0@ == fields@[j].0@ && out@[j].1@
                                == fields@[j].1@,
                    decreases fields.len() - i,
                {
                    out.push((fields[i].0.clone(), fields[i].1.duplicate()));
                    i = i + 1;
                }
                assert(fields_view(out@) =~= fields_view(fields@));
                let r = Value::Object(out);
                r
            },
        }
    }
}

impl Value {
    /// Truthiness of the value itself.
    pub fn is_truthy(&self) -> (b: bool)
        ensures
            b == truthy(self@),
    {
        match self {
            Value::Bool(b) => *b,
            Value::Number(n) => *n != 0,
            Value::String(s) => !s.as_str().is_empty(),
            _ => false,
        }
    }

    /// The value as compact JSON text: the form in which a resolved value is
    /// reported.
    pub fn to_text(&self) -> (text: String)
        ensures
            text@ == json_text(self@),
        decreases self,
    {
        match self {
            Value::Array(items) => {
                let mut out = String::from_str("[");
                proof {
                    reveal_strlit("[");
                    reveal_strlit(",");
                    reveal_strlit("]");
                }
                let mut i: usize = 0;
                while i < items.len()
                    invariant
                        self is Array && self->Array_0 == *items,
                        i <= items.len(),
                        self@ == Json::Array(values_view(items@)),
                        out@ == seq!['['] + items_text(self@->Array_0, i as int),
                        ","@ == seq![','],
                    decreases items.len() - i,
                {
                    if i > 0 {
                        out.append(",");
                    }
                    let item = items[i].to_text();
                    out.append(item.as_str());
                    i = i + 1;
                }
                out.append("]");
                assert(out@ =~= json_text(self@));
                out
            },
            Value::Object(fields) => {
                let mut out = String::from_str("{");
                proof {
                    reveal_strlit("{");
                    reveal_strlit(",");
                    reveal_strlit(":");
                    reveal_strlit("}");
                }
                let mut i: usize = 0;
                while i < fields.len()
                    invariant
                        self is Object && self->Object_0 == *fields,
                        i <= fields.len(),
                        self@ == Json::Object(fields_view(fields@)),
                        out@ == seq!['{'] + fields_text(self@->Object_0, i as int),
                        ","@ == seq![','],
                        ":"@ == seq![':'],
                    decreases fields.len() - i,
                {
                    let ghost before = out@;
                    if i > 0 {
                        out.append(",");
                    }
                    let key = scalar_to_text(&Value::String(fields[i].0.clone()));
                    out.append(key.as_str());
                    out.append(":");
                    let item = fields[i].1.to_text();
                    out.append(item.as_str());
                    proof {
                        let all = self@->Object_0;
                        assert(all[i as int] == (fields@[i as int].0@, fields@[i as int].1@));
                        let one = field_text(all[i as int].0, all[i as int].1);
                        if i > 0 {
                            assert(out@ =~= before + seq![','] + one);
                        } else {
                            assert(out@ =~= before + one);
                        }
                    }
                    i = i + 1;
                    assert(out@ =~= seq!['{'] + fields_text(self@->Object_0, i as int));
                }
                out.append("}");
                assert(out@ =~= json_text(self@));
                out
            },
            _ => scalar_to_text(self),
        }
    }
}

} // verus!
