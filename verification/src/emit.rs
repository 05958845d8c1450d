//! The emitter: the flags and the declarations that are generated from an
//! effective configuration.

use crate::enums::{enums_view, to_variant_name, variant_name, EnumDefinition, EnumView};
use crate::flatten::{rows_view, Row};
use crate::model::ValueType;
use crate::text::{replace_char, replaced, text_eq, texts, to_uppercase, uppercase};
use vstd::prelude::*;
use vstd::string::*;

verus! {

/// The name under which a dotted path is known to generated code: the path
/// with an underscore for every dot.
pub open spec fn flag_name(path: Seq<char>) -> Seq<char> {
    replaced(path, '.', "_"@)
}

/// Whether a value as text counts as set: it is neither `0` nor `false`.
pub open spec fn counts_as_set(text: Seq<char>) -> bool {
    text != "0"@ && text != "false"@
}

/// The flags of one row: its presence flag, and its own flag where its
/// value counts as set.
pub open spec fn row_flags(row: Row) -> Seq<Seq<char>> {
    if counts_as_set(row.1) {
        seq!["has_"@ + flag_name(row.0), flag_name(row.0)]
    } else {
        seq!["has_"@ + flag_name(row.0)]
    }
}

/// The flags of the first `n` rows, in order.
pub open spec fn flags(rows: Seq<Row>, n: int) -> Seq<Seq<char>>
    decreases n,
{
    if n <= 0 || n > rows.len() {
        Seq::empty()
    } else {
        flags(rows, n - 1) + row_flags(rows[n - 1])
    }
}

/// The first `n` variants of an enum declaration, one on each line.
pub open spec fn variants_text(names: Seq<Seq<char>>, n: int) -> Seq<char>
    decreases n,
{
    if n <= 0 || n > names.len() {
        Seq::empty()
    } else {
        variants_text(names, n - 1) + names[n - 1] + ",\n"@
    }
}

/// The declaration of one enum type.
pub open spec fn enum_text(e: EnumView) -> Seq<char> {
    "#[derive(Debug,Clone,Copy)]\n"@ + "pub enum "@ + e.name + " {\n"@ + variants_text(
        e.variant_names,
        e.variant_names.len() as int,
    ) + "}\n"@
}

/// A value without its double quotes.
pub open spec fn unquoted(text: Seq<char>) -> Seq<char> {
    replaced(text, '"', Seq::empty())
}

/// The constant of one row: typed by the declared type with the value as
/// its literal, or for an enumeration typed by the enum with the variant
/// of the unquoted value.
pub open spec fn constant_text(row: Row) -> Seq<char> {
    let name = flag_name(row.0);
    if row.2 == ValueType::Enum {
        "pub const "@ + uppercase(name) + ": "@ + variant_name(name) + " = "@ + variant_name(name)
            + "::"@ + variant_name(unquoted(row.1)) + ";\n"@
    } else {
        "pub const "@ + uppercase(name) + ": "@ + row.2.name() + " = "@ + row.1 + ";\n"@
    }
}

/// Whether a constant can be written for a row: for an enumeration neither
/// its path nor its unquoted value is empty.
pub open spec fn row_nameable(row: Row) -> bool {
    row.2 == ValueType::Enum ==> row.0.len() > 0 && unquoted(row.1).len() > 0
}

/// The declarations of the first `n` enums.
pub open spec fn enums_text(enums: Seq<EnumView>, n: int) -> Seq<char>
    decreases n,
{
    if n <= 0 || n > enums.len() {
        Seq::empty()
    } else {
        enums_text(enums, n - 1) + enum_text(enums[n - 1])
    }
}

/// The constants of the first `n` rows.
pub open spec fn constants_text(rows: Seq<Row>, n: int) -> Seq<char>
    decreases n,
{
    if n <= 0 || n > rows.len() {
        Seq::empty()
    } else {
        constants_text(rows, n - 1) + constant_text(rows[n - 1])
    }
}

/// The generated source: every enum declaration, then every constant.
pub open spec fn generated_text(enums: Seq<EnumView>, rows: Seq<Row>) -> Seq<char> {
    enums_text(enums, enums.len() as int) + constants_text(rows, rows.len() as int)
}

/// Where something is put in the place of a character, a text that is not empty stays so.
pub proof fn lemma_replaced_nonempty(s: Seq<char>, from: char, to: Seq<char>)
    requires
        s.len() > 0,
        to.len() > 0,
    ensures
        replaced(s, from, to).len() > 0,
{
}

/// The conditional-compilation flags of an effective configuration: for
/// every row a presence flag, and the row's own flag where its value is
/// neither `0` nor `false`.
pub fn cfg_flags(rows: &Vec<(String, String, ValueType)>) -> (r: Vec<String>)
    ensures
        texts(r@) == flags(rows_view(rows@), rows.len() as int),
{
    let ghost all = rows_view(rows@);
    let mut out: Vec<String> = Vec::new();
    let mut i: usize = 0;
    assert(texts(out@) =~= flags(all, 0));
    while i < rows.len()
        invariant
            i <= rows.len(),
            all == rows_view(rows@),
            texts(out@) == flags(all, i as int),
        decreases rows.len() - i,
    {
        let ghost had = texts(out@);
        assert(all[i as int] == (rows@[i as int].0@, rows@[i as int].1@, rows@[i as int].2));
        let name = replace_char(rows[i].0.as_str(), '.', "_");
        let value = rows[i].1.as_str();
        let mut presence = String::from_str("has_");
        presence.append(name.as_str());
        out.push(presence);
        assert(texts(out@) =~= had.push(presence@));
        if !text_eq(value, "0") && !text_eq(value, "false") {
            let ghost so_far = texts(out@);
            out.push(name);
            assert(texts(out@) =~= so_far.push(name@));
            assert(texts(out@) =~= had + row_flags(all[i as int]));
        } else {
            assert(texts(out@) =~= had + row_flags(all[i as int]));
        }
        i = i + 1;
    }
    out
}

/// The declaration of one enum type.
pub fn enum_declaration(definition: &EnumDefinition) -> (r: String)
    ensures
        r@ == enum_text(definition@),
{
    let mut out = String::from_str("#[derive(Debug,Clone,Copy)]\n");
    out.append("pub enum ");
    out.append(definition.name.as_str());
    out.append(" {\n");
    let ghost head = out@;
    let ghost names = texts(definition.variant_names@);
    let mut i: usize = 0;
    assert(head + variants_text(names, 0) =~= head);
    while i < definition.variant_names.len()
        invariant
            i <= definition.variant_names.len(),
            names == texts(definition.variant_names@),
            out@ == head + variants_text(names, i as int),
        decreases definition.variant_names.len() - i,
    {
        let ghost had = out@;
        assert(names[i as int] == definition.variant_names@[i as int]@);
        out.append(definition.variant_names[i].as_str());
        out.append(",\n");
        assert(out@ =~= head + variants_text(names, i + 1));
        i = i + 1;
    }
    out.append("}\n");
    assert(out@ =~= enum_text(definition@));
    out
}

/// Whether a constant can be written for a row.
pub fn is_row_nameable(row: &(String, String, ValueType)) -> (ok: bool)
    ensures
        ok == row_nameable((row.0@, row.1@, row.2)),
{
    match row.2 {
        ValueType::Enum => {
            let bare = replace_char(row.1.as_str(), '"', "");
            proof {
                reveal_strlit("");
                assert(""@ =~= Seq::<char>::empty());
            }
            row.0.as_str().unicode_len() > 0 && bare.as_str().unicode_len() > 0
        },
        _ => true,
    }
}

/// The constant of one row.
pub fn constant_declaration(row: &(String, String, ValueType)) -> (r: String)
    requires
        row_nameable((row.0@, row.1@, row.2)),
    ensures
        r@ == constant_text((row.0@, row.1@, row.2)),
{
    let name = replace_char(row.0.as_str(), '.', "_");
    let upper = to_uppercase(name.as_str());
    let mut out = String::from_str("pub const ");
    out.append(upper.as_str());
    out.append(": ");
    match row.2 {
        ValueType::Enum => {
            proof {
                reveal_strlit("_");
                lemma_replaced_nonempty(row.0@, '.', "_"@);
            }
            let declared = to_variant_name(name.as_str());
            let bare = replace_char(row.1.as_str(), '"', "");
            proof {
                reveal_strlit("");
                assert(""@ =~= Seq::<char>::empty());
            }
            let variant = to_variant_name(bare.as_str());
            out.append(declared.as_str());
            out.append(" = ");
            out.append(declared.as_str());
            out.append("::");
            out.append(variant.as_str());
        },
        _ => {
            let declared = row.2.to_string();
            out.append(declared.as_str());
            out.append(" = ");
            out.append(row.1.as_str());
        },
    }
    out.append(";\n");
    assert(out@ =~= constant_text((row.0@, row.1@, row.2)));
    out
}

/// The source that is generated for a configuration: a declaration for
/// every enum, then a constant for every row.
pub fn generate_config(
    enums: &Vec<EnumDefinition>,
    rows: &Vec<(String, String, ValueType)>,
) -> (r: String)
    requires
        forall|i: int| 0 <= i < rows.len() ==> row_nameable(#[trigger] rows_view(rows@)[i]),
    ensures
        r@ == generated_text(enums_view(enums@), rows_view(rows@)),
{
    let ghost types = enums_view(enums@);
    let ghost all = rows_view(rows@);
    let mut out = String::from_str("");
    proof {
        reveal_strlit("");
        assert(out@ =~= enums_text(types, 0));
    }
    let mut i: usize = 0;
    while i < enums.len()
        invariant
            i <= enums.len(),
            types == enums_view(enums@),
            out@ == enums_text(types, i as int),
        decreases enums.len() - i,
    {
        assert(types[i as int] == enums@[i as int]@);
        let text = enum_declaration(&enums[i]);
        out.append(text.as_str());
        i = i + 1;
    }
    let ghost head = out@;
    let mut k: usize = 0;
    assert(head + constants_text(all, 0) =~= head);
    while k < rows.len()
        invariant
            k <= rows.len(),
            all == rows_view(rows@),
            forall|i: int| 0 <= i < rows.len() ==> row_nameable(#[trigger] all[i]),
            out@ == head + constants_text(all, k as int),
        decreases rows.len() - k,
    {
        assert(all[k as int] == (rows@[k as int].0@, rows@[k as int].1@, rows@[k as int].2));
        assert(row_nameable(all[k as int]));
        let text = constant_declaration(&rows[k]);
        out.append(text.as_str());
        assert(out@ =~= head + constants_text(all, k + 1));
        k = k + 1;
    }
    out
}

} // verus!
