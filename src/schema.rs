//! Column types, schemas and their resolution from (name, type name) pairs.

use vstd::prelude::*;

verus! {

/// The closed set of column types.
#[derive(Clone, Copy, Debug, PartialEq, Eq, Structural)]
pub enum TypeTag {
    Integer,
    Float,
    Boolean,
    Word,
    Name,
    FirstName,
    LastName,
    Email,
    Password,
    Sentence,
    PhoneNumber,
}

/// The physical encoding of a column in columnar output.
#[derive(Clone, Copy, Debug, PartialEq, Eq, Structural)]
pub enum Encoding {
    Int64,
    Float64,
    Boolean,
    Utf8,
}

/// The type that a type name in a schema stands for, if any.
pub open spec fn tag_of(s: Seq<char>) -> Option<TypeTag> {
    if s == "integer"@ {
        Some(TypeTag::Integer)
    } else if s == "float"@ {
        Some(TypeTag::Float)
    } else if s == "boolean"@ {
        Some(TypeTag::Boolean)
    } else if s == "string"@ {
        Some(TypeTag::Word)
    } else if s == "name"@ {
        Some(TypeTag::Name)
    } else if s == "first_name"@ {
        Some(TypeTag::FirstName)
    } else if s == "last_name"@ {
        Some(TypeTag::LastName)
    } else if s == "email"@ {
        Some(TypeTag::Email)
    } else if s == "password"@ {
        Some(TypeTag::Password)
    } else if s == "sentence"@ {
        Some(TypeTag::Sentence)
    } else if s == "phone_number"@ {
        Some(TypeTag::PhoneNumber)
    } else {
        None
    }
}

/// The encoding of each type in columnar output.
pub open spec fn encoding_spec(t: TypeTag) -> Encoding {
    match t {
        TypeTag::Integer => Encoding::Int64,
        TypeTag::Float => Encoding::Float64,
        TypeTag::Boolean => Encoding::Boolean,
        _ => Encoding::Utf8,
    }
}

/// Why a schema was refused.
#[derive(Clone, Debug, PartialEq, Eq)]
pub enum SchemaError {
    /// A column's type name is none of the known ones; holds that name.
    UnsupportedType(String),
}

/// Why a field delimiter was refused.
#[derive(Clone, Copy, Debug, PartialEq, Eq, Structural)]
pub enum DelimiterError {
    /// The character takes more than one byte in UTF-8.
    NotSingleByte(char),
}

/// One declared column.
#[derive(Clone, Debug)]
pub struct ColumnSpec {
    pub name: String,
    pub tag: TypeTag,
}

/// An ordered list of columns; the order is that of the fields of every row.
#[derive(Clone, Debug)]
pub struct Schema {
    pub columns: Vec<ColumnSpec>,
}

fn same_text(a: &str, b: &str) -> (r: bool)
    ensures
        r == (a@ == b@),
{
    a.to_owned() == b.to_owned()
}

/// Looks up a type name.
pub fn parse_type_tag(s: &str) -> (r: Option<TypeTag>)
    ensures
        r == tag_of(s@),
{
    proof {
        reveal_strlit("integer");
        reveal_strlit("float");
        reveal_strlit("boolean");
        reveal_strlit("string");
        reveal_strlit("name");
        reveal_strlit("first_name");
        reveal_strlit("last_name");
        reveal_strlit("email");
        reveal_strlit("password");
        reveal_strlit("sentence");
        reveal_strlit("phone_number");
    }
    if same_text(s, "integer") {
        Some(TypeTag::Integer)
    } else if same_text(s, "float") {
        Some(TypeTag::Float)
    } else if same_text(s, "boolean") {
        Some(TypeTag::Boolean)
    } else if same_text(s, "string") {
        Some(TypeTag::Word)
    } else if same_text(s, "name") {
        Some(TypeTag::Name)
    } else if same_text(s, "first_name") {
        Some(TypeTag::FirstName)
    } else if same_text(s, "last_name") {
        Some(TypeTag::LastName)
    } else if same_text(s, "email") {
        Some(TypeTag::Email)
    } else if same_text(s, "password") {
        Some(TypeTag::Password)
    } else if same_text(s, "sentence") {
        Some(TypeTag::Sentence)
    } else if same_text(s, "phone_number") {
        Some(TypeTag::PhoneNumber)
    } else {
        None
    }
}

/// The encoding of a column of type `t` in columnar output.
pub fn encoding_of(t: TypeTag) -> (r: Encoding)
    ensures
        r == encoding_spec(t),
{
    match t {
        TypeTag::Integer => Encoding::Int64,
        TypeTag::Float => Encoding::Float64,
        TypeTag::Boolean => Encoding::Boolean,
        _ => Encoding::Utf8,
    }
}

/// Every type name of `entries` is known.
pub open spec fn all_known(entries: Seq<(String, String)>) -> bool {
    forall|i: int| 0 <= i < entries.len() ==> tag_of((#[trigger] entries[i]).1@) is Some
}

/// `i` is the first entry whose type name is unknown.
pub open spec fn first_unknown(entries: Seq<(String, String)>, i: int) -> bool {
    &&& 0 <= i < entries.len()
    &&& tag_of(entries[i].1@) is None
    &&& forall|j: int| 0 <= j < i ==> tag_of((#[trigger] entries[j]).1@) is Some
}

/// `s` holds one column per entry, in order, with the entry's name and the type
/// that its type name stands for.
pub open spec fn schema_of(s: Schema, entries: Seq<(String, String)>) -> bool {
    &&& s.columns@.len() == entries.len()
    &&& forall|i: int|
        0 <= i < entries.len() ==> {
            &&& (#[trigger] s.columns@[i]).name@ == entries[i].0@
            &&& Some(s.columns@[i].tag) == tag_of(entries[i].1@)
        }
}

/// `e` names the type name of the first entry whose type is unknown.
pub open spec fn refusal_of(e: SchemaError, entries: Seq<(String, String)>) -> bool {
    e matches SchemaError::UnsupportedType(n) && exists|i: int|
        first_unknown(entries, i) && n@ == (#[trigger] entries[i]).1@
}

/// Builds a schema from `(name, type name)` pairs, in order. Fails on the first
/// pair whose type name is unknown, naming it.
pub fn resolve_schema(entries: &Vec<(String, String)>) -> (r: Result<Schema, SchemaError>)
    ensures
        r is Ok <==> all_known(entries@),
        r matches Ok(s) ==> schema_of(s, entries@),
        r matches Err(e) ==> refusal_of(e, entries@),
{
    let mut columns: Vec<ColumnSpec> = Vec::new();
    let mut i: usize = 0;
    while i < entries.len()
        invariant
            i <= entries@.len(),
            columns@.len() == i,
            forall|j: int| 0 <= j < i ==> tag_of((#[trigger] entries@[j]).1@) is Some,
            forall|j: int|
                0 <= j < i ==> {
                    &&& (#[trigger] columns@[j]).name@ == entries@[j].0@
                    &&& Some(columns@[j].tag) == tag_of(entries@[j].1@)
                },
        decreases entries@.len() - i,
    {
        let entry = &entries[i];
        match parse_type_tag(entry.1.as_str()) {
            Some(tag) => {
                columns.push(ColumnSpec { name: entry.0.clone(), tag });
            },
            None => {
                assert(first_unknown(entries@, i as int));
                return Err(SchemaError::UnsupportedType(entry.1.clone()));
            },
        }
        i = i + 1;
    }
    Ok(Schema { columns })
}

/// The single byte that stands for a field delimiter, which must be one byte in UTF-8.
pub fn validate_delimiter(c: char) -> (r: Result<u8, DelimiterError>)
    ensures
        (c as u32) < 128 ==> r == Ok::<u8, DelimiterError>(c as u8),
        (c as u32) >= 128 ==> r == Err::<u8, DelimiterError>(DelimiterError::NotSingleByte(c)),
{
    if (c as u32) < 128 {
        Ok(c as u8)
    } else {
        Err(DelimiterError::NotSingleByte(c))
    }
}

} // verus!
