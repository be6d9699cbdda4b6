//! The columnar encoder: turns a batch of text rows into one typed column per
//! schema column, in schema order.

use vstd::prelude::*;
use vstd::string::*;
use crate::decimal::{parse_i64, parse_i64_spec};
use crate::generate::{is_integer_cell, lemma_integer_cell_in_range};
use crate::schema::{Schema, TypeTag};

verus! {

/// A column of a batch in its physical encoding. Float values stay text here; the
/// caller reads them as 64-bit floating point.
#[derive(Clone, Debug)]
pub enum TypedColumn {
    Int64(Vec<i64>),
    FloatText(Vec<String>),
    Boolean(Vec<bool>),
    Utf8(Vec<String>),
}

/// A generated value could not be read as its column's physical type.
#[derive(Clone, Copy, Debug, PartialEq, Eq, Structural)]
pub enum EncodeError {
    /// The value at `row` of column `column` is not a 64-bit integer.
    NotAnInteger { column: usize, row: usize },
}

/// The values of column `j` over `rows`, top to bottom.
pub open spec fn column_of(rows: Seq<Vec<String>>, j: int) -> Seq<Seq<char>> {
    Seq::new(rows.len(), |i: int| rows[i]@[j]@)
}

/// The text of each string of `v`.
pub open spec fn texts_of(v: Seq<String>) -> Seq<Seq<char>> {
    v.map_values(|s: String| s@)
}

/// Every row of `rows` has one value per column of `schema`.
pub open spec fn rows_fit(schema: &Schema, rows: Seq<Vec<String>>) -> bool {
    forall|i: int| 0 <= i < rows.len() ==> (#[trigger] rows[i])@.len() == schema.columns@.len()
}

/// Each value of `vals` can be read as a column of type `t`.
pub open spec fn column_encodable(t: TypeTag, vals: Seq<Seq<char>>) -> bool {
    t == TypeTag::Integer ==> forall|i: int|
        0 <= i < vals.len() ==> parse_i64_spec(#[trigger] vals[i]) is Some
}

/// `c` is the encoding of the values `vals` of a column of type `t`: integers read
/// in decimal, booleans true exactly where the text is `true`, the rest unchanged.
pub open spec fn column_matches(t: TypeTag, vals: Seq<Seq<char>>, c: TypedColumn) -> bool {
    match t {
        TypeTag::Integer => c matches TypedColumn::Int64(v) && v@.len() == vals.len()
            && forall|i: int| 0 <= i < vals.len() ==> parse_i64_spec(#[trigger] vals[i]) == Some(v@[i]),
        TypeTag::Float => c matches TypedColumn::FloatText(v) && v@.len() == vals.len()
            && forall|i: int| 0 <= i < vals.len() ==> (#[trigger] v@[i])@ == vals[i],
        TypeTag::Boolean => c matches TypedColumn::Boolean(v) && v@.len() == vals.len()
            && forall|i: int| 0 <= i < vals.len() ==> (#[trigger] v@[i]) == (vals[i] == "true"@),
        _ => c matches TypedColumn::Utf8(v) && v@.len() == vals.len()
            && forall|i: int| 0 <= i < vals.len() ==> (#[trigger] v@[i])@ == vals[i],
    }
}

/// The values of column `j` over `rows`.
pub fn column_values(rows: &Vec<Vec<String>>, j: usize) -> (r: Vec<String>)
    requires
        forall|i: int| 0 <= i < rows@.len() ==> j < (#[trigger] rows@[i])@.len(),
    ensures
        r@.len() == rows@.len(),
        forall|i: int| 0 <= i < rows@.len() ==> (#[trigger] r@[i])@ == column_of(rows@, j as int)[i],
{
    let mut out: Vec<String> = Vec::new();
    let mut i: usize = 0;
    while i < rows.len()
        invariant
            i <= rows@.len(),
            out@.len() == i,
            forall|k: int| 0 <= k < rows@.len() ==> j < (#[trigger] rows@[k])@.len(),
            forall|k: int| 0 <= k < i ==> (#[trigger] out@[k])@ == rows@[k]@[j as int]@,
        decreases rows@.len() - i,
    {
        out.push(rows[i][j].clone());
        i = i + 1;
    }
    out
}

fn is_true_text(s: &String) -> (r: bool)
    ensures
        r == (s@ == "true"@),
{
    *s == String::from_str("true")
}

/// Encodes the values of column `column`, of type `t`. Fails on the first value of
/// an integer column that is not a 64-bit integer in decimal.
pub fn encode_column(t: TypeTag, column: usize, vals: Vec<String>) -> (r: Result<TypedColumn, EncodeError>)
    ensures
        r is Ok <==> column_encodable(t, texts_of(vals@)),
        r matches Ok(c) ==> column_matches(t, texts_of(vals@), c),
        r matches Err(e) ==> e matches EncodeError::NotAnInteger { column: c, row } && c == column
            && row < vals@.len() && parse_i64_spec(vals@[row as int]@) is None,
{
    let ghost texts = texts_of(vals@);
    match t {
        TypeTag::Integer => {
            let mut out: Vec<i64> = Vec::new();
            let mut i: usize = 0;
            while i < vals.len()
                invariant
                    i <= vals@.len(),
                    t == TypeTag::Integer,
                    texts == texts_of(vals@),
                    out@.len() == i,
                    forall|k: int| 0 <= k < i ==> parse_i64_spec(#[trigger] texts[k]) == Some(out@[k]),
                decreases vals@.len() - i,
            {
                assert(texts[i as int] == vals@[i as int]@);
                match parse_i64(vals[i].as_str()) {
                    Some(v) => out.push(v),
                    None => {
                        assert(parse_i64_spec(texts[i as int]) is None);
                        return Err(EncodeError::NotAnInteger { column, row: i });
                    },
                }
                i = i + 1;
            }
            Ok(TypedColumn::Int64(out))
        },
        TypeTag::Float => Ok(TypedColumn::FloatText(vals)),
        TypeTag::Boolean => {
            let mut out: Vec<bool> = Vec::new();
            let mut i: usize = 0;
            while i < vals.len()
                invariant
                    i <= vals@.len(),
                    texts == texts_of(vals@),
                    out@.len() == i,
                    forall|k: int| 0 <= k < i ==> (#[trigger] out@[k]) == (texts[k] == "true"@),
                decreases vals@.len() - i,
            {
                out.push(is_true_text(&vals[i]));
                i = i + 1;
            }
            Ok(TypedColumn::Boolean(out))
        },
        _ => Ok(TypedColumn::Utf8(vals)),
    }
}

/// Every column of `rows` can be encoded under `schema`.
pub open spec fn batch_encodable(schema: &Schema, rows: Seq<Vec<String>>) -> bool {
    forall|j: int|
        0 <= j < schema.columns@.len() ==> column_encodable(
            (#[trigger] schema.columns@[j]).tag,
            column_of(rows, j),
        )
}

/// Encodes a batch: one typed column per schema column, in schema order, each of
/// `rows.len()` values. Fails on the first column, and in it on the first row, whose
/// value cannot be read as the column's physical type.
pub fn encode_batch(schema: &Schema, rows: &Vec<Vec<String>>) -> (r: Result<Vec<TypedColumn>, EncodeError>)
    requires
        rows_fit(schema, rows@),
    ensures
        r is Ok <==> batch_encodable(schema, rows@),
        r matches Ok(cols) ==> {
            &&& cols@.len() == schema.columns@.len()
            &&& forall|j: int|
                0 <= j < cols@.len() ==> column_matches(
                    schema.columns@[j].tag,
                    column_of(rows@, j),
                    #[trigger] cols@[j],
                )
        },
        r matches Err(e) ==> e matches EncodeError::NotAnInteger { column, row } && column
            < schema.columns@.len() && row < rows@.len() && schema.columns@[column as int].tag
            == TypeTag::Integer && parse_i64_spec(rows@[row as int]@[column as int]@) is None,
{
    let mut cols: Vec<TypedColumn> = Vec::new();
    let mut j: usize = 0;
    while j < schema.columns.len()
        invariant
            j <= schema.columns@.len(),
            rows_fit(schema, rows@),
            cols@.len() == j,
            forall|k: int|
                0 <= k < j ==> column_encodable(
                    (#[trigger] schema.columns@[k]).tag,
                    column_of(rows@, k),
                ),
            forall|k: int|
                0 <= k < j ==> column_matches(
                    schema.columns@[k].tag,
                    column_of(rows@, k),
                    #[trigger] cols@[k],
                ),
        decreases schema.columns@.len() - j,
    {
        let vals = column_values(rows, j);
        let ghost texts = texts_of(vals@);
        assert(texts =~= column_of(rows@, j as int));
        let t = schema.columns[j].tag;
        match encode_column(t, j, vals) {
            Ok(c) => cols.push(c),
            Err(e) => {
                assert(!batch_encodable(schema, rows@));
                return Err(e);
            },
        }
        j = j + 1;
    }
    Ok(cols)
}

/// Rows whose integer cells were generated as integer cells always encode: a
/// generated batch never fails to encode.
pub proof fn lemma_generated_batch_encodes(schema: &Schema, rows: Seq<Vec<String>>)
    requires
        rows_fit(schema, rows),
        forall|i: int, j: int|
            0 <= i < rows.len() && 0 <= j < schema.columns@.len() && schema.columns@[j].tag
                == TypeTag::Integer ==> is_integer_cell((#[trigger] rows[i]@[j])@),
    ensures
        batch_encodable(schema, rows),
{
    assert forall|j: int| 0 <= j < schema.columns@.len() implies column_encodable(
        (#[trigger] schema.columns@[j]).tag,
        column_of(rows, j),
    ) by {
        if schema.columns@[j].tag == TypeTag::Integer {
            assert forall|i: int| 0 <= i < column_of(rows, j).len() implies parse_i64_spec(
                #[trigger] column_of(rows, j)[i],
            ) is Some by {
                assert(rows_fit(schema, rows));
                lemma_integer_cell_in_range(rows[i]@[j]@);
            }
        }
    }
}

} // verus!
