//! Starting a run: everything that can refuse the request is checked here, before
//! the caller creates any output file.

use vstd::prelude::*;
use crate::rolling::FileRoller;
use crate::schema::{
    all_known, refusal_of, resolve_schema, schema_of, validate_delimiter, DelimiterError, Schema,
    SchemaError,
};

verus! {

/// A columnar run whose schema has resolved: the schema, and the roller that names
/// the files to write, starting with file 0.
pub struct ColumnarRun {
    pub schema: Schema,
    pub roller: FileRoller,
}

/// Starts a columnar run of `records` rows in files of about `max_file_size` bytes.
/// Fails, with no roller and so no file to open, when a type name is unknown.
pub fn start_columnar(entries: &Vec<(String, String)>, records: usize, max_file_size: u64) -> (r:
    Result<ColumnarRun, SchemaError>)
    ensures
        r is Ok <==> all_known(entries@),
        r matches Ok(run) ==> {
            &&& schema_of(run.schema, entries@)
            &&& run.roller.wf()
            &&& run.roller.total == records
            &&& run.roller.max_file_size == max_file_size
            &&& run.roller.written == 0
            &&& run.roller.file_index == 0
            &&& run.roller.closed@.len() == 0
            &&& run.roller.current@.len() == 0
        },
        r matches Err(e) ==> refusal_of(e, entries@),
{
    match resolve_schema(entries) {
        Ok(schema) => Ok(ColumnarRun { schema, roller: FileRoller::new(records, max_file_size) }),
        Err(e) => Err(e),
    }
}

/// Why a delimited run could not start.
#[derive(Clone, Debug, PartialEq, Eq)]
pub enum DelimitedStartError {
    Delimiter(DelimiterError),
    Schema(SchemaError),
}

/// Starts a delimited run: the delimiter is checked first, then the schema. On
/// success, returns the schema and the delimiter's byte.
pub fn start_delimited(entries: &Vec<(String, String)>, delimiter: char) -> (r: Result<
    (Schema, u8),
    DelimitedStartError,
>)
    ensures
        r is Ok <==> (delimiter as u32) < 128 && all_known(entries@),
        r matches Ok((s, d)) ==> schema_of(s, entries@) && d == delimiter as u8,
        (delimiter as u32) >= 128 ==> r == Err::<(Schema, u8), DelimitedStartError>(
            DelimitedStartError::Delimiter(DelimiterError::NotSingleByte(delimiter)),
        ),
        r matches Err(DelimitedStartError::Schema(e)) ==> (delimiter as u32) < 128 && refusal_of(
            e,
            entries@,
        ),
        (delimiter as u32) < 128 && !all_known(entries@) ==> (r matches Err(
            DelimitedStartError::Schema(e),
        ) && refusal_of(e, entries@)),
{
    match validate_delimiter(delimiter) {
        Ok(d) => match resolve_schema(entries) {
            Ok(s) => Ok((s, d)),
            Err(e) => Err(DelimitedStartError::Schema(e)),
        },
        Err(e) => Err(DelimitedStartError::Delimiter(e)),
    }
}

} // verus!
