//! The line-oriented writer's logic: the header record, the partition of the rows
//! into contiguous chunks that workers generate, and the delimited encoding of
//! records through the `csv` crate.

use vstd::prelude::*;
use vstd::utf8::encode_utf8;
use crate::decimal::{dec_digits, is_digit, lemma_dec_digits};
use crate::encode::texts_of;
use crate::generate::{email_shape, is_alnum, is_integer_cell, INTEGER_BOUND};
use crate::schema::Schema;

verus! {

/// Rows in each chunk of the line-oriented writer (the last one may be shorter).
pub const LINE_CHUNK_SIZE: usize = 10000;

#[verifier::external_type_specification]
#[verifier::external_body]
pub struct ExCsvError(csv::Error);

/// The bytes that the `csv` crate writes for one record of `fields` with the given
/// field delimiter and its default settings (quoting as needed, `\n` after the record).
pub uninterp spec fn csv_record_bytes(fields: Seq<Seq<char>>, delimiter: u8) -> Seq<u8>;

/// `f` holds none of the characters that make the csv writer quote a field under
/// its default settings: the delimiter, `"`, `\r` and `\n`.
pub open spec fn plain_field(f: Seq<char>, delimiter: u8) -> bool {
    forall|i: int|
        0 <= i < f.len() ==> {
            let c = #[trigger] f[i] as u32;
            c != delimiter as u32 && c != 34 && c != 13 && c != 10
        }
}

/// A record that the csv writer writes without quotes: an ASCII delimiter that is
/// none of `"`, `\r`, `\n`, at least one field, plain fields, and not a lone empty
/// field.
pub open spec fn plain_record(fields: Seq<Seq<char>>, delimiter: u8) -> bool {
    &&& delimiter < 128 && delimiter != 34 && delimiter != 13 && delimiter != 10
    &&& fields.len() >= 2 || (fields.len() == 1 && fields[0].len() > 0)
    &&& forall|j: int| 0 <= j < fields.len() ==> plain_field(#[trigger] fields[j], delimiter)
}

/// The byte strings of `parts` with `sep` between each two.
pub open spec fn joined_bytes(parts: Seq<Seq<u8>>, sep: u8) -> Seq<u8>
    decreases parts.len(),
{
    if parts.len() == 0 {
        Seq::empty()
    } else if parts.len() == 1 {
        parts[0]
    } else {
        joined_bytes(parts.drop_last(), sep).push(sep) + parts.last()
    }
}

/// The UTF-8 bytes of each field.
pub open spec fn field_bytes(fields: Seq<Seq<char>>) -> Seq<Seq<u8>> {
    fields.map_values(|f: Seq<char>| encode_utf8(f))
}

/// Relies on csv's `WriterBuilder::delimiter`, `Writer::write_record` and
/// `Writer::into_inner`, writing into memory, which cannot fail, and a fresh
/// writer's first record, which cannot mismatch an earlier one: the record's bytes,
/// ending in the default terminator `\n`; a record with no field that needs quotes
/// is its fields' UTF-8 bytes joined by the delimiter.
#[verifier::external_body]
fn csv_record(fields: &Vec<String>, delimiter: u8) -> (r: Result<Vec<u8>, csv::Error>)
    ensures
        r is Ok,
        r matches Ok(b) ==> b@ == csv_record_bytes(texts_of(fields@), delimiter) && b@.len() > 0
            && b@.last() == 10u8,
        r matches Ok(b) ==> (plain_record(texts_of(fields@), delimiter) ==> b@ == joined_bytes(
            field_bytes(texts_of(fields@)),
            delimiter,
        ).push(10u8)),
{
    let mut w = csv::WriterBuilder::new().delimiter(delimiter).from_writer(Vec::new());
    w.write_record(fields)?;
    w.into_inner().map_err(|e| csv::Error::from(e.into_error()))
}

/// The header record: the column names, in schema order.
pub fn header_record(schema: &Schema) -> (r: Vec<String>)
    ensures
        r@.len() == schema.columns@.len(),
        forall|j: int| 0 <= j < r@.len() ==> (#[trigger] r@[j])@ == schema.columns@[j].name@,
{
    let mut names: Vec<String> = Vec::new();
    let mut j: usize = 0;
    while j < schema.columns.len()
        invariant
            j <= schema.columns@.len(),
            names@.len() == j,
            forall|k: int| 0 <= k < j ==> (#[trigger] names@[k])@ == schema.columns@[k].name@,
        decreases schema.columns@.len() - j,
    {
        names.push(schema.columns[j].name.clone());
        j = j + 1;
    }
    names
}

/// The bytes of `rows` written one record after another.
pub open spec fn records_bytes(rows: Seq<Vec<String>>, delimiter: u8) -> Seq<u8>
    decreases rows.len(),
{
    if rows.len() == 0 {
        Seq::empty()
    } else {
        records_bytes(rows.drop_last(), delimiter) + csv_record_bytes(
            texts_of(rows.last()@),
            delimiter,
        )
    }
}

/// The bytes of `rows` written one record after another, where no field needs
/// quotes: each record is its fields joined by the delimiter, then `\n`.
pub open spec fn plain_records_bytes(rows: Seq<Vec<String>>, delimiter: u8) -> Seq<u8>
    decreases rows.len(),
{
    if rows.len() == 0 {
        Seq::empty()
    } else {
        plain_records_bytes(rows.drop_last(), delimiter) + joined_bytes(
            field_bytes(texts_of(rows.last()@)),
            delimiter,
        ).push(10u8)
    }
}

/// Every row of `rows` is written without quotes.
pub open spec fn all_plain(rows: Seq<Vec<String>>, delimiter: u8) -> bool {
    forall|i: int| 0 <= i < rows.len() ==> plain_record(texts_of((#[trigger] rows[i])@), delimiter)
}

/// Encodes `rows` as delimited records, in order.
pub fn encode_records(rows: &Vec<Vec<String>>, delimiter: u8) -> (r: Vec<u8>)
    ensures
        r@ == records_bytes(rows@, delimiter),
        all_plain(rows@, delimiter) ==> r@ == plain_records_bytes(rows@, delimiter),
{
    let mut out: Vec<u8> = Vec::new();
    let mut i: usize = 0;
    while i < rows.len()
        invariant
            i <= rows@.len(),
            out@ == records_bytes(rows@.take(i as int), delimiter),
            all_plain(rows@, delimiter) ==> out@ == plain_records_bytes(
                rows@.take(i as int),
                delimiter,
            ),
        decreases rows@.len() - i,
    {
        match csv_record(&rows[i], delimiter) {
            Ok(mut b) => {
                out.append(&mut b);
                assert(rows@.take(i + 1).drop_last() =~= rows@.take(i as int));
                assert(out@ =~= records_bytes(rows@.take(i + 1), delimiter));
                proof {
                    if all_plain(rows@, delimiter) {
                        assert(plain_record(texts_of(rows@[i as int]@), delimiter));
                        assert(out@ =~= plain_records_bytes(rows@.take(i + 1), delimiter));
                    }
                }
            },
            Err(_) => {
                assert(false);
            },
        }
        i = i + 1;
    }
    assert(rows@.take(rows@.len() as int) =~= rows@);
    out
}

/// The chunk at index `k` of a partition of `[0, records)` into chunks of `size`.
pub open spec fn chunk_spec(records: nat, size: nat, k: nat) -> (nat, nat) {
    let start = k * size;
    let end = if start + size < records { start + size } else { records };
    (start, end)
}

/// The rows `[0, records)` cut into contiguous chunks of `LINE_CHUNK_SIZE` rows,
/// the last one shorter if need be, as `(start, end)` pairs in order.
pub fn chunk_bounds(records: usize) -> (r: Vec<(usize, usize)>)
    ensures
        r@.len() == (records + LINE_CHUNK_SIZE - 1) / LINE_CHUNK_SIZE as int,
        forall|k: int|
            0 <= k < r@.len() ==> (#[trigger] r@[k]).0 as nat == chunk_spec(
                records as nat,
                LINE_CHUNK_SIZE as nat,
                k as nat,
            ).0 && r@[k].1 as nat == chunk_spec(records as nat, LINE_CHUNK_SIZE as nat, k as nat).1,
{
    let mut out: Vec<(usize, usize)> = Vec::new();
    let mut start: usize = 0;
    while start < records
        invariant
            start <= records,
            start == (if out@.len() * LINE_CHUNK_SIZE < records {
                out@.len() * LINE_CHUNK_SIZE
            } else {
                records as int
            }),
            out@.len() * LINE_CHUNK_SIZE < records + LINE_CHUNK_SIZE,
            forall|k: int|
                0 <= k < out@.len() ==> (#[trigger] out@[k]).0 as nat == chunk_spec(
                    records as nat,
                    LINE_CHUNK_SIZE as nat,
                    k as nat,
                ).0 && out@[k].1 as nat == chunk_spec(
                    records as nat,
                    LINE_CHUNK_SIZE as nat,
                    k as nat,
                ).1,
        decreases records - start,
    {
        let end = if records - start > LINE_CHUNK_SIZE {
            start + LINE_CHUNK_SIZE
        } else {
            records
        };
        assert(start == out@.len() * LINE_CHUNK_SIZE);
        out.push((start, end));
        assert((out@.len() - 1) * LINE_CHUNK_SIZE + LINE_CHUNK_SIZE == out@.len() * LINE_CHUNK_SIZE) by (nonlinear_arith);
        start = end;
    }
    assert(out@.len() == (records + LINE_CHUNK_SIZE - 1) / LINE_CHUNK_SIZE as int) by (nonlinear_arith)
        requires
            out@.len() * LINE_CHUNK_SIZE >= records,
            out@.len() * LINE_CHUNK_SIZE < records + LINE_CHUNK_SIZE,
            LINE_CHUNK_SIZE == 10000,
    ;
    out
}

/// The chunks of `chunk_bounds` partition the rows: the first starts at 0, each
/// next one starts where the one before ended, the last ends at `records`, and each
/// holds between 1 and `LINE_CHUNK_SIZE` rows. So every row index is generated
/// exactly once, and the records written number exactly `records`.
pub proof fn lemma_chunks_partition(records: nat)
    requires
        records > 0,
    ensures
        ({
            let n = (records + LINE_CHUNK_SIZE - 1) / LINE_CHUNK_SIZE as int;
            &&& n >= 1
            &&& chunk_spec(records, LINE_CHUNK_SIZE as nat, 0).0 == 0
            &&& chunk_spec(records, LINE_CHUNK_SIZE as nat, (n - 1) as nat).1 == records
            &&& forall|k: nat|
                k + 1 < n ==> (#[trigger] chunk_spec(records, LINE_CHUNK_SIZE as nat, k)).1
                    == chunk_spec(records, LINE_CHUNK_SIZE as nat, k + 1).0
            &&& forall|k: nat|
                k < n ==> {
                    let c = #[trigger] chunk_spec(records, LINE_CHUNK_SIZE as nat, k);
                    c.0 < c.1 <= c.0 + LINE_CHUNK_SIZE
                }
        }),
{
    let size = LINE_CHUNK_SIZE as int;
    let n = (records + size - 1) / size;
    assert(n >= 1 && (n - 1) * size < records && n * size >= records) by (nonlinear_arith)
        requires
            records > 0,
            size == 10000,
            n == (records + size - 1) / size,
    ;
    assert forall|k: nat| k < n implies {
        let c = #[trigger] chunk_spec(records, LINE_CHUNK_SIZE as nat, k);
        c.0 < c.1 <= c.0 + LINE_CHUNK_SIZE
    } by {
        assert(k * size < records) by (nonlinear_arith)
            requires
                k < n,
                (n - 1) * size < records,
                size > 0,
        ;
    }
    assert forall|k: nat| k + 1 < n implies (#[trigger] chunk_spec(
        records,
        LINE_CHUNK_SIZE as nat,
        k,
    )).1 == chunk_spec(records, LINE_CHUNK_SIZE as nat, k + 1).0 by {
        assert((k + 1) * size < records && (k + 1) * size == k * size + size) by (nonlinear_arith)
            requires
                k + 1 < n,
                (n - 1) * size < records,
                size > 0,
        ;
    }
    assert(chunk_spec(records, LINE_CHUNK_SIZE as nat, (n - 1) as nat).1 == records) by {
        assert((n - 1) * size + size == n * size) by (nonlinear_arith);
    }
}

/// A delimiter that is ASCII and none of a letter, a digit, `@`, `.`, `"`, `\r` or
/// `\n`, such as `,`, `;`, `|` or a tab.
pub open spec fn ordinary_delimiter(d: u8) -> bool {
    &&& d < 128 && d != 34 && d != 13 && d != 10
    &&& !is_alnum(d as char) && d != 64 && d != 46
}

/// Generated integer and email cells are written without quotes under an ordinary
/// delimiter: the csv writer writes them as they are.
pub proof fn lemma_generated_cells_plain(s: Seq<char>, d: u8)
    requires
        ordinary_delimiter(d),
        is_integer_cell(s) || email_shape(s),
    ensures
        plain_field(s, d),
{
    if is_integer_cell(s) {
        let n = choose|n: nat| n < INTEGER_BOUND && s == #[trigger] dec_digits(n);
        lemma_dec_digits(n);
        assert forall|i: int| 0 <= i < s.len() implies {
            let c = #[trigger] s[i] as u32;
            c != d as u32 && c != 34 && c != 13 && c != 10
        } by {
            assert(is_digit(s[i]));
        }
    } else {
        let (local, tld) = choose|local: Seq<char>, tld: Seq<char>|
            #![trigger crate::generate::alnum_text(local), local + "@example."@ + tld]
            crate::generate::alnum_text(local) && (tld == "com"@ || tld == "net"@ || tld
                == "org"@) && s == local + "@example."@ + tld;
        reveal_strlit("@example.");
        reveal_strlit("com");
        reveal_strlit("net");
        reveal_strlit("org");
        assert forall|i: int| 0 <= i < s.len() implies {
            let c = #[trigger] s[i] as u32;
            c != d as u32 && c != 34 && c != 13 && c != 10
        } by {
            if i < local.len() {
                assert(s[i] == local[i]);
                assert(is_alnum(local[i]));
            } else if i < local.len() + 9 {
                assert(s[i] == "@example."@[i - local.len()]);
            } else {
                assert(s[i] == tld[i - local.len() - 9]);
            }
        }
    }
}

} // verus!
