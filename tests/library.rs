use datagen::decimal::{decimal_text, parse_i64};
use datagen::encode::{column_values, encode_batch, encode_column, EncodeError, TypedColumn};
use datagen::generate::{generate_cell, generate_row};
use datagen::lines::{chunk_bounds, encode_records, header_record};
use datagen::rolling::{FileRoller, COLUMNAR_BATCH_SIZE, MAX_ROW_GROUPS_PER_FILE};
use datagen::run::{start_columnar, start_delimited, DelimitedStartError};
use datagen::schema::{
    encoding_of, parse_type_tag, resolve_schema, validate_delimiter, DelimiterError, Encoding,
    Schema, SchemaError, TypeTag,
};

fn entries(pairs: &[(&str, &str)]) -> Vec<(String, String)> {
    pairs.iter().map(|(n, t)| (n.to_string(), t.to_string())).collect()
}

fn id_email_schema() -> Schema {
    resolve_schema(&entries(&[("id", "integer"), ("email", "email")])).unwrap()
}

fn no_floats(schema: &Schema) -> Vec<String> {
    vec![String::new(); schema.columns.len()]
}

fn strings(v: &[&str]) -> Vec<String> {
    v.iter().map(|s| s.to_string()).collect()
}

#[test]
fn every_type_name_resolves() {
    let names = [
        ("integer", TypeTag::Integer),
        ("float", TypeTag::Float),
        ("boolean", TypeTag::Boolean),
        ("string", TypeTag::Word),
        ("name", TypeTag::Name),
        ("first_name", TypeTag::FirstName),
        ("last_name", TypeTag::LastName),
        ("email", TypeTag::Email),
        ("password", TypeTag::Password),
        ("sentence", TypeTag::Sentence),
        ("phone_number", TypeTag::PhoneNumber),
    ];
    for (name, tag) in names {
        assert_eq!(parse_type_tag(name), Some(tag));
    }
    assert_eq!(parse_type_tag("Integer"), None);
    assert_eq!(parse_type_tag(""), None);
    assert_eq!(parse_type_tag("date"), None);
}

#[test]
fn encodings_follow_types() {
    assert_eq!(encoding_of(TypeTag::Integer), Encoding::Int64);
    assert_eq!(encoding_of(TypeTag::Float), Encoding::Float64);
    assert_eq!(encoding_of(TypeTag::Boolean), Encoding::Boolean);
    assert_eq!(encoding_of(TypeTag::Email), Encoding::Utf8);
    assert_eq!(encoding_of(TypeTag::Word), Encoding::Utf8);
}

#[test]
fn schema_keeps_order_and_names() {
    let s = resolve_schema(&entries(&[("b", "boolean"), ("a", "float"), ("a", "name")])).unwrap();
    assert_eq!(s.columns.len(), 3);
    assert_eq!(s.columns[0].name, "b");
    assert_eq!(s.columns[0].tag, TypeTag::Boolean);
    assert_eq!(s.columns[1].tag, TypeTag::Float);
    assert_eq!(s.columns[2].name, "a");
    assert_eq!(s.columns[2].tag, TypeTag::Name);
}

#[test]
fn unknown_type_is_refused_and_named() {
    let r = resolve_schema(&entries(&[("id", "integer"), ("when", "date"), ("x", "blob")]));
    match r {
        Err(SchemaError::UnsupportedType(t)) => assert_eq!(t, "date"),
        Ok(_) => panic!("schema with an unknown type was accepted"),
    }
}

#[test]
fn empty_schema_resolves() {
    let s = resolve_schema(&Vec::new()).unwrap();
    assert!(s.columns.is_empty());
}

#[test]
fn delimiter_must_be_one_byte() {
    assert_eq!(validate_delimiter(','), Ok(b','));
    assert_eq!(validate_delimiter('\t'), Ok(b'\t'));
    assert_eq!(validate_delimiter('|'), Ok(b'|'));
    assert_eq!(validate_delimiter('é'), Err(DelimiterError::NotSingleByte('é')));
    assert_eq!(validate_delimiter('€'), Err(DelimiterError::NotSingleByte('€')));
}

#[test]
fn decimal_text_values() {
    assert_eq!(decimal_text(0), "0");
    assert_eq!(decimal_text(7), "7");
    assert_eq!(decimal_text(10), "10");
    assert_eq!(decimal_text(999), "999");
    assert_eq!(decimal_text(1000), "1000");
    assert_eq!(decimal_text(u64::MAX), u64::MAX.to_string());
}

#[test]
fn parse_i64_like_std() {
    for s in [
        "0", "123", "-5", "+7", "", "-", "+", "12a", "a1", " 1", "007",
        "9223372036854775807", "9223372036854775808", "-9223372036854775808",
        "-9223372036854775809", "99999999999999999999",
    ] {
        assert_eq!(parse_i64(s), s.parse::<i64>().ok(), "on {:?}", s);
    }
}

#[test]
fn integer_cells_in_range() {
    for _ in 0..2000 {
        let s = generate_cell(TypeTag::Integer).unwrap();
        let v: i64 = s.parse().unwrap();
        assert!((0..1000).contains(&v));
        assert_eq!(parse_i64(&s), Some(v));
    }
}

#[test]
fn boolean_cells_are_true_or_false() {
    let mut seen_true = false;
    let mut seen_false = false;
    for _ in 0..500 {
        let s = generate_cell(TypeTag::Boolean).unwrap();
        assert!(s == "true" || s == "false");
        seen_true |= s == "true";
        seen_false |= s == "false";
    }
    assert!(seen_true && seen_false);
}

#[test]
fn text_cells_keep_their_shape() {
    for _ in 0..200 {
        assert!(generate_cell(TypeTag::Email).unwrap().contains('@'));
        let p = generate_cell(TypeTag::Password).unwrap();
        assert!((8..16).contains(&p.chars().count()));
        let s = generate_cell(TypeTag::Sentence).unwrap();
        assert!(s.ends_with('.'));
        let words = s.split(' ').count();
        assert!((5..10).contains(&words));
        assert!(!generate_cell(TypeTag::Word).unwrap().is_empty());
        assert!(!generate_cell(TypeTag::Name).unwrap().is_empty());
        assert!(!generate_cell(TypeTag::FirstName).unwrap().is_empty());
        assert!(!generate_cell(TypeTag::LastName).unwrap().is_empty());
        assert!(!generate_cell(TypeTag::PhoneNumber).unwrap().is_empty());
    }
    assert_eq!(generate_cell(TypeTag::Float), None);
}

#[test]
fn rows_follow_schema() {
    let s = resolve_schema(&entries(&[("a", "float"), ("b", "integer"), ("c", "boolean")])).unwrap();
    let floats = strings(&["12.5", "", ""]);
    let row = generate_row(&s, &floats);
    assert_eq!(row.len(), 3);
    assert_eq!(row[0], "12.5");
    assert!(row[1].parse::<i64>().is_ok());
    assert!(row[2] == "true" || row[2] == "false");
}

#[test]
fn encode_integers_booleans_and_text() {
    let c = encode_column(TypeTag::Integer, 0, strings(&["1", "-20", "999"])).unwrap();
    match c {
        TypedColumn::Int64(v) => assert_eq!(v, vec![1, -20, 999]),
        _ => panic!("wrong column kind"),
    }
    let c = encode_column(TypeTag::Boolean, 1, strings(&["true", "false", "True", "1"])).unwrap();
    match c {
        TypedColumn::Boolean(v) => assert_eq!(v, vec![true, false, false, false]),
        _ => panic!("wrong column kind"),
    }
    let c = encode_column(TypeTag::Email, 2, strings(&["a@b.c"])).unwrap();
    match c {
        TypedColumn::Utf8(v) => assert_eq!(v, strings(&["a@b.c"])),
        _ => panic!("wrong column kind"),
    }
    let c = encode_column(TypeTag::Float, 3, strings(&["1.5"])).unwrap();
    match c {
        TypedColumn::FloatText(v) => assert_eq!(v, strings(&["1.5"])),
        _ => panic!("wrong column kind"),
    }
}

#[test]
fn encode_reports_bad_integer() {
    let r = encode_column(TypeTag::Integer, 4, strings(&["1", "x", "y"]));
    assert_eq!(r.err(), Some(EncodeError::NotAnInteger { column: 4, row: 1 }));
}

#[test]
fn batch_is_transposed() {
    let s = resolve_schema(&entries(&[("n", "integer"), ("w", "string")])).unwrap();
    let rows = vec![strings(&["1", "a"]), strings(&["2", "b"]), strings(&["3", "c"])];
    assert_eq!(column_values(&rows, 1), strings(&["a", "b", "c"]));
    let cols = encode_batch(&s, &rows).unwrap();
    assert_eq!(cols.len(), 2);
    match &cols[0] {
        TypedColumn::Int64(v) => assert_eq!(v, &vec![1, 2, 3]),
        _ => panic!("wrong column kind"),
    }
    match &cols[1] {
        TypedColumn::Utf8(v) => assert_eq!(v, &strings(&["a", "b", "c"])),
        _ => panic!("wrong column kind"),
    }
    let bad = vec![strings(&["1", "a"]), strings(&["two", "b"])];
    assert_eq!(encode_batch(&s, &bad).err(), Some(EncodeError::NotAnInteger { column: 0, row: 1 }));
}

#[test]
fn generated_batch_encodes() {
    let s = resolve_schema(&entries(&[("i", "integer"), ("b", "boolean"), ("s", "sentence")])).unwrap();
    let floats = no_floats(&s);
    let rows: Vec<Vec<String>> = (0..100).map(|_| generate_row(&s, &floats)).collect();
    let cols = encode_batch(&s, &rows).unwrap();
    match &cols[0] {
        TypedColumn::Int64(v) => assert!(v.iter().all(|x| (0..1000).contains(x)) && v.len() == 100),
        _ => panic!("wrong column kind"),
    }
}

#[test]
fn chunks_cover_rows() {
    assert_eq!(chunk_bounds(25000), vec![(0, 10000), (10000, 20000), (20000, 25000)]);
    assert_eq!(chunk_bounds(10000), vec![(0, 10000)]);
    assert_eq!(chunk_bounds(1), vec![(0, 1)]);
    assert!(chunk_bounds(0).is_empty());
}

#[test]
fn csv_records_are_encoded() {
    let rows = vec![strings(&["a", "b"]), strings(&["x,y", "z"])];
    let out = encode_records(&rows, b',');
    assert_eq!(String::from_utf8(out).unwrap(), "a,b\n\"x,y\",z\n");
    let out = encode_records(&rows, b';');
    assert_eq!(String::from_utf8(out).unwrap(), "a;b\nx,y;z\n");
    assert!(encode_records(&Vec::new(), b',').is_empty());
}

#[test]
fn delimited_output_of_three_records() {
    let s = id_email_schema();
    let floats = no_floats(&s);
    let mut out = encode_records(&vec![header_record(&s)], b',');
    for (start, end) in chunk_bounds(3) {
        let rows: Vec<Vec<String>> = (start..end).map(|_| generate_row(&s, &floats)).collect();
        out.extend(encode_records(&rows, b','));
    }
    let text = String::from_utf8(out).unwrap();
    let lines: Vec<&str> = text.lines().collect();
    assert_eq!(lines.len(), 4);
    assert_eq!(lines[0], "id,email");
    for line in &lines[1..] {
        let fields: Vec<&str> = line.split(',').collect();
        assert_eq!(fields.len(), 2);
        let id: i64 = fields[0].parse().unwrap();
        assert!((0..1000).contains(&id));
        assert!(fields[1].contains('@'));
    }
}

#[test]
fn delimited_output_has_header_plus_records() {
    let s = resolve_schema(&entries(&[("a", "integer"), ("b", "boolean"), ("c", "password")])).unwrap();
    let floats = no_floats(&s);
    let n = 23456;
    let mut out = encode_records(&vec![header_record(&s)], b'|');
    for (start, end) in chunk_bounds(n) {
        let rows: Vec<Vec<String>> = (start..end).map(|_| generate_row(&s, &floats)).collect();
        out.extend(encode_records(&rows, b'|'));
    }
    let text = String::from_utf8(out).unwrap();
    assert_eq!(text.lines().count(), n + 1);
    assert!(text.lines().all(|l| l.split('|').count() == 3));
}

/// Runs a roller to the end, with `size_after(k)` as the measured size of the file
/// after its `k`-th row group; returns the row-group lengths of each file.
fn run(total: usize, max: u64, size_after: impl Fn(usize) -> u64) -> Vec<Vec<usize>> {
    let mut r = FileRoller::new(total, max);
    let mut files: Vec<Vec<usize>> = Vec::new();
    while !r.is_done() {
        assert!(r.needs_new_file());
        assert_eq!(r.file_index, files.len());
        let mut groups = Vec::new();
        loop {
            let n = r.next_batch_len();
            groups.push(n);
            if r.after_flush(n, size_after(groups.len())) {
                break;
            }
        }
        files.push(groups);
    }
    files
}

#[test]
fn columnar_seventy_thousand_rows_small_limit() {
    let files = run(70000, 1024, |k| 40_000 * k as u64);
    assert!(files.len() > 1);
    assert_eq!(files.len(), 14);
    assert!(files.iter().all(|f| f.len() == 1));
    assert_eq!(files.iter().flatten().sum::<usize>(), 70000);
}

#[test]
fn columnar_rows_add_up_with_last_batch_cut() {
    let files = run(12345, 1 << 40, |k| 100 * k as u64);
    assert_eq!(files, vec![vec![5000, 5000, 2345]]);
    let files = run(23000, 250, |k| 100 * k as u64);
    assert_eq!(files, vec![vec![5000, 5000, 5000], vec![5000, 3000]]);
    for f in &files {
        assert!(f.iter().all(|&n| n > 0 && n <= COLUMNAR_BATCH_SIZE));
    }
}

#[test]
fn columnar_zero_rows_makes_no_file() {
    assert!(run(0, 1024, |_| 0).is_empty());
    assert!(FileRoller::new(0, 1024).is_done());
}

#[test]
fn columnar_row_group_ceiling() {
    let total = COLUMNAR_BATCH_SIZE * MAX_ROW_GROUPS_PER_FILE + 7;
    let files = run(total, u64::MAX, |_| 0);
    assert_eq!(files.len(), 2);
    assert_eq!(files[0].len(), MAX_ROW_GROUPS_PER_FILE);
    assert_eq!(files[1], vec![7]);
}

#[test]
fn columnar_run_starts_only_on_known_types() {
    let run = start_columnar(&entries(&[("id", "integer"), ("email", "email")]), 70000, 1024).unwrap();
    assert_eq!(run.schema.columns.len(), 2);
    assert_eq!(run.roller.file_index, 0);
    assert_eq!(run.roller.written, 0);
    assert_eq!(run.roller.total, 70000);
    assert!(!run.roller.is_done());
    match start_columnar(&entries(&[("id", "integer"), ("x", "uuid")]), 10, 1024) {
        Err(SchemaError::UnsupportedType(t)) => assert_eq!(t, "uuid"),
        Ok(_) => panic!("run started with an unknown type"),
    }
}

#[test]
fn delimited_run_checks_delimiter_then_schema() {
    let (s, d) = start_delimited(&entries(&[("id", "integer")]), ';').unwrap();
    assert_eq!(d, b';');
    assert_eq!(s.columns[0].name, "id");
    assert_eq!(
        start_delimited(&entries(&[("id", "nope")]), '§').err(),
        Some(DelimitedStartError::Delimiter(DelimiterError::NotSingleByte('§')))
    );
    assert_eq!(
        start_delimited(&entries(&[("id", "nope")]), ',').err(),
        Some(DelimitedStartError::Schema(SchemaError::UnsupportedType("nope".to_string())))
    );
}

#[test]
fn generated_text_cells_have_their_shape() {
    for _ in 0..300 {
        let w = generate_cell(TypeTag::Word).unwrap();
        assert!(!w.is_empty() && w.chars().all(|c| c.is_ascii_alphanumeric()));
        let f = generate_cell(TypeTag::FirstName).unwrap();
        assert!(!f.is_empty() && f.chars().all(|c| c.is_ascii_alphanumeric()));
        let e = generate_cell(TypeTag::Email).unwrap();
        assert_eq!(e.matches('@').count(), 1);
        let (local, domain) = e.split_once('@').unwrap();
        assert!(!local.is_empty() && local.chars().all(|c| c.is_ascii_alphanumeric()));
        assert!(["example.com", "example.net", "example.org"].contains(&domain));
        let n = generate_cell(TypeTag::Name).unwrap();
        let (first, last) = n.split_once(' ').unwrap();
        assert!(!first.is_empty() && !last.is_empty());
        let s = generate_cell(TypeTag::Sentence).unwrap();
        let body = s.strip_suffix('.').unwrap();
        let words: Vec<&str> = body.split(' ').collect();
        assert!((5..10).contains(&words.len()));
        assert!(words.iter().all(|w| !w.is_empty() && w.chars().all(|c| c.is_ascii_alphanumeric())));
        let p = generate_cell(TypeTag::Password).unwrap();
        assert!(p.chars().all(|c| c.is_ascii_alphanumeric()));
    }
}

#[test]
fn empty_record_and_lone_empty_field_are_quoted() {
    assert_eq!(encode_records(&vec![strings(&[""])], b','), b"\"\"\n".to_vec());
    assert_eq!(encode_records(&vec![strings(&["", ""])], b','), b",\n".to_vec());
    assert_eq!(encode_records(&vec![strings(&["a\"b"])], b','), b"\"a\"\"b\"\n".to_vec());
}

#[test]
fn delimited_header_only_when_no_records() {
    let s = id_email_schema();
    let mut out = encode_records(&vec![header_record(&s)], b',');
    for (start, end) in chunk_bounds(0) {
        let rows: Vec<Vec<String>> = (start..end).map(|_| generate_row(&s, &no_floats(&s))).collect();
        out.extend(encode_records(&rows, b','));
    }
    assert_eq!(out, b"id,email\n".to_vec());
}
