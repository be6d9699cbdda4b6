//! The generator registry: one generated value, as text, for each column type.
//! Values come from `rand` and `fake`; floating-point values are drawn by the
//! caller, since this library holds no floating-point numbers.

use vstd::prelude::*;
use vstd::string::*;
use crate::decimal::{dec_digits, decimal_text, parse_i64_spec, lemma_decimal_round_trip};
use crate::schema::{Schema, TypeTag};
use fake::Fake;
use fake::faker::boolean::en::Boolean;
use fake::faker::internet::en::{Password, SafeEmail};
use fake::faker::lorem::en::{Sentence, Word};
use fake::faker::name::en::{FirstName, LastName, Name};
use fake::faker::phone_number::en::PhoneNumber;
use rand::Rng;

verus! {

/// Upper bound, exclusive, of generated integers.
pub const INTEGER_BOUND: i64 = 1000;

/// An ASCII letter or digit.
pub open spec fn is_alnum(c: char) -> bool {
    let u = c as u32;
    (48 <= u && u <= 57) || (65 <= u && u <= 90) || (97 <= u && u <= 122)
}

/// Every character of `s` is an ASCII letter or digit.
pub open spec fn all_alnum(s: Seq<char>) -> bool {
    forall|i: int| 0 <= i < s.len() ==> is_alnum(#[trigger] s[i])
}

/// A single non-empty word of ASCII letters and digits, with no whitespace.
pub open spec fn alnum_text(s: Seq<char>) -> bool {
    s.len() > 0 && all_alnum(s)
}

/// `words` joined by single spaces.
pub open spec fn joined_words(words: Seq<Seq<char>>) -> Seq<char>
    decreases words.len(),
{
    if words.len() == 0 {
        Seq::empty()
    } else if words.len() == 1 {
        words[0]
    } else {
        joined_words(words.drop_last()).push(' ') + words.last()
    }
}

/// `local@example.com`, `.net` or `.org`, with a non-empty local part of ASCII
/// letters and digits: exactly one `@`, and a dotted domain after it.
pub open spec fn email_shape(s: Seq<char>) -> bool {
    exists|local: Seq<char>, tld: Seq<char>|
        #![trigger alnum_text(local), local + "@example."@ + tld]
        alnum_text(local) && (tld == "com"@ || tld == "net"@ || tld == "org"@) && s == local
            + "@example."@ + tld
}

/// A first name of ASCII letters and digits, a space, and a non-empty last name.
pub open spec fn full_name_shape(s: Seq<char>) -> bool {
    exists|first: Seq<char>, last: Seq<char>|
        #![trigger alnum_text(first), first + " "@ + last]
        alnum_text(first) && last.len() > 0 && s == first + " "@ + last
}

/// Between `min` and `max - 1` words, each non-empty ASCII letters and digits,
/// joined by single spaces and followed by a full stop.
pub open spec fn sentence_shape(s: Seq<char>, min: nat, max: nat) -> bool {
    exists|words: Seq<Seq<char>>|
        #![trigger joined_words(words)]
        min <= words.len() < max && (forall|k: int| 0 <= k < words.len() ==> alnum_text(
            #[trigger] words[k],
        )) && s == joined_words(words).push('.')
}

/// Relies on rand's `Rng::gen_range` on `thread_rng()`: a value in `[low, high)`;
/// it panics on an empty range, which `requires` leaves out.
#[verifier::external_body]
fn random_in(low: i64, high: i64) -> (r: i64)
    requires
        low < high,
    ensures
        low <= r < high,
{
    rand::thread_rng().gen_range(low..high)
}

/// Relies on fake's `Boolean` faker: `true` with the given percentage.
#[verifier::external_body]
fn fake_boolean(percent: u8) -> (r: bool) {
    Boolean(percent).fake::<bool>()
}

/// Relies on fake's `Word` faker: one of the English lorem words, each a non-empty
/// run of ASCII letters.
#[verifier::external_body]
fn fake_word() -> (r: String)
    ensures
        alnum_text(r@),
{
    Word().fake::<String>()
}

/// Relies on fake's `Name` faker, which fills the English template
/// `{FirstName} {LastName}` from non-empty name lists.
#[verifier::external_body]
fn fake_name() -> (r: String)
    ensures
        full_name_shape(r@),
{
    Name().fake::<String>()
}

/// Relies on fake's `FirstName` faker: one of the English first names, each a
/// non-empty run of ASCII letters.
#[verifier::external_body]
fn fake_first_name() -> (r: String)
    ensures
        alnum_text(r@),
{
    FirstName().fake::<String>()
}

/// Relies on fake's `LastName` faker: one of the English last names, none empty.
#[verifier::external_body]
fn fake_last_name() -> (r: String)
    ensures
        r@.len() > 0,
{
    LastName().fake::<String>()
}

/// Relies on fake's `SafeEmail` faker, which writes `{first name}@example.{tld}`:
/// the first name in lower case, so a non-empty run of ASCII letters, and the
/// domain `example.com`, `example.net` or `example.org`.
#[verifier::external_body]
fn fake_safe_email() -> (r: String)
    ensures
        email_shape(r@),
{
    SafeEmail().fake::<String>()
}

/// Relies on fake's `Password` faker: a length drawn from `[min, max)`, then that
/// many characters from the ASCII letters and digits; it panics on an empty range.
#[verifier::external_body]
fn fake_password(min: usize, max: usize) -> (r: String)
    requires
        min < max,
    ensures
        min <= r@.len() < max,
        all_alnum(r@),
{
    Password(min..max).fake::<String>()
}

/// Relies on fake's `Sentence` faker: a word count drawn from `[min, max)`, the
/// lorem words (each a non-empty run of ASCII letters) joined by spaces and followed
/// by a full stop; it panics on an empty range.
#[verifier::external_body]
fn fake_sentence(min: usize, max: usize) -> (r: String)
    requires
        min < max,
    ensures
        sentence_shape(r@, min as nat, max as nat),
{
    Sentence(min..max).fake::<String>()
}

/// Relies on fake's `PhoneNumber` faker: a non-empty English format whose `#` and
/// `^` are each replaced by one digit, so the number is not empty.
#[verifier::external_body]
fn fake_phone_number() -> (r: String)
    ensures
        r@.len() > 0,
{
    PhoneNumber().fake::<String>()
}

/// The text of a generated integer cell: some value in `[0, INTEGER_BOUND)` in decimal.
pub open spec fn is_integer_cell(s: Seq<char>) -> bool {
    exists|n: nat| n < INTEGER_BOUND && s == #[trigger] dec_digits(n)
}

/// The text of a generated boolean cell.
pub open spec fn is_boolean_cell(s: Seq<char>) -> bool {
    s == "true"@ || s == "false"@
}

/// What holds of every value generated for a column of type `t`. Float columns are
/// drawn by the caller and carry no promise here.
pub open spec fn cell_ok(t: TypeTag, s: Seq<char>) -> bool {
    match t {
        TypeTag::Integer => is_integer_cell(s),
        TypeTag::Float => true,
        TypeTag::Boolean => is_boolean_cell(s),
        TypeTag::Word => alnum_text(s),
        TypeTag::Name => full_name_shape(s),
        TypeTag::FirstName => alnum_text(s),
        TypeTag::LastName => s.len() > 0,
        TypeTag::Email => email_shape(s),
        TypeTag::Password => 8 <= s.len() < 16 && all_alnum(s),
        TypeTag::Sentence => sentence_shape(s, 5, 10),
        TypeTag::PhoneNumber => s.len() > 0,
    }
}

/// One generated value of type `t`, as text; `None` for `Float`, whose values
/// the caller draws.
pub fn generate_cell(t: TypeTag) -> (r: Option<String>)
    ensures
        r is None <==> t == TypeTag::Float,
        r matches Some(s) ==> cell_ok(t, s@) && s@.len() > 0,
{
    match t {
        TypeTag::Integer => {
            let n = random_in(0, INTEGER_BOUND);
            let s = decimal_text(n as u64);
            assert(dec_digits(n as nat) == s@);
            Some(s)
        },
        TypeTag::Float => None,
        TypeTag::Boolean => {
            proof {
                reveal_strlit("true");
                reveal_strlit("false");
            }
            if fake_boolean(50) {
                Some(String::from_str("true"))
            } else {
                Some(String::from_str("false"))
            }
        },
        TypeTag::Word => Some(fake_word()),
        TypeTag::Name => Some(fake_name()),
        TypeTag::FirstName => Some(fake_first_name()),
        TypeTag::LastName => Some(fake_last_name()),
        TypeTag::Email => Some(fake_safe_email()),
        TypeTag::Password => Some(fake_password(8, 16)),
        TypeTag::Sentence => Some(fake_sentence(5, 10)),
        TypeTag::PhoneNumber => Some(fake_phone_number()),
    }
}

/// One row of `schema`: a value per column, in column order, each generated on its
/// own. A float column takes the value at its own index in `float_texts`; the other
/// entries of `float_texts` are not read.
pub fn generate_row(schema: &Schema, float_texts: &Vec<String>) -> (r: Vec<String>)
    requires
        float_texts@.len() == schema.columns@.len(),
    ensures
        r@.len() == schema.columns@.len(),
        forall|j: int|
            0 <= j < r@.len() ==> if schema.columns@[j].tag == TypeTag::Float {
                (#[trigger] r@[j])@ == float_texts@[j]@
            } else {
                cell_ok(schema.columns@[j].tag, r@[j]@)
            },
{
    let mut row: Vec<String> = Vec::new();
    let mut j: usize = 0;
    while j < schema.columns.len()
        invariant
            j <= schema.columns@.len(),
            float_texts@.len() == schema.columns@.len(),
            row@.len() == j,
            forall|k: int|
                0 <= k < j ==> if schema.columns@[k].tag == TypeTag::Float {
                    (#[trigger] row@[k])@ == float_texts@[k]@
                } else {
                    cell_ok(schema.columns@[k].tag, row@[k]@)
                },
        decreases schema.columns@.len() - j,
    {
        let cell = match generate_cell(schema.columns[j].tag) {
            Some(s) => s,
            None => float_texts[j].clone(),
        };
        row.push(cell);
        j = j + 1;
    }
    row
}

/// Every generated integer cell reads back as an integer in `[0, INTEGER_BOUND)`.
pub proof fn lemma_integer_cell_in_range(s: Seq<char>)
    requires
        is_integer_cell(s),
    ensures
        parse_i64_spec(s) matches Some(v) && 0 <= v < INTEGER_BOUND,
{
    let n = choose|n: nat| n < INTEGER_BOUND && s == #[trigger] dec_digits(n);
    lemma_decimal_round_trip(n);
}

} // verus!
