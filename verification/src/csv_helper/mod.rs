//! Records of comma-separated values: reading one from a line, and writing
//! one out.
//!
//! Reading and writing are the work of the `csv` crate. What its writer
//! puts out is stated in [`format`]; what its reader makes of a line has a
//! name, [`csv_first_record`], and no more is claimed of it.

pub mod format;

use vstd::prelude::*;
use vstd::string::StringExecFns;
use vstd::utf8::*;
use crate::csv_helper::format::{csv_record, escaped, has_comma_or_quote};
use crate::errors::FecError;
use crate::fec::parser::{parse_with_delimiter, split_text};
use crate::text::{replaced, str_trim, string_push, texts, trimmed};

verus! {

/// The error type of the `csv` crate. The library only carries such a
/// value; it never looks inside.
#[verifier::external_type_specification]
#[verifier::external_body]
pub struct ExCsvError(csv::Error);

/// What the reader of the `csv` crate, set up without a header line, makes
/// of `line`: its first record, nothing when the line holds no record, or
/// a failure.
pub uninterp spec fn csv_first_record(line: Seq<char>) -> Result<Option<Seq<Seq<char>>>, ()>;

/// `csv::Reader::records` on a reader over the bytes of `line`, built by
/// `csv::ReaderBuilder` without a header line: the first record that the
/// reader yields, field by field.
#[verifier::external_body]
fn csv_read_first_record(line: &str) -> (read: Result<Option<Vec<String>>, csv::Error>)
    ensures
        match read {
            Ok(Some(fields)) => csv_first_record(line@) == Ok::<Option<Seq<Seq<char>>>, ()>(
                Some(texts(fields@)),
            ),
            Ok(None) => csv_first_record(line@) == Ok::<Option<Seq<Seq<char>>>, ()>(None),
            Err(_) => csv_first_record(line@) is Err,
        },
{
    let mut reader = csv::ReaderBuilder::new().has_headers(false).from_reader(line.as_bytes());
    match reader.records().next() {
        Some(record) => Ok(Some(record?.iter().map(|field| field.to_string()).collect())),
        None => Ok(None),
    }
}

/// `csv::Writer::write_record` on a writer into memory, built by
/// `csv::WriterBuilder` without a header line: the bytes of the record.
/// The writer quotes a field when it holds a comma, a double quote or a
/// line break, doubles the double quotes inside, puts commas between the
/// fields and a line feed behind them, and writes a record that would be
/// empty as a pair of double quotes. It cannot fail: memory takes every
/// write, and the record is the first that its writer sees, so that no
/// earlier record has another number of fields.
#[verifier::external_body]
pub(crate) fn csv_encode_record(fields: &[String]) -> (encoded: Result<Vec<u8>, csv::Error>)
    ensures
        encoded is Ok,
        encoded.unwrap()@ == encode_utf8(csv_record(texts(fields@))),
{
    let mut buffer = Vec::new();
    {
        let mut writer = csv::WriterBuilder::new().has_headers(false).from_writer(&mut buffer);
        writer.write_record(fields)?;
        writer.flush()?;
    }
    Ok(buffer)
}

/// Reads `text` as comma-separated values: the fields of its first record,
/// nothing when it holds no record, and a parsing error when the reader
/// rejects it.
pub fn parse_csv_text(text: &str) -> (read: Result<Option<Vec<String>>, FecError>)
    ensures
        match csv_first_record(text@) {
            Ok(Some(record)) => read is Ok && read.unwrap() is Some && texts(
                read.unwrap().unwrap()@,
            ) == record,
            Ok(None) => read is Ok && read.unwrap() is None,
            Err(_) => read is Err && read.unwrap_err().is_parse_error_about("CSV parse error: "@),
        },
{
    match csv_read_first_record(text) {
        Ok(record) => Ok(record),
        Err(error) => {
            let reason = String::from_str("CSV parse error: ").concat(
                csv_error_text(&error).as_str(),
            );
            Err(FecError::ParseError(reason))
        },
    }
}

/// `Display` of `csv::Error`: the error as a text.
#[verifier::external_body]
fn csv_error_text(error: &csv::Error) -> (text: String) {
    format!("{}", error)
}

/// How many commas and double quotes a field holds.
#[derive(Debug)]
pub struct FieldInfo {
    pub num_commas: usize,
    pub num_quotes: usize,
}

impl Default for FieldInfo {
    /// The counts of an empty field.
    fn default() -> (info: Self)
        ensures
            info == (FieldInfo { num_commas: 0, num_quotes: 0 }),
    {
        FieldInfo { num_commas: 0, num_quotes: 0 }
    }
}

/// What parsing a line found out beside its fields.
#[derive(Debug)]
pub struct CsvParseContext {
    /// Whether the separator character occurs in the line.
    pub ascii28_present: bool,
    /// The counts of each field, in the order of the fields.
    pub fields_info: Vec<FieldInfo>,
}

impl CsvParseContext {
    /// What is known before any line was parsed.
    pub fn new() -> (context: Self)
        ensures
            !context.ascii28_present,
            context.fields_info@ == Seq::<FieldInfo>::empty(),
    {
        CsvParseContext { ascii28_present: false, fields_info: Vec::new() }
    }
}

/// The character that some filings put between fields.
pub const SEPARATOR_CHAR: char = '\u{1c}';

/// How often `c` occurs in `text`.
pub open spec fn count_char(text: Seq<char>, c: char) -> nat
    decreases text.len(),
{
    if text.len() == 0 {
        0
    } else if text.last() == c {
        count_char(text.drop_last(), c) + 1
    } else {
        count_char(text.drop_last(), c)
    }
}

/// The counts of a field.
pub open spec fn field_info(field: Seq<char>) -> FieldInfo {
    FieldInfo {
        num_commas: count_char(field, ',') as usize,
        num_quotes: count_char(field, '"') as usize,
    }
}

/// A character occurs in a text no more often than the text is long.
pub proof fn lemma_count_char_bound(text: Seq<char>, c: char)
    ensures
        count_char(text, c) <= text.len(),
        count_char(text, c) > 0 <==> text.contains(c),
    decreases text.len(),
{
    if text.len() > 0 {
        let init = text.drop_last();
        lemma_count_char_bound(init, c);
        if init.contains(c) {
            let i = choose|i: int| 0 <= i < init.len() && init[i] == c;
            assert(text[i] == c);
        }
        if text.contains(c) && text.last() != c {
            let i = choose|i: int| 0 <= i < text.len() && text[i] == c;
            assert(init[i] == c);
        }
        if text.last() == c {
            assert(text[text.len() - 1] == c);
        }
    }
}

/// Counts the commas and the double quotes of `field`.
pub fn count_field(field: &str) -> (info: FieldInfo)
    ensures
        info.num_commas == count_char(field@, ','),
        info.num_quotes == count_char(field@, '"'),
{
    let length: usize = field.unicode_len();
    let mut info = FieldInfo::default();
    for c in it: field.chars()
        invariant
            it.seq() == field@,
            length == field@.len(),
            info.num_commas == count_char(field@.take(it.index() as int), ','),
            info.num_quotes == count_char(field@.take(it.index() as int), '"'),
    {
        proof {
            let seen = field@.take(it.index() as int);
            let next = field@.take(it.index() + 1);
            assert(next.drop_last() =~= seen);
            lemma_count_char_bound(seen, ',');
            lemma_count_char_bound(seen, '"');
        }
        if c == ',' {
            info.num_commas += 1;
        }
        if c == '"' {
            info.num_quotes += 1;
        }
    }
    assert(field@.take(field@.len() as int) =~= field@);
    info
}

/// The fields that [`parse_line`] finds in a line that holds the
/// separator: the pieces between the separators, each without the white
/// space around it.
pub open spec fn separated_fields(line: Seq<char>) -> Seq<Seq<char>> {
    split_text(line, SEPARATOR_CHAR).map_values(|piece: Seq<char>| trimmed(piece))
}

/// Parses one line into its fields and counts, for each field, its commas
/// and double quotes. A line that holds the separator character is cut at
/// each separator, the counts are those of the pieces, and the fields are
/// the pieces without the white space around them. Any other line is read
/// as comma-separated values: its first record gives the fields, no record
/// gives no field, and a line that the reader rejects is a parsing error.
pub fn parse_line(line: &str) -> (parsed: Result<(Vec<String>, CsvParseContext), FecError>)
    ensures
        line@.contains(SEPARATOR_CHAR) ==> parsed is Ok && parsed.unwrap().1.ascii28_present
            && texts(parsed.unwrap().0@) == separated_fields(line@)
            && parsed.unwrap().1.fields_info@ == split_text(line@, SEPARATOR_CHAR).map_values(
            |piece: Seq<char>| field_info(piece),
        ),
        !line@.contains(SEPARATOR_CHAR) ==> match csv_first_record(line@) {
            Ok(Some(record)) => parsed is Ok && !parsed.unwrap().1.ascii28_present && texts(
                parsed.unwrap().0@,
            ) == record && parsed.unwrap().1.fields_info@ == record.map_values(
                |field: Seq<char>| field_info(field),
            ),
            Ok(None) => parsed is Ok && !parsed.unwrap().1.ascii28_present
                && parsed.unwrap().0@.len() == 0 && parsed.unwrap().1.fields_info@.len() == 0,
            Err(_) => parsed is Err && parsed.unwrap_err().is_parse_error_about(
                "CSV parse error: "@,
            ),
        },
{
    let mut context = CsvParseContext::new();
    let pieces = parse_with_delimiter(line, SEPARATOR_CHAR);
    proof {
        lemma_split_count(line@, SEPARATOR_CHAR);
        lemma_count_char_bound(line@, SEPARATOR_CHAR);
    }
    if pieces.len() > 1 {
        context.ascii28_present = true;
        let mut fields: Vec<String> = Vec::new();
        let mut at: usize = 0;
        while at < pieces.len()
            invariant
                at <= pieces@.len(),
                context.ascii28_present,
                texts(fields@) == texts(pieces@).take(at as int).map_values(
                    |piece: Seq<char>| trimmed(piece),
                ),
                context.fields_info@ == texts(pieces@).take(at as int).map_values(
                    |piece: Seq<char>| field_info(piece),
                ),
            decreases pieces@.len() - at,
        {
            let ghost found = texts(fields@);
            let info = count_field(pieces[at].as_str());
            proof {
                lemma_count_char_bound(pieces@[at as int]@, ',');
                lemma_count_char_bound(pieces@[at as int]@, '"');
            }
            context.fields_info.push(info);
            fields.push(str_trim(pieces[at].as_str()).to_owned());
            proof {
                assert(texts(fields@) =~= found.push(trimmed(pieces@[at as int]@)));
            }
            at += 1;
        }
        return Ok((fields, context));
    }
    match parse_csv_text(line)? {
        Some(record) => {
            let mut at: usize = 0;
            while at < record.len()
                invariant
                    at <= record@.len(),
                    !context.ascii28_present,
                    context.fields_info@ == texts(record@).take(at as int).map_values(
                        |field: Seq<char>| field_info(field),
                    ),
                decreases record@.len() - at,
            {
                let info = count_field(record[at].as_str());
                proof {
                    lemma_count_char_bound(record@[at as int]@, ',');
                    lemma_count_char_bound(record@[at as int]@, '"');
                }
                context.fields_info.push(info);
                at += 1;
            }
            Ok((record, context))
        },
        None => Ok((Vec::new(), context)),
    }
}

/// What [`parse_line`] makes of a line: its fields, or a failure.
pub open spec fn line_fields(line: Seq<char>) -> Result<Seq<Seq<char>>, ()> {
    if line.contains(SEPARATOR_CHAR) {
        Ok(separated_fields(line))
    } else {
        match csv_first_record(line) {
            Ok(Some(record)) => Ok(record),
            Ok(None) => Ok(Seq::<Seq<char>>::empty()),
            Err(_) => Err(()),
        }
    }
}

/// Parses each of `lines` as [`parse_line`] does and returns the fields of
/// each, in the order of the lines. The first line that cannot be parsed
/// ends the work with a parsing error.
pub fn parse_stream(lines: &Vec<String>) -> (parsed: Result<Vec<Vec<String>>, FecError>)
    ensures
        parsed is Ok <==> forall|i: int| 0 <= i < lines@.len() ==> line_fields(#[trigger] lines@[i]@) is Ok,
        parsed is Ok ==> parsed.unwrap()@.len() == lines@.len() && forall|i: int|
            0 <= i < lines@.len() ==> Ok::<Seq<Seq<char>>, ()>(
                texts((#[trigger] parsed.unwrap()@[i])@),
            ) == line_fields(lines@[i]@),
        parsed is Err ==> parsed.unwrap_err().is_parse_error_about("CSV parse error: "@),
{
    let mut records: Vec<Vec<String>> = Vec::new();
    let mut at: usize = 0;
    while at < lines.len()
        invariant
            at <= lines@.len(),
            records@.len() == at,
            forall|i: int| 0 <= i < at ==> line_fields(#[trigger] lines@[i]@) is Ok,
            forall|i: int|
                0 <= i < at ==> Ok::<Seq<Seq<char>>, ()>(texts((#[trigger] records@[i])@))
                    == line_fields(lines@[i]@),
        decreases lines@.len() - at,
    {
        match parse_line(lines[at].as_str()) {
            Ok((fields, _)) => {
                proof {
                    if !lines@[at as int]@.contains(SEPARATOR_CHAR) {
                        if csv_first_record(lines@[at as int]@) == Ok::<
                            Option<Seq<Seq<char>>>,
                            (),
                        >(None) {
                            assert(texts(fields@) =~= Seq::<Seq<char>>::empty());
                        }
                    }
                }
                records.push(fields);
            },
            Err(error) => {
                return Err(error);
            },
        }
        at += 1;
    }
    Ok(records)
}

/// The bytes of one record that holds the given fields.
pub fn write_csv_record(fields: &[String]) -> (encoded: Vec<u8>)
    ensures
        encoded@ == encode_utf8(csv_record(texts(fields@))),
{
    csv_encode_record(fields).unwrap()
}

/// Escapes `field` by hand: puts it between double quotes and doubles its
/// double quotes when it holds a comma or a double quote.
pub fn escape_field(field: &str) -> (text: String)
    ensures
        text@ == escaped(field@),
{
    let info = count_field(field);
    proof {
        lemma_count_char_bound(field@, ',');
        lemma_count_char_bound(field@, '"');
        if has_comma_or_quote(field@) {
            let i = choose|i: int|
                0 <= i < field@.len() && (field@[i] == ',' || field@[i] == '"');
            assert(field@.contains(field@[i]));
        }
        if field@.contains(',') {
            let i = choose|i: int| 0 <= i < field@.len() && field@[i] == ',';
            assert(field@[i] == ',' || field@[i] == '"');
        }
        if field@.contains('"') {
            let i = choose|i: int| 0 <= i < field@.len() && field@[i] == '"';
            assert(field@[i] == ',' || field@[i] == '"');
        }
    }
    if info.num_quotes > 0 || info.num_commas > 0 {
        let mut text = String::new();
        string_push(&mut text, '"');
        proof {
            reveal_strlit("\"\"");
            assert("\"\""@ =~= seq!['"', '"']);
            assert(text@ =~= seq!['"'] + replaced(field@.take(0), '"', seq!['"', '"']));
        }
        for c in it: field.chars()
            invariant
                it.seq() == field@,
                "\"\""@ == seq!['"', '"'],
                text@ == seq!['"'] + replaced(
                    field@.take(it.index() as int),
                    '"',
                    seq!['"', '"'],
                ),
        {
            let ghost seen = field@.take(it.index() as int);
            let ghost next = field@.take(it.index() + 1);
            let ghost before = text@;
            assert(next.drop_last() =~= seen);
            assert(next.last() == c);
            if c == '"' {
                text.append("\"\"");
                assert(text@ =~= seq!['"'] + replaced(next, '"', seq!['"', '"']));
            } else {
                string_push(&mut text, c);
                assert(text@ =~= seq!['"'] + replaced(next, '"', seq!['"', '"']));
            }
        }
        assert(field@.take(field@.len() as int) =~= field@);
        string_push(&mut text, '"');
        assert(text@ =~= escaped(field@));
        text
    } else {
        field.to_owned()
    }
}

/// The bytes of a record whose only field is `field`, escaped once: in
/// quotes, with its double quotes doubled, when it needs them.
pub fn write_escaped_field(field: &str) -> (encoded: Vec<u8>)
    ensures
        encoded@ == encode_utf8(csv_record(seq![field@])),
{
    let mut fields: Vec<String> = Vec::new();
    fields.push(field.to_owned());
    assert(texts(fields@) =~= seq![field@]);
    csv_encode_record(fields.as_slice()).unwrap()
}

/// A text is cut into one more piece than the delimiter occurs in it.
pub proof fn lemma_split_count(line: Seq<char>, delimiter: char)
    ensures
        split_text(line, delimiter).len() == count_char(line, delimiter) + 1,
    decreases line.len(),
{
    if line.len() > 0 {
        lemma_split_count(line.drop_last(), delimiter);
    }
}

} // verus!
