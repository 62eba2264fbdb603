//! The file formats that other crates read and write for this one, and what
//! is believed of those crates.

use vstd::prelude::*;
use vstd::string::*;
use crate::parameters::Lines;
use crate::properties::owned_lines_view;

verus! {

/// The line of a table in a TOML document: its key, and its value where
/// that is a string.
pub type TableLine = (String, Option<String>);

/// The entry of a TOML document at the top: its key, and its lines where it
/// is a table.
pub type TableEntry = (String, Option<Vec<TableLine>>);

/// The top of a TOML document as plain values.
pub type Tables = Seq<(Seq<char>, Option<Seq<(Seq<char>, Option<Seq<char>>)>>)>;

/// The failure of the `toml` crate to read a document.
#[verifier::external_type_specification]
#[verifier::external_body]
pub struct ExTomlError(toml::de::Error);

/// The failure of the `java_properties` crate to read a file.
#[verifier::external_type_specification]
#[verifier::external_body]
pub struct ExPropertiesError(java_properties::PropertiesError);

/// The failure of the `csv` crate to read or to write.
#[verifier::external_type_specification]
#[verifier::external_body]
pub struct ExCsvError(csv::Error);

/// What the `csv` crate reads out of the bytes of a file: the cells of
/// every record behind the first one, which is the head, or nothing where
/// the bytes are no such file.
pub uninterp spec fn csv_rows(bytes: Seq<u8>) -> Option<Seq<Seq<Seq<char>>>>;

/// What the `csv` crate writes for records: the bytes of the file, or
/// nothing where the records cannot be written.
pub uninterp spec fn csv_text(records: Seq<Seq<Seq<char>>>) -> Option<Seq<u8>>;

/// What `str::trim` leaves of a text: the text without the white space at
/// its two ends.
pub uninterp spec fn trimmed_text(text: Seq<char>) -> Seq<char>;

/// What the `toml` crate reads out of a text: the entries at the top of the
/// document, or nothing where the text is no TOML.
pub uninterp spec fn toml_tables(text: Seq<char>) -> Option<Tables>;

/// What the `java_properties` crate reads out of the bytes of a properties
/// file: which key has which value, or nothing where the bytes are no
/// properties file.
pub uninterp spec fn properties_in(bytes: Seq<u8>) -> Option<Map<Seq<char>, Seq<char>>>;

/// The lines of a table as plain values.
pub open spec fn table_lines_view(lines: Seq<TableLine>) -> Seq<(Seq<char>, Option<Seq<char>>)> {
    lines.map_values(
        |line: TableLine|
            (
                line.0@,
                match line.1 {
                    Some(text) => Some(text@),
                    None => None,
                },
            ),
    )
}

/// The entries of a document as plain values.
pub open spec fn tables_view(entries: Seq<TableEntry>) -> Tables {
    entries.map_values(
        |entry: TableEntry|
            (
                entry.0@,
                match entry.1 {
                    Some(lines) => Some(table_lines_view(lines@)),
                    None => None,
                },
            ),
    )
}

/// What the `java_properties` crate writes for one line of a properties
/// file: the bytes of the line with its end, or nothing where the line
/// cannot be written.
pub uninterp spec fn written_line(key: Seq<char>, value: Seq<char>) -> Option<Seq<u8>>;

/// Whether `lines` hold the entries of `map`, each once and nothing else.
pub open spec fn holds_exactly(lines: Lines, map: Map<Seq<char>, Seq<char>>) -> bool {
    &&& forall|i: int, j: int|
        0 <= i < j < lines.len() ==> (#[trigger] lines[i]).0 != (#[trigger] lines[j]).0
    &&& forall|i: int|
        0 <= i < lines.len() ==> map.contains_key((#[trigger] lines[i]).0) && map[lines[i].0]
            == lines[i].1
    &&& forall|key: Seq<char>| #[trigger]
        map.contains_key(key) ==> exists|i: int| 0 <= i < lines.len() && (#[trigger] lines[i]).0 == key
}

/// `toml::Value::from_str`, with the value that it gives taken apart: for
/// every key at the top of the document its table, and for every key of a
/// table its string; a value of another kind is left out and `None` stands
/// in its place. Claimed: whether the text is read, and what is read from
/// it, depend on the text alone.
#[verifier::external_body]
pub(crate) fn parse_tables(text: &str) -> (parsed: Result<Vec<TableEntry>, toml::de::Error>)
    ensures
        parsed is Ok <==> toml_tables(text@) is Some,
        parsed matches Ok(entries) ==> toml_tables(text@) == Some(tables_view(entries@)),
{
    let document = match text.parse::<toml::Value>()? {
        toml::Value::Table(files) => files,
        _ => toml::value::Table::new(),
    };
    Ok(document.into_iter().map(|(name, value)| (name, match value {
        toml::Value::Table(lines) => Some(lines.into_iter().map(|(key, value)| (key, match value {
            toml::Value::String(text) => Some(text),
            _ => None,
        })).collect()),
        _ => None,
    })).collect())
}

/// `Display` of `toml::de::Error`: the failure in words. Nothing is claimed
/// of the words.
#[verifier::external_body]
pub(crate) fn toml_error_text(error: &toml::de::Error) -> (text: String) {
    error.to_string()
}

/// `java_properties::read` on bytes in memory, with the map that it gives
/// laid out as lines. Claimed: whether the bytes are read, and which key
/// gets which value, depend on the bytes alone; the lines are the entries
/// of the map, each once, in no order that could be told.
#[verifier::external_body]
pub(crate) fn read_properties(bytes: &[u8]) -> (read: Result<
    Vec<(String, String)>,
    java_properties::PropertiesError,
>)
    ensures
        read is Ok <==> properties_in(bytes@) is Some,
        read matches Ok(lines) ==> holds_exactly(
            owned_lines_view(lines@),
            properties_in(bytes@)->0,
        ),
{
    Ok(java_properties::read(bytes)?.into_iter().collect())
}

/// `java_properties::PropertiesWriter::new` and `write`, into memory, for
/// one line. Claimed: whether the line is written, and the bytes that are
/// written for it, depend on the key and the value alone. A file that the
/// crate writes is made of such lines one after the other and of nothing
/// else.
#[verifier::external_body]
pub(crate) fn write_line(key: &str, value: &str) -> (written: Result<
    Vec<u8>,
    java_properties::PropertiesError,
>)
    ensures
        written is Ok <==> written_line(key@, value@) is Some,
        written matches Ok(bytes) ==> written_line(key@, value@) == Some(bytes@),
{
    let mut bytes = Vec::new();
    java_properties::PropertiesWriter::new(&mut bytes).write(key, value)?;
    Ok(bytes)
}

/// `Display` of `java_properties::PropertiesError`: the failure in words.
/// Nothing is claimed of the words.
#[verifier::external_body]
pub(crate) fn properties_error_text(error: &java_properties::PropertiesError) -> (text: String) {
    error.to_string()
}

/// Records as plain values.
pub open spec fn records_view(records: Seq<Vec<String>>) -> Seq<Seq<Seq<char>>> {
    records.map_values(|record: Vec<String>| record.deep_view())
}

/// `csv::Reader::from_reader` and `records` on bytes in memory, with the
/// default settings of the reader: the first record is the head and is not
/// handed out. Claimed: whether the bytes are read, and which cells are
/// read from them, depend on the bytes alone.
#[verifier::external_body]
pub(crate) fn read_csv(bytes: &[u8]) -> (read: Result<Vec<Vec<String>>, csv::Error>)
    ensures
        read is Ok <==> csv_rows(bytes@) is Some,
        read matches Ok(records) ==> csv_rows(bytes@) == Some(records_view(records@)),
{
    let mut reader = csv::Reader::from_reader(bytes);
    reader.records().map(
        |read| read.map(|record| record.iter().map(|cell| cell.to_owned()).collect()),
    ).collect()
}

/// `csv::Writer::from_writer`, `write_record` for every record and `flush`,
/// into memory, with the default settings of the writer. Claimed: whether
/// the records are written, and the bytes that are written for them, depend
/// on the records alone.
#[verifier::external_body]
pub(crate) fn write_csv(records: &Vec<Vec<String>>) -> (written: Result<Vec<u8>, csv::Error>)
    ensures
        written is Ok <==> csv_text(records_view(records@)) is Some,
        written matches Ok(bytes) ==> csv_text(records_view(records@)) == Some(bytes@),
{
    let mut bytes = Vec::new();
    {
        let mut writer = csv::Writer::from_writer(&mut bytes);
        for record in records {
            writer.write_record(record)?;
        }
        writer.flush()?;
    }
    Ok(bytes)
}

/// `Display` of `csv::Error`: the failure in words. Nothing is claimed of
/// the words.
#[verifier::external_body]
pub(crate) fn csv_error_text(error: &csv::Error) -> (text: String) {
    error.to_string()
}

/// `str::trim`: the text without the white space at its two ends.
#[verifier::external_body]
pub(crate) fn trim(text: &str) -> (kept: &str)
    ensures
        kept@ == trimmed_text(text@),
{
    text.trim()
}

} // verus!
