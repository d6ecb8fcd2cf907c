//! CSV records, as the `csv` crate writes them.

use vstd::prelude::*;

verus! {

/// The texts of a list of strings.
pub open spec fn texts(strings: Seq<String>) -> Seq<Seq<char>> {
    strings.map_values(|s: String| s@)
}

/// The line that the `csv` crate writes for a record with the given fields,
/// under its default settings: the fields with commas between, each quoted
/// where it has to be, and a line feed at the end.
pub uninterp spec fn csv_record_text(fields: Seq<Seq<char>>) -> Seq<char>;

/// `Writer::write_record` of `csv`, on a writer of its own with the default
/// settings that writes to memory: the line for one record. The contract
/// gives the line a name. It also says that the call succeeds: the writer
/// fails only where what it writes to fails, or where a record has another
/// number of fields than the first one, and here it writes to memory and the
/// record is its first.
#[verifier::external_body]
pub(crate) fn write_record(fields: &Vec<String>) -> (line: String)
    ensures
        line@ == csv_record_text(texts(fields@)),
{
    let mut writer = csv::WriterBuilder::new().from_writer(Vec::new());
    writer.write_record(fields).unwrap();
    String::from_utf8(writer.into_inner().unwrap()).unwrap()
}

} // verus!
