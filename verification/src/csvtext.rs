use vstd::prelude::*;
use crate::feed::row_views;
use crate::records::names;

verus! {

/// What `csv::Reader::from_reader(text).records()` yields, with the reader's
/// defaults (a header row, commas): the fields of each record after the
/// header, in order, up to the first record that fails, and the message of
/// that failure (its `Display`) if one fails.
pub uninterp spec fn csv_reading(text: Seq<u8>) -> (Seq<Seq<Seq<char>>>, Option<Seq<char>>);

/// The bytes that `csv::Writer::from_writer(Vec::new())`, with its defaults
/// (commas, `\n` terminators, quoting where needed), holds after
/// `write_record` of each of `rows` in order and `into_inner`.
pub uninterp spec fn csv_bytes(rows: Seq<Seq<Seq<char>>>) -> Seq<u8>;

/// Whether every row has as many fields as the first: `csv::Writer` refuses
/// a record whose length differs from the first record's.
pub open spec fn same_lengths(rows: Seq<Seq<Seq<char>>>) -> bool {
    forall|k: int| 0 <= k < rows.len() ==> #[trigger] rows[k].len() == rows[0].len()
}

/// The views of an optional text.
pub open spec fn message_view(m: Option<String>) -> Option<Seq<char>> {
    match m {
        Some(s) => Some(s@),
        None => None,
    }
}

/// `csv::Reader::from_reader(text).records()`: the fields of each record up
/// to the first error, and that error's message.
#[verifier::external_body]
fn read_records(text: &[u8]) -> (r: (Vec<Vec<String>>, Option<String>))
    ensures
        (row_views(r.0@), message_view(r.1)) == csv_reading(text@),
{
    let mut rdr = csv::Reader::from_reader(text);
    let mut rows: Vec<Vec<String>> = Vec::new();
    for result in rdr.records() {
        match result {
            Ok(record) => rows.push(record.iter().map(|f| f.to_string()).collect()),
            Err(e) => return (rows, Some(e.to_string())),
        }
    }
    (rows, None)
}

/// `csv::Writer::write_record` of each row into a `Vec<u8>`, then
/// `into_inner`: the CSV text, or `None` when a row's length differs from
/// the first row's (writing into memory cannot fail otherwise).
#[verifier::external_body]
fn write_records(rows: &Vec<Vec<String>>) -> (r: Option<Vec<u8>>)
    ensures
        r is Some <==> same_lengths(row_views(rows@)),
        r matches Some(b) ==> b@ == csv_bytes(row_views(rows@)),
{
    let mut wtr = csv::Writer::from_writer(Vec::new());
    for row in rows.iter() {
        if wtr.write_record(row).is_err() {
            return None;
        }
    }
    wtr.into_inner().ok()
}

/// The records of a CSV text and, if reading stopped on an error, its message.
pub struct CsvReading {
    pub records: Vec<Vec<String>>,
    pub error: Option<String>,
}

/// Reads the CSV text `text` as the CSV example does: every record after the
/// header row until the first error.
pub fn example(text: &[u8]) -> (r: CsvReading)
    ensures
        (row_views(r.records@), message_view(r.error)) == csv_reading(text@),
{
    let (records, error) = read_records(text);
    CsvReading { records, error }
}

/// The CSV text of a table: the header `cols`, then each row.
pub fn table_csv(cols: &Vec<&'static str>, rows: &Vec<Vec<String>>) -> (r: Vec<u8>)
    requires
        forall|k: int| 0 <= k < rows.len() ==> #[trigger] rows[k].len() == cols.len(),
    ensures
        r@ == csv_bytes(seq![names(cols@)] + row_views(rows@)),
{
    let mut all: Vec<Vec<String>> = Vec::new();
    let mut header: Vec<String> = Vec::new();
    let mut k: usize = 0;
    while k < cols.len()
        invariant
            k <= cols.len(),
            header.len() == k,
            forall|j: int| 0 <= j < k ==> #[trigger] header@[j]@ == cols@[j]@,
        decreases cols.len() - k,
    {
        header.push(String::from_str(cols[k]));
        k = k + 1;
    }
    assert(header@.map_values(|w: String| w@) =~= names(cols@));
    all.push(header);
    let mut i: usize = 0;
    while i < rows.len()
        invariant
            i <= rows.len(),
            forall|k: int| 0 <= k < rows.len() ==> #[trigger] rows[k].len() == cols.len(),
            row_views(all@) == seq![names(cols@)] + row_views(rows@).take(i as int),
        decreases rows.len() - i,
    {
        let ghost before = all@;
        all.push(rows[i].clone());
        assert(row_views(all@) =~= row_views(before).push(row_views(rows@)[i as int]));
        assert(row_views(rows@).take(i + 1) =~= row_views(rows@).take(i as int).push(
            row_views(rows@)[i as int],
        ));
        i = i + 1;
    }
    assert(row_views(rows@).take(rows.len() as int) =~= row_views(rows@));
    let ghost table = row_views(all@);
    assert(same_lengths(table)) by {
        assert forall|k: int| 0 <= k < table.len() implies #[trigger] table[k].len()
            == table[0].len() by {
            assert(table[0] == names(cols@));
            if k > 0 {
                assert(table[k] == row_views(rows@)[k - 1]);
                assert(rows@[k - 1].len() == cols.len());
            }
        }
    }
    match write_records(&all) {
        Some(b) => b,
        None => {
            assert(false);
            Vec::new()
        },
    }
}

} // verus!
