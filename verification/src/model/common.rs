//! Reading rows of text: what a CSV text holds, and numbers written in it.

use vstd::prelude::*;
use crate::util::errors_v2::ErrorV2;

verus! {

/// A row as it was read: its fields, or what is wrong with it.
pub type Row = Result<Vec<String>, String>;

/// Something that can be made from the fields of a row.
pub trait FromStringRecord {
    type Output;

    fn from_string_record(record: Vec<String>) -> Result<Self::Output, ErrorV2>;
}

/// What a row says, without regard to where it is kept.
pub open spec fn row_view(row: Row) -> Result<Seq<Seq<char>>, Seq<char>> {
    match row {
        Ok(fields) => Ok(fields@.map_values(|f: String| f@)),
        Err(problem) => Err(problem@),
    }
}

/// What rows say.
pub open spec fn rows_view(rows: Seq<Row>) -> Seq<Result<Seq<Seq<char>>, Seq<char>>> {
    rows.map_values(|row: Row| row_view(row))
}

/// The rows of a CSV text after its header row, in order: for each row
/// its fields, or the message of what is wrong with it.
pub uninterp spec fn csv_rows(text: Seq<u8>) -> Seq<Result<Seq<Seq<char>>, Seq<char>>>;

/// `Reader::from_reader` and `Reader::records` of the crate csv: the text
/// is read with a header row, and every row that comes after it is handed
/// out, a row that cannot be read as the message of its error. What comes
/// back is named `csv_rows`; nothing more is claimed of it.
#[verifier::external_body]
fn read_csv(sv_text: &[u8]) -> (rows: Vec<Row>)
    ensures
        rows_view(rows@) == csv_rows(sv_text@),
{
    csv::Reader::from_reader(sv_text).records().map(
        |row| match row {
            Ok(record) => Ok(record.iter().map(|field| field.to_string()).collect()),
            Err(problem) => Err(problem.to_string()),
        },
    ).collect()
}

/// How many rows stand before the first that cannot be read.
pub open spec fn readable_rows(rows: Seq<Result<Seq<Seq<char>>, Seq<char>>>) -> int
    decreases rows.len(),
{
    if rows.len() == 0 || rows[0] is Err {
        0
    } else {
        1 + readable_rows(rows.skip(1))
    }
}

/// The rows of a text as far as they can be read, and what is wrong with
/// the first that cannot.
pub struct ReadRows {
    pub rows: Vec<Vec<String>>,
    pub problem: Option<String>,
}

/// A list with the same fields.
pub fn copy_fields(fields: &Vec<String>) -> (copy: Vec<String>)
    ensures
        copy@ == fields@,
{
    let mut copy: Vec<String> = Vec::new();
    let mut i: usize = 0;
    while i < fields.len()
        invariant
            i <= fields.len(),
            copy@ == fields@.take(i as int),
        decreases fields.len() - i,
    {
        copy.push(fields[i].clone());
        proof {
            assert(fields@.take(i + 1) =~= fields@.take(i as int).push(fields@[i as int]));
        }
        i += 1;
    }
    proof {
        assert(fields@.take(fields.len() as int) =~= fields@);
    }
    copy
}

/// The rows before the first that cannot be read, and what is wrong with
/// that one.
pub fn leading_rows(rows: &Vec<Row>) -> (read: ReadRows)
    ensures
        read.rows@.len() == readable_rows(rows_view(rows@)),
        forall|i: int|
            0 <= i < read.rows@.len() ==> Ok::<Seq<Seq<char>>, Seq<char>>(
                (#[trigger] read.rows@[i])@.map_values(|f: String| f@),
            ) == rows_view(rows@)[i],
        match read.problem {
            Some(problem) => read.rows@.len() < rows@.len() && rows_view(rows@)[read.rows@.len() as int]
                == Err::<Seq<Seq<char>>, Seq<char>>(problem@),
            None => read.rows@.len() == rows@.len(),
        },
{
    let ghost all = rows_view(rows@);
    let mut taken: Vec<Vec<String>> = Vec::new();
    let mut i: usize = 0;
    proof {
        assert(all.skip(0) =~= all);
    }
    while i < rows.len()
        invariant
            i <= rows.len(),
            all == rows_view(rows@),
            taken@.len() == i,
            readable_rows(all) == i + readable_rows(all.skip(i as int)),
            forall|k: int|
                0 <= k < taken@.len() ==> Ok::<Seq<Seq<char>>, Seq<char>>(
                    (#[trigger] taken@[k])@.map_values(|f: String| f@),
                ) == all[k],
        decreases rows.len() - i,
    {
        proof {
            assert(all.skip(i as int)[0] == all[i as int]);
            assert(all.skip(i as int).skip(1) =~= all.skip(i + 1));
            assert(all[i as int] == row_view(rows@[i as int]));
        }
        match &rows[i] {
            Ok(fields) => {
                taken.push(copy_fields(fields));
            },
            Err(problem) => {
                return ReadRows { rows: taken, problem: Some(problem.clone()) };
            },
        }
        i += 1;
    }
    ReadRows { rows: taken, problem: None }
}

/// The rows of a CSV text after its header row, as far as they can be
/// read, and what is wrong with the first that cannot.
pub fn read_rows(sv_text: &[u8]) -> (read: ReadRows)
    ensures
        read.rows@.len() == readable_rows(csv_rows(sv_text@)),
        forall|i: int|
            0 <= i < read.rows@.len() ==> Ok::<Seq<Seq<char>>, Seq<char>>(
                (#[trigger] read.rows@[i])@.map_values(|f: String| f@),
            ) == csv_rows(sv_text@)[i],
        match read.problem {
            Some(problem) => read.rows@.len() < csv_rows(sv_text@).len() && csv_rows(
                sv_text@,
            )[read.rows@.len() as int] == Err::<Seq<Seq<char>>, Seq<char>>(problem@),
            None => read.rows@.len() == csv_rows(sv_text@).len(),
        },
{
    let rows = read_csv(sv_text);
    leading_rows(&rows)
}

} // verus!
