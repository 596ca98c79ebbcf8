//! The durable form of the registry: a table whose first row names the five
//! columns and whose other rows hold one record each.

use vstd::prelude::*;
use crate::calendar::{Calendar, CalendarView};
use crate::codec::{csv_line, csv_rows, read_records, write_record};
use crate::records::put_all;

verus! {

/// The row that names the columns.
pub open spec fn header_row() -> Seq<Seq<char>> {
    seq!["id"@, "name"@, "color"@, "source_url"@, "enabled"@]
}

/// How a flag is written.
pub open spec fn flag_text(flag: bool) -> Seq<char> {
    if flag {
        "true"@
    } else {
        "false"@
    }
}

/// The flag that a field stands for: `true` and `false` are the only
/// tokens.
pub open spec fn flag_of(text: Seq<char>) -> Option<bool> {
    if text == "true"@ {
        Some(true)
    } else if text == "false"@ {
        Some(false)
    } else {
        None
    }
}

/// The row of a record.
pub open spec fn row_of(c: CalendarView) -> Seq<Seq<char>> {
    seq![c.id, c.name, c.color, c.source_url, flag_text(c.enabled)]
}

/// The record of a row: the row has five fields, the last of them a flag.
pub open spec fn record_of(row: Seq<Seq<char>>) -> Option<CalendarView> {
    if row.len() == 5 && flag_of(row[4]) is Some {
        Some(
            CalendarView {
                id: row[0],
                name: row[1],
                color: row[2],
                source_url: row[3],
                enabled: flag_of(row[4]).unwrap(),
            },
        )
    } else {
        None
    }
}

/// The table of a registry: the header, then the rows of its records.
pub open spec fn table_of(s: Seq<CalendarView>) -> Seq<Seq<Seq<char>>> {
    Seq::new(
        s.len() + 1,
        |i: int|
            if i == 0 {
                header_row()
            } else {
                row_of(s[i - 1])
            },
    )
}

/// Each row of `rows` is the row of a record.
pub open spec fn all_records(rows: Seq<Seq<Seq<char>>>) -> bool {
    forall|i: int| 0 <= i < rows.len() ==> record_of(#[trigger] rows[i]) is Some
}

/// The records of `rows`, row by row.
pub open spec fn each_record(rows: Seq<Seq<Seq<char>>>) -> Seq<CalendarView> {
    Seq::new(rows.len(), |i: int| record_of(rows[i]).unwrap())
}

/// The registry that a table stands for. A table without any row stands
/// for the empty registry. Any other starts with the header, and each
/// further row is a record; a record whose id came before takes the place
/// of the earlier one. No other table stands for a registry.
pub open spec fn records_of(rows: Seq<Seq<Seq<char>>>) -> Option<Seq<CalendarView>> {
    if rows.len() == 0 {
        Some(Seq::empty())
    } else if rows[0] == header_row() && all_records(rows.skip(1)) {
        Some(put_all(Seq::empty(), each_record(rows.skip(1))))
    } else {
        None
    }
}

/// The text of a table: the lines of its rows, one after the other, where
/// each row can be written.
pub open spec fn csv_text(rows: Seq<Seq<Seq<char>>>) -> Option<Seq<u8>>
    decreases rows.len(),
{
    if rows.len() == 0 {
        Some(Seq::empty())
    } else {
        match (csv_text(rows.drop_last()), csv_line(rows.last())) {
            (Some(before), Some(line)) => Some(before + line),
            _ => None,
        }
    }
}

/// The text of a table, where that text exists and is read back as the
/// same table.
pub open spec fn confirmed(rows: Seq<Seq<Seq<char>>>) -> Option<Seq<u8>> {
    match csv_text(rows) {
        Some(text) => if csv_rows(text) == Some(rows) {
            Some(text)
        } else {
            None
        },
        None => None,
    }
}

/// The durable text of a registry: the confirmed text of its table.
pub open spec fn rendered(s: Seq<CalendarView>) -> Option<Seq<u8>> {
    confirmed(table_of(s))
}

/// The registry that a durable text stands for.
pub open spec fn loaded(text: Seq<u8>) -> Option<Seq<CalendarView>> {
    match csv_rows(text) {
        Some(rows) => records_of(rows),
        None => None,
    }
}

/// The header as a row of fields.
pub fn header_fields() -> (row: Vec<String>)
    ensures
        row.deep_view() == header_row(),
{
    let mut row: Vec<String> = Vec::new();
    row.push("id".to_owned());
    row.push("name".to_owned());
    row.push("color".to_owned());
    row.push("source_url".to_owned());
    row.push("enabled".to_owned());
    assert(row.deep_view() =~= header_row());
    row
}

/// A flag as a field.
pub fn flag_field(flag: bool) -> (text: String)
    ensures
        text@ == flag_text(flag),
{
    if flag {
        "true".to_owned()
    } else {
        "false".to_owned()
    }
}

/// Reads a field as a flag.
pub fn parse_flag(text: &String) -> (flag: Option<bool>)
    ensures
        flag == flag_of(text@),
{
    let yes = "true".to_owned();
    let no = "false".to_owned();
    if *text == yes {
        Some(true)
    } else if *text == no {
        Some(false)
    } else {
        None
    }
}

/// A record as a row of fields.
pub fn fields_of(c: &Calendar) -> (row: Vec<String>)
    ensures
        row.deep_view() == row_of(c@),
{
    let mut row: Vec<String> = Vec::new();
    row.push(c.id.clone());
    row.push(c.name.clone());
    row.push(c.color.clone());
    row.push(c.source_url.clone());
    row.push(flag_field(c.enabled));
    assert(row.deep_view() =~= row_of(c@));
    row
}

/// Reads a row of fields as a record.
pub fn calendar_of(row: &Vec<String>) -> (c: Option<Calendar>)
    ensures
        match c {
            Some(c) => record_of(row.deep_view()) == Some(c@),
            None => record_of(row.deep_view()) is None,
        },
{
    if row.len() != 5 {
        return None;
    }
    assert(row.deep_view()[4] == row[4]@);
    match parse_flag(&row[4]) {
        Some(enabled) => {
            assert(row.deep_view()[0] == row[0]@);
            assert(row.deep_view()[1] == row[1]@);
            assert(row.deep_view()[2] == row[2]@);
            assert(row.deep_view()[3] == row[3]@);
            Some(
                Calendar {
                    id: row[0].clone(),
                    name: row[1].clone(),
                    color: row[2].clone(),
                    source_url: row[3].clone(),
                    enabled,
                },
            )
        },
        None => None,
    }
}

/// Whether two rows hold the same fields.
pub fn same_row(a: &Vec<String>, b: &Vec<String>) -> (same: bool)
    ensures
        same == (a.deep_view() == b.deep_view()),
{
    if a.len() != b.len() {
        assert(a.deep_view().len() != b.deep_view().len());
        return false;
    }
    let mut i: usize = 0;
    while i < a.len()
        invariant
            a.len() == b.len(),
            i <= a.len(),
            forall|k: int| 0 <= k < i ==> a[k]@ == b[k]@,
        decreases a.len() - i,
    {
        if !(a[i] == b[i]) {
            assert(a.deep_view()[i as int] != b.deep_view()[i as int]);
            return false;
        }
        i += 1;
    }
    assert(a.deep_view() =~= b.deep_view());
    true
}

/// Whether two tables hold the same rows.
pub fn same_rows(a: &Vec<Vec<String>>, b: &Vec<Vec<String>>) -> (same: bool)
    ensures
        same == (a.deep_view() == b.deep_view()),
{
    if a.len() != b.len() {
        assert(a.deep_view().len() != b.deep_view().len());
        return false;
    }
    let mut i: usize = 0;
    while i < a.len()
        invariant
            a.len() == b.len(),
            i <= a.len(),
            forall|k: int| 0 <= k < i ==> a[k].deep_view() == b[k].deep_view(),
        decreases a.len() - i,
    {
        if !same_row(&a[i], &b[i]) {
            assert(a.deep_view()[i as int] != b.deep_view()[i as int]);
            return false;
        }
        i += 1;
    }
    assert(a.deep_view() =~= b.deep_view());
    true
}

/// Where the text of the first rows of a table does not exist, neither
/// does the text of the table.
pub proof fn lemma_csv_text_of_prefix(rows: Seq<Seq<Seq<char>>>, n: int)
    requires
        0 <= n <= rows.len(),
        csv_text(rows.take(n)) is None,
    ensures
        csv_text(rows) is None,
    decreases rows.len() - n,
{
    if n < rows.len() {
        assert(rows.take(n + 1).drop_last() =~= rows.take(n));
        lemma_csv_text_of_prefix(rows, n + 1);
    } else {
        assert(rows.take(n) =~= rows);
    }
}

/// Writes a table as text, row by row.
pub fn text_of_rows(rows: &Vec<Vec<String>>) -> (text: Option<Vec<u8>>)
    ensures
        match text {
            Some(t) => csv_text(rows.deep_view()) == Some(t@),
            None => csv_text(rows.deep_view()) is None,
        },
{
    let ghost all = rows.deep_view();
    let mut out: Vec<u8> = Vec::new();
    let mut i: usize = 0;
    assert(all.take(0) =~= Seq::empty());
    while i < rows.len()
        invariant
            all == rows.deep_view(),
            i <= rows.len(),
            csv_text(all.take(i as int)) == Some(out@),
        decreases rows.len() - i,
    {
        proof {
            assert(all.take(i + 1).drop_last() =~= all.take(i as int));
            assert(all.take(i + 1).last() == rows[i as int].deep_view());
        }
        match write_record(&rows[i]) {
            Ok(mut line) => {
                out.append(&mut line);
            },
            Err(_) => {
                proof {
                    lemma_csv_text_of_prefix(all, i + 1);
                }
                return None;
            },
        }
        i += 1;
    }
    assert(all.take(rows.len() as int) =~= all);
    Some(out)
}

/// Writes a table as text and hands the text out only where it is read
/// back as the same table.
pub fn confirmed_text(rows: &Vec<Vec<String>>) -> (text: Option<Vec<u8>>)
    ensures
        match text {
            Some(t) => confirmed(rows.deep_view()) == Some(t@),
            None => confirmed(rows.deep_view()) is None,
        },
{
    match text_of_rows(rows) {
        Some(text) => match read_records(&text) {
            Ok(found) => if same_rows(&found, rows) {
                Some(text)
            } else {
                None
            },
            Err(_) => None,
        },
        None => None,
    }
}

} // verus!
