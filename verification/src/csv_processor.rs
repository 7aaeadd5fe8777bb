//! A CSV file of orders in, the same file with three report columns out.
use vstd::prelude::*;

use crate::calc::{calculate_order, calculate_order_spec};
use crate::headers::{documented_header, norm_header, ColumnIndexes, HeaderKind};
use crate::table::{
    blank_row, cell, find_header_from, find_header_in, is_blank_row, row_order, row_order_spec,
    row_view, table_view,
};
use crate::text::{digits_of, nat_digits, owned, string_of};

verus! {

// ---------------------------------------------------------------------------
// The `csv` crate
// ---------------------------------------------------------------------------

/// What the `csv` crate reads from `input` when it treats no row as a header,
/// uses `delimiter` and lets rows differ in length: the fields of every
/// record, or the text of the first error.
pub uninterp spec fn csv_records(input: Seq<u8>, delimiter: u8) -> Result<
    Seq<Seq<Seq<char>>>,
    Seq<char>,
>;

/// Reads every record with `csv::ReaderBuilder` (no header row, the given
/// delimiter, flexible rows) and `Reader::records`; the records are named by
/// `csv_records`, an error by its text.
#[verifier::external_body]
pub(crate) fn read_csv(input: &[u8], delimiter: u8) -> (r: Result<Vec<Vec<String>>, String>)
    ensures
        match r {
            Ok(rows) => csv_records(input@, delimiter) == Ok::<
                Seq<Seq<Seq<char>>>,
                Seq<char>,
            >(table_view(rows@)),
            Err(e) => csv_records(input@, delimiter) == Err::<Seq<Seq<Seq<char>>>, Seq<char>>(
                e@,
            ),
        },
{
    let mut reader = csv::ReaderBuilder::new().has_headers(false).delimiter(delimiter).flexible(
        true,
    ).from_reader(input);
    let mut rows = Vec::new();
    for record in reader.records() {
        match record {
            Ok(record) => rows.push(record.iter().map(ToOwned::to_owned).collect()),
            Err(error) => return Err(error.to_string()),
        }
    }
    Ok(rows)
}

/// The bytes that the `csv` crate writes for a header record followed by
/// rows with the given delimiter, or the text of its error.
pub uninterp spec fn csv_written(
    headers: Seq<Seq<char>>,
    rows: Seq<Seq<Seq<char>>>,
    delimiter: u8,
) -> Result<Seq<u8>, Seq<char>>;

/// Writes the records with `csv::WriterBuilder` (the given delimiter) into a
/// `Vec<u8>` and takes it back with `Writer::into_inner`; the bytes are named
/// by `csv_written`, an error by its text.
#[verifier::external_body]
pub(crate) fn write_csv(headers: &Vec<String>, rows: &Vec<Vec<String>>, delimiter: u8) -> (r: Result<
    Vec<u8>,
    String,
>)
    ensures
        match r {
            Ok(b) => csv_written(row_view(*headers), table_view(rows@), delimiter) == Ok::<
                Seq<u8>,
                Seq<char>,
            >(b@),
            Err(e) => csv_written(row_view(*headers), table_view(rows@), delimiter) == Err::<
                Seq<u8>,
                Seq<char>,
            >(e@),
        },
{
    let mut writer = csv::WriterBuilder::new().delimiter(delimiter).from_writer(Vec::new());
    if let Err(error) = writer.write_record(headers) {
        return Err(error.to_string());
    }
    for row in rows {
        if let Err(error) = writer.write_record(row) {
            return Err(error.to_string());
        }
    }
    match writer.into_inner() {
        Ok(bytes) => Ok(bytes),
        Err(error) => Err(error.to_string()),
    }
}

// ---------------------------------------------------------------------------
// The delimiter
// ---------------------------------------------------------------------------

/// How often `d` occurs in the first `n` lines of `s`.
pub open spec fn count_in_lines(s: Seq<u8>, d: u8, n: nat) -> nat
    decreases s.len(),
{
    if s.len() == 0 || n == 0 {
        0
    } else if s[0] == 10 {
        count_in_lines(s.drop_first(), d, (n - 1) as nat)
    } else {
        (if s[0] == d {
            1nat
        } else {
            0nat
        }) + count_in_lines(s.drop_first(), d, n)
    }
}

/// The delimiter that occurs most often in the first ten lines: `,` unless
/// `;` or a tab occurs more often (the earlier one wins a tie).
pub open spec fn detect_spec(input: Seq<u8>) -> u8 {
    let c1 = count_in_lines(input, 44, 10);
    let c2 = count_in_lines(input, 59, 10);
    let c3 = count_in_lines(input, 9, 10);
    let (b2, n2) = if c2 > c1 {
        (59u8, c2)
    } else {
        (44u8, c1)
    };
    if c3 > n2 {
        9u8
    } else {
        b2
    }
}

fn count_delimiter(input: &[u8], d: u8) -> (r: usize)
    ensures
        r == count_in_lines(input@, d, 10),
{
    let mut total: usize = 0;
    let mut lines_left: usize = 10;
    let mut i: usize = 0;
    assert(input@.skip(0) =~= input@);
    while i < input.len() && lines_left > 0
        invariant
            i <= input.len(),
            lines_left <= 10,
            total <= i,
            count_in_lines(input@, d, 10) == total + count_in_lines(
                input@.skip(i as int),
                d,
                lines_left as nat,
            ),
        decreases input.len() - i,
    {
        assert(input@.skip(i as int).drop_first() =~= input@.skip(i + 1));
        if input[i] == 10 {
            lines_left = lines_left - 1;
        } else if input[i] == d {
            total = total + 1;
        }
        i = i + 1;
    }
    total
}

/// Picks the delimiter of a CSV file. The bytes are read directly: the `,`,
/// `;`, tab and newline bytes of a file are the same as those of its lossy
/// UTF-8 text.
pub fn detect_delimiter(input: &[u8]) -> (r: u8)
    ensures
        r == detect_spec(input@),
{
    let c1 = count_delimiter(input, 44u8);
    let c2 = count_delimiter(input, 59u8);
    let c3 = count_delimiter(input, 9u8);
    let mut best: (u8, usize) = (44u8, c1);
    if c2 > best.1 {
        best = (59u8, c2);
    }
    if c3 > best.1 {
        best = (9u8, c3);
    }
    best.0
}

// ---------------------------------------------------------------------------
// Rows
// ---------------------------------------------------------------------------

/// The length that a data row comes to, or its error.
pub open spec fn row_outcome(row: Seq<Seq<char>>, cols: ColumnIndexes) -> Result<u128, Seq<char>> {
    match row_order_spec(row, cols) {
        Err(e) => Err(e),
        Ok(o) => match calculate_order_spec(o) {
            Ok(r) => Ok(r.rounded_length),
            Err(e) => Err(e),
        },
    }
}

pub fn calculate_csv_row(row: &Vec<String>, cols: ColumnIndexes) -> (r: Result<u128, String>)
    ensures
        match (r, row_outcome(row_view(*row), cols)) {
            (Ok(a), Ok(b)) => a == b,
            (Err(a), Err(b)) => a@ == b,
            _ => false,
        },
{
    let order = match row_order(row, cols) {
        Ok(o) => o,
        Err(e) => {
            return Err(e);
        },
    };
    match calculate_order(&order) {
        Ok(r) => Ok(r.rounded_length),
        Err(e) => Err(e),
    }
}

/// The row cut or padded with empty cells to `n` cells.
pub open spec fn resized(row: Seq<Seq<char>>, n: nat) -> Seq<Seq<char>> {
    Seq::new(n, |i: int| cell(row, i))
}

/// The three report cells: the length, `OK` and nothing, or nothing, `XATO`
/// and the error.
pub open spec fn report_cells(outcome: Result<u128, Seq<char>>) -> Seq<Seq<char>> {
    match outcome {
        Ok(l) => seq![nat_digits(l as nat), "OK"@, Seq::<char>::empty()],
        Err(m) => seq![Seq::<char>::empty(), "XATO"@, m],
    }
}

/// The report rows for the data rows; blank rows are left out.
pub open spec fn csv_output_rows(rows: Seq<Seq<Seq<char>>>, n: nat, cols: ColumnIndexes) -> Seq<
    Seq<Seq<char>>,
>
    decreases rows.len(),
{
    if rows.len() == 0 {
        Seq::empty()
    } else {
        let p = csv_output_rows(rows.drop_last(), n, cols);
        let r = rows.last();
        if blank_row(r) {
            p
        } else {
            p.push(resized(r, n) + report_cells(row_outcome(r, cols)))
        }
    }
}

/// How many data rows come to a length.
pub open spec fn ok_rows(rows: Seq<Seq<Seq<char>>>, cols: ColumnIndexes) -> nat
    decreases rows.len(),
{
    if rows.len() == 0 {
        0
    } else {
        ok_rows(rows.drop_last(), cols) + if !blank_row(rows.last()) && row_outcome(
            rows.last(),
            cols,
        ) is Ok {
            1nat
        } else {
            0nat
        }
    }
}

/// How many data rows end in an error.
pub open spec fn error_rows(rows: Seq<Seq<Seq<char>>>, cols: ColumnIndexes) -> nat
    decreases rows.len(),
{
    if rows.len() == 0 {
        0
    } else {
        error_rows(rows.drop_last(), cols) + if !blank_row(rows.last()) && row_outcome(
            rows.last(),
            cols,
        ) is Err {
            1nat
        } else {
            0nat
        }
    }
}

pub open spec fn missing_columns_error() -> Seq<char> {
    "kerakli ustunlar topilmadi: KG, RAZMER, 1 QAVAT, 1 MIKRON, 2 QAVAT, 2 MIKRON"@
}

pub open spec fn report_headers() -> Seq<Seq<char>> {
    seq!["HISOBLANGAN_UZUNLIK"@, "STATUS"@, "XATO"@]
}

/// A table with its report columns.
pub struct CsvTable {
    pub headers: Vec<String>,
    pub rows: Vec<Vec<String>>,
    pub ok_count: usize,
    pub error_count: usize,
}

/// What the report table of a CSV file is: the header row (found among the
/// first 30 rows) with the report headers, then a report row for every data
/// row below it that is not blank.
pub open spec fn csv_table_spec(rows: Seq<Seq<Seq<char>>>) -> Result<
    (Seq<Seq<char>>, Seq<Seq<Seq<char>>>, nat, nat),
    Seq<char>,
> {
    match find_header_from(rows, false, 30, 0) {
        None => Err(missing_columns_error()),
        Some((h, cols)) => {
            let data = rows.skip(h + 1);
            let n = rows[h].len();
            Ok(
                (
                    rows[h] + report_headers(),
                    csv_output_rows(data, n, cols),
                    ok_rows(data, cols),
                    error_rows(data, cols),
                ),
            )
        },
    }
}

pub open spec fn csv_table_matches(t: CsvTable, s: (Seq<Seq<char>>, Seq<Seq<Seq<char>>>, nat, nat)) -> bool {
    &&& row_view(t.headers) == s.0
    &&& table_view(t.rows@) == s.1
    &&& t.ok_count == s.2
    &&& t.error_count == s.3
}

proof fn lemma_find_header_bounded(rows: Seq<Seq<Seq<char>>>, limit: int, i: int)
    ensures
        find_header_from(rows, false, limit, i) matches Some((h, _)) ==> 0 <= h < rows.len(),
    decreases limit - i,
{
    if 0 <= i < limit && i < rows.len() {
        lemma_find_header_bounded(rows, limit, i + 1);
    }
}

fn resize_row(row: &Vec<String>, n: usize) -> (r: Vec<String>)
    ensures
        row_view(r) == resized(row_view(*row), n as nat),
{
    let mut r: Vec<String> = Vec::new();
    let mut i: usize = 0;
    while i < n
        invariant
            i <= n,
            r.len() == i,
            forall|k: int| 0 <= k < i ==> #[trigger] r@[k]@ == cell(row_view(*row), k),
        decreases n - i,
    {
        if i < row.len() {
            r.push(row[i].clone());
        } else {
            r.push(String::new());
        }
        i = i + 1;
    }
    assert(row_view(r) =~= resized(row_view(*row), n as nat));
    r
}

/// A data row with its report cells.
fn report_row(row: &Vec<String>, n: usize, cols: ColumnIndexes) -> (r: (Vec<String>, bool))
    requires
        !blank_row(row_view(*row)),
    ensures
        row_view(r.0) == resized(row_view(*row), n as nat) + report_cells(
            row_outcome(row_view(*row), cols),
        ),
        r.1 == row_outcome(row_view(*row), cols) is Ok,
{
    let mut out = resize_row(row, n);
    let ghost base = row_view(out);
    let ok = match calculate_csv_row(row, cols) {
        Ok(length) => {
            out.push(string_of(&digits_of(length)));
            out.push(owned("OK"));
            out.push(String::new());
            true
        },
        Err(message) => {
            out.push(String::new());
            out.push(owned("XATO"));
            out.push(message);
            false
        },
    };
    assert(row_view(out) =~= base + report_cells(row_outcome(row_view(*row), cols)));
    (out, ok)
}

/// Adds the report columns to the rows of a CSV file.
pub fn process_csv_rows(rows: &Vec<Vec<String>>) -> (r: Result<CsvTable, String>)
    ensures
        match (r, csv_table_spec(table_view(rows@))) {
            (Ok(t), Ok(s)) => csv_table_matches(t, s),
            (Err(a), Err(b)) => a@ == b,
            _ => false,
        },
        r matches Ok(t) ==> t.ok_count + t.error_count <= rows.len(),
{
    let ghost tv = table_view(rows@);
    proof {
        lemma_find_header_bounded(tv, 30, 0);
    }
    let (header_index, cols) = match find_header_in(rows, false, 30) {
        Some(p) => p,
        None => {
            return Err(owned(
                "kerakli ustunlar topilmadi: KG, RAZMER, 1 QAVAT, 1 MIKRON, 2 QAVAT, 2 MIKRON",
            ));
        },
    };
    assert(header_index < rows.len());
    assert(tv[header_index as int] == row_view(rows@[header_index as int]));
    let mut headers = rows[header_index].clone();
    let n = headers.len();
    let ghost hv = row_view(headers);
    assert(hv =~= tv[header_index as int]);
    headers.push(owned("HISOBLANGAN_UZUNLIK"));
    headers.push(owned("STATUS"));
    headers.push(owned("XATO"));
    assert(row_view(headers) =~= hv + report_headers());
    let ghost data = tv.skip(header_index + 1);
    let mut out: Vec<Vec<String>> = Vec::new();
    let mut ok_count: usize = 0;
    let mut error_count: usize = 0;
    let mut i = header_index + 1;
    while i < rows.len()
        invariant
            header_index < i <= rows.len(),
            tv == table_view(rows@),
            data == tv.skip(header_index + 1),
            table_view(out@) == csv_output_rows(data.take(i - header_index - 1), n as nat, cols),
            ok_count == ok_rows(data.take(i - header_index - 1), cols),
            error_count == error_rows(data.take(i - header_index - 1), cols),
            ok_count + error_count <= i,
        decreases rows.len() - i,
    {
        let ghost k = i - header_index - 1;
        let ghost pre = data.take(k);
        assert(data.take(k + 1).drop_last() =~= pre);
        assert(data.take(k + 1).last() == row_view(rows@[i as int]));
        if !is_blank_row(&rows[i]) {
            let (row, ok) = report_row(&rows[i], n, cols);
            if ok {
                ok_count = ok_count + 1;
            } else {
                error_count = error_count + 1;
            }
            let ghost before = table_view(out@);
            out.push(row);
            assert(table_view(out@) =~= before.push(row_view(row)));
        }
        i = i + 1;
    }
    assert(data.take(i - header_index - 1) =~= data);
    Ok(CsvTable { headers, rows: out, ok_count, error_count })
}

/// What `process_csv` reports.
#[derive(Debug)]
pub struct CsvProcessReport {
    pub output: Vec<u8>,
    pub processed_count: usize,
    pub ok_count: usize,
    pub error_count: usize,
}

/// Reads a CSV file of orders, computes every data row and writes the file
/// back with the delimiter it came with and three report columns added.
pub fn process_csv(input: &[u8]) -> (r: Result<CsvProcessReport, String>)
    ensures
        ({
            let d = detect_spec(input@);
            match csv_records(input@, d) {
                Err(e) => r matches Err(m) && m@ == e,
                Ok(rows) => match csv_table_spec(rows) {
                    Err(e) => r matches Err(m) && m@ == e,
                    Ok((h, out, ok, err)) => match csv_written(h, out, d) {
                        Err(e) => r matches Err(m) && m@ == e,
                        Ok(bytes) => r matches Ok(rep) && rep.output@ == bytes && rep.ok_count
                            == ok && rep.error_count == err && rep.processed_count == ok + err,
                    },
                },
            }
        }),
{
    let delimiter = detect_delimiter(input);
    let rows = read_csv(input, delimiter)?;
    let table = process_csv_rows(&rows)?;
    let output = write_csv(&table.headers, &table.rows, delimiter)?;
    Ok(
        CsvProcessReport {
            output,
            processed_count: table.ok_count + table.error_count,
            ok_count: table.ok_count,
            error_count: table.error_count,
        },
    )
}

/// Every report row of a CSV file has the header row's length plus the three
/// report cells, its status cell says `OK` or `XATO`, and there is one
/// report row for every data row that came to a length or to an error.
pub proof fn lemma_csv_report_shape(rows: Seq<Seq<Seq<char>>>, n: nat, cols: ColumnIndexes)
    ensures
        csv_output_rows(rows, n, cols).len() == ok_rows(rows, cols) + error_rows(rows, cols),
        forall|k: int|
            0 <= k < csv_output_rows(rows, n, cols).len() ==> {
                &&& (#[trigger] csv_output_rows(rows, n, cols)[k]).len() == n + 3
                &&& (csv_output_rows(rows, n, cols)[k][n + 1int] == "OK"@
                    || csv_output_rows(rows, n, cols)[k][n + 1int] == "XATO"@)
            },
    decreases rows.len(),
{
    if rows.len() > 0 {
        lemma_csv_report_shape(rows.drop_last(), n, cols);
        let p = csv_output_rows(rows.drop_last(), n, cols);
        let out = csv_output_rows(rows, n, cols);
        let r = rows.last();
        if !blank_row(r) {
            let last = resized(r, n) + report_cells(row_outcome(r, cols));
            assert(out == p.push(last));
            assert forall|k: int| 0 <= k < out.len() implies {
                &&& (#[trigger] out[k]).len() == n + 3
                &&& (out[k][n + 1int] == "OK"@ || out[k][n + 1int] == "XATO"@)
            } by {
                if k < p.len() {
                    assert(out[k] == p[k]);
                } else {
                    assert(out[k] == last);
                }
            }
        }
    }
}


/// A CSV table is refused only when none of its first 30 rows, alone or
/// joined cell by cell with the row before it, names all six columns; then
/// the error names them. A data row that cannot be computed never refuses
/// the table: it becomes a `XATO` row and is counted as an error.
pub proof fn lemma_csv_refused_only_without_header(rows: Seq<Seq<Seq<char>>>)
    ensures
        csv_table_spec(rows) is Err <==> find_header_from(rows, false, 30, 0) is None,
        csv_table_spec(rows) is Err ==> csv_table_spec(rows) == Err::<
            (Seq<Seq<char>>, Seq<Seq<Seq<char>>>, nat, nat),
            Seq<char>,
        >(missing_columns_error()),
        csv_table_spec(rows) matches Ok((h, out, ok, err)) ==> out.len() == ok + err,
{
    if let Some((h, cols)) = find_header_from(rows, false, 30, 0) {
        let data = rows.skip(h + 1);
        lemma_csv_report_shape(data, rows[h].len(), cols);
    }
}


/// A CSV table one of whose first 30 rows has a documented header for each
/// of the six columns is not refused: it gets its report table.
pub proof fn lemma_csv_documented_header_accepted(
    rows: Seq<Seq<Seq<char>>>,
    j: int,
    kg: int,
    width: int,
    q1: int,
    m1: int,
    q2: int,
    m2: int,
)
    requires
        0 <= j < 30,
        j < rows.len(),
        0 <= kg < rows[j].len() && documented_header(norm_header(rows[j][kg]), HeaderKind::Kg, false),
        0 <= width < rows[j].len() && documented_header(norm_header(rows[j][width]), HeaderKind::Width, false),
        0 <= q1 < rows[j].len() && documented_header(norm_header(rows[j][q1]), HeaderKind::FirstMaterial, false),
        0 <= m1 < rows[j].len() && documented_header(norm_header(rows[j][m1]), HeaderKind::FirstMicron, false),
        0 <= q2 < rows[j].len() && documented_header(norm_header(rows[j][q2]), HeaderKind::SecondMaterial, false),
        0 <= m2 < rows[j].len() && documented_header(norm_header(rows[j][m2]), HeaderKind::SecondMicron, false),
    ensures
        csv_table_spec(rows) is Ok,
{
    crate::table::lemma_documented_row_found(rows[j], false, kg, width, q1, m1, q2, m2);
    crate::table::lemma_header_row_reached(rows, false, 30, 0, j);
}

} // verus!
