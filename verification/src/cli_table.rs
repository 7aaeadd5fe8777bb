//! Tables of orders for the terminal calculator: finding the header row and
//! the six columns, computing every data row, and the report table.
use vstd::prelude::*;

use crate::cli_calc::{calculate, formula, Calculation, Layer, Number, ResultBreakdown, Signed};
use crate::cli_materials::{is_empty_material, is_empty_spec, micron_spec, parse_micron};
use crate::headers::{ColumnIndexes, HeaderKind};
use crate::num::{parse_signed, parse_signed_chars, round_half_even, round_half_even_exec};
use crate::table::{blank_row, cell, get_cell, is_blank_row, row_view, table_view};
use crate::text::{
    append_all, chars_of, digits_of, eq_str, has_char, has_char_exec, keep, keep_chars, lower_chars,
    lower_seq, nat_digits, owned, replace_char, replace_char_exec, string_of, trim, trim_chars,
    CharClass,
};

verus! {

// ---------------------------------------------------------------------------
// Headers
// ---------------------------------------------------------------------------

/// A header trimmed, in lower case, with only ASCII letters and digits.
pub open spec fn norm_header(s: Seq<char>) -> Seq<char> {
    keep(lower_seq(trim(s)), CharClass::Alnum)
}

pub fn normalize_header(value: &str) -> (r: String)
    ensures
        r@ == norm_header(value@),
{
    let v = chars_of(value);
    let t = trim_chars(&v);
    let l = lower_chars(&t);
    let k = keep_chars(&l, CharClass::Alnum);
    string_of(&k)
}

/// The header names that the calculator knows for each kind of column.
pub open spec fn header_matches_spec(h: Seq<char>, kind: HeaderKind) -> bool {
    match kind {
        HeaderKind::Kg => h == "kg"@ || h == "kilo"@ || h == "ogirlik"@ || h == "weight"@,
        HeaderKind::Width => h == "razmer"@ || h == "razmr"@ || h == "olcham"@ || h == "size"@,
        HeaderKind::FirstMaterial => h == "1qavat"@ || h == "1qatlam"@ || h == "qavat1"@ || h
            == "qatlam1"@ || h == "1layer"@,
        HeaderKind::FirstMicron => h == "1mikron"@ || h == "1micron"@ || h == "1mkrn"@ || h
            == "mikron1"@ || h == "micron1"@,
        HeaderKind::SecondMaterial => h == "2qavat"@ || h == "2qatlam"@ || h == "qavat2"@ || h
            == "qatlam2"@ || h == "2layer"@,
        HeaderKind::SecondMicron => h == "2mikron"@ || h == "2micron"@ || h == "2mkrn"@ || h
            == "mikron2"@ || h == "micron2"@,
    }
}

pub fn header_matches(header: &str, kind: HeaderKind) -> (r: bool)
    ensures
        r == header_matches_spec(header@, kind),
{
    let h = chars_of(header);
    match kind {
        HeaderKind::Kg => eq_str(&h, "kg") || eq_str(&h, "kilo") || eq_str(&h, "ogirlik")
            || eq_str(&h, "weight"),
        HeaderKind::Width => eq_str(&h, "razmer") || eq_str(&h, "razmr") || eq_str(&h, "olcham")
            || eq_str(&h, "size"),
        HeaderKind::FirstMaterial => eq_str(&h, "1qavat") || eq_str(&h, "1qatlam") || eq_str(
            &h,
            "qavat1",
        ) || eq_str(&h, "qatlam1") || eq_str(&h, "1layer"),
        HeaderKind::FirstMicron => eq_str(&h, "1mikron") || eq_str(&h, "1micron") || eq_str(
            &h,
            "1mkrn",
        ) || eq_str(&h, "mikron1") || eq_str(&h, "micron1"),
        HeaderKind::SecondMaterial => eq_str(&h, "2qavat") || eq_str(&h, "2qatlam") || eq_str(
            &h,
            "qavat2",
        ) || eq_str(&h, "qatlam2") || eq_str(&h, "2layer"),
        HeaderKind::SecondMicron => eq_str(&h, "2mikron") || eq_str(&h, "2micron") || eq_str(
            &h,
            "2mkrn",
        ) || eq_str(&h, "mikron2") || eq_str(&h, "micron2"),
    }
}

/// The first column, from `i` on, whose header names `kind`.
pub open spec fn find_col_from(row: Seq<Seq<char>>, kind: HeaderKind, i: int) -> Option<int>
    decreases row.len() - i,
{
    if i < 0 || i >= row.len() {
        None
    } else if header_matches_spec(norm_header(row[i]), kind) {
        Some(i)
    } else {
        find_col_from(row, kind, i + 1)
    }
}

pub fn find_column(row: &Vec<String>, kind: HeaderKind) -> (r: Option<usize>)
    ensures
        match r {
            Some(i) => find_col_from(row_view(*row), kind, 0) == Some(i as int),
            None => find_col_from(row_view(*row), kind, 0) is None,
        },
{
    let ghost rv = row_view(*row);
    let mut i: usize = 0;
    while i < row.len()
        invariant
            i <= row.len(),
            rv == row_view(*row),
            find_col_from(rv, kind, 0) == find_col_from(rv, kind, i as int),
        decreases row.len() - i,
    {
        let h = normalize_header(row[i].as_str());
        if header_matches(h.as_str(), kind) {
            return Some(i);
        }
        i = i + 1;
    }
    None
}

/// The six columns, if the row names all of them.
pub open spec fn find_columns_spec(row: Seq<Seq<char>>) -> Option<ColumnIndexes> {
    match (
        find_col_from(row, HeaderKind::Kg, 0),
        find_col_from(row, HeaderKind::Width, 0),
        find_col_from(row, HeaderKind::FirstMaterial, 0),
        find_col_from(row, HeaderKind::FirstMicron, 0),
        find_col_from(row, HeaderKind::SecondMaterial, 0),
        find_col_from(row, HeaderKind::SecondMicron, 0),
    ) {
        (Some(a), Some(b), Some(c), Some(d), Some(e), Some(f)) => Some(
            ColumnIndexes {
                kg: a as usize,
                width: b as usize,
                first_material: c as usize,
                first_micron: d as usize,
                second_material: e as usize,
                second_micron: f as usize,
            },
        ),
        _ => None,
    }
}

pub fn find_columns(row: &Vec<String>) -> (r: Option<ColumnIndexes>)
    ensures
        r == find_columns_spec(row_view(*row)),
{
    let kg = find_column(row, HeaderKind::Kg)?;
    let width = find_column(row, HeaderKind::Width)?;
    let first_material = find_column(row, HeaderKind::FirstMaterial)?;
    let first_micron = find_column(row, HeaderKind::FirstMicron)?;
    let second_material = find_column(row, HeaderKind::SecondMaterial)?;
    let second_micron = find_column(row, HeaderKind::SecondMicron)?;
    Some(ColumnIndexes { kg, width, first_material, first_micron, second_material, second_micron })
}

/// The first of the first 30 rows, from `i` on, that names all six columns.
pub open spec fn find_header_from(rows: Seq<Seq<Seq<char>>>, i: int) -> Option<(int, ColumnIndexes)>
    decreases rows.len() - i,
{
    if i < 0 || i >= rows.len() || i >= 30 {
        None
    } else {
        match find_columns_spec(rows[i]) {
            Some(c) => Some((i, c)),
            None => find_header_from(rows, i + 1),
        }
    }
}

pub fn find_header_row(rows: &Vec<Vec<String>>) -> (r: Option<(usize, ColumnIndexes)>)
    ensures
        match r {
            Some((i, c)) => find_header_from(table_view(rows@), 0) == Some((i as int, c)),
            None => find_header_from(table_view(rows@), 0) is None,
        },
{
    let ghost tv = table_view(rows@);
    let mut i: usize = 0;
    while i < rows.len() && i < 30
        invariant
            i <= rows.len(),
            tv == table_view(rows@),
            find_header_from(tv, 0) == find_header_from(tv, i as int),
        decreases rows.len() - i,
    {
        assert(tv[i as int] == row_view(rows@[i as int]));
        match find_columns(&rows[i]) {
            Some(c) => {
                return Some((i, c));
            },
            None => {},
        }
        i = i + 1;
    }
    None
}

proof fn lemma_header_bounded(rows: Seq<Seq<Seq<char>>>, i: int)
    ensures
        find_header_from(rows, i) matches Some((h, _)) ==> 0 <= i <= h < rows.len(),
    decreases rows.len() - i,
{
    if 0 <= i < rows.len() && i < 30 {
        lemma_header_bounded(rows, i + 1);
    }
}

// ---------------------------------------------------------------------------
// Numbers in cells
// ---------------------------------------------------------------------------

/// A number cell made ready for reading: trimmed, spaces dropped, a comma
/// read as the point where there is no point, and dropped otherwise.
pub open spec fn number_text(value: Seq<char>) -> Seq<char> {
    let t = replace_char(trim(value), ' ', Seq::<char>::empty());
    if has_char(t, ',') && !has_char(t, '.') {
        replace_char(t, ',', "."@)
    } else {
        replace_char(t, ',', Seq::<char>::empty())
    }
}

/// A number cell as a signed decimal, or the error.
pub open spec fn parse_decimal_spec(value: Seq<char>) -> Result<Number, Seq<char>> {
    match parse_signed(number_text(value)) {
        Some((negative, magnitude)) => Ok(Number { negative, magnitude }),
        None => Err("raqam noto'g'ri: '"@ + value + "'"@),
    }
}

pub fn parse_decimal(value: &str) -> (r: Result<Number, String>)
    ensures
        match (r, parse_decimal_spec(value@)) {
            (Ok(a), Ok(b)) => a == b,
            (Err(a), Err(b)) => a@ == b,
            _ => false,
        },
        r matches Ok(n) ==> n.wf(),
{
    let v = chars_of(value);
    proof {
        reveal_strlit("");
        assert(""@ =~= Seq::<char>::empty());
    }
    let t = trim_chars(&v);
    let spaced = replace_char_exec(&t, ' ', "");
    assert(spaced@ == replace_char(trim(value@), ' ', Seq::<char>::empty()));
    let n = if has_char_exec(&spaced, ',') && !has_char_exec(&spaced, '.') {
        replace_char_exec(&spaced, ',', ".")
    } else {
        replace_char_exec(&spaced, ',', "")
    };
    assert(n@ == number_text(value@));
    match parse_signed_chars(&n) {
        Some((negative, magnitude)) => Ok(Number { negative, magnitude }),
        None => {
            let mut e = chars_of("raqam noto'g'ri: '");
            append_all(&mut e, &v);
            crate::text::append_str(&mut e, "'");
            Err(string_of(&e))
        },
    }
}

// ---------------------------------------------------------------------------
// One data row
// ---------------------------------------------------------------------------

/// The micron of a layer: none for an empty layer.
pub open spec fn layer_micron(material: Seq<char>, micron_text: Seq<char>) -> Result<u32, Seq<char>> {
    if is_empty_spec(material) {
        Ok(0)
    } else {
        micron_spec(micron_text)
    }
}

/// The calculation that a data row makes (5% waste, rounded to 500), or the
/// first error in reading it.
pub open spec fn row_inputs(row: Seq<Seq<char>>, cols: ColumnIndexes) -> Result<
    (Number, Number, u32, u32),
    Seq<char>,
> {
    let q1 = cell(row, cols.first_material as int);
    let m1 = cell(row, cols.first_micron as int);
    let q2 = cell(row, cols.second_material as int);
    let m2 = cell(row, cols.second_micron as int);
    match layer_micron(q1, m1) {
        Err(e) => Err(e),
        Ok(a) => match layer_micron(q2, m2) {
            Err(e) => Err(e),
            Ok(b) => match parse_decimal_spec(cell(row, cols.kg as int)) {
                Err(e) => Err("KG: "@ + e),
                Ok(kg) => match parse_decimal_spec(cell(row, cols.width as int)) {
                    Err(e) => Err("RAZMER: "@ + e),
                    Ok(rz) => Ok((kg, rz, a, b)),
                },
            },
        },
    }
}

/// What a data row comes to.
pub open spec fn row_outcome(row: Seq<Seq<char>>, cols: ColumnIndexes) -> Result<
    ResultBreakdown,
    Seq<char>,
> {
    match row_inputs(row, cols) {
        Err(e) => Err(e),
        Ok((kg, rz, a, b)) => formula(
            kg,
            rz,
            (cell(row, cols.first_material as int), cell(row, cols.first_micron as int), a),
            (cell(row, cols.second_material as int), cell(row, cols.second_micron as int), b),
            Number::whole_spec(5),
            Number::whole_spec(500),
        ),
    }
}

fn layer_micron_exec(material: &str, micron_text: &str) -> (r: Result<u32, String>)
    ensures
        match (r, layer_micron(material@, micron_text@)) {
            (Ok(a), Ok(b)) => a == b,
            (Err(a), Err(b)) => a@ == b,
            _ => false,
        },
{
    if is_empty_material(material) {
        Ok(0)
    } else {
        parse_micron(micron_text)
    }
}

fn prefixed(prefix: &str, e: String) -> (r: String)
    ensures
        r@ == prefix@ + e@,
{
    let mut v = chars_of(prefix);
    let ev = chars_of(e.as_str());
    append_all(&mut v, &ev);
    string_of(&v)
}

/// Computes a data row of a table: 5% waste, rounded to 500.
pub fn calculate_row(row: &Vec<String>, cols: ColumnIndexes) -> (r: Result<ResultBreakdown, String>)
    ensures
        match (r, row_outcome(row_view(*row), cols)) {
            (Ok(a), Ok(b)) => a == b,
            (Err(a), Err(b)) => a@ == b,
            _ => false,
        },
{
    let kg_text = string_of(&get_cell(row, cols.kg));
    let razmer_text = string_of(&get_cell(row, cols.width));
    let q1 = string_of(&get_cell(row, cols.first_material));
    let m1 = string_of(&get_cell(row, cols.first_micron));
    let q2 = string_of(&get_cell(row, cols.second_material));
    let m2 = string_of(&get_cell(row, cols.second_micron));
    let first_micron = layer_micron_exec(q1.as_str(), m1.as_str())?;
    let second_micron = layer_micron_exec(q2.as_str(), m2.as_str())?;
    let kg = match parse_decimal(kg_text.as_str()) {
        Ok(n) => n,
        Err(e) => {
            return Err(prefixed("KG: ", e));
        },
    };
    let razmer_mm = match parse_decimal(razmer_text.as_str()) {
        Ok(n) => n,
        Err(e) => {
            return Err(prefixed("RAZMER: ", e));
        },
    };
    let calculation = Calculation {
        kg,
        razmer_mm,
        first_layer: Layer { material: q1, micron_text: m1, micron: first_micron },
        second_layer: Layer { material: q2, micron_text: m2, micron: second_micron },
        waste_percent: Number::whole(5),
        round_to: Number::whole(500),
    };
    calculate(&calculation)
}

// ---------------------------------------------------------------------------
// A whole table
// ---------------------------------------------------------------------------

/// The rounded length of a row, or its error.
pub open spec fn rounded_of(o: Result<ResultBreakdown, Seq<char>>) -> Result<Signed, Seq<char>> {
    match o {
        Ok(r) => Ok(r.rounded_length),
        Err(e) => Err(e),
    }
}

/// The outcome of one data row, by the index of the row in the table.
#[derive(Debug)]
pub struct RowResult {
    pub row_index: usize,
    pub value: Result<Signed, String>,
}

pub open spec fn row_result_view(r: RowResult) -> (int, Result<Signed, Seq<char>>) {
    (
        r.row_index as int,
        match r.value {
            Ok(v) => Ok(v),
            Err(e) => Err(e@),
        },
    )
}

pub open spec fn results_view(v: Seq<RowResult>) -> Seq<(int, Result<Signed, Seq<char>>)> {
    v.map_values(|x: RowResult| row_result_view(x))
}

/// The outcome of every row among `rows[from..to]` that is not blank.
pub open spec fn sheet_results(rows: Seq<Seq<Seq<char>>>, cols: ColumnIndexes, from: int, to: int) -> Seq<
    (int, Result<Signed, Seq<char>>),
>
    decreases to - from,
{
    if to <= from {
        Seq::empty()
    } else {
        let p = sheet_results(rows, cols, from, to - 1);
        let r = rows[to - 1];
        if blank_row(r) {
            p
        } else {
            p.push((to - 1, rounded_of(row_outcome(r, cols))))
        }
    }
}

pub open spec fn count_ok(rs: Seq<(int, Result<Signed, Seq<char>>)>) -> nat
    decreases rs.len(),
{
    if rs.len() == 0 {
        0
    } else {
        count_ok(rs.drop_last()) + if rs.last().1 is Ok {
            1nat
        } else {
            0nat
        }
    }
}

proof fn lemma_count_ok_push(p: Seq<(int, Result<Signed, Seq<char>>)>, x: (int, Result<Signed, Seq<char>>))
    ensures
        count_ok(p.push(x)) == count_ok(p) + if x.1 is Ok {
            1nat
        } else {
            0nat
        },
{
    assert(p.push(x).drop_last() =~= p);
}

pub open spec fn missing_columns_error() -> Seq<char> {
    "kerakli ustunlar topilmadi: KG, RAZMER, 1 QAVAT, 1 MIKRON, 2 QAVAT, 2 MIKRON"@
}

/// Where the header row of a table is and what every data row below it
/// comes to.
pub open spec fn sheet_spec(rows: Seq<Seq<Seq<char>>>) -> Result<
    (int, Seq<(int, Result<Signed, Seq<char>>)>),
    Seq<char>,
> {
    match find_header_from(rows, 0) {
        None => Err(missing_columns_error()),
        Some((h, cols)) => Ok((h, sheet_results(rows, cols, h + 1, rows.len() as int))),
    }
}

/// The computed rows of a table.
#[derive(Debug)]
pub struct SheetReport {
    pub header_index: usize,
    pub results: Vec<RowResult>,
    pub processed_count: usize,
    pub ok_count: usize,
    pub error_count: usize,
}

pub open spec fn sheet_matches(r: SheetReport, s: (int, Seq<(int, Result<Signed, Seq<char>>)>)) -> bool {
    &&& r.header_index == s.0
    &&& results_view(r.results@) == s.1
    &&& r.processed_count == s.1.len()
    &&& r.ok_count == count_ok(s.1)
    &&& r.ok_count + r.error_count == s.1.len()
}

fn push_result(results: &mut Vec<RowResult>, row_index: usize, value: Result<Signed, String>)
    ensures
        final(results)@ == old(results)@.push(RowResult { row_index, value }),
        results_view(final(results)@) == results_view(old(results)@).push(
            row_result_view(RowResult { row_index, value }),
        ),
{
    let ghost before = results_view(results@);
    results.push(RowResult { row_index, value });
    assert(results_view(results@) =~= before.push(row_result_view(RowResult { row_index, value })));
}

proof fn lemma_row_length_whole(row: Seq<Seq<char>>, cols: ColumnIndexes)
    ensures
        row_outcome(row, cols) matches Ok(b) ==> b.rounded_length.den == 1,
{
    reveal_with_fuel(crate::num::pow10, 1);
    assert(crate::num::pow10(0) == 1);
}

/// Every computed length of a sheet is a whole number (it is rounded to 500).
pub open spec fn whole_lengths(v: Seq<RowResult>) -> bool {
    forall|k: int| 0 <= k < v.len() ==> ((#[trigger] v[k]).value matches Ok(l) ==> l.den == 1)
}

/// Computes every data row below the header row of a table.
#[verifier::rlimit(40)]
pub fn calculate_sheet(rows: &Vec<Vec<String>>) -> (r: Result<SheetReport, String>)
    ensures
        match (r, sheet_spec(table_view(rows@))) {
            (Ok(a), Ok(b)) => sheet_matches(a, b),
            (Err(a), Err(b)) => a@ == b,
            _ => false,
        },
        r matches Ok(a) ==> whole_lengths(a.results@),
{
    let ghost tv = table_view(rows@);
    proof {
        lemma_header_bounded(tv, 0);
    }
    let (header_index, cols) = match find_header_row(rows) {
        Some(p) => p,
        None => {
            return Err(owned(
                "kerakli ustunlar topilmadi: KG, RAZMER, 1 QAVAT, 1 MIKRON, 2 QAVAT, 2 MIKRON",
            ));
        },
    };
    assert(tv.len() == rows.len());
    assert(header_index < rows.len());
    let mut results: Vec<RowResult> = Vec::new();
    let mut ok_count: usize = 0;
    let mut error_count: usize = 0;
    let mut i = header_index + 1;
    while i < rows.len()
        invariant
            header_index < i <= rows.len(),
            tv == table_view(rows@),
            results_view(results@) == sheet_results(tv, cols, header_index + 1, i as int),
            ok_count == count_ok(sheet_results(tv, cols, header_index + 1, i as int)),
            ok_count + error_count == results.len(),
            results.len() <= i,
            whole_lengths(results@),
        decreases rows.len() - i,
    {
        let ghost before = sheet_results(tv, cols, header_index + 1, i as int);
        assert(tv[i as int] == row_view(rows@[i as int]));
        if !is_blank_row(&rows[i]) {
            proof {
                lemma_row_length_whole(row_view(rows@[i as int]), cols);
            }
            let value = match calculate_row(&rows[i], cols) {
                Ok(result) => Ok(result.rounded_length),
                Err(message) => Err(message),
            };
            let ok = value.is_ok();
            proof {
                lemma_count_ok_push(
                    before,
                    (i as int, rounded_of(row_outcome(tv[i as int], cols))),
                );
            }
            assert(value matches Ok(l) ==> l.den == 1);
            push_result(&mut results, i, value);
            if ok {
                ok_count = ok_count + 1;
            } else {
                error_count = error_count + 1;
            }
        }
        i = i + 1;
    }
    let processed_count = results.len();
    Ok(SheetReport { header_index, results, processed_count, ok_count, error_count })
}

// ---------------------------------------------------------------------------
// The report table
// ---------------------------------------------------------------------------

/// A length written as `{:.0}` writes it: rounded half to even, with its sign.
pub open spec fn length_text(s: Signed) -> Seq<char> {
    (if s.negative {
        "-"@
    } else {
        Seq::<char>::empty()
    }) + nat_digits(round_half_even(s.num as nat, s.den as nat))
}

/// A length that can be written: its denominator is positive.
pub open spec fn writable(s: Signed) -> bool {
    s.den > 0
}

pub fn format_length(s: Signed) -> (r: String)
    requires
        writable(s),
    ensures
        r@ == length_text(s),
{
    let mut v: Vec<char> = if s.negative {
        chars_of("-")
    } else {
        Vec::new()
    };
    proof {
        reveal_strlit("-");
    }
    let n = if s.den == 1 {
        assert(round_half_even(s.num as nat, 1) == s.num) by (nonlinear_arith);
        s.num
    } else {
        round_half_even_exec(s.num, s.den)
    };
    let d = digits_of(n);
    append_all(&mut v, &d);
    string_of(&v)
}

/// The three report cells: the length, `OK` and nothing, or nothing, `XATO`
/// and the error.
pub open spec fn report_cells(v: Result<Signed, Seq<char>>) -> Seq<Seq<char>> {
    match v {
        Ok(l) => seq![length_text(l), "OK"@, Seq::<char>::empty()],
        Err(m) => seq![Seq::<char>::empty(), "XATO"@, m],
    }
}

/// The row cut or padded with empty cells to `n` cells.
pub open spec fn resized(row: Seq<Seq<char>>, n: nat) -> Seq<Seq<char>> {
    Seq::new(n, |i: int| cell(row, i))
}

pub open spec fn report_headers() -> Seq<Seq<char>> {
    seq!["HISOBLANGAN_UZUNLIK"@, "STATUS"@, "XATO"@]
}

/// A report row for every computed row: the row padded or cut to the header
/// row's length, and its report cells.
pub open spec fn report_rows(
    rows: Seq<Seq<Seq<char>>>,
    n: nat,
    rs: Seq<(int, Result<Signed, Seq<char>>)>,
) -> Seq<Seq<Seq<char>>> {
    rs.map_values(|x: (int, Result<Signed, Seq<char>>)| resized(rows[x.0], n) + report_cells(x.1))
}

/// A table with its report columns.
#[derive(Debug)]
pub struct TableReport {
    pub headers: Vec<String>,
    pub rows: Vec<Vec<String>>,
    pub processed_count: usize,
    pub ok_count: usize,
    pub error_count: usize,
}

pub open spec fn table_spec(rows: Seq<Seq<Seq<char>>>) -> Result<
    (Seq<Seq<char>>, Seq<Seq<Seq<char>>>, nat, nat),
    Seq<char>,
> {
    match sheet_spec(rows) {
        Err(e) => Err(e),
        Ok((h, rs)) => Ok(
            (
                rows[h] + report_headers(),
                report_rows(rows, rows[h].len(), rs),
                count_ok(rs),
                (rs.len() - count_ok(rs)) as nat,
            ),
        ),
    }
}

pub open spec fn table_matches(t: TableReport, s: (Seq<Seq<char>>, Seq<Seq<Seq<char>>>, nat, nat)) -> bool {
    &&& row_view(t.headers) == s.0
    &&& table_view(t.rows@) == s.1
    &&& t.ok_count == s.2
    &&& t.error_count == s.3
    &&& t.processed_count == s.2 + s.3
}

fn resize_row(row: &Vec<String>, n: usize) -> (r: Vec<String>)
    ensures
        row_view(r) == resized(row_view(*row), n as nat),
{
    let mut r: Vec<String> = Vec::new();
    let mut i: usize = 0;
    while i < n
        invariant
            i <= n,
            r.len() == i,
            forall|k: int| 0 <= k < i ==> #[trigger] r@[k]@ == cell(row_view(*row), k),
        decreases n - i,
    {
        if i < row.len() {
            r.push(row[i].clone());
        } else {
            r.push(String::new());
        }
        i = i + 1;
    }
    assert(row_view(r) =~= resized(row_view(*row), n as nat));
    r
}

/// The rounded lengths of table rows: whole numbers of 500 with 5% waste.
proof fn lemma_row_lengths_whole(rows: Seq<Seq<Seq<char>>>, cols: ColumnIndexes, from: int, to: int)
    ensures
        forall|k: int|
            0 <= k < sheet_results(rows, cols, from, to).len() ==> ((#[trigger] sheet_results(
                rows,
                cols,
                from,
                to,
            )[k]).1 matches Ok(l) ==> l.den == 1),
        forall|k: int|
            0 <= k < sheet_results(rows, cols, from, to).len() ==> from <= (#[trigger] sheet_results(
                rows,
                cols,
                from,
                to,
            )[k]).0 < to,
    decreases to - from,
{
    if to > from {
        lemma_row_lengths_whole(rows, cols, from, to - 1);
        crate::num::lemma_pow10_pos(0);
    }
}

/// Adds the report columns to a table.
pub fn calculate_table(rows: &Vec<Vec<String>>) -> (r: Result<TableReport, String>)
    ensures
        match (r, table_spec(table_view(rows@))) {
            (Ok(a), Ok(b)) => table_matches(a, b),
            (Err(a), Err(b)) => a@ == b,
            _ => false,
        },
{
    let ghost tv = table_view(rows@);
    let sheet = calculate_sheet(rows)?;
    let header_index = sheet.header_index;
    proof {
        lemma_header_bounded(tv, 0);
        let cols = find_header_from(tv, 0)->Some_0.1;
        lemma_row_lengths_whole(tv, cols, header_index + 1, rows.len() as int);
    }
    let ghost rs = results_view(sheet.results@);
    let mut headers = rows[header_index].clone();
    let n = headers.len();
    let ghost hv = row_view(headers);
    assert(hv =~= tv[header_index as int]);
    headers.push(owned("HISOBLANGAN_UZUNLIK"));
    headers.push(owned("STATUS"));
    headers.push(owned("XATO"));
    assert(row_view(headers) =~= hv + report_headers());
    let mut out: Vec<Vec<String>> = Vec::new();
    let mut k: usize = 0;
    while k < sheet.results.len()
        invariant
            k <= sheet.results.len(),
            tv == table_view(rows@),
            rs == results_view(sheet.results@),
            n == tv[header_index as int].len(),
            forall|j: int| 0 <= j < rs.len() ==> ((#[trigger] rs[j]).1 matches Ok(l) ==> l.den == 1),
            forall|j: int| 0 <= j < rs.len() ==> 0 <= (#[trigger] rs[j]).0 < rows.len(),
            table_view(out@) == report_rows(tv, n as nat, rs.take(k as int)),
        decreases sheet.results.len() - k,
    {
        let ghost x = rs[k as int];
        assert(x == row_result_view(sheet.results@[k as int]));
        let index = sheet.results[k].row_index;
        assert(tv[index as int] == row_view(rows@[index as int]));
        let mut row = resize_row(&rows[index], n);
        let ghost base = row_view(row);
        match &sheet.results[k].value {
            Ok(length) => {
                row.push(format_length(*length));
                row.push(owned("OK"));
                row.push(String::new());
            },
            Err(message) => {
                row.push(String::new());
                row.push(owned("XATO"));
                row.push(message.clone());
            },
        }
        assert(row_view(row) =~= base + report_cells(x.1));
        let ghost before = table_view(out@);
        out.push(row);
        assert(table_view(out@) =~= before.push(row_view(row)));
        assert(report_rows(tv, n as nat, rs.take(k + 1)) =~= report_rows(tv, n as nat, rs.take(k as int)).push(
            resized(tv[x.0], n as nat) + report_cells(x.1),
        ));
        k = k + 1;
    }
    assert(rs.take(k as int) =~= rs);
    Ok(
        TableReport {
            headers,
            rows: out,
            processed_count: sheet.processed_count,
            ok_count: sheet.ok_count,
            error_count: sheet.error_count,
        },
    )
}

/// Header names that differ only by a space or a dash between two parts
/// normalise alike (`1 QAVAT`, `1-qavat` and `1QAVAT` are one header).
pub proof fn lemma_header_ignores_space_and_dash(a: Seq<char>, b: Seq<char>, c: char)
    requires
        c == ' ' || c == '-',
        a.len() > 0,
        b.len() > 0,
        !crate::text::is_ws(a[0]),
        !crate::text::is_ws(b.last()),
    ensures
        norm_header(a + seq![c] + b) == norm_header(a + b),
{
    let s = a + seq![c] + b;
    let t = a + b;
    assert(s[0] == a[0]);
    assert(s.last() == b.last());
    assert(t[0] == a[0]);
    assert(t.last() == b.last());
    crate::text::lemma_trim_unchanged(s);
    crate::text::lemma_trim_unchanged(t);
    crate::text::lemma_lower_append(a + seq![c], b);
    crate::text::lemma_lower_append(a, seq![c]);
    crate::text::lemma_lower_append(a, b);
    assert(lower_seq(seq![c]) =~= seq![c]) by {
        assert(seq![c].drop_last() =~= Seq::<char>::empty());
        assert(seq![c].last() == c);
        assert(lower_seq(Seq::<char>::empty()) == Seq::<char>::empty());
        assert((c as u32) < 128);
        assert(crate::text::ascii_lower(c) == c);
        assert(crate::text::lower_char(c) == seq![c]);
    }
    crate::text::lemma_keep_append(lower_seq(a) + seq![c], lower_seq(b), CharClass::Alnum);
    crate::text::lemma_keep_append(lower_seq(a), seq![c], CharClass::Alnum);
    crate::text::lemma_keep_append(lower_seq(a), lower_seq(b), CharClass::Alnum);
    assert(keep(seq![c], CharClass::Alnum) =~= Seq::<char>::empty()) by {
        assert(seq![c].drop_last() =~= Seq::<char>::empty());
        assert(seq![c].last() == c);
        assert(!crate::text::in_class(CharClass::Alnum, c));
        assert(keep(Seq::<char>::empty(), CharClass::Alnum) == Seq::<char>::empty());
        assert(keep(seq![c], CharClass::Alnum) == keep(seq![c].drop_last(), CharClass::Alnum));
    }
    assert(keep(lower_seq(a), CharClass::Alnum) + Seq::<char>::empty() =~= keep(
        lower_seq(a),
        CharClass::Alnum,
    ));
}

proof fn lemma_count_ok_le(rs: Seq<(int, Result<Signed, Seq<char>>)>)
    ensures
        count_ok(rs) <= rs.len(),
    decreases rs.len(),
{
    if rs.len() > 0 {
        lemma_count_ok_le(rs.drop_last());
    }
}

/// The report table keeps the header row and adds the three report headers;
/// every report row is its data row cut or padded to the header row's
/// length, then its length (or nothing), `OK` or `XATO`, and its error (or
/// nothing); there is one report row for every row that was computed.
pub proof fn lemma_report_shape(rows: Seq<Seq<Seq<char>>>)
    requires
        table_spec(rows) is Ok,
    ensures
        ({
            let (headers, out, ok, errors) = table_spec(rows)->Ok_0;
            let (h, rs) = sheet_spec(rows)->Ok_0;
            let n = rows[h].len();
            &&& headers.len() == n + 3
            &&& headers.take(n as int) == rows[h]
            &&& out.len() == ok + errors
            &&& out.len() == rs.len()
            &&& forall|k: int|
                0 <= k < out.len() ==> {
                    &&& (#[trigger] out[k]).len() == n + 3
                    &&& out[k].take(n as int) == resized(rows[rs[k].0], n)
                    &&& (out[k][n + 1int] == "OK"@ || out[k][n + 1int] == "XATO"@)
                }
        }),
{
    let (h, rs) = sheet_spec(rows)->Ok_0;
    let n = rows[h].len();
    let (headers, out, ok, errors) = table_spec(rows)->Ok_0;
    lemma_count_ok_le(rs);
    assert(headers.take(n as int) =~= rows[h]);
    assert forall|k: int| 0 <= k < out.len() implies {
        &&& (#[trigger] out[k]).len() == n + 3
        &&& out[k].take(n as int) == resized(rows[rs[k].0], n)
        &&& (out[k][n + 1int] == "OK"@ || out[k][n + 1int] == "XATO"@)
    } by {
        let x = rs[k];
        assert(out[k] == resized(rows[x.0], n) + report_cells(x.1));
        assert(out[k].take(n as int) =~= resized(rows[x.0], n));
    }
}


/// The header names that the calculator's documentation gives for each kind
/// of column, after normalising.
pub open spec fn documented_header(h: Seq<char>, kind: HeaderKind) -> bool {
    match kind {
        HeaderKind::Kg => h == "kg"@ || h == "kilo"@ || h == "ogirlik"@ || h == "weight"@,
        HeaderKind::Width => h == "razmer"@ || h == "razmr"@ || h == "olcham"@ || h == "size"@,
        HeaderKind::FirstMaterial => h == "1qavat"@ || h == "1qatlam"@ || h == "qavat1"@ || h
            == "qatlam1"@ || h == "1layer"@,
        HeaderKind::FirstMicron => h == "1mikron"@ || h == "1micron"@ || h == "1mkrn"@ || h
            == "mikron1"@ || h == "micron1"@,
        HeaderKind::SecondMaterial => h == "2qavat"@ || h == "2qatlam"@ || h == "qavat2"@ || h
            == "qatlam2"@ || h == "2layer"@,
        HeaderKind::SecondMicron => h == "2mikron"@ || h == "2micron"@ || h == "2mkrn"@ || h
            == "mikron2"@ || h == "micron2"@,
    }
}

/// Every documented header name is recognised as its kind of column.
pub proof fn lemma_documented_headers_match(h: Seq<char>, kind: HeaderKind)
    requires
        documented_header(h, kind),
    ensures
        header_matches_spec(h, kind),
{
}

} // verus!
