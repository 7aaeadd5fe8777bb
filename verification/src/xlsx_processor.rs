//! The computing part of filling in an Excel sheet of orders: where the
//! table is, what each data row comes to, and which columns the results go
//! to. Reading and writing the workbook is left to the caller.
use vstd::prelude::*;

use crate::calc::{calculate_order_lengths, results_spec, rounded_lengths, variants_spec};
use crate::headers::{documented_header, norm_header, normalize_header, ColumnIndexes, HeaderKind};
use crate::table::{
    blank_row, cell, find_header_from, find_header_in, get_cell, is_blank_row, parse_decimal,
    parse_decimal_spec, row_order, row_order_spec, row_view, table_view,
};
use crate::text::{
    append_all, append_str, digits_of, eq_str, nat_digits, string_of, trim, trim_chars,
};

verus! {

// ---------------------------------------------------------------------------
// One data row
// ---------------------------------------------------------------------------

/// Lengths written as `12000/14000`.
pub open spec fn join_lengths(ls: Seq<u128>) -> Seq<char>
    decreases ls.len(),
{
    if ls.len() == 0 {
        Seq::empty()
    } else if ls.len() == 1 {
        nat_digits(ls[0] as nat)
    } else {
        join_lengths(ls.drop_last()) + "/"@ + nat_digits(ls.last() as nat)
    }
}

/// What a data row of a sheet comes to: the length of every variant of its
/// order, or the error.
pub open spec fn xlsx_row_outcome(row: Seq<Seq<char>>, cols: ColumnIndexes) -> Result<
    Seq<char>,
    Seq<char>,
> {
    match row_order_spec(row, cols) {
        Err(e) => Err(e),
        Ok(o) => match results_spec(variants_spec(o)) {
            Err(e) => Err(e),
            Ok(rs) => Ok(join_lengths(rounded_lengths(rs))),
        },
    }
}

pub fn format_lengths(lengths: &Vec<u128>) -> (r: String)
    ensures
        r@ == join_lengths(lengths@),
{
    let mut out: Vec<char> = Vec::new();
    let mut i: usize = 0;
    while i < lengths.len()
        invariant
            i <= lengths.len(),
            out@ == join_lengths(lengths@.take(i as int)),
        decreases lengths.len() - i,
    {
        assert(lengths@.take(i + 1).drop_last() =~= lengths@.take(i as int));
        if i > 0 {
            append_str(&mut out, "/");
        }
        let d = digits_of(lengths[i]);
        append_all(&mut out, &d);
        i = i + 1;
    }
    assert(lengths@.take(lengths.len() as int) =~= lengths@);
    string_of(&out)
}

pub fn calculate_xlsx_row(row: &Vec<String>, cols: ColumnIndexes) -> (r: Result<String, String>)
    ensures
        match (r, xlsx_row_outcome(row_view(*row), cols)) {
            (Ok(a), Ok(b)) => a@ == b,
            (Err(a), Err(b)) => a@ == b,
            _ => false,
        },
{
    let order = row_order(row, cols)?;
    let lengths = calculate_order_lengths(&order)?;
    Ok(format_lengths(&lengths))
}

/// A row that has the shape of an order in the given columns: two numbers
/// and four cells that are not blank.
pub open spec fn data_row_spec(row: Seq<Seq<char>>, cols: ColumnIndexes) -> bool {
    &&& parse_decimal_spec(cell(row, cols.kg as int)) is Ok
    &&& parse_decimal_spec(cell(row, cols.width as int)) is Ok
    &&& trim(cell(row, cols.first_material as int)).len() > 0
    &&& trim(cell(row, cols.second_material as int)).len() > 0
    &&& trim(cell(row, cols.first_micron as int)).len() > 0
    &&& trim(cell(row, cols.second_micron as int)).len() > 0
}

fn filled(row: &Vec<String>, index: usize) -> (r: bool)
    ensures
        r == (trim(cell(row_view(*row), index as int)).len() > 0),
{
    let c = get_cell(row, index);
    let t = trim_chars(&c);
    t.len() > 0
}

pub fn looks_like_sheet_data_row(row: &Vec<String>, cols: ColumnIndexes) -> (r: bool)
    ensures
        r == data_row_spec(row_view(*row), cols),
{
    let kg = get_cell(row, cols.kg);
    let width = get_cell(row, cols.width);
    parse_decimal(&kg).is_ok() && parse_decimal(&width).is_ok() && filled(row, cols.first_material)
        && filled(row, cols.second_material) && filled(row, cols.first_micron) && filled(
        row,
        cols.second_micron,
    )
}

// ---------------------------------------------------------------------------
// A sheet without a header row
// ---------------------------------------------------------------------------

/// The length of the longest row.
pub open spec fn max_row_len(rows: Seq<Seq<Seq<char>>>) -> nat
    decreases rows.len(),
{
    if rows.len() == 0 {
        0
    } else {
        let m = max_row_len(rows.drop_last());
        if rows.last().len() > m {
            rows.last().len()
        } else {
            m
        }
    }
}

/// The two column orders tried from column `start`: `which == 0` for
/// kg, 1st material, 2nd material, width, 1st micron, 2nd micron, and
/// `which == 1` for kg, width, 1st material, 1st micron, 2nd material,
/// 2nd micron.
pub open spec fn candidate(start: nat, which: nat) -> ColumnIndexes {
    if which == 0 {
        ColumnIndexes {
            kg: start as usize,
            first_material: (start + 1) as usize,
            second_material: (start + 2) as usize,
            width: (start + 3) as usize,
            first_micron: (start + 4) as usize,
            second_micron: (start + 5) as usize,
        }
    } else {
        ColumnIndexes {
            kg: start as usize,
            width: (start + 1) as usize,
            first_material: (start + 2) as usize,
            first_micron: (start + 3) as usize,
            second_material: (start + 4) as usize,
            second_micron: (start + 5) as usize,
        }
    }
}

/// The index of the first row, from `i` on, that has the shape of an order.
pub open spec fn first_data_row(rows: Seq<Seq<Seq<char>>>, cols: ColumnIndexes, i: int) -> Option<
    int,
>
    decreases rows.len() - i,
{
    if i < 0 || i >= rows.len() {
        None
    } else if data_row_spec(rows[i], cols) {
        Some(i)
    } else {
        first_data_row(rows, cols, i + 1)
    }
}

/// How many rows have the shape of an order.
pub open spec fn shape_count(rows: Seq<Seq<Seq<char>>>, cols: ColumnIndexes) -> nat
    decreases rows.len(),
{
    if rows.len() == 0 {
        0
    } else {
        shape_count(rows.drop_last(), cols) + if data_row_spec(rows.last(), cols) {
            1nat
        } else {
            0nat
        }
    }
}

/// How many rows come to a length.
pub open spec fn ok_count(rows: Seq<Seq<Seq<char>>>, cols: ColumnIndexes) -> nat
    decreases rows.len(),
{
    if rows.len() == 0 {
        0
    } else {
        ok_count(rows.drop_last(), cols) + if xlsx_row_outcome(rows.last(), cols) is Ok {
            1nat
        } else {
            0nat
        }
    }
}

/// The (at most) 50 rows from row `f` on.
pub open spec fn window(rows: Seq<Seq<Seq<char>>>, f: int) -> Seq<Seq<Seq<char>>> {
    rows.subrange(f, if f + 50 < rows.len() {
        f + 50
    } else {
        rows.len() as int
    })
}

/// The best layout so far: its first data row, its two scores and its columns.
pub type Layout = (int, nat, nat, ColumnIndexes);

/// Takes one more column order into account: it replaces the best so far if
/// at least three of the 50 rows from its first data row (which is not the
/// first row) have its shape, and more of them come to a length, or as many
/// and more have its shape.
pub open spec fn consider(rows: Seq<Seq<Seq<char>>>, best: Option<Layout>, cols: ColumnIndexes) -> Option<
    Layout,
> {
    match first_data_row(rows, cols, 0) {
        None => best,
        Some(f) => {
            let shape = shape_count(window(rows, f), cols);
            let ok = ok_count(window(rows, f), cols);
            let better = match best {
                None => true,
                Some((_, best_ok, best_shape, _)) => ok > best_ok || (ok == best_ok && shape
                    > best_shape),
            };
            if shape >= 3 && f > 0 && better {
                Some((f, ok, shape, cols))
            } else {
                best
            }
        },
    }
}

/// The best layout among the first `k` column orders tried: two for each
/// start column, in order.
pub open spec fn best_layout(rows: Seq<Seq<Seq<char>>>, k: nat) -> Option<Layout>
    decreases k,
{
    if k == 0 {
        None
    } else {
        let j = (k - 1) as nat;
        consider(rows, best_layout(rows, j), candidate(j / 2, j % 2))
    }
}

/// Where the data of a sheet without a header row is: the row above the
/// first data row, and the columns of the best layout.
pub open spec fn sheet_layout_spec(rows: Seq<Seq<Seq<char>>>) -> Option<(int, ColumnIndexes)> {
    let n = max_row_len(rows);
    let k = if n > 5 {
        (2 * (n - 5)) as nat
    } else {
        0nat
    };
    match best_layout(rows, k) {
        None => None,
        Some((f, _, _, cols)) => Some((f - 1, cols)),
    }
}


fn longest_row(rows: &Vec<Vec<String>>) -> (r: usize)
    ensures
        r == max_row_len(table_view(rows@)),
{
    let ghost tv = table_view(rows@);
    let mut m: usize = 0;
    let mut i: usize = 0;
    while i < rows.len()
        invariant
            i <= rows.len(),
            tv == table_view(rows@),
            m == max_row_len(tv.take(i as int)),
        decreases rows.len() - i,
    {
        assert(tv.take(i + 1).drop_last() =~= tv.take(i as int));
        assert(tv.take(i + 1).last().len() == rows@[i as int].len());
        if rows[i].len() > m {
            m = rows[i].len();
        }
        i = i + 1;
    }
    assert(tv.take(rows.len() as int) =~= tv);
    m
}

fn find_first_data_row(rows: &Vec<Vec<String>>, cols: ColumnIndexes) -> (r: Option<usize>)
    ensures
        match r {
            Some(f) => first_data_row(table_view(rows@), cols, 0) == Some(f as int),
            None => first_data_row(table_view(rows@), cols, 0) is None,
        },
{
    let ghost tv = table_view(rows@);
    let mut i: usize = 0;
    while i < rows.len()
        invariant
            i <= rows.len(),
            tv == table_view(rows@),
            first_data_row(tv, cols, 0) == first_data_row(tv, cols, i as int),
        decreases rows.len() - i,
    {
        if looks_like_sheet_data_row(&rows[i], cols) {
            return Some(i);
        }
        i = i + 1;
    }
    None
}

/// The two scores of a layout whose first data row is `f`.
fn scores(rows: &Vec<Vec<String>>, f: usize, cols: ColumnIndexes) -> (r: (usize, usize))
    requires
        f < rows.len(),
    ensures
        r.0 == shape_count(window(table_view(rows@), f as int), cols),
        r.1 == ok_count(window(table_view(rows@), f as int), cols),
{
    let ghost tv = table_view(rows@);
    let end: usize = if rows.len() - f > 50 {
        f + 50
    } else {
        rows.len()
    };
    let ghost w = window(tv, f as int);
    let mut shape: usize = 0;
    let mut ok: usize = 0;
    let mut i: usize = f;
    while i < end
        invariant
            f <= i <= end <= rows.len(),
            end - f <= 50,
            tv == table_view(rows@),
            w == tv.subrange(f as int, end as int),
            shape == shape_count(w.take(i - f), cols),
            ok == ok_count(w.take(i - f), cols),
            shape <= i - f,
            ok <= i - f,
        decreases end - i,
    {
        let ghost k = i - f;
        assert(w.take(k + 1).drop_last() =~= w.take(k));
        assert(w.take(k + 1).last() == row_view(rows@[i as int]));
        if looks_like_sheet_data_row(&rows[i], cols) {
            shape = shape + 1;
        }
        if calculate_xlsx_row(&rows[i], cols).is_ok() {
            ok = ok + 1;
        }
        i = i + 1;
    }
    assert(w.take(end - f) =~= w);
    (shape, ok)
}

fn candidate_exec(start: usize, which: usize) -> (r: ColumnIndexes)
    requires
        start + 5 <= usize::MAX,
        which < 2,
    ensures
        r == candidate(start as nat, which as nat),
{
    if which == 0 {
        ColumnIndexes {
            kg: start,
            first_material: start + 1,
            second_material: start + 2,
            width: start + 3,
            first_micron: start + 4,
            second_micron: start + 5,
        }
    } else {
        ColumnIndexes {
            kg: start,
            width: start + 1,
            first_material: start + 2,
            first_micron: start + 3,
            second_material: start + 4,
            second_micron: start + 5,
        }
    }
}

pub open spec fn layout_view(b: Option<(usize, usize, usize, ColumnIndexes)>) -> Option<Layout> {
    match b {
        None => None,
        Some((f, ok, shape, c)) => Some((f as int, ok as nat, shape as nat, c)),
    }
}

fn consider_exec(
    rows: &Vec<Vec<String>>,
    best: Option<(usize, usize, usize, ColumnIndexes)>,
    cols: ColumnIndexes,
) -> (r: Option<(usize, usize, usize, ColumnIndexes)>)
    ensures
        layout_view(r) == consider(table_view(rows@), layout_view(best), cols),
{
    match find_first_data_row(rows, cols) {
        None => best,
        Some(f) => {
            proof {
                lemma_first_data_row_bounds(table_view(rows@), cols, 0);
            }
            let (shape, ok) = scores(rows, f, cols);
            let better = match best {
                None => true,
                Some((_, best_ok, best_shape, _)) => ok > best_ok || (ok == best_ok && shape
                    > best_shape),
            };
            if shape >= 3 && f > 0 && better {
                Some((f, ok, shape, cols))
            } else {
                best
            }
        },
    }
}

proof fn lemma_first_data_row_bounds(rows: Seq<Seq<Seq<char>>>, cols: ColumnIndexes, i: int)
    ensures
        first_data_row(rows, cols, i) matches Some(f) ==> 0 <= i <= f < rows.len(),
    decreases rows.len() - i,
{
    if 0 <= i < rows.len() {
        lemma_first_data_row_bounds(rows, cols, i + 1);
    }
}

/// Finds the data of a sheet that has no header row by its shape: the row
/// above the first data row, and the columns.
pub fn find_sheet_data_layout(rows: &Vec<Vec<String>>) -> (r: Option<(usize, ColumnIndexes)>)
    ensures
        match r {
            Some((h, c)) => sheet_layout_spec(table_view(rows@)) == Some((h as int, c)),
            None => sheet_layout_spec(table_view(rows@)) is None,
        },
{
    let ghost tv = table_view(rows@);
    let n = longest_row(rows);
    let count: usize = if n > 5 {
        n - 5
    } else {
        0
    };
    let mut best: Option<(usize, usize, usize, ColumnIndexes)> = None;
    let mut start: usize = 0;
    while start < count
        invariant
            start <= count,
            count == 0 || count + 5 == n,
            n == max_row_len(tv),
            tv == table_view(rows@),
            layout_view(best) == best_layout(tv, (2 * start) as nat),
        decreases count - start,
    {
        let mut which: usize = 0;
        while which < 2
            invariant
                which <= 2,
                start < count,
                count + 5 == n,
                tv == table_view(rows@),
                layout_view(best) == best_layout(tv, (2 * start + which) as nat),
            decreases 2 - which,
        {
            let cols = candidate_exec(start, which);
            let ghost j = (2 * start + which) as nat;
            assert(j / 2 == start && j % 2 == which);
            assert(best_layout(tv, j + 1) == consider(tv, best_layout(tv, j), cols));
            best = consider_exec(rows, best, cols);
            which = which + 1;
        }
        start = start + 1;
    }
    assert(count == 0 ==> n <= 5);
    match best {
        None => None,
        Some((f, _, _, c)) => {
            proof {
                lemma_best_first_row(tv, (2 * start) as nat);
            }
            Some((f - 1, c))
        },
    }
}

proof fn lemma_best_first_row(rows: Seq<Seq<Seq<char>>>, k: nat)
    ensures
        best_layout(rows, k) matches Some((f, _, _, _)) ==> 0 < f < rows.len(),
    decreases k,
{
    if k > 0 {
        let j = (k - 1) as nat;
        lemma_best_first_row(rows, j);
        lemma_first_data_row_bounds(rows, candidate(j / 2, j % 2), 0);
    }
}


// ---------------------------------------------------------------------------
// The header row and the result columns
// ---------------------------------------------------------------------------

/// Where the table of a sheet is: the first row (alone or with the row above
/// it) that names all six columns, or else the layout found by the shape of
/// the data.
pub open spec fn xlsx_header_spec(rows: Seq<Seq<Seq<char>>>) -> Option<(int, ColumnIndexes)> {
    match find_header_from(rows, true, rows.len() as int, 0) {
        Some(p) => Some(p),
        None => sheet_layout_spec(rows),
    }
}

pub fn find_header_row(rows: &Vec<Vec<String>>) -> (r: Option<(usize, ColumnIndexes)>)
    ensures
        match r {
            Some((h, c)) => xlsx_header_spec(table_view(rows@)) == Some((h as int, c)),
            None => xlsx_header_spec(table_view(rows@)) is None,
        },
{
    match find_header_in(rows, true, rows.len()) {
        Some(p) => Some(p),
        None => find_sheet_data_layout(rows),
    }
}

/// The header that the results column is written with
/// (`HISOBLANGAN_UZUNLIK`, normalized): only a column of earlier results is
/// written over.
pub open spec fn result_header(h: Seq<char>) -> bool {
    h == "hisoblanganuzunlik"@
}

pub open spec fn result_col_in(row: Seq<Seq<char>>, i: int) -> Option<int>
    decreases row.len() - i,
{
    if i < 0 || i >= row.len() {
        None
    } else if result_header(norm_header(row[i])) {
        Some(i)
    } else {
        result_col_in(row, i + 1)
    }
}

/// The column of the first result header, in the first row that has one.
pub open spec fn existing_result_col(rows: Seq<Seq<Seq<char>>>, i: int) -> Option<int>
    decreases rows.len() - i,
{
    if i < 0 || i >= rows.len() {
        None
    } else {
        match result_col_in(rows[i], 0) {
            Some(c) => Some(c),
            None => existing_result_col(rows, i + 1),
        }
    }
}

fn result_col_in_row(row: &Vec<String>) -> (r: Option<usize>)
    ensures
        match r {
            Some(c) => result_col_in(row_view(*row), 0) == Some(c as int),
            None => result_col_in(row_view(*row), 0) is None,
        },
{
    let ghost rv = row_view(*row);
    let mut i: usize = 0;
    while i < row.len()
        invariant
            i <= row.len(),
            rv == row_view(*row),
            result_col_in(rv, 0) == result_col_in(rv, i as int),
        decreases row.len() - i,
    {
        let v: Vec<char> = crate::text::chars_of(row[i].as_str());
        let h = normalize_header(&v);
        if eq_str(&h, "hisoblanganuzunlik") {
            return Some(i);
        }
        i = i + 1;
    }
    None
}

pub fn find_existing_result_column(rows: &Vec<Vec<String>>) -> (r: Option<usize>)
    ensures
        match r {
            Some(c) => existing_result_col(table_view(rows@), 0) == Some(c as int),
            None => existing_result_col(table_view(rows@), 0) is None,
        },
{
    let ghost tv = table_view(rows@);
    let mut i: usize = 0;
    while i < rows.len()
        invariant
            i <= rows.len(),
            tv == table_view(rows@),
            existing_result_col(tv, 0) == existing_result_col(tv, i as int),
        decreases rows.len() - i,
    {
        match result_col_in_row(&rows[i]) {
            Some(c) => {
                return Some(c);
            },
            None => {},
        }
        i = i + 1;
    }
    None
}

/// The index of the last cell of a row that is not blank.
pub open spec fn last_filled(row: Seq<Seq<char>>) -> Option<int>
    decreases row.len(),
{
    if row.len() == 0 {
        None
    } else if trim(row.last()).len() > 0 {
        Some(row.len() - 1)
    } else {
        last_filled(row.drop_last())
    }
}

/// The largest index of a cell that is not blank, over all rows.
pub open spec fn max_filled(rows: Seq<Seq<Seq<char>>>) -> Option<int>
    decreases rows.len(),
{
    if rows.len() == 0 {
        None
    } else {
        let m = max_filled(rows.drop_last());
        match (m, last_filled(rows.last())) {
            (None, l) => l,
            (Some(a), None) => Some(a),
            (Some(a), Some(b)) => Some(if a >= b { a } else { b }),
        }
    }
}

/// No row is as long as the largest column number of a worksheet.
pub open spec fn columns_fit(rows: Seq<Seq<Seq<char>>>) -> bool {
    forall|i: int| 0 <= i < rows.len() ==> #[trigger] rows[i].len() < u32::MAX - 2
}

/// The first column (counted from 1) for the results: that of an earlier
/// result column, or the one after the next to the last column in use, or
/// the first for an empty sheet.
pub open spec fn next_result_col(rows: Seq<Seq<Seq<char>>>) -> int {
    match existing_result_col(rows, 0) {
        Some(c) => c + 1,
        None => match max_filled(rows) {
            Some(m) => m + 2,
            None => 1,
        },
    }
}

proof fn lemma_result_col_bound(row: Seq<Seq<char>>, i: int)
    ensures
        result_col_in(row, i) matches Some(c) ==> 0 <= c < row.len(),
    decreases row.len() - i,
{
    if 0 <= i < row.len() {
        lemma_result_col_bound(row, i + 1);
    }
}

proof fn lemma_existing_bound(rows: Seq<Seq<Seq<char>>>, i: int)
    requires
        columns_fit(rows),
    ensures
        existing_result_col(rows, i) matches Some(c) ==> 0 <= c < u32::MAX - 2,
    decreases rows.len() - i,
{
    if 0 <= i < rows.len() {
        lemma_result_col_bound(rows[i], 0);
        lemma_existing_bound(rows, i + 1);
    }
}

proof fn lemma_last_filled_bound(row: Seq<Seq<char>>)
    ensures
        last_filled(row) matches Some(c) ==> 0 <= c < row.len(),
    decreases row.len(),
{
    if row.len() > 0 {
        lemma_last_filled_bound(row.drop_last());
    }
}

fn last_filled_exec(row: &Vec<String>) -> (r: Option<usize>)
    ensures
        match r {
            Some(c) => last_filled(row_view(*row)) == Some(c as int),
            None => last_filled(row_view(*row)) is None,
        },
{
    let ghost rv = row_view(*row);
    let mut i: usize = row.len();
    assert(rv.take(i as int) =~= rv);
    while i > 0
        invariant
            i <= row.len(),
            rv == row_view(*row),
            last_filled(rv) == last_filled(rv.take(i as int)),
        decreases i,
    {
        assert(rv.take(i as int).drop_last() =~= rv.take(i - 1));
        assert(rv.take(i as int).last() == row@[i - 1]@);
        let t = crate::text::trim_str(row[i - 1].as_str());
        if t.len() > 0 {
            return Some(i - 1);
        }
        i = i - 1;
    }
    assert(rv.take(0) =~= Seq::<Seq<char>>::empty());
    None
}

pub fn next_result_column(rows: &Vec<Vec<String>>) -> (r: u32)
    requires
        columns_fit(table_view(rows@)),
    ensures
        r == next_result_col(table_view(rows@)),
{
    let ghost tv = table_view(rows@);
    proof {
        lemma_existing_bound(tv, 0);
    }
    if let Some(index) = find_existing_result_column(rows) {
        return index as u32 + 1;
    }
    let mut best: Option<usize> = None;
    let mut i: usize = 0;
    while i < rows.len()
        invariant
            i <= rows.len(),
            tv == table_view(rows@),
            columns_fit(tv),
            match best {
                Some(b) => max_filled(tv.take(i as int)) == Some(b as int) && b < u32::MAX - 2,
                None => max_filled(tv.take(i as int)) is None,
            },
        decreases rows.len() - i,
    {
        assert(tv.take(i + 1).drop_last() =~= tv.take(i as int));
        assert(tv.take(i + 1).last() == tv[i as int]);
        assert(tv[i as int].len() < u32::MAX - 2);
        proof {
            lemma_last_filled_bound(tv[i as int]);
        }
        match last_filled_exec(&rows[i]) {
            None => {},
            Some(l) => {
                best = match best {
                    None => Some(l),
                    Some(b) => Some(if b >= l { b } else { l }),
                };
            },
        }
        i = i + 1;
    }
    assert(tv.take(rows.len() as int) =~= tv);
    match best {
        Some(b) => b as u32 + 2,
        None => 1,
    }
}

// ---------------------------------------------------------------------------
// The whole sheet
// ---------------------------------------------------------------------------

/// The outcome of one data row, by the index of the row in the sheet.
#[derive(Debug)]
pub struct XlsxRowResult {
    pub row_index: usize,
    pub value: Result<String, String>,
}

pub open spec fn row_result_view(r: XlsxRowResult) -> (int, Result<Seq<char>, Seq<char>>) {
    (
        r.row_index as int,
        match r.value {
            Ok(v) => Ok(v@),
            Err(e) => Err(e@),
        },
    )
}

/// The outcome of every data row among `rows[from..to]` that is not blank.
pub open spec fn sheet_results(rows: Seq<Seq<Seq<char>>>, cols: ColumnIndexes, from: int, to: int) -> Seq<
    (int, Result<Seq<char>, Seq<char>>),
>
    decreases to - from,
{
    if to <= from {
        Seq::empty()
    } else {
        let p = sheet_results(rows, cols, from, to - 1);
        let r = rows[to - 1];
        if blank_row(r) {
            p
        } else {
            p.push((to - 1, xlsx_row_outcome(r, cols)))
        }
    }
}

pub open spec fn ok_results(rs: Seq<(int, Result<Seq<char>, Seq<char>>)>) -> nat
    decreases rs.len(),
{
    if rs.len() == 0 {
        0
    } else {
        ok_results(rs.drop_last()) + if rs.last().1 is Ok {
            1nat
        } else {
            0nat
        }
    }
}

/// What goes into the sheet: where the header row is, the first result
/// column, and the outcome of every data row below the header.
#[derive(Debug)]
pub struct XlsxPlan {
    pub header_index: usize,
    pub start_column: u32,
    pub results: Vec<XlsxRowResult>,
    pub ok_count: usize,
    pub error_count: usize,
}

pub open spec fn missing_columns_error() -> Seq<char> {
    "kerakli ustunlar topilmadi: KG, RAZMER, 1 QAVAT, 1 MIKRON, 2 QAVAT, 2 MIKRON"@
}

/// The plan for a sheet, or the error when no table is found in it.
pub open spec fn plan_matches(rows: Seq<Seq<Seq<char>>>, r: Result<XlsxPlan, String>) -> bool {
    match xlsx_header_spec(rows) {
        None => r matches Err(e) && e@ == missing_columns_error(),
        Some((h, cols)) => {
            let rs = sheet_results(rows, cols, h + 1, rows.len() as int);
            &&& r matches Ok(p)
            &&& p.header_index == h
            &&& p.start_column == next_result_col(rows)
            &&& p.results@.map_values(|x: XlsxRowResult| row_result_view(x)) == rs
            &&& p.ok_count == ok_results(rs)
            &&& p.ok_count + p.error_count == rs.len()
        },
    }
}

proof fn lemma_header_bounds(rows: Seq<Seq<Seq<char>>>, i: int)
    ensures
        find_header_from(rows, true, rows.len() as int, i) matches Some((h, _)) ==> 0 <= h
            < rows.len(),
    decreases rows.len() - i,
{
    if 0 <= i < rows.len() {
        lemma_header_bounds(rows, i + 1);
    }
}


proof fn lemma_ok_results_push(
    p: Seq<(int, Result<Seq<char>, Seq<char>>)>,
    x: (int, Result<Seq<char>, Seq<char>>),
)
    ensures
        ok_results(p.push(x)) == ok_results(p) + if x.1 is Ok {
            1nat
        } else {
            0nat
        },
{
    assert(p.push(x).drop_last() =~= p);
}

fn push_result(results: &mut Vec<XlsxRowResult>, row_index: usize, value: Result<String, String>)
    ensures
        final(results)@.map_values(|x: XlsxRowResult| row_result_view(x)) == old(results)@.map_values(
            |x: XlsxRowResult| row_result_view(x),
        ).push(row_result_view(XlsxRowResult { row_index, value })),
{
    let ghost before = results@.map_values(|x: XlsxRowResult| row_result_view(x));
    results.push(XlsxRowResult { row_index, value });
    assert(results@.map_values(|x: XlsxRowResult| row_result_view(x)) =~= before.push(
        row_result_view(XlsxRowResult { row_index, value }),
    ));
}

/// Computes every data row of a sheet and where the results go.
pub fn plan_xlsx(rows: &Vec<Vec<String>>) -> (r: Result<XlsxPlan, String>)
    requires
        columns_fit(table_view(rows@)),
    ensures
        plan_matches(table_view(rows@), r),
{
    let ghost tv = table_view(rows@);
    proof {
        lemma_header_bounds(tv, 0);
        let n = max_row_len(tv);
        lemma_best_first_row(tv, if n > 5 { (2 * (n - 5)) as nat } else { 0nat });
    }
    let (header_index, cols) = match find_header_row(rows) {
        Some(p) => p,
        None => {
            return Err(crate::text::owned(
                "kerakli ustunlar topilmadi: KG, RAZMER, 1 QAVAT, 1 MIKRON, 2 QAVAT, 2 MIKRON",
            ));
        },
    };
    assert(header_index < rows.len());
    let mut results: Vec<XlsxRowResult> = Vec::new();
    let mut ok_count: usize = 0;
    let mut error_count: usize = 0;
    let mut i = header_index + 1;
    while i < rows.len()
        invariant
            header_index < i <= rows.len(),
            tv == table_view(rows@),
            results@.map_values(|x: XlsxRowResult| row_result_view(x)) == sheet_results(
                tv,
                cols,
                header_index + 1,
                i as int,
            ),
            ok_count == ok_results(sheet_results(tv, cols, header_index + 1, i as int)),
            ok_count + error_count == results.len(),
            results.len() <= i,
        decreases rows.len() - i,
    {
        let ghost before = sheet_results(tv, cols, header_index + 1, i as int);
        assert(tv[i as int] == row_view(rows@[i as int]));
        if !is_blank_row(&rows[i]) {
            let value = calculate_xlsx_row(&rows[i], cols);
            let ok = value.is_ok();
            proof {
                lemma_ok_results_push(before, (i as int, xlsx_row_outcome(tv[i as int], cols)));
            }
            push_result(&mut results, i, value);
            if ok {
                ok_count = ok_count + 1;
            } else {
                error_count = error_count + 1;
            }
        }
        i = i + 1;
    }
    let start_column = next_result_column(rows);
    Ok(XlsxPlan { header_index, start_column, results, ok_count, error_count })
}

/// What `process_xlsx` reports.
#[derive(Debug)]
pub struct XlsxProcessReport {
    pub output: Vec<u8>,
    pub processed_count: usize,
    pub ok_count: usize,
    pub error_count: usize,
}

/// The report on a filled-in sheet: the workbook's bytes and the counts of
/// its plan.
pub fn xlsx_report(plan: &XlsxPlan, output: Vec<u8>) -> (r: XlsxProcessReport)
    requires
        plan.ok_count + plan.error_count <= usize::MAX,
    ensures
        r.output@ == output@,
        r.ok_count == plan.ok_count,
        r.error_count == plan.error_count,
        r.processed_count == plan.ok_count + plan.error_count,
{
    XlsxProcessReport {
        output,
        processed_count: plan.ok_count + plan.error_count,
        ok_count: plan.ok_count,
        error_count: plan.error_count,
    }
}

proof fn lemma_last_filled_is_last(row: Seq<Seq<char>>)
    ensures
        forall|j: int| 0 <= j < row.len() && trim(#[trigger] row[j]).len() > 0 ==> (last_filled(
            row,
        ) matches Some(l) && j <= l),
    decreases row.len(),
{
    if row.len() > 0 {
        let p = row.drop_last();
        lemma_last_filled_is_last(p);
        assert forall|j: int| 0 <= j < row.len() && trim(#[trigger] row[j]).len() > 0 implies (last_filled(
            row,
        ) matches Some(l) && j <= l) by {
            if j < row.len() - 1 {
                assert(p[j] == row[j]);
            }
        }
    }
}

proof fn lemma_max_filled_bounds(rows: Seq<Seq<Seq<char>>>)
    ensures
        forall|i: int, j: int|
            0 <= i < rows.len() && 0 <= j < rows[i].len() && trim(#[trigger] rows[i][j]).len() > 0
                ==> (max_filled(rows) matches Some(m) && j <= m),
    decreases rows.len(),
{
    if rows.len() > 0 {
        let p = rows.drop_last();
        lemma_max_filled_bounds(p);
        lemma_last_filled_is_last(rows.last());
        assert forall|i: int, j: int|
            0 <= i < rows.len() && 0 <= j < rows[i].len() && trim(#[trigger] rows[i][j]).len()
                > 0 implies (max_filled(rows) matches Some(m) && j <= m) by {
            if i < rows.len() - 1 {
                assert(p[i] == rows[i]);
            } else {
                assert(rows[i] == rows.last());
            }
        }
    }
}

/// Where a sheet has no result column yet, the results go to the right of
/// every cell in use: the first result column (counted from 1) is past the
/// column of every cell that is not blank.
pub proof fn lemma_results_after_used_columns(rows: Seq<Seq<Seq<char>>>)
    requires
        existing_result_col(rows, 0) is None,
    ensures
        forall|i: int, j: int|
            0 <= i < rows.len() && 0 <= j < rows[i].len() && trim(#[trigger] rows[i][j]).len() > 0
                ==> j + 1 < next_result_col(rows),
{
    lemma_max_filled_bounds(rows);
}


proof fn lemma_result_col_in_header(row: Seq<Seq<char>>, i: int)
    ensures
        result_col_in(row, i) matches Some(c) ==> 0 <= c < row.len() && norm_header(row[c])
            == "hisoblanganuzunlik"@,
    decreases row.len() - i,
{
    if 0 <= i < row.len() {
        lemma_result_col_in_header(row, i + 1);
    }
}

proof fn lemma_existing_result_header(rows: Seq<Seq<Seq<char>>>, i: int)
    ensures
        existing_result_col(rows, i) matches Some(c) ==> exists|k: int|
            0 <= k < rows.len() && c < rows[k].len() && norm_header(#[trigger] rows[k][c])
                == "hisoblanganuzunlik"@,
    decreases rows.len() - i,
{
    if 0 <= i < rows.len() {
        lemma_result_col_in_header(rows[i], 0);
        lemma_existing_result_header(rows, i + 1);
        if let Some(c) = result_col_in(rows[i], 0) {
            assert(norm_header(rows[i][c]) == "hisoblanganuzunlik"@);
        }
    }
}

/// Results are written over a column only when a row already has the
/// results header (`HISOBLANGAN_UZUNLIK`) there; otherwise they start after
/// the last column that any row uses.
pub proof fn lemma_only_result_column_is_reused(rows: Seq<Seq<Seq<char>>>)
    ensures
        existing_result_col(rows, 0) matches Some(c) ==> next_result_col(rows) == c + 1
            && exists|k: int|
            0 <= k < rows.len() && c < rows[k].len() && norm_header(#[trigger] rows[k][c])
                == "hisoblanganuzunlik"@,
        existing_result_col(rows, 0) is None ==> forall|i: int, j: int|
            0 <= i < rows.len() && 0 <= j < rows[i].len() && trim(#[trigger] rows[i][j]).len() > 0
                ==> j + 1 < next_result_col(rows),
{
    lemma_existing_result_header(rows, 0);
    if existing_result_col(rows, 0) is None {
        lemma_results_after_used_columns(rows);
    }
}


/// A sheet with a row that has a documented header for each of the six
/// columns has its header row found at that row or an earlier one.
pub proof fn lemma_xlsx_documented_header_found(
    rows: Seq<Seq<Seq<char>>>,
    j: int,
    kg: int,
    width: int,
    q1: int,
    m1: int,
    q2: int,
    m2: int,
)
    requires
        0 <= j < rows.len(),
        0 <= kg < rows[j].len() && documented_header(norm_header(rows[j][kg]), HeaderKind::Kg, true),
        0 <= width < rows[j].len() && documented_header(norm_header(rows[j][width]), HeaderKind::Width, true),
        0 <= q1 < rows[j].len() && documented_header(norm_header(rows[j][q1]), HeaderKind::FirstMaterial, true),
        0 <= m1 < rows[j].len() && documented_header(norm_header(rows[j][m1]), HeaderKind::FirstMicron, true),
        0 <= q2 < rows[j].len() && documented_header(norm_header(rows[j][q2]), HeaderKind::SecondMaterial, true),
        0 <= m2 < rows[j].len() && documented_header(norm_header(rows[j][m2]), HeaderKind::SecondMicron, true),
    ensures
        xlsx_header_spec(rows) matches Some((h, _)) && h <= j,
{
    crate::table::lemma_documented_row_found(rows[j], true, kg, width, q1, m1, q2, m2);
    crate::table::lemma_header_row_reached(rows, true, rows.len() as int, 0, j);
}

} // verus!
