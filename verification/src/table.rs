//! Rows of a table read by the bot: locating the header and the six columns,
//! and turning a data row into an order.
use vstd::prelude::*;

use crate::headers::{
    documented_header, header_matches, header_matches_spec, lemma_documented_headers_match, norm_header, normalize_header, ColumnIndexes, HeaderKind,
};
use crate::num::{parse_unsigned, parse_unsigned_at, Decimal};
use crate::order::{empty_draft, DraftView, OrderDraft};
use crate::text::{
    all_char, all_char_exec, append_all, append_str, chars_of, keep, keep_chars, replace_char,
    replace_char_exec, string_of, trim, trim_chars, CharClass,
};

verus! {

pub open spec fn row_view(r: Vec<String>) -> Seq<Seq<char>> {
    r@.map_values(|s: String| s@)
}

pub open spec fn table_view(t: Seq<Vec<String>>) -> Seq<Seq<Seq<char>>> {
    t.map_values(|r: Vec<String>| row_view(r))
}

/// The cell at `i`, or the empty text past the end of the row.
pub open spec fn cell(row: Seq<Seq<char>>, i: int) -> Seq<char> {
    if 0 <= i < row.len() {
        row[i]
    } else {
        Seq::<char>::empty()
    }
}

pub fn get_cell(row: &Vec<String>, index: usize) -> (r: Vec<char>)
    ensures
        r@ == cell(row_view(*row), index as int),
{
    if index < row.len() {
        chars_of(row[index].as_str())
    } else {
        Vec::new()
    }
}

// ---------------------------------------------------------------------------
// Columns
// ---------------------------------------------------------------------------

pub open spec fn find_col_from(row: Seq<Seq<char>>, kind: HeaderKind, razmeri: bool, i: int) -> Option<
    int,
>
    decreases row.len() - i,
{
    if i < 0 || i >= row.len() {
        None
    } else if header_matches_spec(norm_header(row[i]), kind, razmeri) {
        Some(i)
    } else {
        find_col_from(row, kind, razmeri, i + 1)
    }
}

/// The first column whose header names `kind`.
pub open spec fn find_column_spec(row: Seq<Seq<char>>, kind: HeaderKind, razmeri: bool) -> Option<
    int,
> {
    find_col_from(row, kind, razmeri, 0)
}

pub fn find_column(row: &Vec<String>, kind: HeaderKind, razmeri: bool) -> (r: Option<usize>)
    ensures
        match r {
            Some(i) => find_column_spec(row_view(*row), kind, razmeri) == Some(i as int),
            None => find_column_spec(row_view(*row), kind, razmeri) is None,
        },
{
    let ghost rv = row_view(*row);
    let mut i: usize = 0;
    while i < row.len()
        invariant
            i <= row.len(),
            rv == row_view(*row),
            find_column_spec(rv, kind, razmeri) == find_col_from(rv, kind, razmeri, i as int),
        decreases row.len() - i,
    {
        let c = chars_of(row[i].as_str());
        let h = normalize_header(&c);
        if header_matches(&h, kind, razmeri) {
            return Some(i);
        }
        i = i + 1;
    }
    None
}

pub open spec fn find_columns_spec(row: Seq<Seq<char>>, razmeri: bool) -> Option<ColumnIndexes> {
    match (
        find_column_spec(row, HeaderKind::Kg, razmeri),
        find_column_spec(row, HeaderKind::Width, razmeri),
        find_column_spec(row, HeaderKind::FirstMaterial, razmeri),
        find_column_spec(row, HeaderKind::FirstMicron, razmeri),
        find_column_spec(row, HeaderKind::SecondMaterial, razmeri),
        find_column_spec(row, HeaderKind::SecondMicron, razmeri),
    ) {
        (Some(a), Some(b), Some(c), Some(d), Some(e), Some(f)) => Some(
            ColumnIndexes {
                kg: a as usize,
                width: b as usize,
                first_material: c as usize,
                first_micron: d as usize,
                second_material: e as usize,
                second_micron: f as usize,
            },
        ),
        _ => None,
    }
}

proof fn lemma_find_col_bounded(row: Seq<Seq<char>>, kind: HeaderKind, razmeri: bool, i: int)
    ensures
        find_col_from(row, kind, razmeri, i) matches Some(j) ==> 0 <= j < row.len(),
    decreases row.len() - i,
{
    if 0 <= i < row.len() {
        lemma_find_col_bounded(row, kind, razmeri, i + 1);
    }
}

pub fn find_columns(row: &Vec<String>, razmeri: bool) -> (r: Option<ColumnIndexes>)
    ensures
        r == find_columns_spec(row_view(*row), razmeri),
{
    proof {
        lemma_find_col_bounded(row_view(*row), HeaderKind::Kg, razmeri, 0);
        lemma_find_col_bounded(row_view(*row), HeaderKind::Width, razmeri, 0);
        lemma_find_col_bounded(row_view(*row), HeaderKind::FirstMaterial, razmeri, 0);
        lemma_find_col_bounded(row_view(*row), HeaderKind::FirstMicron, razmeri, 0);
        lemma_find_col_bounded(row_view(*row), HeaderKind::SecondMaterial, razmeri, 0);
        lemma_find_col_bounded(row_view(*row), HeaderKind::SecondMicron, razmeri, 0);
    }
    let kg = find_column(row, HeaderKind::Kg, razmeri)?;
    let width = find_column(row, HeaderKind::Width, razmeri)?;
    let first_material = find_column(row, HeaderKind::FirstMaterial, razmeri)?;
    let first_micron = find_column(row, HeaderKind::FirstMicron, razmeri)?;
    let second_material = find_column(row, HeaderKind::SecondMaterial, razmeri)?;
    let second_micron = find_column(row, HeaderKind::SecondMicron, razmeri)?;
    Some(
        ColumnIndexes { kg, width, first_material, first_micron, second_material, second_micron },
    )
}

/// A header that spans two rows: each column of the row above joined to the
/// column of this row by a space.
pub open spec fn combined_spec(rows: Seq<Seq<Seq<char>>>, index: int) -> Seq<Seq<char>> {
    let cur = rows[index];
    if index == 0 {
        cur
    } else {
        let prev = rows[index - 1];
        let n = if cur.len() >= prev.len() {
            cur.len()
        } else {
            prev.len()
        };
        Seq::new(n, |c: int| cell(prev, c) + " "@ + cell(cur, c))
    }
}

pub fn combined_header_row(rows: &Vec<Vec<String>>, index: usize) -> (r: Vec<String>)
    requires
        index < rows.len(),
    ensures
        row_view(r) == combined_spec(table_view(rows@), index as int),
{
    let ghost tv = table_view(rows@);
    assert(tv[index as int] == row_view(rows@[index as int]));
    if index == 0 {
        let r = rows[0].clone();
        assert(row_view(r) =~= row_view(rows@[0]));
        return r;
    }
    assert(tv[index - 1] == row_view(rows@[index - 1]));
    let cur = &rows[index];
    let prev = &rows[index - 1];
    let n = if cur.len() >= prev.len() {
        cur.len()
    } else {
        prev.len()
    };
    let mut r: Vec<String> = Vec::new();
    let mut c: usize = 0;
    while c < n
        invariant
            c <= n,
            index < rows.len(),
            index > 0,
            cur == &rows[index as int],
            prev == &rows[index - 1],
            n == (if cur.len() >= prev.len() {
                cur.len()
            } else {
                prev.len()
            }),
            r.len() == c,
            forall|k: int|
                0 <= k < c ==> #[trigger] r@[k]@ == cell(row_view(*prev), k) + " "@ + cell(
                    row_view(*cur),
                    k,
                ),
        decreases n - c,
    {
        let mut v = get_cell(prev, c);
        append_str(&mut v, " ");
        let w = get_cell(cur, c);
        append_all(&mut v, &w);
        r.push(string_of(&v));
        c = c + 1;
    }
    assert(row_view(r) =~= combined_spec(tv, index as int));
    r
}

/// The first of the first `limit` rows that names all six columns, alone or
/// together with the row above it.
pub open spec fn find_header_from(rows: Seq<Seq<Seq<char>>>, razmeri: bool, limit: int, i: int) -> Option<
    (int, ColumnIndexes),
>
    decreases limit - i,
{
    if i < 0 || i >= limit || i >= rows.len() {
        None
    } else {
        match find_columns_spec(rows[i], razmeri) {
            Some(c) => Some((i, c)),
            None => match find_columns_spec(combined_spec(rows, i), razmeri) {
                Some(c) => Some((i, c)),
                None => find_header_from(rows, razmeri, limit, i + 1),
            },
        }
    }
}

pub fn find_header_in(rows: &Vec<Vec<String>>, razmeri: bool, limit: usize) -> (r: Option<
    (usize, ColumnIndexes),
>)
    ensures
        match r {
            Some((i, c)) => find_header_from(table_view(rows@), razmeri, limit as int, 0) == Some(
                (i as int, c),
            ),
            None => find_header_from(table_view(rows@), razmeri, limit as int, 0) is None,
        },
{
    let ghost tv = table_view(rows@);
    let mut i: usize = 0;
    while i < limit && i < rows.len()
        invariant
            tv == table_view(rows@),
            find_header_from(tv, razmeri, limit as int, 0) == find_header_from(
                tv,
                razmeri,
                limit as int,
                i as int,
            ),
        decreases rows.len() - i,
    {
        assert(tv[i as int] == row_view(rows@[i as int]));
        if let Some(c) = find_columns(&rows[i], razmeri) {
            return Some((i, c));
        }
        let combined = combined_header_row(rows, i);
        if let Some(c) = find_columns(&combined, razmeri) {
            return Some((i, c));
        }
        i = i + 1;
    }
    None
}

// ---------------------------------------------------------------------------
// Cells
// ---------------------------------------------------------------------------

/// A weight or size cell: its digits, points and commas, with commas read as
/// points; it must be a number above zero.
pub open spec fn parse_decimal_spec(value: Seq<char>) -> Result<Decimal, Seq<char>> {
    let t = replace_char(keep(value, CharClass::NumberChars), ',', "."@);
    match parse_unsigned(t) {
        None => Err("raqam noto'g'ri: '"@ + value + "'"@),
        Some(d) => if d.units == 0 {
            Err("raqam 0 dan katta bo'lishi kerak: '"@ + value + "'"@)
        } else {
            Ok(d)
        },
    }
}

pub fn parse_decimal(value: &Vec<char>) -> (r: Result<Decimal, String>)
    ensures
        match (r, parse_decimal_spec(value@)) {
            (Ok(a), Ok(b)) => a == b,
            (Err(a), Err(b)) => a@ == b,
            _ => false,
        },
        r matches Ok(d) ==> d.wf(),
{
    let k = keep_chars(value, CharClass::NumberChars);
    let t = replace_char_exec(&k, ',', ".");
    assert(t@.skip(0) =~= t@);
    match parse_unsigned_at(&t, 0) {
        None => {
            let mut e = chars_of("raqam noto'g'ri: '");
            append_all(&mut e, value);
            append_str(&mut e, "'");
            Err(string_of(&e))
        },
        Some(d) => {
            if d.units == 0 {
                let mut e = chars_of("raqam 0 dan katta bo'lishi kerak: '");
                append_all(&mut e, value);
                append_str(&mut e, "'");
                Err(string_of(&e))
            } else {
                Ok(d)
            }
        },
    }
}

/// A cell that may be left empty: blank or only dashes is no value.
pub open spec fn optional_cell_spec(value: Seq<char>) -> Option<Seq<char>> {
    let t = trim(value);
    if t.len() == 0 || all_char(t, '-') {
        None
    } else {
        Some(t)
    }
}

pub fn optional_cell(value: &Vec<char>) -> (r: Option<String>)
    ensures
        crate::order::opt_view(r) == optional_cell_spec(value@),
{
    let t = trim_chars(value);
    if t.len() == 0 || all_char_exec(&t, '-') {
        None
    } else {
        Some(string_of(&t))
    }
}

/// The order that a data row describes.
pub open spec fn row_order_spec(row: Seq<Seq<char>>, cols: ColumnIndexes) -> Result<
    DraftView,
    Seq<char>,
> {
    match parse_decimal_spec(cell(row, cols.kg as int)) {
        Err(e) => Err(e),
        Ok(kg) => match parse_decimal_spec(cell(row, cols.width as int)) {
            Err(e) => Err(e),
            Ok(w) => Ok(
                DraftView {
                    kg: Some(kg),
                    width_mm: Some(w),
                    first_material: Some(cell(row, cols.first_material as int)),
                    first_micron: Some(cell(row, cols.first_micron as int)),
                    second_material: optional_cell_spec(cell(row, cols.second_material as int)),
                    second_micron: optional_cell_spec(cell(row, cols.second_micron as int)),
                    ..empty_draft()
                },
            ),
        },
    }
}

pub fn row_order(row: &Vec<String>, cols: ColumnIndexes) -> (r: Result<OrderDraft, String>)
    ensures
        match (r, row_order_spec(row_view(*row), cols)) {
            (Ok(a), Ok(b)) => a@ == b,
            (Err(a), Err(b)) => a@ == b,
            _ => false,
        },
{
    let q1 = get_cell(row, cols.first_material);
    let m1 = get_cell(row, cols.first_micron);
    let q2 = get_cell(row, cols.second_material);
    let m2 = get_cell(row, cols.second_micron);
    let kg = match parse_decimal(&get_cell(row, cols.kg)) {
        Ok(v) => v,
        Err(e) => {
            return Err(e);
        },
    };
    let width = match parse_decimal(&get_cell(row, cols.width)) {
        Ok(v) => v,
        Err(e) => {
            return Err(e);
        },
    };
    let mut order = OrderDraft::default();
    order.kg = Some(kg);
    order.width_mm = Some(width);
    order.first_material = Some(string_of(&q1));
    order.first_micron = Some(string_of(&m1));
    order.second_material = optional_cell(&q2);
    order.second_micron = optional_cell(&m2);
    Ok(order)
}

/// A row with nothing but white space in it.
pub open spec fn blank_row(row: Seq<Seq<char>>) -> bool {
    forall|i: int| 0 <= i < row.len() ==> trim(#[trigger] row[i]).len() == 0
}

pub fn is_blank_row(row: &Vec<String>) -> (r: bool)
    ensures
        r == blank_row(row_view(*row)),
{
    let mut i: usize = 0;
    while i < row.len()
        invariant
            i <= row.len(),
            forall|k: int| 0 <= k < i ==> trim(#[trigger] row_view(*row)[k]).len() == 0,
        decreases row.len() - i,
    {
        let t = crate::text::trim_str(row[i].as_str());
        if t.len() > 0 {
            assert(trim(row_view(*row)[i as int]).len() > 0);
            return false;
        }
        i = i + 1;
    }
    true
}


proof fn lemma_find_col_reaches(row: Seq<Seq<char>>, kind: HeaderKind, razmeri: bool, i: int, j: int)
    requires
        0 <= i <= j < row.len(),
        header_matches_spec(norm_header(row[j]), kind, razmeri),
    ensures
        find_col_from(row, kind, razmeri, i) matches Some(c) && i <= c <= j
            && header_matches_spec(norm_header(row[c]), kind, razmeri),
    decreases j - i,
{
    if !header_matches_spec(norm_header(row[i]), kind, razmeri) {
        lemma_find_col_reaches(row, kind, razmeri, i + 1, j);
    }
}

/// A column whose normalised header is a documented name of its kind is
/// found: the column found for that kind is it or an earlier one with a
/// header of the same kind.
pub proof fn lemma_documented_column_found(row: Seq<Seq<char>>, kind: HeaderKind, razmeri: bool, j: int)
    requires
        0 <= j < row.len(),
        documented_header(norm_header(row[j]), kind, razmeri),
    ensures
        find_column_spec(row, kind, razmeri) matches Some(c) && c <= j
            && header_matches_spec(norm_header(row[c]), kind, razmeri),
{
    lemma_documented_headers_match(norm_header(row[j]), kind, razmeri);
    lemma_find_col_reaches(row, kind, razmeri, 0, j);
}

/// A row that has a documented header for each of the six columns is a
/// header row: all six columns are found.
pub proof fn lemma_documented_row_found(
    row: Seq<Seq<char>>,
    razmeri: bool,
    kg: int,
    width: int,
    q1: int,
    m1: int,
    q2: int,
    m2: int,
)
    requires
        0 <= kg < row.len() && documented_header(norm_header(row[kg]), HeaderKind::Kg, razmeri),
        0 <= width < row.len() && documented_header(norm_header(row[width]), HeaderKind::Width, razmeri),
        0 <= q1 < row.len() && documented_header(norm_header(row[q1]), HeaderKind::FirstMaterial, razmeri),
        0 <= m1 < row.len() && documented_header(norm_header(row[m1]), HeaderKind::FirstMicron, razmeri),
        0 <= q2 < row.len() && documented_header(norm_header(row[q2]), HeaderKind::SecondMaterial, razmeri),
        0 <= m2 < row.len() && documented_header(norm_header(row[m2]), HeaderKind::SecondMicron, razmeri),
    ensures
        find_columns_spec(row, razmeri) is Some,
{
    lemma_documented_column_found(row, HeaderKind::Kg, razmeri, kg);
    lemma_documented_column_found(row, HeaderKind::Width, razmeri, width);
    lemma_documented_column_found(row, HeaderKind::FirstMaterial, razmeri, q1);
    lemma_documented_column_found(row, HeaderKind::FirstMicron, razmeri, m1);
    lemma_documented_column_found(row, HeaderKind::SecondMaterial, razmeri, q2);
    lemma_documented_column_found(row, HeaderKind::SecondMicron, razmeri, m2);
}


/// A header row within the first `limit` rows is found: the search stops at
/// it or at an earlier header row.
pub proof fn lemma_header_row_reached(rows: Seq<Seq<Seq<char>>>, razmeri: bool, limit: int, i: int, j: int)
    requires
        0 <= i <= j < limit,
        j < rows.len(),
        find_columns_spec(rows[j], razmeri) is Some,
    ensures
        find_header_from(rows, razmeri, limit, i) matches Some((h, _)) && i <= h <= j,
    decreases j - i,
{
    if find_columns_spec(rows[i], razmeri) is None && find_columns_spec(combined_spec(rows, i), razmeri) is None {
        lemma_header_row_reached(rows, razmeri, limit, i + 1, j);
    }
}

} // verus!
