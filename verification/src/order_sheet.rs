//! The one-row order sheet: the cells of the row, the rubber size and the
//! file name. Building the workbook itself is left to the caller.
use vstd::prelude::*;

use crate::calc::{ceil_div, CalcResult};
use crate::num::{
    decimal_rounded_text, lemma_pow10_pos, pow10, pow10_u128, round_half_even, Decimal,
};
use crate::order::{missing_error, opt_view, require_text_spec, DraftView, OrderDraft};
use crate::text::{
    append_all, append_str, chars_of, digits_of, eq_str, keep, keep_chars, nat_digits, owned,
    string_of, trim, trim_str, CharClass,
};

verus! {

/// The rubber size for a width in millimetres: the width rounded up to a
/// multiple of 50, kept between 50 and 1300.
pub open spec fn rubber_size_spec(width: Decimal) -> nat {
    let n = 50 * ceil_div(width.units as nat, 50 * pow10(width.scale as nat));
    if n < 50 {
        50
    } else if n > 1300 {
        1300
    } else {
        n
    }
}

pub fn rubber_size(width_mm: Decimal) -> (r: u32)
    requires
        width_mm.wf(),
        50 * ceil_div(width_mm.units as nat, 50 * pow10(width_mm.scale as nat)) <= u32::MAX,
    ensures
        r == rubber_size_spec(width_mm),
{
    proof {
        lemma_pow10_pos(width_mm.scale as nat);
        crate::num::lemma_pow10_mono(width_mm.scale as nat, 6);
        reveal_with_fuel(pow10, 7);
    }
    let p = pow10_u128(width_mm.scale);
    let d: u128 = 50 * p;
    let units = width_mm.units as u128;
    let steps = units / d + if units % d != 0 {
        1
    } else {
        0
    };
    assert(steps == ceil_div(units as nat, d as nat)) by (nonlinear_arith)
        requires
            d > 0,
            steps == units / d + if units % d != 0 {
                1int
            } else {
                0int
            },
    ;
    let n = 50 * steps;
    if n < 50 {
        50
    } else if n > 1300 {
        1300
    } else {
        n as u32
    }
}

/// The file name of an order sheet: the order number with only ASCII
/// letters, digits, `-` and `_` kept.
pub open spec fn sheet_filename_spec(order_number: Option<Seq<char>>) -> Seq<char> {
    let number = keep(
        match order_number {
            Some(n) => n,
            None => "buyurtma"@,
        },
        CharClass::FileName,
    );
    "buyurtma_"@ + (if number.len() == 0 {
        "jadval"@
    } else {
        number
    }) + ".xlsx"@
}

pub fn sheet_filename(order: &OrderDraft) -> (r: String)
    ensures
        r@ == sheet_filename_spec(opt_view(order.order_number)),
{
    let raw = match &order.order_number {
        Some(n) => chars_of(n.as_str()),
        None => chars_of("buyurtma"),
    };
    let number = keep_chars(&raw, CharClass::FileName);
    let mut v = chars_of("buyurtma_");
    if number.len() == 0 {
        append_str(&mut v, "jadval");
    } else {
        append_all(&mut v, &number);
    }
    append_str(&mut v, ".xlsx");
    string_of(&v)
}

/// The second (and third) layer as one cell: the third is added after a `/`
/// unless it is blank, and stands alone where the second is blank or `--`.
pub open spec fn join_layers_spec(first: Seq<char>, second: Option<Seq<char>>) -> Seq<char> {
    match second {
        Some(s) => if trim(s).len() == 0 {
            first
        } else if trim(first).len() == 0 || first == "--"@ {
            s
        } else {
            first + "/"@ + s
        },
        None => first,
    }
}

pub fn join_layers(first: &str, second: Option<&str>) -> (r: String)
    ensures
        r@ == join_layers_spec(
            first@,
            match second {
                Some(s) => Some(s@),
                None => None,
            },
        ),
{
    let s = match second {
        Some(s) => s,
        None => {
            return owned(first);
        },
    };
    let st = trim_str(s);
    if st.len() == 0 {
        return owned(first);
    }
    let ft = trim_str(first);
    let fv = chars_of(first);
    if ft.len() == 0 || eq_str(&fv, "--") {
        owned(s)
    } else {
        let mut v = fv;
        append_str(&mut v, "/");
        append_str(&mut v, s);
        string_of(&v)
    }
}

pub open spec fn or_dashes(o: Option<Seq<char>>) -> Seq<char> {
    match o {
        Some(s) => s,
        None => "--"@,
    }
}

/// The second material cell of an order.
pub fn second_material(order: &OrderDraft) -> (r: String)
    ensures
        r@ == join_layers_spec(or_dashes(order@.second_material), order@.third_material),
{
    let first = match &order.second_material {
        Some(s) => s.as_str(),
        None => "--",
    };
    match &order.third_material {
        Some(t) => join_layers(first, Some(t.as_str())),
        None => join_layers(first, None),
    }
}

/// The second micron cell of an order.
pub fn second_micron(order: &OrderDraft) -> (r: String)
    ensures
        r@ == join_layers_spec(or_dashes(order@.second_micron), order@.third_micron),
{
    let first = match &order.second_micron {
        Some(s) => s.as_str(),
        None => "--",
    };
    match &order.third_micron {
        Some(t) => join_layers(first, Some(t.as_str())),
        None => join_layers(first, None),
    }
}

/// The current time as `HH:MM`, from chrono's `Local::now` formatted with
/// `%H:%M`: the zero-padded hour and minute joined by `:`. Which time it is,
/// is not stated.
#[verifier::external_body]
fn time_of_day() -> (r: String)
    ensures
        r@.len() == 5,
        r@[2] == ':',
        forall|i: int| 0 <= i < 5 && i != 2 ==> crate::text::is_digit(#[trigger] r@[i]),
{
    chrono::Local::now().format("%H:%M").to_string()
}

/// A number as `{:.0}` writes it.
pub open spec fn number_cell(d: Decimal) -> Seq<char> {
    nat_digits(round_half_even(d.units as nat, pow10(d.scale as nat)))
}

fn number_cell_exec(d: Decimal) -> (r: String)
    ensures
        r@ == number_cell(d),
{
    string_of(&decimal_rounded_text(d))
}

/// The cells of an order's row, but its time, which is the time of the
/// call: date, time, number, product, kg, first material, second material,
/// width, first micron, second micron, length, rolls and rubber size; or
/// the first field that is missing.
pub open spec fn order_row_spec(o: DraftView, length: u128) -> Result<Seq<Seq<char>>, Seq<char>> {
    match o.width_mm {
        None => Err(missing_error("RAZMER"@)),
        Some(w) => match require_text_spec(o.order_number, "Buyurtma raqami"@) {
            Err(e) => Err(e),
            Ok(number) => match require_text_spec(o.product, "Mahsulot"@) {
                Err(e) => Err(e),
                Ok(product) => match o.kg {
                    None => Err(missing_error("KG"@)),
                    Some(kg) => match require_text_spec(o.first_material, "1-qavat"@) {
                        Err(e) => Err(e),
                        Ok(q1) => match require_text_spec(o.first_micron, "1-mikron"@) {
                            Err(e) => Err(e),
                            Ok(m1) => match o.roll_count {
                                None => Err(missing_error("Val soni"@)),
                                Some(rolls) => Ok(
                                    seq![
                                        match o.date {
                                            Some(d) => d,
                                            None => Seq::empty(),
                                        },
                                        Seq::empty(),
                                        number,
                                        product,
                                        number_cell(kg),
                                        q1,
                                        join_layers_spec(or_dashes(o.second_material), o.third_material),
                                        number_cell(w),
                                        m1,
                                        join_layers_spec(or_dashes(o.second_micron), o.third_micron),
                                        nat_digits(length as nat),
                                        number_cell(rolls),
                                        nat_digits(rubber_size_spec(w)),
                                    ],
                                ),
                            },
                        },
                    },
                },
            },
        },
    }
}

/// The cells of the row of an order sheet.
pub fn order_row(order: &OrderDraft, result: &CalcResult) -> (r: Result<Vec<String>, String>)
    requires
        order@.width_mm matches Some(w) ==> (w.wf() && 50 * ceil_div(
            w.units as nat,
            50 * pow10(w.scale as nat),
        ) <= u32::MAX),
    ensures
        match (r, order_row_spec(order@, result.rounded_length)) {
            (Ok(a), Ok(b)) => a.len() == b.len() && forall|i: int|
                0 <= i < b.len() && i != 1 ==> #[trigger] a@[i]@ == b[i],
            (Err(a), Err(b)) => a@ == b,
            _ => false,
        },
{
    let width = OrderDraft::require_number(order.width_mm, "RAZMER")?;
    let date = match &order.date {
        Some(d) => d.clone(),
        None => String::new(),
    };
    let time = time_of_day();
    let number = OrderDraft::require_text(&order.order_number, "Buyurtma raqami")?;
    let product = OrderDraft::require_text(&order.product, "Mahsulot")?;
    let kg = OrderDraft::require_number(order.kg, "KG")?;
    let q1 = OrderDraft::require_text(&order.first_material, "1-qavat")?;
    let q2 = second_material(order);
    let m1 = OrderDraft::require_text(&order.first_micron, "1-mikron")?;
    let m2 = second_micron(order);
    let rolls = OrderDraft::require_number(order.roll_count, "Val soni")?;
    let mut row: Vec<String> = Vec::new();
    row.push(date);
    row.push(time);
    row.push(number);
    row.push(product);
    row.push(number_cell_exec(kg));
    row.push(q1);
    row.push(q2);
    row.push(number_cell_exec(width));
    row.push(m1);
    row.push(m2);
    row.push(string_of(&digits_of(result.rounded_length)));
    row.push(number_cell_exec(rolls));
    row.push(string_of(&digits_of(rubber_size(width) as u128)));
    Ok(row)
}


/// The two header rows of an order sheet, column by column (top, bottom).
pub open spec fn order_sheet_headers_spec() -> Seq<(Seq<char>, Seq<char>)> {
    seq![
        ("oym"@, "sana"@),
        ("tushgan"@, "vaqti"@),
        ("ish"@, "kod"@),
        ("buyurtmalar nomi"@, ""@),
        ("tushgan"@, "kg"@),
        ("1-"@, "qavat"@),
        ("2-"@, "qavat"@),
        ("material"@, "razmeri"@),
        ("1-q"@, "micron"@),
        ("2-q"@, "micron"@),
        ("umumiy"@, "metri"@),
        ("val soni"@, ""@),
        ("rezina"@, "razmeri"@),
    ]
}

/// The two header rows of an order sheet, column by column (top, bottom);
/// one column for every cell of `order_row`.
pub fn order_sheet_headers() -> (r: Vec<(String, String)>)
    ensures
        r.len() == order_sheet_headers_spec().len(),
        forall|i: int|
            0 <= i < r.len() ==> (#[trigger] r@[i]).0@ == order_sheet_headers_spec()[i].0
                && r@[i].1@ == order_sheet_headers_spec()[i].1,
{
    let mut r: Vec<(String, String)> = Vec::new();
    r.push((owned("oym"), owned("sana")));
    r.push((owned("tushgan"), owned("vaqti")));
    r.push((owned("ish"), owned("kod")));
    r.push((owned("buyurtmalar nomi"), owned("")));
    r.push((owned("tushgan"), owned("kg")));
    r.push((owned("1-"), owned("qavat")));
    r.push((owned("2-"), owned("qavat")));
    r.push((owned("material"), owned("razmeri")));
    r.push((owned("1-q"), owned("micron")));
    r.push((owned("2-q"), owned("micron")));
    r.push((owned("umumiy"), owned("metri")));
    r.push((owned("val soni"), owned("")));
    r.push((owned("rezina"), owned("razmeri")));
    r
}

} // verus!
