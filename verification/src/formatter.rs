//! The texts that the bot sends about an order.
use vstd::prelude::*;

use crate::calc::{unwrap_or, CalcResult, Ratio, Scaled};
use crate::num::{
    decimal_rounded_text, decimal_text, decimal_text_exec, round_half_even, round_half_even_exec,
    Decimal,
};
use crate::order::{missing_error, opt_view, require_text_spec, DraftView, OrderDraft};
use crate::text::{
    append_all, append_str, chars_of, digits_of, eq_str, nat_digits, replace_char,
    replace_char_exec, string_of, trim, trim_chars,
};

verus! {

/// HTML escaping of `&`, `<` and `>`.
pub open spec fn esc_spec(s: Seq<char>) -> Seq<char> {
    replace_char(replace_char(replace_char(s, '&', "&amp;"@), '<', "&lt;"@), '>', "&gt;"@)
}

pub fn esc(value: &Vec<char>) -> (r: Vec<char>)
    ensures
        r@ == esc_spec(value@),
{
    let a = replace_char_exec(value, '&', "&amp;");
    let b = replace_char_exec(&a, '<', "&lt;");
    replace_char_exec(&b, '>', "&gt;")
}

fn esc_into(out: &mut Vec<char>, value: &Vec<char>)
    ensures
        final(out)@ == old(out)@ + esc_spec(value@),
{
    let e = esc(value);
    append_all(out, &e);
}

fn esc_str_into(out: &mut Vec<char>, value: &str)
    ensures
        final(out)@ == old(out)@ + esc_spec(value@),
{
    let v = chars_of(value);
    esc_into(out, &v);
}

/// A number printed with no decimals.
pub open spec fn r0(d: Decimal) -> Seq<char> {
    nat_digits(round_half_even(d.units as nat, d.den()))
}

fn r0_into(out: &mut Vec<char>, d: Decimal)
    ensures
        final(out)@ == old(out)@ + r0(d),
{
    let t = decimal_rounded_text(d);
    append_all(out, &t);
}

/// The roll count as the messages print it: rounded, or `-` when the form
/// did not ask for it.
pub open spec fn rolls_text(rolls: Option<Decimal>) -> Seq<char> {
    match rolls {
        Some(r) => r0(r),
        None => "-"@,
    }
}

fn rolls_into(out: &mut Vec<char>, rolls: Option<Decimal>)
    ensures
        final(out)@ == old(out)@ + rolls_text(rolls),
{
    match rolls {
        Some(r) => r0_into(out, r),
        None => append_str(out, "-"),
    }
}

/// A coefficient (thousandths) printed as a plain number.
pub open spec fn coeff_text(c: u128) -> Seq<char> {
    decimal_text(c as nat, 3)
}

fn coeff_into(out: &mut Vec<char>, c: u128)
    ensures
        final(out)@ == old(out)@ + coeff_text(c),
{
    let t = decimal_text_exec(c, 3);
    append_all(out, &t);
}

/// A fraction printed with no decimals.
pub open spec fn ratio_r0(r: Ratio) -> Seq<char> {
    nat_digits(round_half_even(r.num as nat, r.den as nat))
}

fn ratio_into(out: &mut Vec<char>, r: Ratio)
    requires
        0 < r.den,
    ensures
        final(out)@ == old(out)@ + ratio_r0(r),
{
    let t = digits_of(round_half_even_exec(r.num, r.den));
    append_all(out, &t);
}

pub open spec fn scaled_text(s: Scaled) -> Seq<char> {
    decimal_text(s.units as nat, s.scale as nat)
}

// ---------------------------------------------------------------------------
// The order text
// ---------------------------------------------------------------------------

pub open spec fn order_text(
    num: Seq<char>,
    date: Seq<char>,
    customer: Seq<char>,
    product: Seq<char>,
    status: Seq<char>,
    material: Seq<char>,
    color: Seq<char>,
    kg: Decimal,
    width: Decimal,
    rolls: Option<Decimal>,
    note: Seq<char>,
) -> Seq<char> {
    "Buyurtma raqami: №"@ + esc_spec(num) + "  "@ + esc_spec(date) + "\nMijoz: "@ + esc_spec(
        customer,
    ) + "\nMahsulot: "@ + esc_spec(product) + "\nHolat: "@ + esc_spec(status)
        + "\n\n1. Material: "@ + esc_spec(material) + "\n2. Rang: "@ + esc_spec(color)
        + "\n3. Tiraj: "@ + r0(kg) + " kg\n4. uzunligi: "@ + r0(width) + "mm\n5. Rang soni: "@
        + rolls_text(rolls) + "\n\n<b>Eslatm:</b> "@ + esc_spec(note)
}

/// The order as the order group reads it, or the first field that is missing.
pub open spec fn order_message_spec(o: DraftView) -> Result<Seq<char>, Seq<char>> {
    match require_text_spec(o.order_number, "Buyurtma raqami"@) {
        Err(e) => Err(e),
        Ok(num) => match require_text_spec(o.date, "Sana"@) {
            Err(e) => Err(e),
            Ok(date) => match require_text_spec(o.customer, "Mijoz"@) {
                Err(e) => Err(e),
                Ok(customer) => match require_text_spec(o.product, "Mahsulot"@) {
                    Err(e) => Err(e),
                    Ok(product) => match require_text_spec(o.status, "Holat"@) {
                        Err(e) => Err(e),
                        Ok(status) => match require_text_spec(o.material_display, "Material"@) {
                            Err(e) => Err(e),
                            Ok(material) => match require_text_spec(o.color, "Rang"@) {
                                Err(e) => Err(e),
                                Ok(color) => match o.kg {
                                    None => Err(missing_error("Tiraj"@)),
                                    Some(kg) => match o.width_mm {
                                        None => Err(missing_error("Uzunligi"@)),
                                        Some(width) => Ok(
                                            order_text(
                                                num,
                                                date,
                                                customer,
                                                product,
                                                status,
                                                material,
                                                color,
                                                kg,
                                                width,
                                                o.roll_count,
                                                unwrap_or(o.note, "-"@),
                                            ),
                                        ),
                                    },
                                },
                            },
                        },
                    },
                },
            },
        },
    }
}

fn required(value: &Option<String>, name: &str) -> (r: Result<Vec<char>, String>)
    ensures
        match (r, require_text_spec(opt_view(*value), name@)) {
            (Ok(a), Ok(b)) => a@ == b,
            (Err(a), Err(b)) => a@ == b,
            _ => false,
        },
{
    let s = OrderDraft::require_text(value, name)?;
    Ok(chars_of(s.as_str()))
}

fn opt_chars(value: &Option<String>, default: &str) -> (r: Vec<char>)
    ensures
        r@ == unwrap_or(opt_view(*value), default@),
{
    match value {
        Some(s) => chars_of(s.as_str()),
        None => chars_of(default),
    }
}

pub fn order_message(order: &OrderDraft) -> (r: Result<String, String>)
    ensures
        match (r, order_message_spec(order@)) {
            (Ok(a), Ok(b)) => a@ == b,
            (Err(a), Err(b)) => a@ == b,
            _ => false,
        },
{
    let num = required(&order.order_number, "Buyurtma raqami")?;
    let date = required(&order.date, "Sana")?;
    let customer = required(&order.customer, "Mijoz")?;
    let product = required(&order.product, "Mahsulot")?;
    let status = required(&order.status, "Holat")?;
    let material = required(&order.material_display, "Material")?;
    let color = required(&order.color, "Rang")?;
    let kg = OrderDraft::require_number(order.kg, "Tiraj")?;
    let width = OrderDraft::require_number(order.width_mm, "Uzunligi")?;
    let note = opt_chars(&order.note, "-");
    let mut t = chars_of("Buyurtma raqami: №");
    esc_into(&mut t, &num);
    append_str(&mut t, "  ");
    esc_into(&mut t, &date);
    append_str(&mut t, "\nMijoz: ");
    esc_into(&mut t, &customer);
    append_str(&mut t, "\nMahsulot: ");
    esc_into(&mut t, &product);
    append_str(&mut t, "\nHolat: ");
    esc_into(&mut t, &status);
    append_str(&mut t, "\n\n1. Material: ");
    esc_into(&mut t, &material);
    append_str(&mut t, "\n2. Rang: ");
    esc_into(&mut t, &color);
    append_str(&mut t, "\n3. Tiraj: ");
    r0_into(&mut t, kg);
    append_str(&mut t, " kg\n4. uzunligi: ");
    r0_into(&mut t, width);
    append_str(&mut t, "mm\n5. Rang soni: ");
    rolls_into(&mut t, order.roll_count);
    append_str(&mut t, "\n\n<b>Eslatm:</b> ");
    esc_into(&mut t, &note);
    Ok(string_of(&t))
}

// ---------------------------------------------------------------------------
// The form being filled in
// ---------------------------------------------------------------------------

pub open spec fn display_text(value: Option<Seq<char>>) -> Seq<char> {
    unwrap_or(value, Seq::<char>::empty())
}

pub open spec fn display_number_spec(value: Option<Decimal>, unit: Seq<char>) -> Seq<char> {
    match value {
        Some(v) => r0(v) + unit,
        None => Seq::<char>::empty(),
    }
}

fn display_number(value: Option<Decimal>, unit: &str) -> (r: Vec<char>)
    ensures
        r@ == display_number_spec(value, unit@),
{
    match value {
        Some(v) => {
            let mut t = decimal_rounded_text(v);
            append_str(&mut t, unit);
            t
        },
        None => Vec::new(),
    }
}

pub open spec fn draft_form_spec(o: DraftView, prompt: Seq<char>) -> Seq<char> {
    "<b>DMBO</b>\nBuyurtma raqami: "@ + esc_spec(display_text(o.order_number)) + "\nMijoz: "@
        + esc_spec(display_text(o.customer)) + "\nMahsulot: "@ + esc_spec(display_text(o.product))
        + "\nHolat: "@ + esc_spec(display_text(o.status)) + "\n\n1. Material: "@ + esc_spec(
        display_text(o.material_display),
    ) + "\n2. Rang: "@ + esc_spec(display_text(o.color)) + "\n3. Tiraj: "@ + esc_spec(
        display_number_spec(o.kg, " kg"@),
    ) + "\n4. uzunligi: "@ + esc_spec(display_number_spec(o.width_mm, "mm"@))
        + "\n5. Val soni: "@ + esc_spec(display_number_spec(o.roll_count, ""@))
        + "\n\n<b>Eslatm:</b> "@ + esc_spec(display_text(o.note)) + "\n\n"@ + esc_spec(prompt)
}

/// The order form as filled in so far, with the next question under it.
pub fn draft_form_message(order: &OrderDraft, prompt: &str) -> (r: String)
    ensures
        r@ == draft_form_spec(order@, prompt@),
{
    let mut t = chars_of("<b>DMBO</b>\nBuyurtma raqami: ");
    esc_into(&mut t, &opt_chars(&order.order_number, ""));
    append_str(&mut t, "\nMijoz: ");
    esc_into(&mut t, &opt_chars(&order.customer, ""));
    append_str(&mut t, "\nMahsulot: ");
    esc_into(&mut t, &opt_chars(&order.product, ""));
    append_str(&mut t, "\nHolat: ");
    esc_into(&mut t, &opt_chars(&order.status, ""));
    append_str(&mut t, "\n\n1. Material: ");
    esc_into(&mut t, &opt_chars(&order.material_display, ""));
    append_str(&mut t, "\n2. Rang: ");
    esc_into(&mut t, &opt_chars(&order.color, ""));
    append_str(&mut t, "\n3. Tiraj: ");
    esc_into(&mut t, &display_number(order.kg, " kg"));
    append_str(&mut t, "\n4. uzunligi: ");
    esc_into(&mut t, &display_number(order.width_mm, "mm"));
    append_str(&mut t, "\n5. Val soni: ");
    esc_into(&mut t, &display_number(order.roll_count, ""));
    append_str(&mut t, "\n\n<b>Eslatm:</b> ");
    esc_into(&mut t, &opt_chars(&order.note, ""));
    append_str(&mut t, "\n\n");
    esc_str_into(&mut t, prompt);
    proof {
        reveal_strlit("");
        assert(""@ =~= Seq::<char>::empty());
    }
    string_of(&t)
}

// ---------------------------------------------------------------------------
// The calculation text
// ---------------------------------------------------------------------------

pub open spec fn third_line_spec(material: Seq<char>, micron: Seq<char>) -> Seq<char> {
    if trim(material).len() == 0 || material == "--"@ {
        Seq::<char>::empty()
    } else {
        "\n3-qavat: "@ + esc_spec(material) + " "@ + esc_spec(micron)
    }
}

pub fn third_line(material: &Vec<char>, micron: &Vec<char>) -> (r: Vec<char>)
    ensures
        r@ == third_line_spec(material@, micron@),
{
    let t = trim_chars(material);
    if t.len() == 0 || eq_str(material, "--") {
        Vec::new()
    } else {
        let mut r = chars_of("\n3-qavat: ");
        esc_into(&mut r, material);
        append_str(&mut r, " ");
        esc_into(&mut r, micron);
        r
    }
}

pub open spec fn calc_text(
    num: Seq<char>,
    kg: Decimal,
    width: Decimal,
    rolls: Option<Decimal>,
    q1: Seq<char>,
    m1: Seq<char>,
    q2: Seq<char>,
    m2: Seq<char>,
    q3: Seq<char>,
    m3: Seq<char>,
    r: CalcResult,
) -> Seq<char> {
    "<b>Hisob-kitob</b>\nBuyurtma: №"@ + esc_spec(num) + "\nKG: "@ + r0(kg) + "\nRAZMER: "@ + r0(
        width,
    ) + " mm\nVal soni: "@ + rolls_text(rolls) + "\n\n1-qavat: "@ + esc_spec(q1) + " "@ + esc_spec(m1)
        + " => "@ + coeff_text(r.first_coeff) + "\n2-qavat: "@ + esc_spec(q2) + " "@ + esc_spec(m2)
        + third_line_spec(q3, m3) + "\n\nKoeff: "@ + coeff_text(r.first_coeff) + " + "@
        + coeff_text(r.other_coeff) + " = "@ + coeff_text(r.coeff_sum) + "\nRazmer: "@ + r0(width)
        + " mm = "@ + scaled_text(r.width_sm) + " sm\nBase: "@ + ratio_r0(r.base_length)
        + "\nAtxod 5%: "@ + ratio_r0(r.waste_length) + "\n\n<b>Yakuniy uzunlik: "@ + nat_digits(
        r.rounded_length as nat,
    ) + "</b>"@
}

/// The calculation as the calculation group reads it, or the first field
/// that is missing.
pub open spec fn calc_message_spec(o: DraftView, r: CalcResult) -> Result<Seq<char>, Seq<char>> {
    match require_text_spec(o.order_number, "Buyurtma raqami"@) {
        Err(e) => Err(e),
        Ok(num) => match o.kg {
            None => Err(missing_error("KG"@)),
            Some(kg) => match o.width_mm {
                None => Err(missing_error("RAZMER"@)),
                Some(width) => match require_text_spec(o.first_material, "1-qavat"@) {
                    Err(e) => Err(e),
                    Ok(q1) => match require_text_spec(o.first_micron, "1-mikron"@) {
                        Err(e) => Err(e),
                        Ok(m1) => Ok(
                            calc_text(
                                num,
                                kg,
                                width,
                                o.roll_count,
                                q1,
                                m1,
                                unwrap_or(o.second_material, "--"@),
                                unwrap_or(o.second_micron, "--"@),
                                unwrap_or(o.third_material, "--"@),
                                unwrap_or(o.third_micron, "--"@),
                                r,
                            ),
                        ),
                    },
                },
            },
        },
    }
}

pub fn calc_message(order: &OrderDraft, result: &CalcResult) -> (r: Result<String, String>)
    requires
        result.wf(),
    ensures
        match (r, calc_message_spec(order@, *result)) {
            (Ok(a), Ok(b)) => a@ == b,
            (Err(a), Err(b)) => a@ == b,
            _ => false,
        },
{
    let num = required(&order.order_number, "Buyurtma raqami")?;
    let kg = OrderDraft::require_number(order.kg, "KG")?;
    let width = OrderDraft::require_number(order.width_mm, "RAZMER")?;
    let q1 = required(&order.first_material, "1-qavat")?;
    let m1 = required(&order.first_micron, "1-mikron")?;
    let q2 = opt_chars(&order.second_material, "--");
    let m2 = opt_chars(&order.second_micron, "--");
    let q3 = opt_chars(&order.third_material, "--");
    let m3 = opt_chars(&order.third_micron, "--");
    let mut t = chars_of("<b>Hisob-kitob</b>\nBuyurtma: №");
    esc_into(&mut t, &num);
    append_str(&mut t, "\nKG: ");
    r0_into(&mut t, kg);
    append_str(&mut t, "\nRAZMER: ");
    r0_into(&mut t, width);
    append_str(&mut t, " mm\nVal soni: ");
    rolls_into(&mut t, order.roll_count);
    append_str(&mut t, "\n\n1-qavat: ");
    esc_into(&mut t, &q1);
    append_str(&mut t, " ");
    esc_into(&mut t, &m1);
    append_str(&mut t, " => ");
    coeff_into(&mut t, result.first_coeff);
    append_str(&mut t, "\n2-qavat: ");
    esc_into(&mut t, &q2);
    append_str(&mut t, " ");
    esc_into(&mut t, &m2);
    let third = third_line(&q3, &m3);
    append_all(&mut t, &third);
    append_str(&mut t, "\n\nKoeff: ");
    coeff_into(&mut t, result.first_coeff);
    append_str(&mut t, " + ");
    coeff_into(&mut t, result.other_coeff);
    append_str(&mut t, " = ");
    coeff_into(&mut t, result.coeff_sum);
    append_str(&mut t, "\nRazmer: ");
    r0_into(&mut t, width);
    append_str(&mut t, " mm = ");
    let ws = decimal_text_exec(result.width_sm.units, result.width_sm.scale);
    append_all(&mut t, &ws);
    append_str(&mut t, " sm\nBase: ");
    ratio_into(&mut t, result.base_length);
    append_str(&mut t, "\nAtxod 5%: ");
    ratio_into(&mut t, result.waste_length);
    append_str(&mut t, "\n\n<b>Yakuniy uzunlik: ");
    let rl = digits_of(result.rounded_length);
    append_all(&mut t, &rl);
    append_str(&mut t, "</b>");
    Ok(string_of(&t))
}

} // verus!
