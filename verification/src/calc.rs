//! The length of a film order, as the bot computes it.
use vstd::prelude::*;

use crate::materials::{
    nonempty_trimmed, coefficient_single_chars, coefficient_single_spec, is_empty_material_chars,
    is_empty_material_spec, micron_error, micron_list, micron_parts, seq_max, split_parts,
    split_parts_spec, parse_micron,
};
use crate::num::{pow10, pow10_u128, lemma_pow10_mono, lemma_pow10_pos, Decimal};
use crate::order::{clone_opt, missing_error, opt_view, require_text_spec, DraftView, OrderDraft};
use crate::text::{
    append_all, append_str, chars_of, split_on_str, split_str, string_of, trim, trim_chars, views,
};

verus! {

/// Coefficient sums (in thousandths) are kept below this bound.
pub const MAX_COEFF: u128 = 1_000_000_000_000_000;

/// A non-negative fraction `num / den`.
#[derive(Debug, Clone, Copy, PartialEq, Eq, Structural)]
pub struct Ratio {
    pub num: u128,
    pub den: u128,
}

/// A non-negative decimal `units / 10^scale`.
#[derive(Debug, Clone, Copy, PartialEq, Eq, Structural)]
pub struct Scaled {
    pub units: u128,
    pub scale: u32,
}

/// Every number of a calculation. Coefficients are in thousandths.
#[derive(Debug, Clone, Copy, PartialEq, Eq, Structural)]
pub struct CalcResult {
    pub first_coeff: u128,
    pub other_coeff: u128,
    pub coeff_sum: u128,
    pub width_sm: Scaled,
    pub base_length: Ratio,
    pub waste_length: Ratio,
    pub rounded_length: u128,
}

impl CalcResult {
    /// A result that can be written: its fractions have positive
    /// denominators and its width few decimals.
    pub open spec fn wf(self) -> bool {
        &&& self.width_sm.scale <= 30
        &&& self.base_length.den > 0
        &&& self.waste_length.den > 0
    }
}

pub open spec fn ceil_div(n: nat, d: nat) -> nat
    recommends
        d > 0,
{
    ((n + d - 1) / (d as int)) as nat
}

/// `kg * 6000 / (coeff * width_cm)` with the coefficient in thousandths and
/// the width in millimetres, as a fraction: its numerator ...
pub open spec fn base_num(kg: Decimal, width: Decimal) -> nat {
    (kg.units * 60_000_000 * pow10(width.scale as nat)) as nat
}

/// ... and its denominator.
pub open spec fn length_den(kg: Decimal, width: Decimal, coeff: nat) -> nat {
    (pow10(kg.scale as nat) * coeff * width.units) as nat
}

/// The length with 5% waste, rounded up to a multiple of 500.
pub open spec fn rounded_length(kg: Decimal, width: Decimal, coeff: nat) -> nat {
    500 * ceil_div(
        (kg.units * 126_000 * pow10(width.scale as nat)) as nat,
        length_den(kg, width, coeff),
    )
}

pub open spec fn calc_of(first: nat, other: nat, kg: Decimal, width: Decimal) -> CalcResult {
    let c = first + other;
    CalcResult {
        first_coeff: first as u128,
        other_coeff: other as u128,
        coeff_sum: c as u128,
        width_sm: Scaled { units: width.units as u128, scale: (width.scale + 1) as u32 },
        base_length: Ratio {
            num: base_num(kg, width) as u128,
            den: length_den(kg, width, c) as u128,
        },
        waste_length: Ratio {
            num: (base_num(kg, width) / 20) as u128,
            den: length_den(kg, width, c) as u128,
        },
        rounded_length: rounded_length(kg, width, c) as u128,
    }
}

// ---------------------------------------------------------------------------
// Layers
// ---------------------------------------------------------------------------

pub open spec fn merge_layers_spec(q2: Seq<char>, m2: Seq<char>, q3: Seq<char>, m3: Seq<char>) -> Result<
    (Seq<char>, Seq<char>),
    Seq<char>,
> {
    let e2 = is_empty_material_spec(q2);
    let e3 = is_empty_material_spec(q3);
    if e2 && e3 {
        Ok(("--"@, "--"@))
    } else if e2 {
        Ok((q3, m3))
    } else if e3 {
        Ok((q2, m2))
    } else if trim(m3).len() == 0 {
        Err("3-qavat mikroni berilmagan"@)
    } else {
        Ok((q2 + "/"@ + q3, m2 + "/"@ + m3))
    }
}

/// Joins the second and third layer into one cell, as `oppm/pe pr` and `20/30`.
pub fn merge_layers(q2: String, m2: String, q3: String, m3: String) -> (r: Result<
    (String, String),
    String,
>)
    ensures
        match (r, merge_layers_spec(q2@, m2@, q3@, m3@)) {
            (Ok((a, b)), Ok((c, d))) => a@ == c && b@ == d,
            (Err(a), Err(b)) => a@ == b,
            _ => false,
        },
{
    let q2v = chars_of(q2.as_str());
    let q3v = chars_of(q3.as_str());
    let e2 = is_empty_material_chars(&q2v);
    let e3 = is_empty_material_chars(&q3v);
    if e2 && e3 {
        Ok((crate::text::owned("--"), crate::text::owned("--")))
    } else if e2 {
        Ok((q3, m3))
    } else if e3 {
        Ok((q2, m2))
    } else {
        let m3v = chars_of(m3.as_str());
        let t = trim_chars(&m3v);
        if t.len() == 0 {
            return Err(crate::text::owned("3-qavat mikroni berilmagan"));
        }
        let mut q = q2v;
        append_str(&mut q, "/");
        append_all(&mut q, &q3v);
        let mut m = chars_of(m2.as_str());
        append_str(&mut m, "/");
        append_all(&mut m, &m3v);
        Ok((string_of(&q), string_of(&m)))
    }
}

// ---------------------------------------------------------------------------
// Coefficient of a cell
// ---------------------------------------------------------------------------

pub open spec fn mismatch_error(material: Seq<char>, micron_text: Seq<char>) -> Seq<char> {
    "material/mikron mos emas: "@ + material + " / "@ + micron_text
}

/// The sum of the coefficients of paired materials and microns; the first
/// error wins.
pub open spec fn sum_coeffs(mats: Seq<Seq<char>>, ms: Seq<u32>, is_first: bool) -> Result<
    nat,
    Seq<char>,
>
    decreases mats.len(),
{
    if mats.len() == 0 || ms.len() != mats.len() {
        Ok(0)
    } else {
        match sum_coeffs(mats.drop_last(), ms.drop_last(), is_first) {
            Err(e) => Err(e),
            Ok(s) => match coefficient_single_spec(mats.last(), ms.last(), is_first) {
                Err(e) => Err(e),
                Ok(v) => Ok((s + v) as nat),
            },
        }
    }
}

pub open spec fn coefficient_cell_spec(
    material: Seq<char>,
    micron_text: Seq<char>,
    micron: u32,
    is_first: bool,
) -> Result<nat, Seq<char>> {
    let mats = split_parts_spec(material);
    match micron_list(micron_text) {
        None => Err(micron_error(micron_text)),
        Some(ms) => if mats.len() == 1 {
            match coefficient_single_spec(mats[0], micron, is_first) {
                Ok(v) => Ok(v as nat),
                Err(e) => Err(e),
            }
        } else if mats.len() != ms.len() {
            Err(mismatch_error(material, micron_text))
        } else {
            sum_coeffs(mats, ms, is_first)
        },
    }
}

/// The coefficient of a layer cell, in thousandths: one material takes the
/// given micron, several materials are paired with the microns one by one.
pub fn coefficient_cell(material: &Vec<char>, micron_text: &Vec<char>, micron: u32, is_first: bool) -> (r: Result<
    u128,
    String,
>)
    ensures
        match (r, coefficient_cell_spec(material@, micron_text@, micron, is_first)) {
            (Ok(a), Ok(b)) => a == b,
            (Err(a), Err(b)) => a@ == b,
            _ => false,
        },
{
    let materials = split_parts(material);
    let microns = match micron_parts(micron_text) {
        Some(m) => m,
        None => {
            let mut e = chars_of("micron noto'g'ri: ");
            let t = trim_chars(micron_text);
            append_all(&mut e, &t);
            return Err(string_of(&e));
        },
    };
    if materials.len() == 1 {
        assert(views(materials@)[0] == materials@[0]@);
        return match coefficient_single_chars(&materials[0], micron, is_first) {
            Ok(v) => Ok(v as u128),
            Err(e) => Err(e),
        };
    }
    if materials.len() != microns.len() {
        let mut e = chars_of("material/mikron mos emas: ");
        append_all(&mut e, material);
        append_str(&mut e, " / ");
        append_all(&mut e, micron_text);
        return Err(string_of(&e));
    }
    let ghost mats = views(materials@);
    let mut sum: u128 = 0;
    let mut i: usize = 0;
    while i < materials.len()
        invariant
            i <= materials.len() == microns.len(),
            mats == views(materials@),
            mats == split_parts_spec(material@),
            mats.len() != 1,
            micron_list(micron_text@) == Some(microns@),
            sum_coeffs(mats.take(i as int), microns@.take(i as int), is_first) == Ok::<
                nat,
                Seq<char>,
            >(sum as nat),
            sum <= i * 1_000_000,
        decreases materials.len() - i,
    {
        assert(mats.take(i + 1).drop_last() =~= mats.take(i as int));
        assert(microns@.take(i + 1).drop_last() =~= microns@.take(i as int));
        assert(mats.take(i + 1).last() == materials@[i as int]@);
        match coefficient_single_chars(&materials[i], microns[i], is_first) {
            Ok(v) => {
                sum = sum + v as u128;
            },
            Err(e) => {
                proof {
                    lemma_sum_coeffs_prefix_err(mats, microns@, is_first, i + 1);
                }
                return Err(e);
            },
        }
        i = i + 1;
    }
    assert(mats.take(i as int) =~= mats);
    assert(microns@.take(i as int) =~= microns@);
    Ok(sum)
}

pub proof fn lemma_sum_coeffs_prefix_err(
    mats: Seq<Seq<char>>,
    ms: Seq<u32>,
    is_first: bool,
    i: int,
)
    requires
        0 < i <= mats.len() == ms.len(),
        sum_coeffs(mats.take(i), ms.take(i), is_first) is Err,
    ensures
        sum_coeffs(mats, ms, is_first) == sum_coeffs(mats.take(i), ms.take(i), is_first),
    decreases mats.len() - i,
{
    if i < mats.len() {
        assert(mats.take(i + 1).drop_last() =~= mats.take(i));
        assert(ms.take(i + 1).drop_last() =~= ms.take(i));
        lemma_sum_coeffs_prefix_err(mats, ms, is_first, i + 1);
    } else {
        assert(mats.take(i) =~= mats);
        assert(ms.take(i) =~= ms);
    }
}

// ---------------------------------------------------------------------------
// One order
// ---------------------------------------------------------------------------

pub open spec fn unwrap_or(o: Option<Seq<char>>, d: Seq<char>) -> Seq<char> {
    match o {
        Some(s) => s,
        None => d,
    }
}

/// The largest micron of a layer, or 0 for an empty layer.
pub open spec fn layer_micron(empty: bool, m: Seq<char>) -> Result<u32, Seq<char>> {
    if empty {
        Ok(0)
    } else {
        match micron_list(m) {
            Some(l) => Ok(seq_max(l)),
            None => Err(micron_error(m)),
        }
    }
}

/// The coefficients, weight and width of one order, or the error that stops it.
pub open spec fn order_inputs(o: DraftView) -> Result<(nat, nat, Decimal, Decimal), Seq<char>> {
    match o.kg {
        None => Err(missing_error("KG"@)),
        Some(kg) => match o.width_mm {
            None => Err(missing_error("RAZMER"@)),
            Some(w) => match require_text_spec(o.first_material, "1-qavat"@) {
                Err(e) => Err(e),
                Ok(q1) => match require_text_spec(o.first_micron, "1-mikron"@) {
                    Err(e) => Err(e),
                    Ok(m1) => match merge_layers_spec(
                        unwrap_or(o.second_material, Seq::<char>::empty()),
                        unwrap_or(o.second_micron, "--"@),
                        unwrap_or(o.third_material, Seq::<char>::empty()),
                        unwrap_or(o.third_micron, Seq::<char>::empty()),
                    ) {
                        Err(e) => Err(e),
                        Ok((qo, mo)) => {
                            let fe = is_empty_material_spec(q1);
                            let oe = is_empty_material_spec(qo);
                            match layer_micron(fe, m1) {
                                Err(e) => Err(e),
                                Ok(fm) => match layer_micron(oe, mo) {
                                    Err(e) => Err(e),
                                    Ok(om) => match (if fe {
                                        Ok(0nat)
                                    } else {
                                        coefficient_cell_spec(q1, m1, fm, true)
                                    }) {
                                        Err(e) => Err(e),
                                        Ok(fc) => match (if oe {
                                            Ok(0nat)
                                        } else {
                                            coefficient_cell_spec(qo, mo, om, false)
                                        }) {
                                            Err(e) => Err(e),
                                            Ok(oc) => if fc + oc == 0 {
                                                Err("kamida bitta qavat materiali kerak"@)
                                            } else if fc + oc >= MAX_COEFF {
                                                Err("koeffitsientlar yig'indisi juda katta"@)
                                            } else if w.units == 0 {
                                                Err("RAZMER 0 dan katta bo'lishi kerak"@)
                                            } else if !kg.wf() || !w.wf() {
                                                Err("raqam juda katta"@)
                                            } else {
                                                Ok((fc, oc, kg, w))
                                            },
                                        },
                                    },
                                },
                            }
                        },
                    },
                },
            },
        },
    }
}

/// What one order comes to.
pub open spec fn single_order_spec(o: DraftView) -> Result<CalcResult, Seq<char>> {
    match order_inputs(o) {
        Err(e) => Err(e),
        Ok((fc, oc, kg, w)) => Ok(calc_of(fc, oc, kg, w)),
    }
}

fn layer_micron_exec(empty: bool, m: &Vec<char>) -> (r: Result<u32, String>)
    ensures
        match (r, layer_micron(empty, m@)) {
            (Ok(a), Ok(b)) => a == b,
            (Err(a), Err(b)) => a@ == b,
            _ => false,
        },
{
    if empty {
        return Ok(0);
    }
    let s = string_of(m);
    parse_micron(s.as_str())
}

/// The lengths of an order from its coefficients, weight and width.
pub fn compute_lengths(first: u128, other: u128, kg: Decimal, width: Decimal) -> (r: CalcResult)
    requires
        kg.wf(),
        width.wf(),
        width.units > 0,
        0 < first + other < MAX_COEFF,
    ensures
        r == calc_of(first as nat, other as nat, kg, width),
        r.wf(),
{
    let c = first + other;
    let pa = pow10_u128(kg.scale);
    let pb = pow10_u128(width.scale);
    proof {
        lemma_pow10_mono(kg.scale as nat, 6);
        lemma_pow10_mono(width.scale as nat, 6);
        lemma_pow10_pos(kg.scale as nat);
        lemma_pow10_pos(width.scale as nat);
        reveal_with_fuel(pow10, 7);
    }
    let k = kg.units as u128;
    let w = width.units as u128;
    assert(k * 60_000_000 * pb <= 1_000_000_000_000_000u128 * 60_000_000 * 1_000_000) by (nonlinear_arith)
        requires
            k < 1_000_000_000_000_000,
            pb <= 1_000_000,
    ;
    assert(pa * c <= 1_000_000u128 * 1_000_000_000_000_000) by (nonlinear_arith)
        requires
            pa <= 1_000_000,
            c < 1_000_000_000_000_000,
    ;
    assert(k * 126_000 <= 1_000_000_000_000_000u128 * 126_000) by (nonlinear_arith)
        requires
            k < 1_000_000_000_000_000,
    ;
    assert(k * 126_000 * pb <= 1_000_000_000_000_000u128 * 126_000 * 1_000_000) by (nonlinear_arith)
        requires
            k < 1_000_000_000_000_000,
            pb <= 1_000_000,
    ;
    assert(k * 60_000_000 <= 1_000_000_000_000_000u128 * 60_000_000) by (nonlinear_arith)
        requires
            k < 1_000_000_000_000_000,
    ;
    assert(pa * c * w <= 1_000_000u128 * 1_000_000_000_000_000 * 1_000_000_000_000_000) by (nonlinear_arith)
        requires
            pa <= 1_000_000,
            c < 1_000_000_000_000_000,
            w < 1_000_000_000_000_000,
    ;
    assert(pa * c * w >= 1) by (nonlinear_arith)
        requires
            pa >= 1,
            c >= 1,
            w >= 1,
    ;
    let base = k * 60_000_000 * pb;
    let den = pa * c * w;
    let num = k * 126_000 * pb;
    let q = (num + den - 1) / den;
    assert(q <= num) by (nonlinear_arith)
        requires
            den >= 1,
            q == (num + den - 1) as int / den as int,
    ;
    CalcResult {
        first_coeff: first,
        other_coeff: other,
        coeff_sum: c,
        width_sm: Scaled { units: w, scale: width.scale + 1 },
        base_length: Ratio { num: base, den },
        waste_length: Ratio { num: base / 20, den },
        rounded_length: 500 * q,
    }
}

pub fn calculate_single_order(order: &OrderDraft) -> (r: Result<CalcResult, String>)
    ensures
        match (r, single_order_spec(order@)) {
            (Ok(a), Ok(b)) => a == b,
            (Err(a), Err(b)) => a@ == b,
            _ => false,
        },
        r matches Ok(c) ==> c.wf(),
{
    let kg = match OrderDraft::require_number(order.kg, "KG") {
        Ok(v) => v,
        Err(e) => {
            return Err(e);
        },
    };
    let width = match OrderDraft::require_number(order.width_mm, "RAZMER") {
        Ok(v) => v,
        Err(e) => {
            return Err(e);
        },
    };
    let q1 = match OrderDraft::require_text(&order.first_material, "1-qavat") {
        Ok(v) => v,
        Err(e) => {
            return Err(e);
        },
    };
    let m1 = match OrderDraft::require_text(&order.first_micron, "1-mikron") {
        Ok(v) => v,
        Err(e) => {
            return Err(e);
        },
    };
    let q2 = match &order.second_material {
        Some(s) => s.clone(),
        None => String::new(),
    };
    let m2 = match &order.second_micron {
        Some(s) => s.clone(),
        None => crate::text::owned("--"),
    };
    let q3 = match &order.third_material {
        Some(s) => s.clone(),
        None => String::new(),
    };
    let m3 = match &order.third_micron {
        Some(s) => s.clone(),
        None => String::new(),
    };
    let (q_other, m_other) = match merge_layers(q2, m2, q3, m3) {
        Ok(p) => p,
        Err(e) => {
            return Err(e);
        },
    };
    let q1v = chars_of(q1.as_str());
    let m1v = chars_of(m1.as_str());
    let qov = chars_of(q_other.as_str());
    let mov = chars_of(m_other.as_str());
    let first_empty = is_empty_material_chars(&q1v);
    let other_empty = is_empty_material_chars(&qov);
    let first_micron = match layer_micron_exec(first_empty, &m1v) {
        Ok(v) => v,
        Err(e) => {
            return Err(e);
        },
    };
    let other_micron = match layer_micron_exec(other_empty, &mov) {
        Ok(v) => v,
        Err(e) => {
            return Err(e);
        },
    };
    let first_coeff: u128 = if first_empty {
        0
    } else {
        match coefficient_cell(&q1v, &m1v, first_micron, true) {
            Ok(v) => v,
            Err(e) => {
                return Err(e);
            },
        }
    };
    let other_coeff: u128 = if other_empty {
        0
    } else {
        match coefficient_cell(&qov, &mov, other_micron, false) {
            Ok(v) => v,
            Err(e) => {
                return Err(e);
            },
        }
    };
    if first_coeff == 0 && other_coeff == 0 {
        return Err(crate::text::owned("kamida bitta qavat materiali kerak"));
    }
    if first_coeff >= MAX_COEFF || other_coeff >= MAX_COEFF - first_coeff {
        return Err(crate::text::owned("koeffitsientlar yig'indisi juda katta"));
    }
    if width.units == 0 {
        return Err(crate::text::owned("RAZMER 0 dan katta bo'lishi kerak"));
    }
    if !kg.is_wf() || !width.is_wf() {
        return Err(crate::text::owned("raqam juda katta"));
    }
    Ok(compute_lengths(first_coeff, other_coeff, kg, width))
}

// ---------------------------------------------------------------------------
// Alternatives: `pe oq yoki mcp` is two orders
// ---------------------------------------------------------------------------

pub open spec fn alternatives_spec(v: Option<Seq<char>>) -> Seq<Option<Seq<char>>> {
    match v {
        None => seq![None],
        Some(s) => {
            let parts = nonempty_trimmed(split_str(s, "yoki"@));
            if parts.len() == 0 {
                seq![Some(s)]
            } else {
                parts.map_values(|p: Seq<char>| Some(p))
            }
        },
    }
}

pub open spec fn opt_views(v: Seq<Option<String>>) -> Seq<Option<Seq<char>>> {
    v.map_values(|o: Option<String>| opt_view(o))
}

/// The materials that a cell offers, split on the word `yoki` ("or").
pub fn alternatives(value: &Option<String>) -> (r: Vec<Option<String>>)
    ensures
        opt_views(r@) == alternatives_spec(opt_view(*value)),
        r.len() >= 1,
{
    let s = match value {
        None => {
            let mut r: Vec<Option<String>> = Vec::new();
            r.push(None);
            assert(opt_views(r@) =~= seq![None]);
            return r;
        },
        Some(s) => s,
    };
    let v = chars_of(s.as_str());
    proof {
        reveal_strlit("yoki");
    }
    let pieces = split_on_str(&v, "yoki");
    let mut r: Vec<Option<String>> = Vec::new();
    let mut i: usize = 0;
    while i < pieces.len()
        invariant
            i <= pieces.len(),
            opt_views(r@) == nonempty_trimmed(views(pieces@).take(i as int)).map_values(
                |p: Seq<char>| Some(p),
            ),
        decreases pieces.len() - i,
    {
        assert(views(pieces@).take(i + 1).drop_last() =~= views(pieces@).take(i as int));
        let t = trim_chars(&pieces[i]);
        if t.len() > 0 {
            let ghost before = opt_views(r@);
            r.push(Some(string_of(&t)));
            assert(opt_views(r@) =~= before.push(Some(t@)));
            assert(nonempty_trimmed(views(pieces@).take(i + 1)) == nonempty_trimmed(
                views(pieces@).take(i as int),
            ).push(t@));
            assert(nonempty_trimmed(views(pieces@).take(i + 1)).map_values(|p: Seq<char>| Some(p))
                =~= nonempty_trimmed(views(pieces@).take(i as int)).map_values(
                |p: Seq<char>| Some(p),
            ).push(Some(t@)));
        }
        i = i + 1;
    }
    assert(views(pieces@).take(pieces.len() as int) =~= views(pieces@));
    if r.len() == 0 {
        let mut one: Vec<Option<String>> = Vec::new();
        one.push(Some(s.clone()));
        assert(opt_views(one@) =~= seq![Some(s@)]);
        return one;
    }
    r
}

pub open spec fn with_materials(
    o: DraftView,
    a: Option<Seq<char>>,
    b: Option<Seq<char>>,
    c: Option<Seq<char>>,
) -> DraftView {
    DraftView { first_material: a, second_material: b, third_material: c, ..o }
}

pub open spec fn variants_inner(
    o: DraftView,
    a: Option<Seq<char>>,
    b: Option<Seq<char>>,
    cs: Seq<Option<Seq<char>>>,
) -> Seq<DraftView> {
    cs.map_values(|c: Option<Seq<char>>| with_materials(o, a, b, c))
}

pub open spec fn variants_mid(
    o: DraftView,
    a: Option<Seq<char>>,
    bs: Seq<Option<Seq<char>>>,
    cs: Seq<Option<Seq<char>>>,
) -> Seq<DraftView>
    decreases bs.len(),
{
    if bs.len() == 0 {
        Seq::empty()
    } else {
        variants_mid(o, a, bs.drop_last(), cs) + variants_inner(o, a, bs.last(), cs)
    }
}

pub open spec fn variants_outer(
    o: DraftView,
    as_: Seq<Option<Seq<char>>>,
    bs: Seq<Option<Seq<char>>>,
    cs: Seq<Option<Seq<char>>>,
) -> Seq<DraftView>
    decreases as_.len(),
{
    if as_.len() == 0 {
        Seq::empty()
    } else {
        variants_outer(o, as_.drop_last(), bs, cs) + variants_mid(o, as_.last(), bs, cs)
    }
}

/// Every combination of the alternatives of the three layers, first layer
/// outermost.
pub open spec fn variants_spec(o: DraftView) -> Seq<DraftView> {
    variants_outer(
        o,
        alternatives_spec(o.first_material),
        alternatives_spec(o.second_material),
        alternatives_spec(o.third_material),
    )
}

pub open spec fn draft_views(v: Seq<OrderDraft>) -> Seq<DraftView> {
    v.map_values(|d: OrderDraft| d@)
}

pub fn order_variants(order: &OrderDraft) -> (r: Vec<OrderDraft>)
    ensures
        draft_views(r@) == variants_spec(order@),
{
    let firsts = alternatives(&order.first_material);
    let seconds = alternatives(&order.second_material);
    let thirds = alternatives(&order.third_material);
    let ghost o = order@;
    let ghost fa = opt_views(firsts@);
    let ghost sa = opt_views(seconds@);
    let ghost ta = opt_views(thirds@);
    let mut variants: Vec<OrderDraft> = Vec::new();
    let mut i: usize = 0;
    while i < firsts.len()
        invariant
            i <= firsts.len(),
            o == order@,
            fa == opt_views(firsts@),
            sa == opt_views(seconds@),
            ta == opt_views(thirds@),
            draft_views(variants@) == variants_outer(o, fa.take(i as int), sa, ta),
        decreases firsts.len() - i,
    {
        let mut j: usize = 0;
        let ghost before_i = draft_views(variants@);
        assert(fa.take(i + 1).drop_last() =~= fa.take(i as int));
        while j < seconds.len()
            invariant
                i < firsts.len(),
                j <= seconds.len(),
                o == order@,
                fa == opt_views(firsts@),
                sa == opt_views(seconds@),
                ta == opt_views(thirds@),
                before_i == variants_outer(o, fa.take(i as int), sa, ta),
                draft_views(variants@) == before_i + variants_mid(o, fa[i as int], sa.take(j as int), ta),
            decreases seconds.len() - j,
        {
            let mut k: usize = 0;
            let ghost before_j = draft_views(variants@);
            assert(sa.take(j + 1).drop_last() =~= sa.take(j as int));
            while k < thirds.len()
                invariant
                    i < firsts.len(),
                    j < seconds.len(),
                    k <= thirds.len(),
                    o == order@,
                    fa == opt_views(firsts@),
                    sa == opt_views(seconds@),
                    ta == opt_views(thirds@),
                    before_j == before_i + variants_mid(o, fa[i as int], sa.take(j as int), ta),
                    draft_views(variants@) == before_j + variants_inner(
                        o,
                        fa[i as int],
                        sa[j as int],
                        ta.take(k as int),
                    ),
                decreases thirds.len() - k,
            {
                let mut variant = order.duplicate();
                variant.first_material = clone_opt(&firsts[i]);
                variant.second_material = clone_opt(&seconds[j]);
                variant.third_material = clone_opt(&thirds[k]);
                assert(variant@ == with_materials(o, fa[i as int], sa[j as int], ta[k as int]));
                let ghost before_k = draft_views(variants@);
                variants.push(variant);
                assert(draft_views(variants@) =~= before_k.push(variant@));
                assert(variants_inner(o, fa[i as int], sa[j as int], ta.take(k + 1))
                    =~= variants_inner(o, fa[i as int], sa[j as int], ta.take(k as int)).push(
                    variant@,
                ));
                k = k + 1;
            }
            assert(ta.take(thirds.len() as int) =~= ta);
            assert(variants_mid(o, fa[i as int], sa.take(j + 1), ta) =~= variants_mid(
                o,
                fa[i as int],
                sa.take(j as int),
                ta,
            ) + variants_inner(o, fa[i as int], sa[j as int], ta));
            j = j + 1;
        }
        assert(sa.take(seconds.len() as int) =~= sa);
        i = i + 1;
    }
    assert(fa.take(firsts.len() as int) =~= fa);
    variants
}

// ---------------------------------------------------------------------------
// Whole orders
// ---------------------------------------------------------------------------

/// The results of the orders in turn; the first error wins.
pub open spec fn results_spec(vs: Seq<DraftView>) -> Result<Seq<CalcResult>, Seq<char>>
    decreases vs.len(),
{
    if vs.len() == 0 {
        Ok(Seq::empty())
    } else {
        match results_spec(vs.drop_last()) {
            Err(e) => Err(e),
            Ok(rs) => match single_order_spec(vs.last()) {
                Err(e) => Err(e),
                Ok(r) => Ok(rs.push(r)),
            },
        }
    }
}

pub proof fn lemma_results_prefix_err(vs: Seq<DraftView>, i: int)
    requires
        0 <= i <= vs.len(),
        results_spec(vs.take(i)) is Err,
    ensures
        results_spec(vs) == results_spec(vs.take(i)),
    decreases vs.len() - i,
{
    if i < vs.len() {
        assert(vs.take(i + 1).drop_last() =~= vs.take(i));
        lemma_results_prefix_err(vs, i + 1);
    } else {
        assert(vs.take(i) =~= vs);
    }
}

pub fn calculate_order_variants(order: &OrderDraft) -> (r: Result<Vec<CalcResult>, String>)
    ensures
        match (r, results_spec(variants_spec(order@))) {
            (Ok(a), Ok(b)) => a@ == b,
            (Err(a), Err(b)) => a@ == b,
            _ => false,
        },
        r matches Ok(v) ==> forall|i: int| 0 <= i < v.len() ==> #[trigger] v@[i].wf(),
{
    let variants = order_variants(order);
    let ghost vs = draft_views(variants@);
    let mut results: Vec<CalcResult> = Vec::new();
    let mut i: usize = 0;
    while i < variants.len()
        invariant
            i <= variants.len(),
            vs == draft_views(variants@),
            vs == variants_spec(order@),
            results_spec(vs.take(i as int)) == Ok::<Seq<CalcResult>, Seq<char>>(results@),
            forall|k: int| 0 <= k < results.len() ==> #[trigger] results@[k].wf(),
        decreases variants.len() - i,
    {
        assert(vs.take(i + 1).drop_last() =~= vs.take(i as int));
        assert(vs.take(i + 1).last() == variants@[i as int]@);
        match calculate_single_order(&variants[i]) {
            Ok(res) => {
                results.push(res);
            },
            Err(e) => {
                proof {
                    lemma_results_prefix_err(vs, i + 1);
                }
                return Err(e);
            },
        }
        i = i + 1;
    }
    assert(vs.take(i as int) =~= vs);
    Ok(results)
}

/// What `calculate_order` gives: the first variant's result.
pub open spec fn calculate_order_spec(o: DraftView) -> Result<CalcResult, Seq<char>> {
    match results_spec(variants_spec(o)) {
        Err(e) => Err(e),
        Ok(rs) => if rs.len() > 0 {
            Ok(rs[0])
        } else {
            Err("hisob varianti topilmadi"@)
        },
    }
}

pub fn calculate_order(order: &OrderDraft) -> (r: Result<CalcResult, String>)
    ensures
        match (r, calculate_order_spec(order@)) {
            (Ok(a), Ok(b)) => a == b,
            (Err(a), Err(b)) => a@ == b,
            _ => false,
        },
        r matches Ok(c) ==> c.wf(),
{
    match calculate_order_variants(order) {
        Err(e) => Err(e),
        Ok(rs) => if rs.len() > 0 {
            Ok(rs[0])
        } else {
            Err(crate::text::owned("hisob varianti topilmadi"))
        },
    }
}

pub open spec fn rounded_lengths(rs: Seq<CalcResult>) -> Seq<u128> {
    rs.map_values(|r: CalcResult| r.rounded_length)
}

/// The rounded length of every variant of an order, in order.
pub fn calculate_order_lengths(order: &OrderDraft) -> (r: Result<Vec<u128>, String>)
    ensures
        match (r, results_spec(variants_spec(order@))) {
            (Ok(a), Ok(b)) => a@ == rounded_lengths(b),
            (Err(a), Err(b)) => a@ == b,
            _ => false,
        },
{
    match calculate_order_variants(order) {
        Err(e) => Err(e),
        Ok(rs) => {
            let mut out: Vec<u128> = Vec::new();
            let mut i: usize = 0;
            while i < rs.len()
                invariant
                    i <= rs.len(),
                    out@ == rounded_lengths(rs@.take(i as int)),
                decreases rs.len() - i,
            {
                out.push(rs[i].rounded_length);
                assert(rounded_lengths(rs@.take(i + 1)) =~= rounded_lengths(rs@.take(i as int)).push(
                    rs@[i as int].rounded_length,
                ));
                i = i + 1;
            }
            assert(rs@.take(rs.len() as int) =~= rs@);
            Ok(out)
        },
    }
}

/// The length of an order is the least multiple of 500 that is at least the
/// base length with 5% waste: with `B` the base length and `W = B / 20` the
/// waste, `B + W <= R < B + W + 500`.
pub proof fn lemma_rounded_is_least_multiple_of_500(o: DraftView)
    requires
        single_order_spec(o) is Ok,
    ensures
        ({
            let r = single_order_spec(o)->Ok_0;
            &&& r.rounded_length % 500 == 0
            &&& r.waste_length.num * 20 == r.base_length.num
            &&& r.base_length.den == r.waste_length.den
            &&& r.rounded_length * r.base_length.den >= r.base_length.num + r.waste_length.num
            &&& (r.rounded_length - 500) * r.base_length.den < r.base_length.num
                + r.waste_length.num
        }),
{
    let (fc, oc, kg, w) = order_inputs(o)->Ok_0;
    let c = fc + oc;
    let r = calc_of(fc, oc, kg, w);
    lemma_pow10_pos(kg.scale as nat);
    lemma_pow10_pos(w.scale as nat);
    lemma_pow10_mono(kg.scale as nat, 6);
    lemma_pow10_mono(w.scale as nat, 6);
    reveal_with_fuel(pow10, 7);
    let p = pow10(w.scale as nat);
    let bn = base_num(kg, w);
    let d = length_den(kg, w, c);
    let n = (kg.units * 126_000 * p) as nat;
    assert(bn == kg.units * 60_000_000 * p);
    assert(d == pow10(kg.scale as nat) * c * w.units);
    assert(bn <= 1_000_000_000_000_000 * 60_000_000 * 1_000_000) by (nonlinear_arith)
        requires
            bn == kg.units * 60_000_000 * p,
            kg.units < 1_000_000_000_000_000,
            p <= 1_000_000,
    ;
    assert(d > 0 && d <= 1_000_000 * 1_000_000_000_000_000 * 1_000_000_000_000_000) by (
    nonlinear_arith)
        requires
            d == pow10(kg.scale as nat) * c * w.units,
            0 < pow10(kg.scale as nat) <= 1_000_000,
            0 < c < 1_000_000_000_000_000,
            0 < w.units < 1_000_000_000_000_000,
    ;
    let m = (kg.units * p) as nat;
    assert(bn == 60_000_000 * m && n == 126_000 * m) by (nonlinear_arith)
        requires
            bn == kg.units * 60_000_000 * p,
            n == kg.units * 126_000 * p,
            m == kg.units * p,
    ;
    assert(bn / 20 == 3_000_000 * m);
    assert(bn + bn / 20 == 500 * n);
    let k = ceil_div(n, d);
    assert(k * d >= n && (k - 1) * d < n) by (nonlinear_arith)
        requires
            d > 0,
            k == (n + d - 1) / (d as int),
    ;
    assert(k <= n) by (nonlinear_arith)
        requires
            d >= 1,
            k == (n + d - 1) / (d as int),
    ;
    assert(500 * k * d >= 500 * n && (500 * k - 500) * d < 500 * n) by (nonlinear_arith)
        requires
            k * d >= n,
            (k - 1) * d < n,
    ;
    assert(r.rounded_length == 500 * k);
    assert(r.base_length.num == bn);
    assert(r.waste_length.num == bn / 20);
    assert(r.base_length.den == d);
}


proof fn lemma_alternatives_nonempty(v: Option<Seq<char>>)
    ensures
        alternatives_spec(v).len() >= 1,
{
}

proof fn lemma_mid_first(o: DraftView, a: Option<Seq<char>>, bs: Seq<Option<Seq<char>>>, cs: Seq<Option<Seq<char>>>)
    requires
        bs.len() >= 1,
        cs.len() >= 1,
    ensures
        variants_mid(o, a, bs, cs).len() >= 1,
        variants_mid(o, a, bs, cs)[0] == with_materials(o, a, bs[0], cs[0]),
    decreases bs.len(),
{
    if bs.len() > 1 {
        lemma_mid_first(o, a, bs.drop_last(), cs);
    } else {
        assert(variants_mid(o, a, bs.drop_last(), cs) =~= Seq::<DraftView>::empty());
    }
}

proof fn lemma_outer_first(
    o: DraftView,
    as_: Seq<Option<Seq<char>>>,
    bs: Seq<Option<Seq<char>>>,
    cs: Seq<Option<Seq<char>>>,
)
    requires
        as_.len() >= 1,
        bs.len() >= 1,
        cs.len() >= 1,
    ensures
        variants_outer(o, as_, bs, cs).len() >= 1,
        variants_outer(o, as_, bs, cs)[0] == with_materials(o, as_[0], bs[0], cs[0]),
    decreases as_.len(),
{
    lemma_mid_first(o, as_.last(), bs, cs);
    if as_.len() > 1 {
        lemma_outer_first(o, as_.drop_last(), bs, cs);
    } else {
        lemma_mid_first(o, as_[0], bs, cs);
        assert(variants_outer(o, as_.drop_last(), bs, cs) =~= Seq::<DraftView>::empty());
    }
}

proof fn lemma_results_each(vs: Seq<DraftView>)
    ensures
        results_spec(vs) matches Ok(rs) ==> rs.len() == vs.len() && forall|i: int|
            0 <= i < vs.len() ==> single_order_spec(#[trigger] vs[i]) == Ok::<CalcResult, Seq<char>>(rs[i]),
    decreases vs.len(),
{
    if vs.len() > 0 {
        lemma_results_each(vs.drop_last());
        if let Ok(rs) = results_spec(vs) {
            let p = results_spec(vs.drop_last())->Ok_0;
            assert forall|i: int| 0 <= i < vs.len() implies single_order_spec(#[trigger] vs[i])
                == Ok::<CalcResult, Seq<char>>(rs[i]) by {
                if i < vs.len() - 1 {
                    assert(vs.drop_last()[i] == vs[i]);
                    assert(rs[i] == p[i]);
                }
            }
        }
    }
}

/// `calculate_order` succeeds exactly when `calculate_order_lengths` does, and
/// its length is the first of the lengths: the variant that takes the first
/// `yoki` alternative of every layer. An error in any variant fails both.
pub proof fn lemma_order_is_first_variant(o: DraftView)
    ensures
        variants_spec(o).len() >= 1,
        variants_spec(o)[0] == with_materials(
            o,
            alternatives_spec(o.first_material)[0],
            alternatives_spec(o.second_material)[0],
            alternatives_spec(o.third_material)[0],
        ),
        calculate_order_spec(o) is Ok <==> results_spec(variants_spec(o)) is Ok,
        calculate_order_spec(o) matches Ok(r) ==> (results_spec(variants_spec(o)) matches Ok(rs)
            && rounded_lengths(rs).len() >= 1 && rounded_lengths(rs)[0] == r.rounded_length
            && single_order_spec(variants_spec(o)[0]) == Ok::<CalcResult, Seq<char>>(r)),
        results_spec(variants_spec(o)) matches Err(e) ==> calculate_order_spec(o) == Err::<CalcResult, Seq<char>>(e),
{
    lemma_alternatives_nonempty(o.first_material);
    lemma_alternatives_nonempty(o.second_material);
    lemma_alternatives_nonempty(o.third_material);
    lemma_outer_first(
        o,
        alternatives_spec(o.first_material),
        alternatives_spec(o.second_material),
        alternatives_spec(o.third_material),
    );
    let vs = variants_spec(o);
    lemma_results_each(vs);
    if let Ok(rs) = results_spec(vs) {
        assert(single_order_spec(vs[0]) == Ok::<CalcResult, Seq<char>>(rs[0]));
        assert(rounded_lengths(rs)[0] == rs[0].rounded_length);
    }
}


/// The formula of an order, over exact numbers: the coefficient sum is the
/// sum of the layers' coefficients (in thousandths) and is positive; the
/// width in centimetres is the width in millimetres divided by 10; the base
/// length is `KG / (coefficient sum * width in cm) * 6000`; the waste is 5%
/// of it; and the final length is the least multiple of 500 that is at
/// least their sum.
pub proof fn lemma_order_formula(o: DraftView)
    requires
        single_order_spec(o) is Ok,
    ensures
        ({
            let r = single_order_spec(o)->Ok_0;
            let kg = o.kg->Some_0;
            let w = o.width_mm->Some_0;
            &&& o.kg is Some && o.width_mm is Some
            &&& r.coeff_sum == r.first_coeff + r.other_coeff
            &&& r.coeff_sum > 0
            &&& r.width_sm.units == w.units && r.width_sm.scale == w.scale + 1
            &&& r.base_length.den > 0
            &&& r.base_length.num * (pow10(kg.scale as nat) * r.coeff_sum * r.width_sm.units)
                == r.base_length.den * (kg.units * 6_000_000 * pow10(r.width_sm.scale as nat))
            &&& r.waste_length.num * 20 == r.base_length.num
            &&& r.waste_length.den == r.base_length.den
            &&& r.rounded_length % 500 == 0
            &&& r.rounded_length * r.base_length.den >= r.base_length.num + r.waste_length.num
            &&& (r.rounded_length - 500) * r.base_length.den < r.base_length.num
                + r.waste_length.num
        }),
{
    lemma_rounded_is_least_multiple_of_500(o);
    let (fc, oc, kg, w) = order_inputs(o)->Ok_0;
    let c = fc + oc;
    let r = calc_of(fc, oc, kg, w);
    lemma_pow10_pos(kg.scale as nat);
    lemma_pow10_pos(w.scale as nat);
    lemma_pow10_mono(kg.scale as nat, 6);
    lemma_pow10_mono(w.scale as nat, 6);
    reveal_with_fuel(pow10, 7);
    let p = pow10(w.scale as nat);
    let pk = pow10(kg.scale as nat);
    let bn = base_num(kg, w);
    let d = length_den(kg, w, c);
    assert(pow10((w.scale + 1) as nat) == 10 * p);
    assert(bn == kg.units * 60_000_000 * p);
    assert(d == pk * c * w.units);
    assert(bn <= 1_000_000_000_000_000 * 60_000_000 * 1_000_000) by (nonlinear_arith)
        requires
            bn == kg.units * 60_000_000 * p,
            kg.units < 1_000_000_000_000_000,
            p <= 1_000_000,
    ;
    assert(d > 0 && d <= 1_000_000 * 1_000_000_000_000_000 * 1_000_000_000_000_000) by (
    nonlinear_arith)
        requires
            d == pk * c * w.units,
            0 < pk <= 1_000_000,
            0 < c < 1_000_000_000_000_000,
            0 < w.units < 1_000_000_000_000_000,
    ;
    assert(r.base_length.num == bn);
    assert(r.base_length.den == d);
    assert(r.coeff_sum == c);
    assert(bn * (pk * c * w.units) == d * (kg.units * 6_000_000 * (10 * p))) by (nonlinear_arith)
        requires
            bn == kg.units * 60_000_000 * p,
            d == pk * c * w.units,
    ;
}


/// The sum of the coefficients of paired materials and microns, each taken
/// as the tables give it.
pub open spec fn coeff_total(mats: Seq<Seq<char>>, ms: Seq<u32>, is_first: bool) -> nat
    decreases mats.len(),
{
    if mats.len() == 0 || ms.len() == 0 {
        0
    } else {
        coeff_total(mats.drop_last(), ms.drop_last(), is_first) + match coefficient_single_spec(
            mats.last(),
            ms.last(),
            is_first,
        ) {
            Ok(v) => v as nat,
            Err(_) => 0nat,
        }
    }
}

proof fn lemma_sum_coeffs_all_ok(mats: Seq<Seq<char>>, ms: Seq<u32>, is_first: bool)
    requires
        mats.len() == ms.len(),
        forall|i: int|
            0 <= i < mats.len() ==> coefficient_single_spec(#[trigger] mats[i], ms[i], is_first) is Ok,
    ensures
        sum_coeffs(mats, ms, is_first) == Ok::<nat, Seq<char>>(coeff_total(mats, ms, is_first)),
    decreases mats.len(),
{
    if mats.len() > 0 {
        let p = mats.drop_last();
        let q = ms.drop_last();
        assert forall|i: int| 0 <= i < p.len() implies coefficient_single_spec(#[trigger] p[i], q[i], is_first) is Ok by {
            assert(p[i] == mats[i]);
            assert(q[i] == ms[i]);
        }
        lemma_sum_coeffs_all_ok(p, q, is_first);
        assert(coefficient_single_spec(mats[mats.len() - 1], ms[mats.len() - 1], is_first) is Ok);
    }
}

proof fn lemma_sum_coeffs_first_err(mats: Seq<Seq<char>>, ms: Seq<u32>, is_first: bool, k: int)
    requires
        mats.len() == ms.len(),
        0 <= k < mats.len(),
        coefficient_single_spec(mats[k], ms[k], is_first) is Err,
        forall|j: int|
            0 <= j < k ==> coefficient_single_spec(#[trigger] mats[j], ms[j], is_first) is Ok,
    ensures
        sum_coeffs(mats, ms, is_first) == Err::<nat, Seq<char>>(
            coefficient_single_spec(mats[k], ms[k], is_first)->Err_0,
        ),
    decreases mats.len(),
{
    let p = mats.drop_last();
    let q = ms.drop_last();
    if k < mats.len() - 1 {
        assert(p[k] == mats[k] && q[k] == ms[k]);
        assert forall|j: int| 0 <= j < k implies coefficient_single_spec(#[trigger] p[j], q[j], is_first) is Ok by {
            assert(p[j] == mats[j] && q[j] == ms[j]);
        }
        lemma_sum_coeffs_first_err(p, q, is_first, k);
    } else {
        assert forall|i: int| 0 <= i < p.len() implies coefficient_single_spec(#[trigger] p[i], q[i], is_first) is Ok by {
            assert(p[i] == mats[i] && q[i] == ms[i]);
        }
        lemma_sum_coeffs_all_ok(p, q, is_first);
    }
}

/// A layer cell with slashes is several layers. With one material the
/// layer's micron is used; with as many materials as microns (two or more)
/// each material takes its micron and the coefficients add up, the first
/// failing piece giving the error; with other counts the cell is refused.
pub proof fn lemma_slash_cell_rule(material: Seq<char>, micron_text: Seq<char>, micron: u32, is_first: bool)
    requires
        micron_list(micron_text) is Some,
    ensures
        ({
            let mats = split_parts_spec(material);
            let us = micron_list(micron_text)->Some_0;
            &&& mats.len() == 1 ==> coefficient_cell_spec(material, micron_text, micron, is_first) == match coefficient_single_spec(
                mats[0],
                micron,
                is_first,
            ) {
                Ok(v) => Ok::<nat, Seq<char>>(v as nat),
                Err(e) => Err(e),
            }
            &&& (mats.len() != 1 && mats.len() != us.len()) ==> coefficient_cell_spec(
                material,
                micron_text,
                micron,
                is_first,
            ) == Err::<nat, Seq<char>>(mismatch_error(material, micron_text))
            &&& (mats.len() == us.len() && mats.len() >= 2 && forall|i: int|
                0 <= i < mats.len() ==> coefficient_single_spec(#[trigger] mats[i], us[i], is_first) is Ok)
                ==> coefficient_cell_spec(material, micron_text, micron, is_first) == Ok::<nat, Seq<char>>(
                coeff_total(mats, us, is_first),
            )
            &&& forall|k: int|
                (mats.len() == us.len() && mats.len() >= 2 && 0 <= k < mats.len()
                    && coefficient_single_spec(#[trigger] mats[k], us[k], is_first) is Err
                    && forall|j: int|
                    0 <= j < k ==> coefficient_single_spec(#[trigger] mats[j], us[j], is_first) is Ok)
                    ==> coefficient_cell_spec(material, micron_text, micron, is_first) == Err::<nat, Seq<char>>(
                    coefficient_single_spec(mats[k], us[k], is_first)->Err_0,
                )
        }),
{
    let mats = split_parts_spec(material);
    let us = micron_list(micron_text)->Some_0;
    if mats.len() == us.len() && mats.len() >= 2 {
        if forall|i: int|
            0 <= i < mats.len() ==> coefficient_single_spec(#[trigger] mats[i], us[i], is_first) is Ok {
            lemma_sum_coeffs_all_ok(mats, us, is_first);
        }
        assert forall|k: int|
            (0 <= k < mats.len() && coefficient_single_spec(#[trigger] mats[k], us[k], is_first) is Err
                && forall|j: int|
                0 <= j < k ==> coefficient_single_spec(#[trigger] mats[j], us[j], is_first) is Ok)
                implies coefficient_cell_spec(material, micron_text, micron, is_first) == Err::<nat, Seq<char>>(
            coefficient_single_spec(mats[k], us[k], is_first)->Err_0,
        ) by {
            lemma_sum_coeffs_first_err(mats, us, is_first, k);
        }
    }
}

} // verus!
