//! The terminal calculator's formula: the film length of an order from its
//! weight, its width and its two layer cells, with a waste share and a
//! rounding step, computed exactly.
use vstd::prelude::*;

use crate::calc::{ceil_div, Ratio, Scaled};
use crate::cli_materials::{
    coefficient_single, coefficient_single_spec, family_spec, is_empty_material, is_empty_spec,
    material_family, micron_parts_spec, parse_micron_parts, split_materials, MaterialFamily,
};
use crate::materials::split_parts_spec;
use crate::num::{lemma_pow10_pos, pow10, pow10_u128, Decimal};
use crate::text::{append_all, append_str, chars_of, owned, string_of, trim, trim_str};

verus! {

// ---------------------------------------------------------------------------
// Numbers
// ---------------------------------------------------------------------------

/// A decimal number with a sign: `-units / 10^scale` when `negative`.
#[derive(Clone, Copy, Debug, PartialEq, Eq, Structural)]
pub struct Number {
    pub negative: bool,
    pub magnitude: Decimal,
}

impl Number {
    pub open spec fn wf(self) -> bool {
        self.magnitude.wf()
    }

    /// Greater than zero.
    pub open spec fn positive(self) -> bool {
        !self.negative && self.magnitude.units > 0
    }

    /// The numerator over `10^scale`, with its sign.
    pub open spec fn signed_units(self) -> int {
        if self.negative {
            -(self.magnitude.units as int)
        } else {
            self.magnitude.units as int
        }
    }

    pub open spec fn whole_spec(n: u32) -> Number {
        Number { negative: false, magnitude: Decimal { units: n as u64, scale: 0 } }
    }

    pub fn whole(n: u32) -> (r: Number)
        ensures
            r == Number::whole_spec(n),
            r.wf(),
    {
        Number { negative: false, magnitude: Decimal::whole(n) }
    }

    pub fn is_positive(&self) -> (r: bool)
        ensures
            r == self.positive(),
    {
        !self.negative && self.magnitude.units > 0
    }
}

/// A fraction with a sign: `-num / den` when `negative`.
#[derive(Clone, Copy, Debug, PartialEq, Eq, Structural)]
pub struct Signed {
    pub negative: bool,
    pub num: u128,
    pub den: u128,
}

// ---------------------------------------------------------------------------
// Layers
// ---------------------------------------------------------------------------

/// A layer cell: its material(s), its micron text and the micron it counts with.
#[derive(Debug)]
pub struct Layer {
    pub material: String,
    pub micron_text: String,
    pub micron: u32,
}

pub open spec fn mismatch_error(material: Seq<char>, micron_text: Seq<char>) -> Seq<char> {
    "material va mikron soni mos emas: '"@ + material + "' va '"@ + micron_text + "'"@
}

/// The sum of the coefficients of paired materials and microns; the first
/// error wins.
pub open spec fn sum_coeffs(mats: Seq<Seq<char>>, ms: Seq<u32>, is_first: bool) -> Result<
    nat,
    Seq<char>,
>
    decreases mats.len(),
{
    if mats.len() == 0 || ms.len() != mats.len() {
        Ok(0)
    } else {
        match sum_coeffs(mats.drop_last(), ms.drop_last(), is_first) {
            Err(e) => Err(e),
            Ok(s) => match coefficient_single_spec(mats.last(), ms.last(), is_first) {
                Err(e) => Err(e),
                Ok(v) => Ok((s + v) as nat),
            },
        }
    }
}

proof fn lemma_sum_coeffs_prefix_err(mats: Seq<Seq<char>>, ms: Seq<u32>, is_first: bool, i: int)
    requires
        0 < i <= mats.len() == ms.len(),
        sum_coeffs(mats.take(i), ms.take(i), is_first) is Err,
    ensures
        sum_coeffs(mats, ms, is_first) == sum_coeffs(mats.take(i), ms.take(i), is_first),
    decreases mats.len() - i,
{
    if i < mats.len() {
        assert(mats.take(i + 1).drop_last() =~= mats.take(i));
        assert(ms.take(i + 1).drop_last() =~= ms.take(i));
        lemma_sum_coeffs_prefix_err(mats, ms, is_first, i + 1);
    } else {
        assert(mats.take(i) =~= mats);
        assert(ms.take(i) =~= ms);
    }
}

/// The coefficient of a layer cell, in thousandths: one material takes the
/// layer's micron, several materials are paired with the microns one by one.
pub open spec fn cell_spec(material: Seq<char>, micron_text: Seq<char>, micron: u32, is_first: bool) -> Result<
    nat,
    Seq<char>,
> {
    let mats = split_parts_spec(material);
    match micron_parts_spec(micron_text) {
        Err(e) => Err(e),
        Ok(ms) => if mats.len() == 1 {
            match coefficient_single_spec(mats[0], micron, is_first) {
                Ok(v) => Ok(v as nat),
                Err(e) => Err(e),
            }
        } else if mats.len() != ms.len() {
            Err(mismatch_error(material, micron_text))
        } else {
            sum_coeffs(mats, ms, is_first)
        },
    }
}

pub fn coefficient_cell(layer: &Layer, is_first_layer: bool) -> (r: Result<u128, String>)
    ensures
        match (r, cell_spec(layer.material@, layer.micron_text@, layer.micron, is_first_layer)) {
            (Ok(a), Ok(b)) => a == b,
            (Err(a), Err(b)) => a@ == b,
            _ => false,
        },
        r matches Ok(v) ==> v <= 0x1_0000_0000_0000_0000 * 1_000_000,
{
    let materials = split_materials(layer.material.as_str());
    let microns = parse_micron_parts(layer.micron_text.as_str())?;
    let ghost mats = materials@.map_values(|s: String| s@);
    if materials.len() == 1 {
        assert(mats[0] == materials@[0]@);
        let v = coefficient_single(materials[0].as_str(), layer.micron, is_first_layer)?;
        return Ok(v as u128);
    }
    if materials.len() != microns.len() {
        let mut e = chars_of("material va mikron soni mos emas: '");
        let m = chars_of(layer.material.as_str());
        append_all(&mut e, &m);
        append_str(&mut e, "' va '");
        let t = chars_of(layer.micron_text.as_str());
        append_all(&mut e, &t);
        append_str(&mut e, "'");
        return Err(string_of(&e));
    }
    let mut sum: u128 = 0;
    let mut i: usize = 0;
    while i < materials.len()
        invariant
            i <= materials.len() == microns.len(),
            mats == materials@.map_values(|s: String| s@),
            mats == split_parts_spec(layer.material@),
            mats.len() != 1,
            micron_parts_spec(layer.micron_text@) == Ok::<Seq<u32>, Seq<char>>(microns@),
            sum_coeffs(mats.take(i as int), microns@.take(i as int), is_first_layer) == Ok::<
                nat,
                Seq<char>,
            >(sum as nat),
            sum <= i * 1_000_000,
        decreases materials.len() - i,
    {
        assert(mats.take(i + 1).drop_last() =~= mats.take(i as int));
        assert(microns@.take(i + 1).drop_last() =~= microns@.take(i as int));
        assert(mats.take(i + 1).last() == materials@[i as int]@);
        match coefficient_single(materials[i].as_str(), microns[i], is_first_layer) {
            Ok(v) => {
                sum = sum + v as u128;
            },
            Err(e) => {
                proof {
                    lemma_sum_coeffs_prefix_err(mats, microns@, is_first_layer, i + 1);
                }
                return Err(e);
            },
        }
        i = i + 1;
    }
    assert(mats.take(i as int) =~= mats);
    assert(microns@.take(i as int) =~= microns@);
    Ok(sum)
}

/// Joins the second and third layer into one cell, as `oppm/pe pr` and
/// `20/30`; a third material needs its micron.
pub open spec fn merge_spec(q2: Seq<char>, m2: Seq<char>, q3: Seq<char>, m3: Seq<char>) -> Result<
    (Seq<char>, Seq<char>),
    Seq<char>,
> {
    let e2 = is_empty_spec(q2);
    let e3 = is_empty_spec(q3);
    if e2 && e3 {
        Ok(("--"@, "--"@))
    } else if e3 {
        Ok((q2, m2))
    } else if trim(m3).len() == 0 {
        Err("3-qavat materiali bor, lekin mikroni berilmagan"@)
    } else if e2 {
        Ok((q3, m3))
    } else {
        Ok((q2 + "/"@ + q3, m2 + "/"@ + m3))
    }
}

pub fn merge_optional_third_layer(
    second_material: String,
    second_micron_text: String,
    third_material: String,
    third_micron_text: String,
) -> (r: Result<(String, String), String>)
    ensures
        match (
            r,
            merge_spec(
                second_material@,
                second_micron_text@,
                third_material@,
                third_micron_text@,
            ),
        ) {
            (Ok((a, b)), Ok((c, d))) => a@ == c && b@ == d,
            (Err(a), Err(b)) => a@ == b,
            _ => false,
        },
{
    let second_empty = is_empty_material(second_material.as_str());
    let third_empty = is_empty_material(third_material.as_str());
    if second_empty && third_empty {
        return Ok((owned("--"), owned("--")));
    }
    if third_empty {
        return Ok((second_material, second_micron_text));
    }
    let t = trim_str(third_micron_text.as_str());
    if t.len() == 0 {
        return Err(owned("3-qavat materiali bor, lekin mikroni berilmagan"));
    }
    if second_empty {
        return Ok((third_material, third_micron_text));
    }
    let mut q = chars_of(second_material.as_str());
    append_str(&mut q, "/");
    let q3 = chars_of(third_material.as_str());
    append_all(&mut q, &q3);
    let mut m = chars_of(second_micron_text.as_str());
    append_str(&mut m, "/");
    let m3 = chars_of(third_micron_text.as_str());
    append_all(&mut m, &m3);
    Ok((string_of(&q), string_of(&m)))
}

// ---------------------------------------------------------------------------
// The formula
// ---------------------------------------------------------------------------

/// Everything that the formula reads.
#[derive(Debug)]
pub struct Calculation {
    pub kg: Number,
    pub razmer_mm: Number,
    pub first_layer: Layer,
    pub second_layer: Layer,
    pub waste_percent: Number,
    pub round_to: Number,
}

impl Calculation {
    pub open spec fn wf(&self) -> bool {
        self.kg.wf() && self.razmer_mm.wf() && self.waste_percent.wf() && self.round_to.wf()
    }
}

/// Every step of the formula. Coefficients are in thousandths.
#[derive(Clone, Copy, Debug, PartialEq, Eq, Structural)]
pub struct ResultBreakdown {
    pub first_coeff: u128,
    pub second_coeff: u128,
    pub coeff_sum: u128,
    pub razmer_sm: Scaled,
    pub density_part: Ratio,
    pub base_length: Ratio,
    pub waste_length: Signed,
    pub length_with_waste: Signed,
    pub rounded_length: Signed,
}

pub open spec fn abs(x: int) -> nat {
    if x < 0 {
        (-x) as nat
    } else {
        x as nat
    }
}

/// `kg / (coeff * razmer_cm) * 6000`, with the coefficient sum `c` in
/// thousandths: its numerator ...
pub open spec fn base_num(kg: Decimal, razmer: Decimal) -> nat {
    (kg.units * 60_000_000 * pow10(razmer.scale as nat)) as nat
}

/// ... and its denominator.
pub open spec fn base_den(kg: Decimal, razmer: Decimal, c: nat) -> nat {
    (pow10(kg.scale as nat) * c * razmer.units) as nat
}

/// A hundredth of the base length's numerator.
pub open spec fn part(kg: Decimal, razmer: Decimal) -> nat {
    (kg.units * 600_000 * pow10(razmer.scale as nat)) as nat
}

/// `100 + waste` (as a percentage), over `10^scale` of the waste.
pub open spec fn waste_factor(w: Number) -> int {
    100 * pow10(w.magnitude.scale as nat) + w.signed_units()
}

/// The length with waste, over a rounding step: numerator ...
pub open spec fn steps_num(kg: Decimal, razmer: Decimal, w: Number, q: Decimal) -> nat {
    part(kg, razmer) * abs(waste_factor(w)) * pow10(q.scale as nat)
}

/// ... and denominator.
pub open spec fn steps_den(kg: Decimal, razmer: Decimal, c: nat, w: Number, q: Decimal) -> nat {
    base_den(kg, razmer, c) * pow10(w.magnitude.scale as nat) * (q.units as nat)
}

/// How many rounding steps the rounded length is: the length is rounded up
/// (a negative length towards zero).
pub open spec fn steps(kg: Decimal, razmer: Decimal, c: nat, w: Number, q: Decimal) -> nat {
    if waste_factor(w) >= 0 {
        ceil_div(steps_num(kg, razmer, w, q), steps_den(kg, razmer, c, w, q))
    } else {
        steps_num(kg, razmer, w, q) / steps_den(kg, razmer, c, w, q)
    }
}

/// Every number of the formula fits in `u128`.
pub open spec fn fits(kg: Decimal, razmer: Decimal, c: nat, w: Number, q: Decimal) -> bool {
    &&& base_num(kg, razmer) <= u128::MAX
    &&& part(kg, razmer) * w.magnitude.units <= u128::MAX
    &&& steps_num(kg, razmer, w, q) <= u128::MAX
    &&& steps_den(kg, razmer, c, w, q) <= u128::MAX
    &&& q.units * steps(kg, razmer, c, w, q) <= u128::MAX
}

pub open spec fn breakdown_of(a: nat, b: nat, kg: Decimal, razmer: Decimal, w: Number, q: Decimal) -> ResultBreakdown {
    let c = a + b;
    let den = base_den(kg, razmer, c) * pow10(w.magnitude.scale as nat);
    ResultBreakdown {
        first_coeff: a as u128,
        second_coeff: b as u128,
        coeff_sum: c as u128,
        razmer_sm: Scaled { units: razmer.units as u128, scale: (razmer.scale + 1) as u32 },
        density_part: Ratio {
            num: (c * razmer.units) as u128,
            den: (1000 * pow10((razmer.scale + 1) as nat)) as u128,
        },
        base_length: Ratio {
            num: base_num(kg, razmer) as u128,
            den: base_den(kg, razmer, c) as u128,
        },
        waste_length: Signed {
            negative: w.negative,
            num: (part(kg, razmer) * w.magnitude.units) as u128,
            den: den as u128,
        },
        length_with_waste: Signed {
            negative: waste_factor(w) < 0,
            num: (part(kg, razmer) * abs(waste_factor(w))) as u128,
            den: den as u128,
        },
        rounded_length: Signed {
            negative: waste_factor(w) < 0,
            num: (q.units * steps(kg, razmer, c, w, q)) as u128,
            den: pow10(q.scale as nat) as u128,
        },
    }
}

pub open spec fn too_big_error() -> Seq<char> {
    "raqam juda katta"@
}

/// The coefficient of a layer: nothing for an empty layer.
pub open spec fn layer_coeff(
    material: Seq<char>,
    micron_text: Seq<char>,
    micron: u32,
    f: MaterialFamily,
    is_first: bool,
) -> Result<nat, Seq<char>> {
    if f == MaterialFamily::Empty {
        Ok(0)
    } else {
        cell_spec(material, micron_text, micron, is_first)
    }
}

/// A layer by its view: material, micron text and micron.
pub type LayerView = (Seq<char>, Seq<char>, u32);

pub open spec fn layer_view(l: Layer) -> LayerView {
    (l.material@, l.micron_text@, l.micron)
}

/// What the formula gives, or the first error: the weight, the width and
/// the rounding step must be positive, both materials known, their cells
/// valid, and at least one layer not empty.
pub open spec fn formula(
    kg: Number,
    razmer: Number,
    first: LayerView,
    second: LayerView,
    waste: Number,
    round: Number,
) -> Result<ResultBreakdown, Seq<char>> {
    if !kg.positive() {
        Err("KG 0 dan katta bo'lishi kerak"@)
    } else if !razmer.positive() {
        Err("RAZMER 0 dan katta bo'lishi kerak"@)
    } else if !round.positive() {
        Err("yaxlitlash qiymati 0 dan katta bo'lishi kerak"@)
    } else {
        match (family_spec(first.0), family_spec(second.0)) {
            (Err(e), _) => Err(e),
            (Ok(_), Err(e)) => Err(e),
            (Ok(f1), Ok(f2)) => match layer_coeff(first.0, first.1, first.2, f1, true) {
                Err(e) => Err(e),
                Ok(a) => match layer_coeff(second.0, second.1, second.2, f2, false) {
                    Err(e) => Err(e),
                    Ok(b) => {
                        let k = kg.magnitude;
                        let rz = razmer.magnitude;
                        let q = round.magnitude;
                        if a + b == 0 {
                            Err("kamida bitta qavat materiali bo'lishi kerak"@)
                        } else if !fits(k, rz, a + b, waste, q) {
                            Err(too_big_error())
                        } else {
                            Ok(breakdown_of(a, b, k, rz, waste, q))
                        }
                    },
                },
            },
        }
    }
}

pub open spec fn calculate_spec(c: Calculation) -> Result<ResultBreakdown, Seq<char>> {
    formula(
        c.kg,
        c.razmer_mm,
        layer_view(c.first_layer),
        layer_view(c.second_layer),
        c.waste_percent,
        c.round_to,
    )
}

proof fn lemma_le_mul(x: nat, y: nat)
    requires
        y >= 1,
    ensures
        x <= x * y,
{
    assert(x <= x * y) by (nonlinear_arith)
        requires
            y >= 1,
    ;
}

fn checked_product(a: u128, b: u128) -> (r: Option<u128>)
    ensures
        match r {
            Some(v) => v == a * b,
            None => a * b > u128::MAX,
        },
{
    a.checked_mul(b)
}

/// The formula's numbers for coefficient sums `a + b`, or `None` where one
/// does not fit in `u128`.
fn compute(a: u128, b: u128, kg: Decimal, razmer: Decimal, w: Number, q: Decimal) -> (r: Option<
    ResultBreakdown,
>)
    requires
        a + b > 0,
        a <= 0x1_0000_0000_0000_0000 * 1_000_000,
        b <= 0x1_0000_0000_0000_0000 * 1_000_000,
        kg.wf(),
        razmer.wf(),
        w.wf(),
        q.wf(),
        kg.units > 0,
        razmer.units > 0,
        q.units > 0,
    ensures
        match r {
            Some(res) => fits(kg, razmer, (a + b) as nat, w, q) && res == breakdown_of(
                a as nat,
                b as nat,
                kg,
                razmer,
                w,
                q,
            ),
            None => !fits(kg, razmer, (a + b) as nat, w, q),
        },
{
    let c = a + b;
    let ghost cn = c as nat;
    let pa = pow10_u128(kg.scale);
    let pb = pow10_u128(razmer.scale);
    let pc = pow10_u128(w.magnitude.scale);
    let pd = pow10_u128(q.scale);
    proof {
        lemma_pow10_pos(kg.scale as nat);
        lemma_pow10_pos(razmer.scale as nat);
        lemma_pow10_pos(w.magnitude.scale as nat);
        lemma_pow10_pos(q.scale as nat);
        crate::num::lemma_pow10_mono(w.magnitude.scale as nat, 6);
        crate::num::lemma_pow10_mono(razmer.scale as nat, 6);
        reveal_with_fuel(pow10, 8);
    }
    let ghost bn = base_num(kg, razmer);
    let ghost pt = part(kg, razmer);
    let ghost wn = pt * w.magnitude.units;
    let ghost sn = steps_num(kg, razmer, w, q);
    let ghost sd = steps_den(kg, razmer, cn, w, q);
    let ghost bd = base_den(kg, razmer, cn);
    // The base length's numerator.
    let k6 = match checked_product(kg.units as u128, 60_000_000) {
        Some(v) => v,
        None => {
            proof {
                lemma_le_mul((kg.units * 60_000_000) as nat, pb as nat);
            }
            return None;
        },
    };
    let num = match checked_product(k6, pb) {
        Some(v) => v,
        None => {
            return None;
        },
    };
    // A hundredth of it.
    assert((kg.units as nat) * 600_000 * (pb as nat) <= (kg.units as nat) * 60_000_000 * (pb as nat))
        by (nonlinear_arith);
    let k = kg.units as u128 * 600_000 * pb;
    assert(k == pt);
    assert(100 * pt == bn) by (nonlinear_arith)
        requires
            pt == kg.units * 600_000 * pow10(razmer.scale as nat),
            bn == kg.units * 60_000_000 * pow10(razmer.scale as nat),
    ;
    // The denominator.
    let pac = match checked_product(pa, c) {
        Some(v) => v,
        None => {
            proof {
                lemma_le_mul((pa * c) as nat, razmer.units as nat);
                lemma_le_mul(bd, pc as nat);
                lemma_le_mul((bd * pc) as nat, q.units as nat);
            }
            return None;
        },
    };
    let den = match checked_product(pac, razmer.units as u128) {
        Some(v) => v,
        None => {
            proof {
                lemma_le_mul(bd, pc as nat);
                lemma_le_mul((bd * pc) as nat, q.units as nat);
            }
            return None;
        },
    };
    assert(den == bd);
    let wden = match checked_product(den, pc) {
        Some(v) => v,
        None => {
            proof {
                lemma_le_mul((bd * pc) as nat, q.units as nat);
            }
            return None;
        },
    };
    // The waste.
    let waste = match checked_product(k, w.magnitude.units as u128) {
        Some(v) => v,
        None => {
            return None;
        },
    };
    // 100 + waste, over 10^scale.
    let hundred = 100 * pc;
    let (factor_negative, factor): (bool, u128) = if !w.negative {
        (false, hundred + w.magnitude.units as u128)
    } else if w.magnitude.units as u128 <= hundred {
        (false, hundred - w.magnitude.units as u128)
    } else {
        (true, w.magnitude.units as u128 - hundred)
    };
    assert(factor_negative == (waste_factor(w) < 0));
    assert(factor == abs(waste_factor(w)));
    let total = match checked_product(k, factor) {
        Some(v) => v,
        None => {
            proof {
                lemma_le_mul((pt * factor) as nat, pd as nat);
            }
            return None;
        },
    };
    let snum = match checked_product(total, pd) {
        Some(v) => v,
        None => {
            return None;
        },
    };
    let sden = match checked_product(wden, q.units as u128) {
        Some(v) => v,
        None => {
            return None;
        },
    };
    assert(snum == sn);
    assert(sden == sd);
    assert(sd > 0) by (nonlinear_arith)
        requires
            sd == pow10(kg.scale as nat) * cn * razmer.units * pow10(w.magnitude.scale as nat)
                * q.units,
            pow10(kg.scale as nat) > 0,
            cn > 0,
            razmer.units > 0,
            pow10(w.magnitude.scale as nat) > 0,
            q.units > 0,
    ;
    let whole = snum / sden;
    let rest = snum % sden;
    assert(rest == 0 || whole < u128::MAX) by (nonlinear_arith)
        requires
            whole == snum / sden,
            rest == snum % sden,
            sden > 0,
            snum <= u128::MAX,
    ;
    let count = if !factor_negative && rest != 0 {
        whole + 1
    } else {
        whole
    };
    assert(count == steps(kg, razmer, cn, w, q)) by {
        assert(ceil_div(sn, sd) == sn / sd + if sn % sd != 0 { 1nat } else { 0nat }) by (
        nonlinear_arith)
            requires
                sd > 0,
        ;
    }
    let rounded = match checked_product(q.units as u128, count) {
        Some(v) => v,
        None => {
            return None;
        },
    };
    proof {
        assert(cn * razmer.units <= bd) by (nonlinear_arith)
            requires
                bd == pa * cn * razmer.units,
                pa >= 1,
        ;
    }
    let density = c * razmer.units as u128;
    let sm_den = 10 * pb;
    Some(
        ResultBreakdown {
            first_coeff: a,
            second_coeff: b,
            coeff_sum: c,
            razmer_sm: Scaled { units: razmer.units as u128, scale: razmer.scale + 1 },
            density_part: Ratio { num: density, den: 1000 * sm_den },
            base_length: Ratio { num, den },
            waste_length: Signed { negative: w.negative, num: waste, den: wden },
            length_with_waste: Signed { negative: factor_negative, num: total, den: wden },
            rounded_length: Signed { negative: factor_negative, num: rounded, den: pd },
        },
    )
}

fn layer_coefficient(layer: &Layer, family: MaterialFamily, is_first_layer: bool) -> (r: Result<
    u128,
    String,
>)
    ensures
        match (r, layer_coeff(layer.material@, layer.micron_text@, layer.micron, family, is_first_layer)) {
            (Ok(a), Ok(b)) => a == b,
            (Err(a), Err(b)) => a@ == b,
            _ => false,
        },
        r matches Ok(v) ==> v <= 0x1_0000_0000_0000_0000 * 1_000_000,
{
    if family == MaterialFamily::Empty {
        Ok(0)
    } else {
        coefficient_cell(layer, is_first_layer)
    }
}

/// The length of film for an order, with every step of the formula.
pub fn calculate(calculation: &Calculation) -> (r: Result<ResultBreakdown, String>)
    requires
        calculation.wf(),
    ensures
        match (r, calculate_spec(*calculation)) {
            (Ok(a), Ok(b)) => a == b,
            (Err(a), Err(b)) => a@ == b,
            _ => false,
        },
{
    if !calculation.kg.is_positive() {
        return Err(owned("KG 0 dan katta bo'lishi kerak"));
    }
    if !calculation.razmer_mm.is_positive() {
        return Err(owned("RAZMER 0 dan katta bo'lishi kerak"));
    }
    if !calculation.round_to.is_positive() {
        return Err(owned("yaxlitlash qiymati 0 dan katta bo'lishi kerak"));
    }
    let first_family = material_family(calculation.first_layer.material.as_str())?;
    let second_family = material_family(calculation.second_layer.material.as_str())?;
    let first_coeff = layer_coefficient(&calculation.first_layer, first_family, true)?;
    let second_coeff = layer_coefficient(&calculation.second_layer, second_family, false)?;
    if first_coeff == 0 && second_coeff == 0 {
        return Err(owned("kamida bitta qavat materiali bo'lishi kerak"));
    }
    match compute(
        first_coeff,
        second_coeff,
        calculation.kg.magnitude,
        calculation.razmer_mm.magnitude,
        calculation.waste_percent,
        calculation.round_to.magnitude,
    ) {
        Some(result) => Ok(result),
        None => Err(owned("raqam juda katta")),
    }
}

/// Order 1178 of the sample table: 300 kg, 530 mm, pet 12 and pe pr
/// 30, 5% waste, rounded to 500.
pub fn example_1178() -> (r: Calculation)
    ensures
        r.wf(),
        r.kg == Number::whole_spec(300),
        r.razmer_mm == Number::whole_spec(530),
        r.first_layer.material@ == "pet"@,
        r.first_layer.micron_text@ == "12"@,
        r.first_layer.micron == 12,
        r.second_layer.material@ == "pe pr"@,
        r.second_layer.micron_text@ == "30"@,
        r.second_layer.micron == 30,
        r.waste_percent == Number::whole_spec(5),
        r.round_to == Number::whole_spec(500),
{
    Calculation {
        kg: Number::whole(300),
        razmer_mm: Number::whole(530),
        first_layer: Layer { material: owned("pet"), micron_text: owned("12"), micron: 12 },
        second_layer: Layer { material: owned("pe pr"), micron_text: owned("30"), micron: 30 },
        waste_percent: Number::whole(5),
        round_to: Number::whole(500),
    }
}

/// The rounded length is the least multiple of the rounding step that is at
/// least the length with waste: with `L = num / den` the length with waste
/// and `R = num / den` the rounded length, `L <= R < L + step`.
pub proof fn lemma_rounded_is_least_step_multiple(
    kg: Number,
    razmer: Number,
    first: LayerView,
    second: LayerView,
    waste: Number,
    round: Number,
)
    requires
        kg.wf() && razmer.wf() && waste.wf() && round.wf(),
        formula(kg, razmer, first, second, waste, round) is Ok,
        waste_factor(waste) >= 0,
    ensures
        ({
            let r = formula(kg, razmer, first, second, waste, round)->Ok_0;
            let total = r.length_with_waste;
            let rounded = r.rounded_length;
            let q = round.magnitude.units as int;
            &&& !rounded.negative
            &&& (rounded.num as int) % q == 0
            &&& rounded.num * total.den >= total.num * rounded.den
            &&& (rounded.num - q) * total.den < total.num * rounded.den
        }),
{
    let r = formula(kg, razmer, first, second, waste, round)->Ok_0;
    let k = kg.magnitude;
    let rz = razmer.magnitude;
    let q = round.magnitude;
    let f1 = family_spec(first.0)->Ok_0;
    let f2 = family_spec(second.0)->Ok_0;
    let a = layer_coeff(first.0, first.1, first.2, f1, true)->Ok_0;
    let b = layer_coeff(second.0, second.1, second.2, f2, false)->Ok_0;
    let c = a + b;
    assert(r == breakdown_of(a, b, k, rz, waste, q));
    assert(fits(k, rz, c, waste, q));
    let sn = steps_num(k, rz, waste, q);
    let sd = steps_den(k, rz, c, waste, q);
    let st = steps(k, rz, c, waste, q);
    let tn = part(k, rz) * abs(waste_factor(waste));
    let td = base_den(k, rz, c) * pow10(waste.magnitude.scale as nat);
    let pd = pow10(q.scale as nat);
    assert(sn == tn * pd);
    lemma_pow10_pos(k.scale as nat);
    lemma_pow10_pos(waste.magnitude.scale as nat);
    lemma_pow10_pos(q.scale as nat);
    assert(tn <= sn) by (nonlinear_arith)
        requires
            sn == tn * pd,
            pd >= 1,
    ;
    assert(td <= sd) by (nonlinear_arith)
        requires
            sd == td * q.units,
            q.units >= 1,
    ;
    crate::num::lemma_pow10_mono(q.scale as nat, 6);
    reveal_with_fuel(pow10, 7);
    assert(r.rounded_length.num == q.units * st);
    assert(r.length_with_waste.num == tn);
    assert(r.length_with_waste.den == td);
    assert(r.rounded_length.den == pd);
    assert(sd == td * q.units);
    assert(td > 0) by (nonlinear_arith)
        requires
            td == pow10(k.scale as nat) * c * rz.units * pow10(waste.magnitude.scale as nat),
            pow10(k.scale as nat) > 0,
            c > 0,
            rz.units > 0,
            pow10(waste.magnitude.scale as nat) > 0,
    ;
    assert(sd > 0) by (nonlinear_arith)
        requires
            sd == td * q.units,
            td > 0,
            q.units > 0,
    ;
    assert(st == ceil_div(sn, sd));
    assert(st * sd >= sn && (st - 1) * sd < sn) by (nonlinear_arith)
        requires
            sd > 0,
            st == (sn + sd - 1) / (sd as int),
    ;
    assert((q.units * st) % (q.units as int) == 0) by (nonlinear_arith)
        requires
            q.units > 0,
    ;
    assert(q.units * st * td >= tn * pd) by (nonlinear_arith)
        requires
            st * sd >= sn,
            sn == tn * pd,
            sd == td * q.units,
    ;
    assert((q.units * st - q.units) * td < tn * pd) by (nonlinear_arith)
        requires
            (st - 1) * sd < sn,
            sn == tn * pd,
            sd == td * q.units,
    ;
}


/// A negative length with waste (a waste below -100%) is rounded towards
/// zero, as `ceil` does: with `-L` the length with waste and `-R` the
/// rounded length, `R` is the greatest multiple of the step with
/// `R <= L < R + step`.
pub proof fn lemma_negative_rounded_towards_zero(
    kg: Number,
    razmer: Number,
    first: LayerView,
    second: LayerView,
    waste: Number,
    round: Number,
)
    requires
        kg.wf() && razmer.wf() && waste.wf() && round.wf(),
        formula(kg, razmer, first, second, waste, round) is Ok,
        waste_factor(waste) < 0,
    ensures
        ({
            let r = formula(kg, razmer, first, second, waste, round)->Ok_0;
            let total = r.length_with_waste;
            let rounded = r.rounded_length;
            let q = round.magnitude.units as int;
            &&& rounded.negative && total.negative
            &&& (rounded.num as int) % q == 0
            &&& rounded.num * total.den <= total.num * rounded.den
            &&& (rounded.num + q) * total.den > total.num * rounded.den
        }),
{
    let r = formula(kg, razmer, first, second, waste, round)->Ok_0;
    let k = kg.magnitude;
    let rz = razmer.magnitude;
    let q = round.magnitude;
    let f1 = family_spec(first.0)->Ok_0;
    let f2 = family_spec(second.0)->Ok_0;
    let a = layer_coeff(first.0, first.1, first.2, f1, true)->Ok_0;
    let b = layer_coeff(second.0, second.1, second.2, f2, false)->Ok_0;
    let c = a + b;
    assert(r == breakdown_of(a, b, k, rz, waste, q));
    assert(fits(k, rz, c, waste, q));
    let sn = steps_num(k, rz, waste, q);
    let sd = steps_den(k, rz, c, waste, q);
    let st = steps(k, rz, c, waste, q);
    let tn = part(k, rz) * abs(waste_factor(waste));
    let td = base_den(k, rz, c) * pow10(waste.magnitude.scale as nat);
    let pd = pow10(q.scale as nat);
    assert(sn == tn * pd);
    lemma_pow10_pos(k.scale as nat);
    lemma_pow10_pos(waste.magnitude.scale as nat);
    lemma_pow10_pos(q.scale as nat);
    assert(tn <= sn) by (nonlinear_arith)
        requires
            sn == tn * pd,
            pd >= 1,
    ;
    assert(td <= sd) by (nonlinear_arith)
        requires
            sd == td * q.units,
            q.units >= 1,
    ;
    crate::num::lemma_pow10_mono(q.scale as nat, 6);
    reveal_with_fuel(pow10, 7);
    assert(r.rounded_length.num == q.units * st);
    assert(r.length_with_waste.num == tn);
    assert(r.length_with_waste.den == td);
    assert(r.rounded_length.den == pd);
    assert(sd == td * q.units);
    assert(td > 0) by (nonlinear_arith)
        requires
            td == pow10(k.scale as nat) * c * rz.units * pow10(waste.magnitude.scale as nat),
            pow10(k.scale as nat) > 0,
            c > 0,
            rz.units > 0,
            pow10(waste.magnitude.scale as nat) > 0,
    ;
    assert(sd > 0) by (nonlinear_arith)
        requires
            sd == td * q.units,
            td > 0,
            q.units > 0,
    ;
    assert(st == sn / sd);
    assert(st * sd <= sn && (st + 1) * sd > sn) by (nonlinear_arith)
        requires
            sd > 0,
            st == sn / sd,
    ;
    assert((q.units * st) % (q.units as int) == 0) by (nonlinear_arith)
        requires
            q.units > 0,
    ;
    assert(q.units * st * td <= tn * pd) by (nonlinear_arith)
        requires
            st * sd <= sn,
            sn == tn * pd,
            sd == td * q.units,
    ;
    assert((q.units * st + q.units) * td > tn * pd) by (nonlinear_arith)
        requires
            (st + 1) * sd > sn,
            sn == tn * pd,
            sd == td * q.units,
    ;
}

/// The sum of the coefficients of paired materials and microns, each taken
/// as the tables give it.
pub open spec fn coeff_total(mats: Seq<Seq<char>>, ms: Seq<u32>, is_first: bool) -> nat
    decreases mats.len(),
{
    if mats.len() == 0 || ms.len() == 0 {
        0
    } else {
        coeff_total(mats.drop_last(), ms.drop_last(), is_first) + match coefficient_single_spec(
            mats.last(),
            ms.last(),
            is_first,
        ) {
            Ok(v) => v as nat,
            Err(_) => 0nat,
        }
    }
}

proof fn lemma_sum_coeffs_all_ok(mats: Seq<Seq<char>>, ms: Seq<u32>, is_first: bool)
    requires
        mats.len() == ms.len(),
        forall|i: int|
            0 <= i < mats.len() ==> coefficient_single_spec(#[trigger] mats[i], ms[i], is_first) is Ok,
    ensures
        sum_coeffs(mats, ms, is_first) == Ok::<nat, Seq<char>>(coeff_total(mats, ms, is_first)),
    decreases mats.len(),
{
    if mats.len() > 0 {
        let p = mats.drop_last();
        let q = ms.drop_last();
        assert forall|i: int| 0 <= i < p.len() implies coefficient_single_spec(#[trigger] p[i], q[i], is_first) is Ok by {
            assert(p[i] == mats[i]);
            assert(q[i] == ms[i]);
        }
        lemma_sum_coeffs_all_ok(p, q, is_first);
        assert(coefficient_single_spec(mats[mats.len() - 1], ms[mats.len() - 1], is_first) is Ok);
    }
}

proof fn lemma_sum_coeffs_first_err(mats: Seq<Seq<char>>, ms: Seq<u32>, is_first: bool, k: int)
    requires
        mats.len() == ms.len(),
        0 <= k < mats.len(),
        coefficient_single_spec(mats[k], ms[k], is_first) is Err,
        forall|j: int|
            0 <= j < k ==> coefficient_single_spec(#[trigger] mats[j], ms[j], is_first) is Ok,
    ensures
        sum_coeffs(mats, ms, is_first) == Err::<nat, Seq<char>>(
            coefficient_single_spec(mats[k], ms[k], is_first)->Err_0,
        ),
    decreases mats.len(),
{
    let p = mats.drop_last();
    let q = ms.drop_last();
    if k < mats.len() - 1 {
        assert(p[k] == mats[k] && q[k] == ms[k]);
        assert forall|j: int| 0 <= j < k implies coefficient_single_spec(#[trigger] p[j], q[j], is_first) is Ok by {
            assert(p[j] == mats[j] && q[j] == ms[j]);
        }
        lemma_sum_coeffs_first_err(p, q, is_first, k);
    } else {
        assert forall|i: int| 0 <= i < p.len() implies coefficient_single_spec(#[trigger] p[i], q[i], is_first) is Ok by {
            assert(p[i] == mats[i] && q[i] == ms[i]);
        }
        lemma_sum_coeffs_all_ok(p, q, is_first);
    }
}

/// A layer cell with slashes is several layers. With one material the
/// layer's micron is used; with as many materials as microns (two or more)
/// each material takes its micron and the coefficients add up, the first
/// failing piece giving the error; with other counts the cell is refused.
pub proof fn lemma_slash_cell_rule(material: Seq<char>, micron_text: Seq<char>, micron: u32, is_first: bool)
    requires
        micron_parts_spec(micron_text) is Ok,
    ensures
        ({
            let mats = split_parts_spec(material);
            let us = micron_parts_spec(micron_text)->Ok_0;
            &&& mats.len() == 1 ==> cell_spec(material, micron_text, micron, is_first) == match coefficient_single_spec(
                mats[0],
                micron,
                is_first,
            ) {
                Ok(v) => Ok::<nat, Seq<char>>(v as nat),
                Err(e) => Err(e),
            }
            &&& (mats.len() != 1 && mats.len() != us.len()) ==> cell_spec(
                material,
                micron_text,
                micron,
                is_first,
            ) == Err::<nat, Seq<char>>(mismatch_error(material, micron_text))
            &&& (mats.len() == us.len() && mats.len() >= 2 && forall|i: int|
                0 <= i < mats.len() ==> coefficient_single_spec(#[trigger] mats[i], us[i], is_first) is Ok)
                ==> cell_spec(material, micron_text, micron, is_first) == Ok::<nat, Seq<char>>(
                coeff_total(mats, us, is_first),
            )
            &&& forall|k: int|
                (mats.len() == us.len() && mats.len() >= 2 && 0 <= k < mats.len()
                    && coefficient_single_spec(#[trigger] mats[k], us[k], is_first) is Err
                    && forall|j: int|
                    0 <= j < k ==> coefficient_single_spec(#[trigger] mats[j], us[j], is_first) is Ok)
                    ==> cell_spec(material, micron_text, micron, is_first) == Err::<nat, Seq<char>>(
                    coefficient_single_spec(mats[k], us[k], is_first)->Err_0,
                )
        }),
{
    let mats = split_parts_spec(material);
    let us = micron_parts_spec(micron_text)->Ok_0;
    if mats.len() == us.len() && mats.len() >= 2 {
        if forall|i: int|
            0 <= i < mats.len() ==> coefficient_single_spec(#[trigger] mats[i], us[i], is_first) is Ok {
            lemma_sum_coeffs_all_ok(mats, us, is_first);
        }
        assert forall|k: int|
            (0 <= k < mats.len() && coefficient_single_spec(#[trigger] mats[k], us[k], is_first) is Err
                && forall|j: int|
                0 <= j < k ==> coefficient_single_spec(#[trigger] mats[j], us[j], is_first) is Ok)
                implies cell_spec(material, micron_text, micron, is_first) == Err::<nat, Seq<char>>(
            coefficient_single_spec(mats[k], us[k], is_first)->Err_0,
        ) by {
            lemma_sum_coeffs_first_err(mats, us, is_first, k);
        }
    }
}


/// The value of a signed fraction's numerator: negative when the fraction is.
pub open spec fn signed_num(s: Signed) -> int {
    if s.negative {
        -(s.num as int)
    } else {
        s.num as int
    }
}

/// The steps of the formula, over exact numbers: the coefficient sum is the
/// sum of the two layers' coefficients (thousandths) and is positive; the
/// width in centimetres is the width in millimetres divided by 10; the
/// density part is the coefficient sum times that width; the base length is
/// `KG / density part * 6000`; the waste is the base length times the waste
/// percentage over 100; and the length with waste is their sum.
pub proof fn lemma_formula_steps(
    kg: Number,
    razmer: Number,
    first: LayerView,
    second: LayerView,
    waste: Number,
    round: Number,
)
    requires
        kg.wf() && razmer.wf() && waste.wf() && round.wf(),
        formula(kg, razmer, first, second, waste, round) is Ok,
    ensures
        ({
            let r = formula(kg, razmer, first, second, waste, round)->Ok_0;
            let k = kg.magnitude;
            let rz = razmer.magnitude;
            let w = waste.magnitude;
            &&& r.coeff_sum == r.first_coeff + r.second_coeff
            &&& r.coeff_sum > 0
            &&& r.razmer_sm.units == rz.units && r.razmer_sm.scale == rz.scale + 1
            &&& r.density_part.den > 0 && r.base_length.den > 0 && r.waste_length.den > 0
            &&& r.density_part.num * (1000 * pow10(r.razmer_sm.scale as nat)) == r.density_part.den
                * (r.coeff_sum * r.razmer_sm.units)
            &&& r.base_length.num * (pow10(k.scale as nat) * r.density_part.num)
                == r.base_length.den * (k.units * 6000 * r.density_part.den)
            &&& signed_num(r.waste_length) * r.base_length.den * (100 * pow10(w.scale as nat))
                == r.waste_length.den * r.base_length.num * waste.signed_units()
            &&& r.length_with_waste.den == r.waste_length.den
            &&& signed_num(r.length_with_waste) * r.base_length.den == r.base_length.num
                * r.waste_length.den + signed_num(r.waste_length) * r.base_length.den
        }),
{
    let r = formula(kg, razmer, first, second, waste, round)->Ok_0;
    let k = kg.magnitude;
    let rz = razmer.magnitude;
    let q = round.magnitude;
    let w = waste.magnitude;
    let f1 = family_spec(first.0)->Ok_0;
    let f2 = family_spec(second.0)->Ok_0;
    let a = layer_coeff(first.0, first.1, first.2, f1, true)->Ok_0;
    let b = layer_coeff(second.0, second.1, second.2, f2, false)->Ok_0;
    let c = a + b;
    assert(r == breakdown_of(a, b, k, rz, waste, q));
    assert(fits(k, rz, c, waste, q));
    lemma_pow10_pos(k.scale as nat);
    lemma_pow10_pos(rz.scale as nat);
    lemma_pow10_pos(w.scale as nat);
    lemma_pow10_pos(q.scale as nat);
    crate::num::lemma_pow10_mono(rz.scale as nat, 6);
    reveal_with_fuel(pow10, 8);
    let pk = pow10(k.scale as nat);
    let pr = pow10(rz.scale as nat);
    let pw = pow10(w.scale as nat);
    let pq = pow10(q.scale as nat);
    assert(pow10((rz.scale + 1) as nat) == 10 * pr);
    let bn = base_num(k, rz);
    let bd = base_den(k, rz, c);
    let pt = part(k, rz);
    let sn = steps_num(k, rz, waste, q);
    let sd = steps_den(k, rz, c, waste, q);
    assert(bn == k.units * 60_000_000 * pr);
    assert(pt == k.units * 600_000 * pr);
    assert(bd == pk * c * rz.units);
    assert(bn == 100 * pt) by (nonlinear_arith)
        requires
            bn == k.units * 60_000_000 * pr,
            pt == k.units * 600_000 * pr,
    ;
    assert(bd > 0) by (nonlinear_arith)
        requires
            bd == pk * c * rz.units,
            pk > 0,
            c > 0,
            rz.units > 0,
    ;
    assert(c <= c * rz.units && c * rz.units <= bd && bd <= bd * pw && bd * pw <= sd && sd <= u128::MAX) by (nonlinear_arith)
        requires
            bd == pk * c * rz.units,
            pk >= 1,
            pw >= 1,
            q.units >= 1,
            sd == bd * pw * (q.units as nat),
            sd <= u128::MAX,
            rz.units >= 1,
    ;
    assert(pt * abs(waste_factor(waste)) <= sn && sn <= u128::MAX) by (nonlinear_arith)
        requires
            sn == pt * abs(waste_factor(waste)) * pq,
            pq >= 1,
            sn <= u128::MAX,
    ;
    assert(r.coeff_sum == c);
    assert(r.density_part.num == c * rz.units);
    assert(r.density_part.den == 1000 * (10 * pr));
    assert(r.base_length.num == bn);
    assert(r.base_length.den == bd);
    assert(r.waste_length.den == bd * pw);
    assert(r.waste_length.num == pt * w.units);
    assert(r.length_with_waste.num == pt * abs(waste_factor(waste)));
    assert(pt * w.units <= u128::MAX);
    assert(signed_num(r.waste_length) == pt * waste.signed_units()) by (nonlinear_arith)
        requires
            signed_num(r.waste_length) == (if waste.negative {
                -((pt * w.units) as int)
            } else {
                (pt * w.units) as int
            }),
            waste.signed_units() == (if waste.negative {
                -(w.units as int)
            } else {
                w.units as int
            }),
    ;
    assert(signed_num(r.length_with_waste) == pt * waste_factor(waste)) by (nonlinear_arith)
        requires
            signed_num(r.length_with_waste) == (if waste_factor(waste) < 0 {
                -((pt * abs(waste_factor(waste))) as int)
            } else {
                (pt * abs(waste_factor(waste))) as int
            }),
            abs(waste_factor(waste)) == (if waste_factor(waste) < 0 {
                -waste_factor(waste)
            } else {
                waste_factor(waste)
            }),
    ;
    assert((c * rz.units) * (1000 * (10 * pr)) == (1000 * (10 * pr)) * (c * rz.units)) by (
    nonlinear_arith);
    assert(r.razmer_sm.scale == rz.scale + 1);
    assert(bn * (pk * (c * rz.units)) == bd * (k.units * 6000 * (1000 * (10 * pr)))) by (nonlinear_arith)
        requires
            bn == k.units * 60_000_000 * pr,
            bd == pk * c * rz.units,
    ;
    assert((pt * waste.signed_units()) * bd * (100 * pw) == (bd * pw) * bn * waste.signed_units()) by (
    nonlinear_arith)
        requires
            bn == 100 * pt,
    ;
    assert((pt * waste_factor(waste)) * bd == bn * (bd * pw) + (pt * waste.signed_units()) * bd) by (
    nonlinear_arith)
        requires
            bn == 100 * pt,
            waste_factor(waste) == 100 * pw + waste.signed_units(),
    ;
}

} // verus!
