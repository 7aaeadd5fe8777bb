//! Filling in an order form one answer at a time.
use vstd::prelude::*;

use crate::material_parser::{material_layers_spec, pair_views, parse_material_layers};
use crate::num::{parse_unsigned, parse_unsigned_at, Decimal};
use crate::order::{clone_opt, opt_view, DraftView, OrderDraft};
use crate::state::Step;
use crate::text::{
    append_str, chars_of, eq_str, keep, keep_chars, replace_char, replace_char_exec, string_of,
    trim, trim_str, CharClass,
};

verus! {

/// What an answer leads to: the next question, the finished order, or an
/// error to show.
#[derive(Debug)]
pub enum Flow {
    Ask(&'static str),
    Done(OrderDraft),
    Error(String),
}

pub ghost enum FlowView {
    Ask(Seq<char>),
    Done(DraftView),
    Error(Seq<char>),
}

pub open spec fn flow_view(f: Flow) -> FlowView {
    match f {
        Flow::Ask(p) => FlowView::Ask(p@),
        Flow::Done(d) => FlowView::Done(d@),
        Flow::Error(e) => FlowView::Error(e@),
    }
}

/// A trimmed answer, or nothing for a blank answer, `-` or `--`.
pub open spec fn normalize_empty_spec(text: Seq<char>) -> Option<Seq<char>> {
    let t = trim(text);
    if t.len() == 0 || t == "-"@ || t == "--"@ {
        None
    } else {
        Some(t)
    }
}

pub fn normalize_empty(text: &str) -> (r: Option<String>)
    ensures
        opt_view(r) == normalize_empty_spec(text@),
{
    let t = trim_str(text);
    if t.len() == 0 || eq_str(&t, "-") || eq_str(&t, "--") {
        None
    } else {
        Some(string_of(&t))
    }
}

pub open spec fn empty_answer_error() -> Seq<char> {
    "Bo'sh bo'lmasligi kerak."@
}

/// Stores a required text answer.
pub fn set_text(slot: &mut Option<String>, value: Option<String>) -> (r: Result<(), String>)
    ensures
        match value {
            Some(v) => r is Ok && opt_view(*final(slot)) == Some(v@),
            None => r matches Err(e) && e@ == empty_answer_error() && opt_view(*final(slot))
                == opt_view(*old(slot)),
        },
{
    match value {
        Some(v) => {
            *slot = Some(v);
            Ok(())
        },
        None => Err(owned_str("Bo'sh bo'lmasligi kerak.")),
    }
}

fn owned_str(s: &str) -> (r: String)
    ensures
        r@ == s@,
{
    crate::text::owned(s)
}

/// Stores an answer that may be empty.
pub fn set_optional_text(slot: &mut Option<String>, value: Option<String>) -> (r: Result<(), String>)
    ensures
        r is Ok,
        opt_view(*final(slot)) == opt_view(value),
{
    *slot = value;
    Ok(())
}

/// A number answer: its digits, points and commas, commas read as points;
/// it must be above zero.
pub open spec fn number_answer(value: Option<Seq<char>>, name: Seq<char>) -> Result<Decimal, Seq<char>> {
    match value {
        None => Err(name + " bo'sh bo'lmasligi kerak."@),
        Some(v) => match parse_unsigned(replace_char(keep(v, CharClass::NumberChars), ',', "."@)) {
            None => Err(name + " raqam bo'lishi kerak."@),
            Some(d) => if d.units == 0 {
                Err(name + " 0 dan katta bo'lishi kerak."@)
            } else {
                Ok(d)
            },
        },
    }
}

pub fn set_number(slot: &mut Option<Decimal>, value: Option<String>, name: &str) -> (r: Result<
    (),
    String,
>)
    ensures
        match (r, number_answer(opt_view(value), name@)) {
            (Ok(_), Ok(d)) => *final(slot) == Some(d),
            (Err(a), Err(b)) => a@ == b && *final(slot) == *old(slot),
            _ => false,
        },
{
    let v = match value {
        None => {
            let mut e = chars_of(name);
            append_str(&mut e, " bo'sh bo'lmasligi kerak.");
            return Err(string_of(&e));
        },
        Some(v) => v,
    };
    let c = chars_of(v.as_str());
    let k = keep_chars(&c, CharClass::NumberChars);
    let t = replace_char_exec(&k, ',', ".");
    assert(t@.skip(0) =~= t@);
    match parse_unsigned_at(&t, 0) {
        None => {
            let mut e = chars_of(name);
            append_str(&mut e, " raqam bo'lishi kerak.");
            Err(string_of(&e))
        },
        Some(d) => {
            if d.units == 0 {
                let mut e = chars_of(name);
                append_str(&mut e, " 0 dan katta bo'lishi kerak.");
                Err(string_of(&e))
            } else {
                *slot = Some(d);
                Ok(())
            }
        },
    }
}

/// The layers of a material text written into the order: the first layer
/// always, the second and third where the text has them (and cleared where
/// it does not). A text with no layer changes nothing.
pub open spec fn with_material_display(d: DraftView, value: Seq<char>) -> DraftView {
    let layers = material_layers_spec(value);
    if layers.len() == 0 {
        d
    } else {
        DraftView {
            first_material: Some(layers[0].0),
            first_micron: Some(layers[0].1),
            second_material: if layers.len() > 1 {
                Some(layers[1].0)
            } else {
                None
            },
            second_micron: if layers.len() > 1 {
                Some(layers[1].1)
            } else {
                None
            },
            third_material: if layers.len() > 2 {
                Some(layers[2].0)
            } else {
                None
            },
            third_micron: if layers.len() > 2 {
                Some(layers[2].1)
            } else {
                None
            },
            ..d
        }
    }
}

pub fn apply_material_display(draft: &mut OrderDraft, value: &str)
    ensures
        final(draft)@ == with_material_display(old(draft)@, value@),
{
    let layers = parse_material_layers(value);
    let ghost lv = pair_views(layers@);
    if layers.len() == 0 {
        return;
    }
    assert(lv[0] == (layers@[0].0@, layers@[0].1@));
    draft.first_material = Some(layers[0].0.clone());
    draft.first_micron = Some(layers[0].1.clone());
    if layers.len() > 1 {
        assert(lv[1] == (layers@[1].0@, layers@[1].1@));
        draft.second_material = Some(layers[1].0.clone());
        draft.second_micron = Some(layers[1].1.clone());
    } else {
        draft.second_material = None;
        draft.second_micron = None;
    }
    if layers.len() > 2 {
        assert(lv[2] == (layers@[2].0@, layers@[2].1@));
        draft.third_material = Some(layers[2].0.clone());
        draft.third_micron = Some(layers[2].1.clone());
    } else {
        draft.third_material = None;
        draft.third_micron = None;
    }
}

/// The step after `step`: the layer questions are skipped when the material
/// text already gave the layers, the micron of a layer is skipped when the
/// layer was left empty.
pub open spec fn next_step(d: DraftView, step: Step) -> Step {
    match step {
        Step::OrderNumber => Step::Customer,
        Step::Customer => Step::Product,
        Step::Product => Step::Status,
        Step::Status => Step::MaterialDisplay,
        Step::MaterialDisplay => Step::Color,
        Step::Color => Step::Kg,
        Step::Kg => Step::Width,
        Step::Width => if d.first_material is Some {
            Step::Note
        } else {
            Step::FirstMaterial
        },
        Step::FirstMaterial => Step::FirstMicron,
        Step::FirstMicron => Step::SecondMaterial,
        Step::SecondMaterial => if d.second_material is None {
            Step::ThirdMaterial
        } else {
            Step::SecondMicron
        },
        Step::SecondMicron => Step::ThirdMaterial,
        Step::ThirdMaterial => if d.third_material is None {
            Step::Note
        } else {
            Step::ThirdMicron
        },
        Step::ThirdMicron => Step::Note,
        Step::Note => Step::Photo,
        Step::Photo => Step::Photo,
    }
}

pub fn advance_step(draft: &OrderDraft, step: &mut Step)
    ensures
        *final(step) == next_step(draft@, *old(step)),
{
    *step = match *step {
        Step::OrderNumber => Step::Customer,
        Step::Customer => Step::Product,
        Step::Product => Step::Status,
        Step::Status => Step::MaterialDisplay,
        Step::MaterialDisplay => Step::Color,
        Step::Color => Step::Kg,
        Step::Kg => Step::Width,
        Step::Width => if draft.first_material.is_some() {
            Step::Note
        } else {
            Step::FirstMaterial
        },
        Step::FirstMaterial => Step::FirstMicron,
        Step::FirstMicron => Step::SecondMaterial,
        Step::SecondMaterial => if draft.second_material.is_none() {
            Step::ThirdMaterial
        } else {
            Step::SecondMicron
        },
        Step::SecondMicron => Step::ThirdMaterial,
        Step::ThirdMaterial => if draft.third_material.is_none() {
            Step::Note
        } else {
            Step::ThirdMicron
        },
        Step::ThirdMicron => Step::Note,
        Step::Note => Step::Photo,
        Step::Photo => Step::Photo,
    };
}

/// The order with the answer to `step` stored, or the error that refuses
/// the answer (the photo step is not one of these).
pub open spec fn store_answer(d: DraftView, step: Step, v: Option<Seq<char>>) -> Result<
    DraftView,
    Seq<char>,
> {
    match step {
        Step::OrderNumber => match v {
            Some(x) => Ok(DraftView { order_number: Some(x), ..d }),
            None => Err(empty_answer_error()),
        },
        Step::Customer => match v {
            Some(x) => Ok(DraftView { customer: Some(x), ..d }),
            None => Err(empty_answer_error()),
        },
        Step::Product => match v {
            Some(x) => Ok(DraftView { product: Some(x), ..d }),
            None => Err(empty_answer_error()),
        },
        Step::Status => match v {
            Some(x) => Ok(DraftView { status: Some(x), ..d }),
            None => Err(empty_answer_error()),
        },
        Step::MaterialDisplay => match v {
            Some(x) => Ok(with_material_display(DraftView { material_display: Some(x), ..d }, x)),
            None => Err(empty_answer_error()),
        },
        Step::Color => match v {
            Some(x) => Ok(DraftView { color: Some(x), ..d }),
            None => Err(empty_answer_error()),
        },
        Step::Kg => match number_answer(v, "Tiraj kg"@) {
            Ok(n) => Ok(DraftView { kg: Some(n), ..d }),
            Err(e) => Err(e),
        },
        Step::Width => match number_answer(v, "Uzunligi mm"@) {
            Ok(n) => Ok(DraftView { width_mm: Some(n), ..d }),
            Err(e) => Err(e),
        },
        Step::FirstMaterial => match v {
            Some(x) => Ok(DraftView { first_material: Some(x), ..d }),
            None => Err(empty_answer_error()),
        },
        Step::FirstMicron => match v {
            Some(x) => Ok(DraftView { first_micron: Some(x), ..d }),
            None => Err(empty_answer_error()),
        },
        Step::SecondMaterial => Ok(DraftView { second_material: v, ..d }),
        Step::SecondMicron => match v {
            Some(x) => Ok(DraftView { second_micron: Some(x), ..d }),
            None => Err(empty_answer_error()),
        },
        Step::ThirdMaterial => Ok(DraftView { third_material: v, ..d }),
        Step::ThirdMicron => match v {
            Some(x) => Ok(DraftView { third_micron: Some(x), ..d }),
            None => Err(empty_answer_error()),
        },
        Step::Note => Ok(DraftView { note: v, ..d }),
        Step::Photo => Ok(d),
    }
}

/// What an answer does to the form: the order and step after it, and what
/// the bot says.
pub open spec fn apply_answer_spec(
    d: DraftView,
    step: Step,
    text: Seq<char>,
    photo: Option<Seq<char>>,
) -> (DraftView, Step, FlowView) {
    let v = normalize_empty_spec(text);
    if step == Step::Photo {
        match photo {
            Some(p) => {
                let nd = DraftView { photo_file_id: Some(p), ..d };
                (nd, step, FlowView::Done(nd))
            },
            None => if v is None {
                (d, step, FlowView::Done(d))
            } else {
                (d, step, FlowView::Error("Rasm yuboring yoki '-' yozing."@))
            },
        }
    } else {
        match store_answer(d, step, v) {
            Err(e) => (d, step, FlowView::Error(e)),
            Ok(nd) => {
                let ns = next_step(nd, step);
                (nd, ns, FlowView::Ask(ns.prompt_spec()))
            },
        }
    }
}

/// Takes the answer to the current question of an order form.
pub fn apply_answer(
    draft: &mut OrderDraft,
    step: &mut Step,
    text: &str,
    photo_file_id: Option<String>,
) -> (r: Flow)
    ensures
        ({
            let (d, s, f) = apply_answer_spec(old(draft)@, *old(step), text@, opt_view(photo_file_id));
            final(draft)@ == d && *final(step) == s && flow_view(r) == f
        }),
{
    let value = normalize_empty(text);
    let result: Result<(), String> = match *step {
        Step::OrderNumber => set_text(&mut draft.order_number, value),
        Step::Customer => set_text(&mut draft.customer, value),
        Step::Product => set_text(&mut draft.product, value),
        Step::Status => set_text(&mut draft.status, value),
        Step::MaterialDisplay => {
            let copy = clone_opt(&value);
            if let Err(error) = set_text(&mut draft.material_display, copy) {
                return Flow::Error(error);
            }
            if let Some(v) = value {
                apply_material_display(draft, v.as_str());
            }
            Ok(())
        },
        Step::Color => set_text(&mut draft.color, value),
        Step::Kg => set_number(&mut draft.kg, value, "Tiraj kg"),
        Step::Width => set_number(&mut draft.width_mm, value, "Uzunligi mm"),
        Step::FirstMaterial => set_text(&mut draft.first_material, value),
        Step::FirstMicron => set_text(&mut draft.first_micron, value),
        Step::SecondMaterial => set_optional_text(&mut draft.second_material, value),
        Step::SecondMicron => set_text(&mut draft.second_micron, value),
        Step::ThirdMaterial => set_optional_text(&mut draft.third_material, value),
        Step::ThirdMicron => set_text(&mut draft.third_micron, value),
        Step::Note => set_optional_text(&mut draft.note, value),
        Step::Photo => {
            if let Some(photo) = photo_file_id {
                draft.photo_file_id = Some(photo);
                return Flow::Done(draft.duplicate());
            }
            if value.is_none() {
                return Flow::Done(draft.duplicate());
            }
            return Flow::Error(owned_str("Rasm yuboring yoki '-' yozing."));
        },
    };
    if let Err(error) = result {
        return Flow::Error(error);
    }
    advance_step(draft, step);
    Flow::Ask(step.next_prompt())
}


/// Writing a material text into an order fills the layers from the text's
/// layers (as `parse_material_layers` reads them): the first layer always,
/// the second and third where the text has them, cleared where it does not;
/// a text with no layer changes nothing, and no other field changes.
pub proof fn lemma_material_text_fills_layers(d: DraftView, value: Seq<char>)
    ensures
        ({
            let r = with_material_display(d, value);
            let ls = material_layers_spec(value);
            &&& ls.len() == 0 ==> r == d
            &&& ls.len() >= 1 ==> r.first_material == Some(ls[0].0) && r.first_micron == Some(
                ls[0].1,
            )
            &&& ls.len() >= 2 ==> r.second_material == Some(ls[1].0) && r.second_micron == Some(
                ls[1].1,
            )
            &&& ls.len() >= 3 ==> r.third_material == Some(ls[2].0) && r.third_micron == Some(
                ls[2].1,
            )
            &&& ls.len() == 1 ==> r.second_material is None && r.second_micron is None
            &&& (ls.len() == 1 || ls.len() == 2) ==> r.third_material is None && r.third_micron is None
            &&& r.order_number == d.order_number && r.date == d.date && r.customer == d.customer
            &&& r.product == d.product && r.status == d.status && r.color == d.color
            &&& r.material_display == d.material_display && r.kg == d.kg && r.width_mm == d.width_mm
            &&& r.roll_count == d.roll_count && r.note == d.note && r.photo_file_id == d.photo_file_id
        }),
{
}

} // verus!
