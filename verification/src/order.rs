use vstd::prelude::*;

use crate::num::Decimal;
use crate::text::{append_str, chars_of, string_of, trim, trim_str};

verus! {

pub open spec fn opt_view(o: Option<String>) -> Option<Seq<char>> {
    match o {
        Some(s) => Some(s@),
        None => None,
    }
}

pub fn clone_opt(o: &Option<String>) -> (r: Option<String>)
    ensures
        opt_view(r) == opt_view(*o),
{
    match o {
        Some(s) => Some(s.clone()),
        None => None,
    }
}

/// An order as the bot collects it. Weights and sizes are exact decimals.
#[derive(Debug, Clone)]
pub struct OrderDraft {
    pub order_number: Option<String>,
    pub date: Option<String>,
    pub customer: Option<String>,
    pub product: Option<String>,
    pub status: Option<String>,
    pub material_display: Option<String>,
    pub color: Option<String>,
    pub kg: Option<Decimal>,
    pub width_mm: Option<Decimal>,
    pub roll_count: Option<Decimal>,
    pub first_material: Option<String>,
    pub first_micron: Option<String>,
    pub second_material: Option<String>,
    pub second_micron: Option<String>,
    pub third_material: Option<String>,
    pub third_micron: Option<String>,
    pub note: Option<String>,
    pub photo_file_id: Option<String>,
}

/// The text fields of an order as character sequences.
pub ghost struct DraftView {
    pub order_number: Option<Seq<char>>,
    pub date: Option<Seq<char>>,
    pub customer: Option<Seq<char>>,
    pub product: Option<Seq<char>>,
    pub status: Option<Seq<char>>,
    pub material_display: Option<Seq<char>>,
    pub color: Option<Seq<char>>,
    pub kg: Option<Decimal>,
    pub width_mm: Option<Decimal>,
    pub roll_count: Option<Decimal>,
    pub first_material: Option<Seq<char>>,
    pub first_micron: Option<Seq<char>>,
    pub second_material: Option<Seq<char>>,
    pub second_micron: Option<Seq<char>>,
    pub third_material: Option<Seq<char>>,
    pub third_micron: Option<Seq<char>>,
    pub note: Option<Seq<char>>,
    pub photo_file_id: Option<Seq<char>>,
}

impl View for OrderDraft {
    type V = DraftView;

    open spec fn view(&self) -> DraftView {
        DraftView {
            order_number: opt_view(self.order_number),
            date: opt_view(self.date),
            customer: opt_view(self.customer),
            product: opt_view(self.product),
            status: opt_view(self.status),
            material_display: opt_view(self.material_display),
            color: opt_view(self.color),
            kg: self.kg,
            width_mm: self.width_mm,
            roll_count: self.roll_count,
            first_material: opt_view(self.first_material),
            first_micron: opt_view(self.first_micron),
            second_material: opt_view(self.second_material),
            second_micron: opt_view(self.second_micron),
            third_material: opt_view(self.third_material),
            third_micron: opt_view(self.third_micron),
            note: opt_view(self.note),
            photo_file_id: opt_view(self.photo_file_id),
        }
    }
}

pub open spec fn empty_draft() -> DraftView {
    DraftView {
        order_number: None,
        date: None,
        customer: None,
        product: None,
        status: None,
        material_display: None,
        color: None,
        kg: None,
        width_mm: None,
        roll_count: None,
        first_material: None,
        first_micron: None,
        second_material: None,
        second_micron: None,
        third_material: None,
        third_micron: None,
        note: None,
        photo_file_id: None,
    }
}

impl Default for OrderDraft {
    fn default() -> (r: Self)
        ensures
            r@ == empty_draft(),
    {
        OrderDraft {
            order_number: None,
            date: None,
            customer: None,
            product: None,
            status: None,
            material_display: None,
            color: None,
            kg: None,
            width_mm: None,
            roll_count: None,
            first_material: None,
            first_micron: None,
            second_material: None,
            second_micron: None,
            third_material: None,
            third_micron: None,
            note: None,
            photo_file_id: None,
        }
    }
}

/// The error for a field that was not filled in.
pub open spec fn missing_error(name: Seq<char>) -> Seq<char> {
    name + " to'ldirilmagan"@
}

pub fn missing_error_exec(name: &str) -> (r: String)
    ensures
        r@ == missing_error(name@),
{
    let mut e = chars_of(name);
    append_str(&mut e, " to'ldirilmagan");
    string_of(&e)
}

/// A text field that holds more than white space.
pub open spec fn require_text_spec(value: Option<Seq<char>>, name: Seq<char>) -> Result<
    Seq<char>,
    Seq<char>,
> {
    match value {
        Some(s) => if trim(s).len() > 0 {
            Ok(s)
        } else {
            Err(missing_error(name))
        },
        None => Err(missing_error(name)),
    }
}

impl OrderDraft {
    pub fn duplicate(&self) -> (r: OrderDraft)
        ensures
            r@ == self@,
    {
        OrderDraft {
            order_number: clone_opt(&self.order_number),
            date: clone_opt(&self.date),
            customer: clone_opt(&self.customer),
            product: clone_opt(&self.product),
            status: clone_opt(&self.status),
            material_display: clone_opt(&self.material_display),
            color: clone_opt(&self.color),
            kg: self.kg,
            width_mm: self.width_mm,
            roll_count: self.roll_count,
            first_material: clone_opt(&self.first_material),
            first_micron: clone_opt(&self.first_micron),
            second_material: clone_opt(&self.second_material),
            second_micron: clone_opt(&self.second_micron),
            third_material: clone_opt(&self.third_material),
            third_micron: clone_opt(&self.third_micron),
            note: clone_opt(&self.note),
            photo_file_id: clone_opt(&self.photo_file_id),
        }
    }

    pub fn require_text(value: &Option<String>, name: &str) -> (r: Result<String, String>)
        ensures
            match (r, require_text_spec(opt_view(*value), name@)) {
                (Ok(a), Ok(b)) => a@ == b,
                (Err(a), Err(b)) => a@ == b,
                _ => false,
            },
    {
        match value {
            Some(s) => {
                let t = trim_str(s.as_str());
                if t.len() > 0 {
                    Ok(s.clone())
                } else {
                    Err(missing_error_exec(name))
                }
            },
            None => Err(missing_error_exec(name)),
        }
    }

    pub fn require_number(value: Option<Decimal>, name: &str) -> (r: Result<Decimal, String>)
        ensures
            match (r, value) {
                (Ok(a), Some(b)) => a == b,
                (Err(e), None) => e@ == missing_error(name@),
                _ => false,
            },
    {
        match value {
            Some(v) => Ok(v),
            None => Err(missing_error_exec(name)),
        }
    }
}

} // verus!
