//! Files sent to the bot: which kind a file is, what its report is called,
//! and the texts that go with it. Downloading and sending is left to the
//! caller.
use vstd::prelude::*;

use crate::text::{
    append_all, append_str, chars_of, copy_range, digits_of, ends_with, ends_with_str, lower,
    lower_seq, nat_digits, string_of,
};

verus! {

/// The kinds of file the bot computes.
#[derive(Debug, Clone, Copy, PartialEq, Eq, Structural)]
pub enum DocumentKind {
    Csv,
    Xlsx,
    Other,
}

/// The kind of a file by its name, in any case.
pub open spec fn document_kind_spec(filename: Seq<char>) -> DocumentKind {
    let l = lower_seq(filename);
    if ends_with(l, ".csv"@) {
        DocumentKind::Csv
    } else if ends_with(l, ".xlsx"@) {
        DocumentKind::Xlsx
    } else {
        DocumentKind::Other
    }
}

pub fn document_kind(filename: &str) -> (r: DocumentKind)
    ensures
        r == document_kind_spec(filename@),
{
    let v = chars_of(filename);
    let l = lower(&v);
    if ends_with_str(&l, ".csv") {
        DocumentKind::Csv
    } else if ends_with_str(&l, ".xlsx") {
        DocumentKind::Xlsx
    } else {
        DocumentKind::Other
    }
}

/// The name of a report: the file's name without the extension (in lower
/// or upper case), then `_hisoblangan` and the extension.
pub open spec fn output_name_spec(filename: Seq<char>, lower_ext: Seq<char>, upper_ext: Seq<char>) -> Seq<
    char,
> {
    let stem = if ends_with(filename, lower_ext) {
        filename.take(filename.len() - lower_ext.len())
    } else if ends_with(filename, upper_ext) {
        filename.take(filename.len() - upper_ext.len())
    } else {
        filename
    };
    stem + "_hisoblangan"@ + lower_ext
}

fn output_name(filename: &str, lower_ext: &str, upper_ext: &str) -> (r: String)
    ensures
        r@ == output_name_spec(filename@, lower_ext@, upper_ext@),
{
    let v = chars_of(filename);
    let lv = chars_of(lower_ext);
    let uv = chars_of(upper_ext);
    let stem = if ends_with_str(&v, lower_ext) {
        copy_range(&v, 0, v.len() - lv.len())
    } else if ends_with_str(&v, upper_ext) {
        copy_range(&v, 0, v.len() - uv.len())
    } else {
        copy_range(&v, 0, v.len())
    };
    assert(v@.take(v.len() as int) =~= v@);
    let mut out = stem;
    append_str(&mut out, "_hisoblangan");
    append_all(&mut out, &lv);
    string_of(&out)
}

pub fn output_csv_name(filename: &str) -> (r: String)
    ensures
        r@ == output_name_spec(filename@, ".csv"@, ".CSV"@),
{
    output_name(filename, ".csv", ".CSV")
}

pub fn output_xlsx_name(filename: &str) -> (r: String)
    ensures
        r@ == output_name_spec(filename@, ".xlsx"@, ".XLSX"@),
{
    output_name(filename, ".xlsx", ".XLSX")
}

/// The caption of a report: how many rows were computed, and how many came
/// to a length or to an error.
pub open spec fn report_caption_spec(processed: usize, ok: usize, errors: usize) -> Seq<char> {
    "Hisoblandi: "@ + nat_digits(processed as nat) + " ta. OK: "@ + nat_digits(ok as nat)
        + ", XATO: "@ + nat_digits(errors as nat) + "."@
}

pub fn report_caption(processed: usize, ok: usize, errors: usize) -> (r: String)
    ensures
        r@ == report_caption_spec(processed, ok, errors),
{
    let mut v = chars_of("Hisoblandi: ");
    append_all(&mut v, &digits_of(processed as u128));
    append_str(&mut v, " ta. OK: ");
    append_all(&mut v, &digits_of(ok as u128));
    append_str(&mut v, ", XATO: ");
    append_all(&mut v, &digits_of(errors as u128));
    append_str(&mut v, ".");
    string_of(&v)
}

} // verus!
