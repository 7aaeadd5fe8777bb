//! The terminal calculator's command line: its options, the calculation
//! they describe, and the file formats it reads and writes.
use vstd::prelude::*;

use crate::calc::unwrap_or;
use crate::cli_calc::{
    example_1178, layer_view, merge_optional_third_layer, merge_spec, Calculation, Layer, LayerView,
    Number, Signed,
};
use crate::cli_materials::{is_empty_material, is_empty_spec, micron_spec, parse_micron};
use crate::cli_table::{format_length, length_text, writable, TableReport};
use crate::csv_processor::{csv_records, csv_written, read_csv, write_csv};
use crate::num::{parse_signed, parse_signed_chars};
use crate::order::opt_view;
use crate::paths::{
    extension_of, file_stem_of, join_path, parent_of, path_extension, path_file_stem, path_joined,
    path_parent,
};
use crate::table::{row_view, table_view};
use crate::text::{
    append_all, append_str, chars_of, eq_str, lower, lower_seq, owned, starts_with, starts_with_str,
    string_of,
};

verus! {

pub open spec fn args_view(args: Seq<String>) -> Seq<Seq<char>> {
    args.map_values(|s: String| s@)
}

/// The index of the first argument, from `i` on, that is `name`.
pub open spec fn position(a: Seq<Seq<char>>, name: Seq<char>, i: int) -> Option<int>
    decreases a.len() - i,
{
    if i < 0 || i >= a.len() {
        None
    } else if a[i] == name {
        Some(i)
    } else {
        position(a, name, i + 1)
    }
}

proof fn lemma_position_bounds(a: Seq<Seq<char>>, name: Seq<char>, i: int)
    ensures
        position(a, name, i) matches Some(p) ==> 0 <= i <= p < a.len() && a[p] == name,
    decreases a.len() - i,
{
    if 0 <= i < a.len() {
        lemma_position_bounds(a, name, i + 1);
    }
}

fn find_arg(args: &Vec<String>, name: &str) -> (r: Option<usize>)
    ensures
        match r {
            Some(i) => position(args_view(args@), name@, 0) == Some(i as int),
            None => position(args_view(args@), name@, 0) is None,
        },
{
    let ghost a = args_view(args@);
    let mut i: usize = 0;
    while i < args.len()
        invariant
            i <= args.len(),
            a == args_view(args@),
            position(a, name@, 0) == position(a, name@, i as int),
        decreases args.len() - i,
    {
        let v = chars_of(args[i].as_str());
        if eq_str(&v, name) {
            return Some(i);
        }
        i = i + 1;
    }
    None
}

/// The value after option `name`, or the error for a missing option or value.
pub open spec fn read_text_spec(a: Seq<Seq<char>>, name: Seq<char>) -> Result<Seq<char>, Seq<char>> {
    match position(a, name, 0) {
        None => Err(name + " berilmagan"@),
        Some(i) => if i + 1 < a.len() {
            Ok(a[i + 1])
        } else {
            Err(name + " uchun qiymat berilmagan"@)
        },
    }
}

fn suffixed(name: &str, suffix: &str) -> (r: String)
    ensures
        r@ == name@ + suffix@,
{
    let mut v = chars_of(name);
    append_str(&mut v, suffix);
    string_of(&v)
}

pub fn read_text(args: &Vec<String>, name: &str) -> (r: Result<String, String>)
    ensures
        match (r, read_text_spec(args_view(args@), name@)) {
            (Ok(a), Ok(b)) => a@ == b,
            (Err(a), Err(b)) => a@ == b,
            _ => false,
        },
{
    proof {
        lemma_position_bounds(args_view(args@), name@, 0);
    }
    let index = match find_arg(args, name) {
        Some(i) => i,
        None => {
            return Err(suffixed(name, " berilmagan"));
        },
    };
    assert(index < args.len()) by {
        assert(args_view(args@).len() == args.len());
    }
    if index < args.len() - 1 {
        Ok(args[index + 1].clone())
    } else {
        Err(suffixed(name, " uchun qiymat berilmagan"))
    }
}

/// The value after option `name`, if there is one.
pub open spec fn read_optional_text_spec(a: Seq<Seq<char>>, name: Seq<char>) -> Option<Seq<char>> {
    match position(a, name, 0) {
        None => None,
        Some(i) => if i + 1 < a.len() {
            Some(a[i + 1])
        } else {
            None
        },
    }
}

pub fn read_optional_text(args: &Vec<String>, name: &str) -> (r: Option<String>)
    ensures
        opt_view(r) == read_optional_text_spec(args_view(args@), name@),
{
    proof {
        lemma_position_bounds(args_view(args@), name@, 0);
    }
    let index = find_arg(args, name)?;
    assert(index < args.len()) by {
        assert(args_view(args@).len() == args.len());
    }
    if index < args.len() - 1 {
        Some(args[index + 1].clone())
    } else {
        None
    }
}

/// The number after option `name`, read as `f64::from_str` reads a number
/// (to the precision that a `Decimal` keeps).
pub open spec fn read_number_spec(a: Seq<Seq<char>>, name: Seq<char>) -> Result<Number, Seq<char>> {
    match read_text_spec(a, name) {
        Err(e) => Err(e),
        Ok(t) => match parse_signed(t) {
            Some((negative, magnitude)) => Ok(Number { negative, magnitude }),
            None => Err(name + " raqam bo'lishi kerak"@),
        },
    }
}

pub fn read_number(args: &Vec<String>, name: &str) -> (r: Result<Number, String>)
    ensures
        match (r, read_number_spec(args_view(args@), name@)) {
            (Ok(a), Ok(b)) => a == b,
            (Err(a), Err(b)) => a@ == b,
            _ => false,
        },
        r matches Ok(n) ==> n.wf(),
{
    let text = read_text(args, name)?;
    let v = chars_of(text.as_str());
    match parse_signed_chars(&v) {
        Some((negative, magnitude)) => Ok(Number { negative, magnitude }),
        None => Err(suffixed(name, " raqam bo'lishi kerak")),
    }
}

/// The number after option `name` where the option is given.
pub open spec fn read_optional_number_spec(a: Seq<Seq<char>>, name: Seq<char>) -> Result<
    Option<Number>,
    Seq<char>,
> {
    if position(a, name, 0) is Some {
        match read_number_spec(a, name) {
            Ok(n) => Ok(Some(n)),
            Err(e) => Err(e),
        }
    } else {
        Ok(None)
    }
}

pub fn read_optional_number(args: &Vec<String>, name: &str) -> (r: Result<Option<Number>, String>)
    ensures
        match (r, read_optional_number_spec(args_view(args@), name@)) {
            (Ok(a), Ok(b)) => a == b,
            (Err(a), Err(b)) => a@ == b,
            _ => false,
        },
        r matches Ok(Some(n)) ==> n.wf(),
{
    if find_arg(args, name).is_some() {
        let n = read_number(args, name)?;
        Ok(Some(n))
    } else {
        Ok(None)
    }
}

// ---------------------------------------------------------------------------
// The calculation on the command line
// ---------------------------------------------------------------------------

/// A calculation by its view: weight, width, the two layers, waste and
/// rounding step.
pub type CalculationView = (Number, Number, LayerView, LayerView, Number, Number);

pub open spec fn calculation_view(c: Calculation) -> CalculationView {
    (
        c.kg,
        c.razmer_mm,
        layer_view(c.first_layer),
        layer_view(c.second_layer),
        c.waste_percent,
        c.round_to,
    )
}

pub open spec fn example_view() -> CalculationView {
    (
        Number::whole_spec(300),
        Number::whole_spec(530),
        ("pet"@, "12"@, 12),
        ("pe pr"@, "30"@, 30),
        Number::whole_spec(5),
        Number::whole_spec(500),
    )
}

/// The micron of the merged second layer: none for an empty layer.
pub open spec fn merged_micron(q: Seq<char>, m: Seq<char>) -> Result<u32, Seq<char>> {
    if is_empty_spec(q) {
        Ok(0)
    } else {
        micron_spec(m)
    }
}

/// The calculation that the options describe, or the first error in them;
/// without options, order 1178 of the sample table. The waste is 5%
/// and the rounding step 500 unless given.
pub open spec fn args_calculation(a: Seq<Seq<char>>) -> Result<CalculationView, Seq<char>> {
    if a.len() == 0 {
        Ok(example_view())
    } else {
        match read_number_spec(a, "--kg"@) {
            Err(e) => Err(e),
            Ok(kg) => match read_number_spec(a, "--razmer"@) {
                Err(e) => Err(e),
                Ok(rz) => match read_text_spec(a, "--q1"@) {
                    Err(e) => Err(e),
                    Ok(q1) => match read_text_spec(a, "--m1"@) {
                        Err(e) => Err(e),
                        Ok(m1) => match micron_spec(m1) {
                            Err(e) => Err(e),
                            Ok(mic1) => match read_text_spec(a, "--q2"@) {
                                Err(e) => Err(e),
                                Ok(q2) => match (if is_empty_spec(q2) {
                                    Ok("--"@)
                                } else {
                                    read_text_spec(a, "--m2"@)
                                }) {
                                    Err(e) => Err(e),
                                    Ok(m2) => {
                                        let q3 = unwrap_or(
                                            read_optional_text_spec(a, "--q3"@),
                                            Seq::empty(),
                                        );
                                        let m3 = unwrap_or(
                                            read_optional_text_spec(a, "--m3"@),
                                            Seq::empty(),
                                        );
                                        args_rest(a, kg, rz, (q1, m1, mic1), merge_spec(q2, m2, q3, m3))
                                    },
                                },
                            },
                        },
                    },
                },
            },
        }
    }
}

/// The rest of `args_calculation`, from the merged second layer on.
pub open spec fn args_rest(
    a: Seq<Seq<char>>,
    kg: Number,
    rz: Number,
    first: LayerView,
    merged: Result<(Seq<char>, Seq<char>), Seq<char>>,
) -> Result<CalculationView, Seq<char>> {
    match merged {
        Err(e) => Err(e),
        Ok((q2, m2)) => match merged_micron(q2, m2) {
            Err(e) => Err(e),
            Ok(mic2) => match read_optional_number_spec(a, "--waste"@) {
                Err(e) => Err(e),
                Ok(w) => match read_optional_number_spec(a, "--round"@) {
                    Err(e) => Err(e),
                    Ok(q) => Ok(
                        (
                            kg,
                            rz,
                            first,
                            (q2, m2, mic2),
                            match w {
                                Some(n) => n,
                                None => Number::whole_spec(5),
                            },
                            match q {
                                Some(n) => n,
                                None => Number::whole_spec(500),
                            },
                        ),
                    ),
                },
            },
        },
    }
}

fn unwrap_text(o: Option<String>) -> (r: String)
    ensures
        r@ == unwrap_or(opt_view(o), Seq::empty()),
{
    match o {
        Some(s) => s,
        None => String::new(),
    }
}

/// Reads a calculation from the command line.
#[verifier::rlimit(40)]
pub fn calculation_from_args(args: &Vec<String>) -> (r: Result<Calculation, String>)
    ensures
        match (r, args_calculation(args_view(args@))) {
            (Ok(c), Ok(v)) => calculation_view(c) == v && c.wf(),
            (Err(a), Err(b)) => a@ == b,
            _ => false,
        },
{
    if args.len() == 0 {
        return Ok(example_1178());
    }
    let kg = read_number(args, "--kg")?;
    let razmer_mm = read_number(args, "--razmer")?;
    let first_material = read_text(args, "--q1")?;
    let first_micron_text = read_text(args, "--m1")?;
    let first_micron = parse_micron(first_micron_text.as_str())?;
    let second_material = read_text(args, "--q2")?;
    let second_micron_text = if is_empty_material(second_material.as_str()) {
        owned("--")
    } else {
        read_text(args, "--m2")?
    };
    let third_material = unwrap_text(read_optional_text(args, "--q3"));
    let third_micron_text = unwrap_text(read_optional_text(args, "--m3"));
    let (second_material, second_micron_text) = merge_optional_third_layer(
        second_material,
        second_micron_text,
        third_material,
        third_micron_text,
    )?;
    let second_micron = if is_empty_material(second_material.as_str()) {
        0
    } else {
        parse_micron(second_micron_text.as_str())?
    };
    let waste_percent = match read_optional_number(args, "--waste")? {
        Some(n) => n,
        None => Number::whole(5),
    };
    let round_to = match read_optional_number(args, "--round")? {
        Some(n) => n,
        None => Number::whole(500),
    };
    Ok(
        Calculation {
            kg,
            razmer_mm,
            first_layer: Layer {
                material: first_material,
                micron_text: first_micron_text,
                micron: first_micron,
            },
            second_layer: Layer {
                material: second_material,
                micron_text: second_micron_text,
                micron: second_micron,
            },
            waste_percent,
            round_to,
        },
    )
}

// ---------------------------------------------------------------------------
// File formats
// ---------------------------------------------------------------------------

#[derive(Debug, Clone, Copy, PartialEq, Eq, Structural)]
pub enum FileFormat {
    Xlsx,
    Xlsm,
    Xls,
    Ods,
    Csv,
    Tsv,
    Html,
    Pdf,
}

/// The format that a lower-case extension names.
pub open spec fn ext_format(e: Seq<char>) -> Option<FileFormat> {
    if e == "xlsx"@ {
        Some(FileFormat::Xlsx)
    } else if e == "xlsm"@ {
        Some(FileFormat::Xlsm)
    } else if e == "xls"@ {
        Some(FileFormat::Xls)
    } else if e == "ods"@ {
        Some(FileFormat::Ods)
    } else if e == "csv"@ {
        Some(FileFormat::Csv)
    } else if e == "tsv"@ {
        Some(FileFormat::Tsv)
    } else if e == "html"@ || e == "htm"@ {
        Some(FileFormat::Html)
    } else if e == "pdf"@ {
        Some(FileFormat::Pdf)
    } else {
        None
    }
}

/// The format of a file by its extension, in any case.
pub open spec fn format_of(path: Seq<char>) -> Option<FileFormat> {
    match path_extension(path) {
        None => None,
        Some(e) => ext_format(lower_seq(e)),
    }
}

fn ext_format_exec(e: &Vec<char>) -> (r: Option<FileFormat>)
    ensures
        r == ext_format(e@),
{
    if eq_str(e, "xlsx") {
        Some(FileFormat::Xlsx)
    } else if eq_str(e, "xlsm") {
        Some(FileFormat::Xlsm)
    } else if eq_str(e, "xls") {
        Some(FileFormat::Xls)
    } else if eq_str(e, "ods") {
        Some(FileFormat::Ods)
    } else if eq_str(e, "csv") {
        Some(FileFormat::Csv)
    } else if eq_str(e, "tsv") {
        Some(FileFormat::Tsv)
    } else if eq_str(e, "html") || eq_str(e, "htm") {
        Some(FileFormat::Html)
    } else if eq_str(e, "pdf") {
        Some(FileFormat::Pdf)
    } else {
        None
    }
}

impl FileFormat {
    pub fn from_path(path: &str) -> (r: Option<FileFormat>)
        ensures
            r == format_of(path@),
    {
        let e = extension_of(path)?;
        let v = chars_of(e.as_str());
        let l = lower(&v);
        ext_format_exec(&l)
    }

    /// The format's name as `{:?}` writes it.
    pub open spec fn name_spec(self) -> Seq<char> {
        match self {
            FileFormat::Xlsx => "Xlsx"@,
            FileFormat::Xlsm => "Xlsm"@,
            FileFormat::Xls => "Xls"@,
            FileFormat::Ods => "Ods"@,
            FileFormat::Csv => "Csv"@,
            FileFormat::Tsv => "Tsv"@,
            FileFormat::Html => "Html"@,
            FileFormat::Pdf => "Pdf"@,
        }
    }

    pub fn name(self) -> (r: &'static str)
        ensures
            r@ == self.name_spec(),
    {
        match self {
            FileFormat::Xlsx => "Xlsx",
            FileFormat::Xlsm => "Xlsm",
            FileFormat::Xls => "Xls",
            FileFormat::Ods => "Ods",
            FileFormat::Csv => "Csv",
            FileFormat::Tsv => "Tsv",
            FileFormat::Html => "Html",
            FileFormat::Pdf => "Pdf",
        }
    }

    /// The delimiter that a format is written back with: only CSV and TSV are.
    pub open spec fn delimiter_spec(self) -> Result<u8, Seq<char>> {
        match self {
            FileFormat::Csv => Ok(44u8),
            FileFormat::Tsv => Ok(9u8),
            _ => Err(
                self.name_spec()
                    + " formatini shu formatda qayta yozish hozircha qo'llab-quvvatlanmaydi"@,
            ),
        }
    }

    pub fn delimiter(self) -> (r: Result<u8, String>)
        ensures
            match (r, self.delimiter_spec()) {
                (Ok(a), Ok(b)) => a == b,
                (Err(a), Err(b)) => a@ == b,
                _ => false,
            },
    {
        match self {
            FileFormat::Csv => Ok(44u8),
            FileFormat::Tsv => Ok(9u8),
            _ => Err(suffixed(
                self.name(),
                " formatini shu formatda qayta yozish hozircha qo'llab-quvvatlanmaydi",
            )),
        }
    }
}

/// A path whose extension names a format that the calculator knows.
pub open spec fn table_file(path: Seq<char>) -> bool {
    format_of(path) is Some
}

pub fn looks_like_table_file(path: &str) -> (r: bool)
    ensures
        r == table_file(path@),
{
    FileFormat::from_path(path).is_some()
}

/// The command line asks for a file: `--file` or `--write-xlsx` is given, or
/// the first argument is a table file rather than an option.
pub open spec fn file_command(a: Seq<Seq<char>>) -> bool {
    position(a, "--file"@, 0) is Some || position(a, "--write-xlsx"@, 0) is Some || (a.len() > 0
        && !starts_with(a[0], "--"@) && table_file(a[0]))
}

pub fn should_process_file(args: &Vec<String>) -> (r: bool)
    ensures
        r == file_command(args_view(args@)),
{
    if find_arg(args, "--file").is_some() || find_arg(args, "--write-xlsx").is_some() {
        return true;
    }
    if args.len() == 0 {
        return false;
    }
    let first = chars_of(args[0].as_str());
    !starts_with_str(&first, "--") && looks_like_table_file(args[0].as_str())
}

/// `name_hisoblangan.ext` beside the input file (`output` and `csv` where the
/// path has no stem or extension, the current directory where it has no
/// parent).
pub open spec fn default_output_spec(input: Seq<char>) -> Seq<char> {
    let stem = unwrap_or(path_file_stem(input), "output"@);
    let parent = unwrap_or(path_parent(input), "."@);
    let ext = unwrap_or(path_extension(input), "csv"@);
    path_joined(parent, stem + "_hisoblangan."@ + ext)
}

fn text_or(o: Option<String>, default: &str) -> (r: String)
    ensures
        r@ == unwrap_or(opt_view(o), default@),
{
    match o {
        Some(s) => s,
        None => owned(default),
    }
}

pub fn default_output_path(input: &str) -> (r: String)
    ensures
        r@ == default_output_spec(input@),
{
    let stem = text_or(file_stem_of(input), "output");
    let parent = text_or(parent_of(input), ".");
    let extension = text_or(extension_of(input), "csv");
    let mut name = chars_of(stem.as_str());
    append_str(&mut name, "_hisoblangan.");
    let e = chars_of(extension.as_str());
    append_all(&mut name, &e);
    let n = string_of(&name);
    join_path(parent.as_str(), n.as_str())
}

// ---------------------------------------------------------------------------
// The file command
// ---------------------------------------------------------------------------

/// What the file command works on: the input and output paths, their
/// formats, and whether the results go into a copy of an Excel workbook.
#[derive(Debug)]
pub struct FilePlan {
    pub input: String,
    pub output: String,
    pub input_format: FileFormat,
    pub output_format: FileFormat,
    pub write_xlsx: bool,
}

/// The input path: `--file`'s value, or the first argument where it is not an option.
pub open spec fn input_path(a: Seq<Seq<char>>) -> Option<Seq<char>> {
    match read_optional_text_spec(a, "--file"@) {
        Some(p) => Some(p),
        None => if a.len() > 0 && !starts_with(a[0], "--"@) {
            Some(a[0])
        } else {
            None
        },
    }
}

/// The plan of the file command, or the first error in its arguments.
pub open spec fn file_plan_spec(a: Seq<Seq<char>>) -> Result<
    (Seq<char>, Seq<char>, FileFormat, FileFormat, bool),
    Seq<char>,
> {
    match input_path(a) {
        None => Err("fayl yo'li berilmagan"@),
        Some(input) => match format_of(input) {
            None => Err("qo'llab-quvvatlanmaydigan fayl: "@ + input),
            Some(fi) => {
                let output = match read_optional_text_spec(a, "--out"@) {
                    Some(o) => o,
                    None => default_output_spec(input),
                };
                match format_of(output) {
                    None => Err("output format qo'llab-quvvatlanmaydi: "@ + output),
                    Some(fo) => if position(a, "--out"@, 0) is None && fi != fo {
                        Err(
                            "output formati input bilan bir xil bo'lishi kerak: input="@
                                + fi.name_spec() + ", output="@ + fo.name_spec(),
                        )
                    } else {
                        Ok(
                            (
                                input,
                                output,
                                fi,
                                fo,
                                fo == FileFormat::Xlsx || position(a, "--write-xlsx"@, 0) is Some,
                            ),
                        )
                    },
                }
            },
        },
    }
}

fn prefixed(prefix: &str, s: &str) -> (r: String)
    ensures
        r@ == prefix@ + s@,
{
    let mut v = chars_of(prefix);
    let sv = chars_of(s);
    append_all(&mut v, &sv);
    string_of(&v)
}

/// Reads the file command's arguments.
pub fn plan_file_command(args: &Vec<String>) -> (r: Result<FilePlan, String>)
    ensures
        match (r, file_plan_spec(args_view(args@))) {
            (Ok(p), Ok(s)) => p.input@ == s.0 && p.output@ == s.1 && p.input_format == s.2
                && p.output_format == s.3 && p.write_xlsx == s.4,
            (Err(a), Err(b)) => a@ == b,
            _ => false,
        },
{
    let input = match read_optional_text(args, "--file") {
        Some(p) => p,
        None => {
            if args.len() > 0 && !starts_with_str(&chars_of(args[0].as_str()), "--") {
                args[0].clone()
            } else {
                return Err(owned("fayl yo'li berilmagan"));
            }
        },
    };
    let input_format = match FileFormat::from_path(input.as_str()) {
        Some(f) => f,
        None => {
            return Err(prefixed("qo'llab-quvvatlanmaydigan fayl: ", input.as_str()));
        },
    };
    let output = match read_optional_text(args, "--out") {
        Some(o) => o,
        None => default_output_path(input.as_str()),
    };
    let output_format = match FileFormat::from_path(output.as_str()) {
        Some(f) => f,
        None => {
            return Err(prefixed("output format qo'llab-quvvatlanmaydi: ", output.as_str()));
        },
    };
    if find_arg(args, "--out").is_none() && input_format != output_format {
        let mut e = chars_of("output formati input bilan bir xil bo'lishi kerak: input=");
        append_str(&mut e, input_format.name());
        append_str(&mut e, ", output=");
        append_str(&mut e, output_format.name());
        return Err(string_of(&e));
    }
    let write_xlsx = output_format == FileFormat::Xlsx || find_arg(args, "--write-xlsx").is_some();
    Ok(FilePlan { input, output, input_format, output_format, write_xlsx })
}

/// How a table file is read.
#[derive(Debug, Clone, Copy, PartialEq, Eq, Structural)]
pub enum TableSource {
    Csv,
    Tsv,
    Excel,
}

/// How a table file is read, by its extension; other files cannot be.
pub open spec fn table_source_spec(path: Seq<char>) -> Result<TableSource, Seq<char>> {
    match format_of(path) {
        Some(FileFormat::Csv) => Ok(TableSource::Csv),
        Some(FileFormat::Tsv) => Ok(TableSource::Tsv),
        Some(FileFormat::Xlsx) | Some(FileFormat::Xlsm) | Some(FileFormat::Xls) | Some(
            FileFormat::Ods,
        ) => Ok(TableSource::Excel),
        _ => Err("qo'llab-quvvatlanmaydigan fayl: "@ + path),
    }
}

pub fn table_source(path: &str) -> (r: Result<TableSource, String>)
    ensures
        match (r, table_source_spec(path@)) {
            (Ok(a), Ok(b)) => a == b,
            (Err(a), Err(b)) => a@ == b,
            _ => false,
        },
{
    match FileFormat::from_path(path) {
        Some(FileFormat::Csv) => Ok(TableSource::Csv),
        Some(FileFormat::Tsv) => Ok(TableSource::Tsv),
        Some(FileFormat::Xlsx) | Some(FileFormat::Xlsm) | Some(FileFormat::Xls) | Some(
            FileFormat::Ods,
        ) => Ok(TableSource::Excel),
        _ => Err(prefixed("qo'llab-quvvatlanmaydigan fayl: ", path)),
    }
}

/// The rows of a delimited text file, as the `csv` crate reads them with no
/// header row and rows of any length.
pub fn read_delimited(input: &[u8], delimiter: u8) -> (r: Result<Vec<Vec<String>>, String>)
    ensures
        match r {
            Ok(rows) => csv_records(input@, delimiter) == Ok::<Seq<Seq<Seq<char>>>, Seq<char>>(
                table_view(rows@),
            ),
            Err(e) => csv_records(input@, delimiter) == Err::<Seq<Seq<Seq<char>>>, Seq<char>>(
                e@,
            ),
        },
{
    read_csv(input, delimiter)
}

/// The bytes of a report table written with a delimiter.
pub fn report_bytes(report: &TableReport, delimiter: u8) -> (r: Result<Vec<u8>, String>)
    ensures
        match r {
            Ok(b) => csv_written(row_view(report.headers), table_view(report.rows@), delimiter)
                == Ok::<Seq<u8>, Seq<char>>(b@),
            Err(e) => csv_written(row_view(report.headers), table_view(report.rows@), delimiter)
                == Err::<Seq<u8>, Seq<char>>(e@),
        },
{
    write_csv(&report.headers, &report.rows, delimiter)
}

/// Results go into a copy of an Excel workbook only from `.xlsx` to `.xlsx`.
pub open spec fn xlsx_pair_spec(input: Seq<char>, output: Seq<char>) -> Result<(), Seq<char>> {
    if format_of(input) != Some(FileFormat::Xlsx) || format_of(output) != Some(FileFormat::Xlsx) {
        Err("xlsx formatida yozish faqat .xlsx -> .xlsx uchun ishlaydi"@)
    } else {
        Ok(())
    }
}

pub fn check_xlsx_pair(input: &str, output: &str) -> (r: Result<(), String>)
    ensures
        match (r, xlsx_pair_spec(input@, output@)) {
            (Ok(_), Ok(_)) => true,
            (Err(a), Err(b)) => a@ == b,
            _ => false,
        },
{
    if FileFormat::from_path(input) != Some(FileFormat::Xlsx) || FileFormat::from_path(output)
        != Some(FileFormat::Xlsx) {
        return Err(owned("xlsx formatida yozish faqat .xlsx -> .xlsx uchun ishlaydi"));
    }
    Ok(())
}

/// What goes into the result column of a workbook for a row: its length, or
/// `XATO: ` and its error.
pub open spec fn sheet_cell_spec(v: Result<Signed, Seq<char>>) -> Seq<char> {
    match v {
        Ok(l) => length_text(l),
        Err(m) => "XATO: "@ + m,
    }
}

pub fn sheet_cell_text(value: &Result<Signed, String>) -> (r: String)
    requires
        value matches Ok(l) ==> writable(*l),
    ensures
        r@ == sheet_cell_spec(
            match value {
                Ok(l) => Ok(*l),
                Err(m) => Err(m@),
            },
        ),
{
    match value {
        Ok(length) => format_length(*length),
        Err(message) => prefixed("XATO: ", message.as_str()),
    }
}

} // verus!
