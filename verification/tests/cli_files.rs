use rust_math::cli_args::{
    calculation_from_args, check_xlsx_pair, default_output_path, looks_like_table_file,
    plan_file_command, read_number, read_optional_number, read_optional_text, read_text,
    should_process_file, table_source, FileFormat, TableSource,
};
use rust_math::cli_table::{
    calculate_sheet, calculate_table, find_header_row, header_matches, normalize_header,
    parse_decimal,
};
use rust_math::headers::HeaderKind;

fn args(items: &[&str]) -> Vec<String> {
    items.iter().map(|s| s.to_string()).collect()
}

fn rows(lines: &[&[&str]]) -> Vec<Vec<String>> {
    lines.iter().map(|row| row.iter().map(|c| c.to_string()).collect()).collect()
}

#[test]
fn reads_options_and_their_errors() {
    let a = args(&["--kg", "300", "--q1"]);
    assert_eq!(read_text(&a, "--kg").unwrap(), "300");
    assert_eq!(read_text(&a, "--razmer").unwrap_err(), "--razmer berilmagan");
    assert_eq!(read_text(&a, "--q1").unwrap_err(), "--q1 uchun qiymat berilmagan");
    assert_eq!(read_optional_text(&a, "--q1"), None);
    assert_eq!(read_optional_text(&a, "--kg"), Some("300".to_string()));
    let kg = read_number(&a, "--kg").unwrap();
    assert_eq!((kg.negative, kg.magnitude.units, kg.magnitude.scale), (false, 300, 0));
    let bad = args(&["--kg", "abc"]);
    assert_eq!(read_number(&bad, "--kg").unwrap_err(), "--kg raqam bo'lishi kerak");
    assert!(read_optional_number(&a, "--waste").unwrap().is_none());
}

#[test]
fn builds_calculation_from_arguments() {
    let a = args(&[
        "--kg", "3000", "--razmer", "635", "--q1", "pet", "--m1", "12", "--q2", "oppm", "--m2",
        "20", "--q3", "pe pr", "--m3", "30",
    ]);
    let c = calculation_from_args(&a).unwrap();
    assert_eq!(c.second_layer.material, "oppm/pe pr");
    assert_eq!(c.second_layer.micron_text, "20/30");
    assert_eq!(c.second_layer.micron, 30);
    assert_eq!(c.waste_percent.magnitude.units, 5);
    assert_eq!(c.round_to.magnitude.units, 500);
    let result = rust_math::cli_calc::calculate(&c).unwrap();
    assert_eq!(result.rounded_length.num, 74500);

    let missing = args(&["--kg", "300"]);
    assert_eq!(calculation_from_args(&missing).unwrap_err(), "--razmer berilmagan");
    let example = calculation_from_args(&Vec::new()).unwrap();
    assert_eq!(example.first_layer.material, "pet");
    assert_eq!(example.kg.magnitude.units, 300);
}

#[test]
fn empty_second_layer_needs_no_micron() {
    let a = args(&[
        "--kg", "3000", "--razmer", "475", "--q1", "tuisim", "--m1", "23", "--q2", "--",
        "--waste", "5", "--round", "500",
    ]);
    let c = calculation_from_args(&a).unwrap();
    assert_eq!(c.second_layer.micron_text, "--");
    let result = rust_math::cli_calc::calculate(&c).unwrap();
    assert_eq!(result.rounded_length.num, 199000);
}

#[test]
fn knows_file_formats() {
    assert_eq!(FileFormat::from_path("ish.XLSX"), Some(FileFormat::Xlsx));
    assert_eq!(FileFormat::from_path("dir/ish.csv"), Some(FileFormat::Csv));
    assert_eq!(FileFormat::from_path("a.htm"), Some(FileFormat::Html));
    assert_eq!(FileFormat::from_path("notes.txt"), None);
    assert_eq!(FileFormat::from_path("csv"), None);
    assert_eq!(FileFormat::from_path("REPORT.CSV"), Some(FileFormat::Csv));
    assert_eq!(FileFormat::Tsv.delimiter().unwrap(), b'\t');
    assert_eq!(FileFormat::Csv.delimiter().unwrap(), b',');
    assert_eq!(
        FileFormat::Ods.delimiter().unwrap_err(),
        "Ods formatini shu formatda qayta yozish hozircha qo'llab-quvvatlanmaydi"
    );
    assert!(looks_like_table_file("examples/sample.csv"));
    assert!(!looks_like_table_file("--kg"));
    assert_eq!(table_source("a.ods").unwrap(), TableSource::Excel);
    assert_eq!(
        table_source("a.pdf").unwrap_err(),
        "qo'llab-quvvatlanmaydigan fayl: a.pdf"
    );
    assert!(check_xlsx_pair("a.xlsx", "b.xlsx").is_ok());
    assert_eq!(
        check_xlsx_pair("a.csv", "b.xlsx").unwrap_err(),
        "xlsx formatida yozish faqat .xlsx -> .xlsx uchun ishlaydi"
    );
}

#[test]
fn picks_the_file_command() {
    assert!(should_process_file(&args(&["--file", "x.csv"])));
    assert!(should_process_file(&args(&["--write-xlsx"])));
    assert!(should_process_file(&args(&["examples/sample.csv"])));
    assert!(!should_process_file(&args(&["--kg", "300"])));
    assert!(!should_process_file(&args(&[])));
}

#[test]
fn names_the_default_output() {
    assert_eq!(default_output_path("ish.xlsx"), "ish_hisoblangan.xlsx");
    assert_eq!(default_output_path("dir/ish.csv"), "dir/ish_hisoblangan.csv");
    assert_eq!(default_output_path("ish"), "ish_hisoblangan.csv");
}

#[test]
fn plans_the_file_command() {
    let plan = plan_file_command(&args(&["--file", "ish.xlsx"])).unwrap();
    assert_eq!(plan.output, "ish_hisoblangan.xlsx");
    assert!(plan.write_xlsx);
    let plan = plan_file_command(&args(&["ish.tsv"])).unwrap();
    assert_eq!(plan.output_format, FileFormat::Tsv);
    assert!(!plan.write_xlsx);
    assert_eq!(
        plan_file_command(&args(&["--kg"])).unwrap_err(),
        "fayl yo'li berilmagan"
    );
    assert_eq!(
        plan_file_command(&args(&["--file", "a.txt"])).unwrap_err(),
        "qo'llab-quvvatlanmaydigan fayl: a.txt"
    );
    assert_eq!(
        plan_file_command(&args(&["--file", "a.csv", "--out", "b.txt"])).unwrap_err(),
        "output format qo'llab-quvvatlanmaydi: b.txt"
    );
    let plan = plan_file_command(&args(&["--file", "a.csv", "--out", "b.xlsx"])).unwrap();
    assert!(plan.write_xlsx);
}

#[test]
fn cli_headers_ignore_case_spaces_and_dashes() {
    assert_eq!(normalize_header(" 1 QAVAT "), "1qavat");
    assert_eq!(normalize_header("1-qavat"), "1qavat");
    assert!(header_matches(&normalize_header("1QAVAT"), HeaderKind::FirstMaterial));
    assert!(header_matches("razmr", HeaderKind::Width));
    assert!(!header_matches("razmeri", HeaderKind::Width));
}

#[test]
fn cli_reads_number_cells() {
    let n = parse_decimal(" 1 500,5 ").unwrap();
    assert_eq!((n.negative, n.magnitude.units, n.magnitude.scale), (false, 15005, 1));
    let n = parse_decimal("1,500.25").unwrap();
    assert_eq!((n.magnitude.units, n.magnitude.scale), (150025, 2));
    let n = parse_decimal("-2").unwrap();
    assert!(n.negative);
    assert_eq!(parse_decimal("x1").unwrap_err(), "raqam noto'g'ri: 'x1'");
}

#[test]
fn computes_a_table_with_report_columns() {
    let table = rows(&[
        &["KOD", "KG", "RAZMER", "1 QAVAT", "1 MIKRON", "2 QAVAT", "2 MIKRON"],
        &["1178", "300", "530", "pet", "12", "pe pr", "30"],
        &["", "", "", "", "", "", ""],
        &["1207", "3000", "635", "pet", "12", "oppm/pe pr", "20/30"],
        &["x", "abc", "530", "pet", "12", "pe pr", "30"],
    ]);
    let (header, _) = find_header_row(&table).unwrap();
    assert_eq!(header, 0);
    let sheet = calculate_sheet(&table).unwrap();
    assert_eq!(sheet.processed_count, 3);
    assert_eq!(sheet.ok_count, 2);
    assert_eq!(sheet.error_count, 1);
    let report = calculate_table(&table).unwrap();
    assert_eq!(
        report.headers,
        vec![
            "KOD", "KG", "RAZMER", "1 QAVAT", "1 MIKRON", "2 QAVAT", "2 MIKRON",
            "HISOBLANGAN_UZUNLIK", "STATUS", "XATO"
        ]
    );
    assert_eq!(
        report.rows[0],
        vec!["1178", "300", "530", "pet", "12", "pe pr", "30", "12000", "OK", ""]
    );
    assert_eq!(
        report.rows[1],
        vec!["1207", "3000", "635", "pet", "12", "oppm/pe pr", "20/30", "74500", "OK", ""]
    );
    assert_eq!(report.rows[2][8], "XATO");
    assert_eq!(report.rows[2][9], "KG: raqam noto'g'ri: 'abc'");
}

#[test]
fn table_without_columns_is_refused() {
    let table = rows(&[&["a", "b"], &["1", "2"]]);
    assert_eq!(
        calculate_table(&table).unwrap_err(),
        "kerakli ustunlar topilmadi: KG, RAZMER, 1 QAVAT, 1 MIKRON, 2 QAVAT, 2 MIKRON"
    );
}

#[test]
fn cli_reads_exponents_and_rounds_long_fractions() {
    let n = parse_decimal("1e3").unwrap();
    assert_eq!((n.negative, n.magnitude.units, n.magnitude.scale), (false, 1000, 0));
    let n = parse_decimal("2.5E-2").unwrap();
    assert_eq!((n.magnitude.units, n.magnitude.scale), (25, 3));
    let n = parse_decimal("+1.5e+2").unwrap();
    assert_eq!((n.magnitude.units, n.magnitude.scale), (150, 0));
    let n = parse_decimal("-4E0").unwrap();
    assert_eq!((n.negative, n.magnitude.units, n.magnitude.scale), (true, 4, 0));
    let n = parse_decimal("1.23456789").unwrap();
    assert_eq!((n.magnitude.units, n.magnitude.scale), (1234568, 6));
    let n = parse_decimal("0.0000005").unwrap();
    assert_eq!((n.magnitude.units, n.magnitude.scale), (0, 6));
    let n = parse_decimal("0.0000015").unwrap();
    assert_eq!((n.magnitude.units, n.magnitude.scale), (2, 6));
    let n = parse_decimal("12345678901234.5678").unwrap();
    assert_eq!((n.magnitude.units, n.magnitude.scale), (123456789012346, 1));
    let n = parse_decimal("1e-99999999999999999999999").unwrap();
    assert_eq!((n.magnitude.units, n.magnitude.scale), (0, 6));
    assert_eq!(parse_decimal("1e").unwrap_err(), "raqam noto'g'ri: '1e'");
    assert_eq!(parse_decimal("e5").unwrap_err(), "raqam noto'g'ri: 'e5'");
    assert_eq!(parse_decimal("1e2e3").unwrap_err(), "raqam noto'g'ri: '1e2e3'");
    assert_eq!(parse_decimal("1e20").unwrap_err(), "raqam noto'g'ri: '1e20'");
}
