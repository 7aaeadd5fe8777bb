use rust_math::file_handler::{
    document_kind, output_csv_name, output_xlsx_name, report_caption, DocumentKind,
};
use rust_math::num::Decimal;
use rust_math::order::OrderDraft;
use rust_math::order_sheet::{join_layers, rubber_size, second_material, sheet_filename};
use rust_math::xlsx_processor::{
    calculate_xlsx_row, find_existing_result_column, find_header_row, find_sheet_data_layout,
    next_result_column, plan_xlsx, xlsx_report,
};

fn rows(lines: &[&[&str]]) -> Vec<Vec<String>> {
    lines.iter().map(|row| row.iter().map(|c| c.to_string()).collect()).collect()
}

#[test]
fn rounds_rubber_size_to_next_50() {
    assert_eq!(rubber_size(Decimal { units: 645, scale: 0 }), 650);
    assert_eq!(rubber_size(Decimal { units: 670, scale: 0 }), 700);
    assert_eq!(rubber_size(Decimal { units: 50, scale: 0 }), 50);
}

#[test]
fn rubber_size_stays_between_50_and_1300() {
    assert_eq!(rubber_size(Decimal { units: 1, scale: 1 }), 50);
    assert_eq!(rubber_size(Decimal { units: 64_55, scale: 1 }), 650);
    assert_eq!(rubber_size(Decimal { units: 5000, scale: 0 }), 1300);
}

#[test]
fn joins_layers_for_the_sheet() {
    assert_eq!(join_layers("oppm", Some("pe pr")), "oppm/pe pr");
    assert_eq!(join_layers("--", Some("pe pr")), "pe pr");
    assert_eq!(join_layers("oppm", Some("  ")), "oppm");
    assert_eq!(join_layers("oppm", None), "oppm");
    let order = OrderDraft {
        second_material: None,
        third_material: Some("pe".to_string()),
        ..OrderDraft::default()
    };
    assert_eq!(second_material(&order), "pe");
}

#[test]
fn names_the_order_sheet() {
    let order = OrderDraft { order_number: Some("№ 004/a".to_string()), ..OrderDraft::default() };
    assert_eq!(sheet_filename(&order), "buyurtma_004a.xlsx");
    let order = OrderDraft { order_number: Some("№".to_string()), ..OrderDraft::default() };
    assert_eq!(sheet_filename(&order), "buyurtma_jadval.xlsx");
    assert_eq!(sheet_filename(&OrderDraft::default()), "buyurtma_buyurtma.xlsx");
}

#[test]
fn recognises_documents_and_names_reports() {
    assert_eq!(document_kind("Ish.CSV"), DocumentKind::Csv);
    assert_eq!(document_kind("ish.xlsx"), DocumentKind::Xlsx);
    assert_eq!(document_kind("ish.pdf"), DocumentKind::Other);
    assert_eq!(output_csv_name("ish.csv"), "ish_hisoblangan.csv");
    assert_eq!(output_csv_name("ISH.CSV"), "ISH_hisoblangan.csv");
    assert_eq!(output_xlsx_name("ish.xlsx"), "ish_hisoblangan.xlsx");
    assert_eq!(output_xlsx_name("ish"), "ish_hisoblangan.xlsx");
    assert_eq!(report_caption(3, 2, 1), "Hisoblandi: 3 ta. OK: 2, XATO: 1.");
}

#[test]
fn computes_a_sheet_with_a_header_row() {
    let sheet = rows(&[
        &["KG", "RAZMER", "1 QAVAT", "1 MIKRON", "2 QAVAT", "2 MIKRON"],
        &["300", "530", "pet", "12", "pe pr", "30"],
    ]);
    let plan = plan_xlsx(&sheet).unwrap();
    assert_eq!(plan.header_index, 0);
    assert_eq!(plan.start_column, 7);
    assert_eq!(plan.results.len(), 1);
    assert_eq!(plan.results[0].row_index, 1);
    assert_eq!(plan.results[0].value, Ok("12000".to_string()));
    let report = xlsx_report(&plan, vec![1, 2]);
    assert_eq!(report.processed_count, 1);
    assert_eq!(report.ok_count, 1);
    assert_eq!(report.error_count, 0);
}

#[test]
fn processes_sheet_rows_without_header_by_data_layout() {
    let blank = ["", "", "", "", "", "", "", "", "", "", ""];
    let mut sheet = rows(&[
        &["", "dfa", "df", "fdasfda", "", "", "", "", "", "", ""],
        &["", "", "", "", "", "fdsa", "", "", "", "", ""],
        &blank,
    ]);
    for kg in ["300", "600", "800"] {
        sheet.push(
            ["", "", "", "", "", kg, "pet", "pe pr", "530", "12", "30"]
                .iter()
                .map(|c| c.to_string())
                .collect(),
        );
    }
    let (header, cols) = find_sheet_data_layout(&sheet).unwrap();
    assert_eq!(header, 2);
    assert_eq!((cols.kg, cols.first_material, cols.width), (5, 6, 8));
    assert_eq!(find_header_row(&sheet), Some((header, cols)));
    let plan = plan_xlsx(&sheet).unwrap();
    assert_eq!(plan.ok_count + plan.error_count, 3);
    assert_eq!(plan.ok_count, 3);
    assert_eq!(plan.start_column, 12);
}

#[test]
fn reuses_an_earlier_result_column() {
    let sheet = rows(&[
        &["KG", "RAZMER", "1 QAVAT", "1 MIKRON", "2 QAVAT", "2 MIKRON", "x", "Hisoblangan uzunlik", "y"],
        &["300", "530", "pet", "12", "pe pr", "30"],
    ]);
    assert_eq!(find_existing_result_column(&sheet), Some(7));
    assert_eq!(next_result_column(&sheet), 8);
    let natija = rows(&[
        &["KG", "RAZMER", "1 QAVAT", "1 MIKRON", "2 QAVAT", "2 MIKRON", "x", "Natija"],
        &["300", "530", "pet", "12", "pe pr", "30"],
    ]);
    assert_eq!(find_existing_result_column(&natija), None);
    assert_eq!(next_result_column(&natija), 9);
}

#[test]
fn sheet_rows_list_every_variant() {
    let sheet = rows(&[
        &["KG", "RAZMER", "1 QAVAT", "1 MIKRON", "2 QAVAT", "2 MIKRON"],
        &["300", "530", "pet", "12", "pe oq yoki mcp", "30"],
        &["0", "530", "pet", "12", "pe pr", "30"],
    ]);
    let (_, cols) = find_header_row(&sheet).unwrap();
    assert_eq!(calculate_xlsx_row(&sheet[1], cols), Ok("12000/14000".to_string()));
    assert_eq!(
        calculate_xlsx_row(&sheet[2], cols),
        Err("raqam 0 dan katta bo'lishi kerak: '0'".to_string())
    );
}

#[test]
fn empty_sheet_has_no_table() {
    let sheet: Vec<Vec<String>> = Vec::new();
    assert!(plan_xlsx(&sheet).is_err());
    assert_eq!(next_result_column(&sheet), 1);
}

#[test]
fn results_go_after_a_data_column_named_uzunlik() {
    let table = rows(&[
        &["UZUNLIK", "KG", "RAZMER", "1 QAVAT", "1 MIKRON", "2 QAVAT", "2 MIKRON"],
        &["5000", "300", "530", "pet", "12", "pe pr", "30"],
    ]);
    assert_eq!(find_existing_result_column(&table), None);
    assert_eq!(next_result_column(&table), 8);
    let again = rows(&[&["KG", "HISOBLANGAN_UZUNLIK"], &["300", "12000"]]);
    assert_eq!(find_existing_result_column(&again), Some(1));
    assert_eq!(next_result_column(&again), 2);
}
