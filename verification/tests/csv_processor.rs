use rust_math::csv_processor::process_csv;

#[test]
fn processes_csv_and_returns_csv() {
    let input = b"KG,RAZMER,1 QAVAT,1 MIKRON,2 QAVAT,2 MIKRON\n300,530,pet,12,pe pr,30\n";
    let report = process_csv(input).unwrap();
    let output = String::from_utf8(report.output).unwrap();

    assert!(output.contains("HISOBLANGAN_UZUNLIK,STATUS,XATO"));
    assert!(output.contains("12000,OK,"));
    assert_eq!(report.processed_count, 1);
    assert_eq!(report.ok_count, 1);
    assert_eq!(report.error_count, 0);
}

#[test]
fn processes_semicolon_csv() {
    let input = b"KG;RAZMER;1 QAVAT;1 MIKRON;2 QAVAT;2 MIKRON\n300;530;pet;12;pe pr;30\n";
    let report = process_csv(input).unwrap();
    let output = String::from_utf8(report.output).unwrap();

    assert!(output.contains("HISOBLANGAN_UZUNLIK;STATUS;XATO"));
    assert!(output.contains("12000;OK;"));
    assert_eq!(report.processed_count, 1);
}

#[test]
fn processes_cyrillic_headers() {
    let input = "КГ;РАЗМЕР;1 ҚАВАТ;1 МИКРОН;2 ҚАВАТ;2 МИКРОН\n300;530;pet;12;pe pr;30\n";
    let report = process_csv(input.as_bytes()).unwrap();
    let output = String::from_utf8(report.output).unwrap();

    assert!(output.contains("12000;OK;"));
    assert_eq!(report.processed_count, 1);
}

#[test]
fn processes_two_row_sheet_headers() {
    let input = [
        ",oym,tushgan,ish,buyurtmalar nomi,tushgan ,1-,2-,material,1-q,2-q,umumiy\n",
        ",sana,vaqti,kod,,kg,qavati,qavati,razmeri,micron,micron,metri\n",
        ",30/06,18;30,/1411,spring zelen,300,pet,cpp,960,12,25,8500\n",
        ",30/06,18;31,/1412,zizi,1000,pet,pe pr,985,12,30,21000\n",
    ]
    .concat();
    let report = process_csv(input.as_bytes()).unwrap();
    let output = String::from_utf8(report.output).unwrap();

    assert_eq!(report.processed_count, 2);
    assert_eq!(report.ok_count, 2);
    assert!(output.contains(",OK,"));
}

#[test]
fn csv_reports_rows_with_errors() {
    let input = b"KG,RAZMER,1 QAVAT,1 MIKRON,2 QAVAT,2 MIKRON\n300,530,pet,12,pe pr,30\nabc,530,pet,12,pe pr,30\n,,,,,\n";
    let report = process_csv(input).unwrap();
    let output = String::from_utf8(report.output).unwrap();
    assert_eq!(report.processed_count, 2);
    assert_eq!(report.ok_count, 1);
    assert_eq!(report.error_count, 1);
    assert!(output.contains(",XATO,raqam noto'g'ri: 'abc'"));
}

#[test]
fn csv_without_needed_columns_is_refused() {
    let input = b"A,B,C\n1,2,3\n";
    let error = process_csv(input).unwrap_err();
    assert_eq!(
        error,
        "kerakli ustunlar topilmadi: KG, RAZMER, 1 QAVAT, 1 MIKRON, 2 QAVAT, 2 MIKRON"
    );
}

#[test]
fn detects_tab_delimiter() {
    let input = b"KG\tRAZMER\t1 QAVAT\t1 MIKRON\t2 QAVAT\t2 MIKRON\n300\t530\tpet\t12\tpe pr\t30\n";
    assert_eq!(rust_math::csv_processor::detect_delimiter(input), b'\t');
    let report = process_csv(input).unwrap();
    let output = String::from_utf8(report.output).unwrap();
    assert!(output.contains("12000\tOK\t"));
}
