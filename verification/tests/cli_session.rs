use rust_math::cli_session::{demo_line, demo_lines, Interactive, Prompt, Reply};

fn answer(s: &mut Interactive, line: &str) -> Reply {
    s.answer(line)
}

#[test]
fn interactive_session_computes_the_readme_example() {
    let mut s = Interactive::new();
    assert_eq!(s.prompt, Prompt::Kg);
    assert!(matches!(answer(&mut s, "3000"), Reply::Ask));
    assert_eq!(s.prompt.question(), "Razmer, mm");
    assert!(matches!(answer(&mut s, "635"), Reply::Ask));
    assert!(matches!(answer(&mut s, "pet"), Reply::Ask));
    assert!(matches!(answer(&mut s, "12"), Reply::Ask));
    assert!(matches!(answer(&mut s, "oppm"), Reply::Ask));
    assert!(matches!(answer(&mut s, "20"), Reply::Ask));
    assert!(matches!(answer(&mut s, "pe pr"), Reply::Ask));
    assert!(matches!(answer(&mut s, "30"), Reply::Ask));
    assert_eq!(s.prompt.question(), "Atxod foizi [5]");
    assert!(matches!(answer(&mut s, ""), Reply::Ask));
    assert_eq!(s.prompt.question(), "Yaxlitlash [500]");
    match answer(&mut s, "") {
        Reply::Calculated(c, Ok(result)) => {
            assert_eq!(c.second_layer.material, "oppm/pe pr");
            assert_eq!(result.rounded_length.num, 74500);
        }
        other => panic!("unexpected reply: {other:?}"),
    }
    assert_eq!(s.prompt, Prompt::Kg);
}

#[test]
fn interactive_session_retries_and_quits() {
    let mut s = Interactive::new();
    match answer(&mut s, "  ") {
        Reply::Retry(m) => {
            assert_eq!(m, "Mahsulot og'irligi, kg (q = chiqish) bo'sh bo'lmasligi kerak.")
        }
        other => panic!("unexpected reply: {other:?}"),
    }
    match answer(&mut s, "0") {
        Reply::Retry(m) => {
            assert_eq!(m, "Mahsulot og'irligi, kg (q = chiqish) 0 dan katta bo'lishi kerak.")
        }
        other => panic!("unexpected reply: {other:?}"),
    }
    match answer(&mut s, "abc") {
        Reply::Retry(m) => assert_eq!(m, "raqam noto'g'ri: 'abc'"),
        other => panic!("unexpected reply: {other:?}"),
    }
    assert!(matches!(answer(&mut s, "Q"), Reply::Quit));
}

#[test]
fn interactive_session_skips_empty_layers() {
    let mut s = Interactive::new();
    for line in ["150", "850", "pe pr", "60"] {
        assert!(matches!(answer(&mut s, line), Reply::Ask));
    }
    assert!(matches!(answer(&mut s, ""), Reply::Ask));
    assert_eq!(s.prompt, Prompt::ThirdMaterial);
    assert!(matches!(answer(&mut s, ""), Reply::Ask));
    assert_eq!(s.prompt, Prompt::Waste);
    match answer(&mut s, "x") {
        Reply::Retry(m) => assert_eq!(m, "raqam noto'g'ri: 'x'"),
        other => panic!("unexpected reply: {other:?}"),
    }
    assert!(matches!(answer(&mut s, "5"), Reply::Ask));
    match answer(&mut s, "500") {
        Reply::Calculated(_, Ok(result)) => assert_eq!(result.rounded_length.num, 3000),
        other => panic!("unexpected reply: {other:?}"),
    }
}

#[test]
fn interactive_session_checks_microns() {
    let mut s = Interactive::new();
    for line in ["300", "530", "pet"] {
        assert!(matches!(answer(&mut s, line), Reply::Ask));
    }
    match answer(&mut s, "1x") {
        Reply::Retry(m) => assert_eq!(m, "micron butun raqam bo'lishi kerak: '1x'"),
        other => panic!("unexpected reply: {other:?}"),
    }
    assert_eq!(s.prompt, Prompt::FirstMicron);
}

#[test]
fn demo_lines_match_the_readme() {
    let lines = demo_lines();
    assert_eq!(lines.len(), 19);
    assert_eq!(lines[0], "KOD\tKG\tRAZMER\t1Q\t1M\t2Q\t2M\tUZUNLIK");
    assert_eq!(lines[1], "1178\t300\t530\tpet\t12\tpe pr\t30\t12000");
    assert!(lines[2].ends_with("\t11500"));
    assert!(lines[6].ends_with("\t63500"));
    assert!(lines[8].ends_with("\t199000"));
    assert!(lines[9].ends_with("\t69000"));
    assert_eq!(
        demo_line("x", 300, 530, "pet", "--", "pe pr", "30"),
        "x\tXATO: micron qiymati noto'g'ri: '--'"
    );
}
