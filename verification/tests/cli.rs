use rust_math::cli_calc::{
    calculate, coefficient_cell, example_1178, merge_optional_third_layer, Calculation, Layer,
    Number, ResultBreakdown,
};
use rust_math::cli_materials::{coefficient_single, material_family, parse_micron, MaterialFamily};
use rust_math::num::Decimal;

fn whole(n: u64) -> Number {
    Number { negative: false, magnitude: Decimal { units: n, scale: 0 } }
}

fn layer(material: &str, micron_text: &str, micron: u32) -> Layer {
    Layer { material: material.to_string(), micron_text: micron_text.to_string(), micron }
}

fn calculation(kg: u64, razmer: u64, first: Layer, second: Layer) -> Calculation {
    Calculation {
        kg: whole(kg),
        razmer_mm: whole(razmer),
        first_layer: first,
        second_layer: second,
        waste_percent: whole(5),
        round_to: whole(500),
    }
}

fn coeff(thousandths: u128) -> f64 {
    thousandths as f64 / 1000.0
}

fn rounded(result: &ResultBreakdown) -> f64 {
    let value = result.rounded_length.num as f64 / result.rounded_length.den as f64;
    if result.rounded_length.negative {
        -value
    } else {
        value
    }
}

#[test]
fn calculates_row_1178() {
    let result = calculate(&example_1178()).unwrap();

    assert_eq!(coeff(result.first_coeff), 1.0);
    assert_eq!(coeff(result.second_coeff), 2.0);
    assert_eq!(coeff(result.coeff_sum), 3.0);
    assert_eq!(result.razmer_sm.units as f64 / 10f64.powi(result.razmer_sm.scale as i32), 53.0);
    let base = result.base_length.num as f64 / result.base_length.den as f64;
    assert!((base - 11320.7547).abs() < 0.001);
    assert_eq!(rounded(&result), 12000.0);
}

#[test]
fn maps_pet_20_or_more_to_mcp_cpp_table() {
    let layer = layer("pet", "30", 30);

    assert_eq!(coeff(coefficient_cell(&layer, true).unwrap()), 1.6);
}

#[test]
fn maps_pe_family_by_prefix() {
    let layer = layer("pe pr", "30", 30);

    assert_eq!(coeff(coefficient_cell(&layer, false).unwrap()), 2.0);
}

#[test]
fn calculates_twist_without_second_layer() {
    let calculation = calculation(3000, 475, layer("tuisim", "23", 23), layer("--", "--", 0));

    let result = calculate(&calculation).unwrap();

    assert_eq!(coeff(result.first_coeff), 2.0);
    assert_eq!(coeff(result.second_coeff), 0.0);
    assert_eq!(rounded(&result), 199000.0);
}

#[test]
fn calculates_three_layer_cell_from_second_layer_slash() {
    let calculation = calculation(
        3000,
        635,
        layer("pet", "12", 12),
        layer("oppm/pe pr", "20/30", 30),
    );

    let result = calculate(&calculation).unwrap();

    assert_eq!(coeff(result.first_coeff), 1.0);
    assert_eq!(coeff(result.second_coeff), 3.0);
    assert_eq!(rounded(&result), 74500.0);
}

#[test]
fn tolerates_simple_material_typos() {
    assert_eq!(material_family("pett").unwrap(), MaterialFamily::FirstLayer);
    assert_eq!(material_family("map").unwrap(), MaterialFamily::McpCpp);
    assert_eq!(material_family("twism").unwrap(), MaterialFamily::Twist);
    assert_eq!(material_family("pff").unwrap(), MaterialFamily::FirstLayer);
    assert_eq!(material_family("mpet").unwrap(), MaterialFamily::FirstLayer);
    assert_eq!(material_family("PE PR").unwrap(), MaterialFamily::Pe);
}

#[test]
fn does_not_confuse_pe_with_pet() {
    assert_eq!(material_family("pe").unwrap(), MaterialFamily::Pe);
}

#[test]
fn main_calculates_with_empty_first_layer() {
    let calculation = calculation(150, 850, layer("--", "--", 0), layer("pe pr", "60", 60));

    let result = calculate(&calculation).unwrap();

    assert_eq!(coeff(result.first_coeff), 0.0);
    assert_eq!(coeff(result.second_coeff), 4.0);
    assert_eq!(rounded(&result), 3000.0);
}

#[test]
fn maps_petm_and_mpet_12_to_one() {
    assert_eq!(coefficient_single("petm", 12, false).unwrap() as f64 / 1000.0, 1.0);
    assert_eq!(coefficient_single("mpet", 12, false).unwrap() as f64 / 1000.0, 1.0);
}

#[test]
fn accepts_new_formula_aliases_and_interpolates() {
    assert_eq!(material_family("st01").unwrap(), MaterialFamily::FirstLayer);
    assert_eq!(material_family("twisjem").unwrap(), MaterialFamily::Twist);
    assert_eq!(material_family("pf").unwrap(), MaterialFamily::FirstLayer);
    assert_eq!(coefficient_single("opp", 18, false).unwrap() as f64 / 1000.0, 1.0);
    assert_eq!(coefficient_single("oppm", 12, false).unwrap() as f64 / 1000.0, 1.0);
    assert_eq!(coefficient_single("cpp", 55, false).unwrap() as f64 / 1000.0, 3.0);
    let mcp_23 = coefficient_single("mcp", 23, false).unwrap() as f64 / 1000.0;
    assert!((mcp_23 - 1.208).abs() < 0.001);
}

#[test]
fn merges_optional_third_layer_for_cli_and_interactive() {
    let (material, micron) = merge_optional_third_layer(
        "oppm".to_string(),
        "20".to_string(),
        "pe pr".to_string(),
        "30".to_string(),
    )
    .unwrap();

    assert_eq!(material, "oppm/pe pr");
    assert_eq!(micron, "20/30");
}

#[test]
fn third_layer_needs_its_micron() {
    let error = merge_optional_third_layer(
        "oppm".to_string(),
        "20".to_string(),
        "pe pr".to_string(),
        " ".to_string(),
    )
    .unwrap_err();
    assert_eq!(error, "3-qavat materiali bor, lekin mikroni berilmagan");
    let (material, micron) = merge_optional_third_layer(
        "--".to_string(),
        "--".to_string(),
        "pe pr".to_string(),
        "30".to_string(),
    )
    .unwrap();
    assert_eq!((material.as_str(), micron.as_str()), ("pe pr", "30"));
}

#[test]
fn cli_errors_name_their_cause() {
    let mut c = calculation(0, 530, layer("pet", "12", 12), layer("pe pr", "30", 30));
    assert_eq!(calculate(&c).unwrap_err(), "KG 0 dan katta bo'lishi kerak");
    c.kg = whole(300);
    c.razmer_mm = whole(0);
    assert_eq!(calculate(&c).unwrap_err(), "RAZMER 0 dan katta bo'lishi kerak");
    c.razmer_mm = whole(530);
    c.round_to = whole(0);
    assert_eq!(
        calculate(&c).unwrap_err(),
        "yaxlitlash qiymati 0 dan katta bo'lishi kerak"
    );
    let empty = calculation(300, 530, layer("--", "--", 0), layer("yoq", "--", 0));
    assert_eq!(
        calculate(&empty).unwrap_err(),
        "kamida bitta qavat materiali bo'lishi kerak"
    );
    let unknown = calculation(300, 530, layer("xyz", "12", 12), layer("pe pr", "30", 30));
    assert_eq!(calculate(&unknown).unwrap_err(), "noma'lum material: 'xyz'");
    let mismatch = calculation(300, 530, layer("pet", "12", 12), layer("oppm/pe pr", "30", 30));
    assert_eq!(
        calculate(&mismatch).unwrap_err(),
        "material va mikron soni mos emas: 'oppm/pe pr' va '30'"
    );
    let outside = calculation(300, 530, layer("pet", "12", 12), layer("pe", "95", 95));
    assert_eq!(
        calculate(&outside).unwrap_err(),
        "'pe' materiali uchun 95 mikron jadvalda topilmadi. Bu material oilasida bor mikronlar: 30, 35, 40, 45, 50, 55, 60, 65, 70, 75, 80, 85, 90"
    );
}

#[test]
fn cli_rounding_step_and_waste_are_used() {
    let mut c = example_1178();
    c.round_to = whole(1000);
    let result = calculate(&c).unwrap();
    assert_eq!(rounded(&result), 12000.0);
    c.waste_percent = whole(0);
    c.round_to = whole(100);
    let result = calculate(&c).unwrap();
    assert_eq!(rounded(&result), 11400.0);
    let total = result.length_with_waste.num as f64 / result.length_with_waste.den as f64;
    assert!(rounded(&result) >= total && rounded(&result) - 100.0 < total);
}

#[test]
fn cli_negative_waste_rounds_towards_zero() {
    let mut c = example_1178();
    c.waste_percent = Number { negative: true, magnitude: Decimal { units: 200, scale: 0 } };
    let result = calculate(&c).unwrap();
    assert!(result.length_with_waste.negative);
    assert!(result.rounded_length.negative);
    assert_eq!(rounded(&result), -11000.0);
}

#[test]
fn cli_micron_cells() {
    assert_eq!(parse_micron("18/20").unwrap(), 20);
    assert_eq!(parse_micron(" 25/30 ").unwrap(), 30);
    assert_eq!(parse_micron("--").unwrap_err(), "micron qiymati noto'g'ri: '--'");
    assert_eq!(
        parse_micron("12/x").unwrap_err(),
        "micron butun raqam bo'lishi kerak: '12/x'"
    );
}

#[test]
fn readme_spellings_share_a_family() {
    for name in ["pe pr", "pe-pr", "PE PR", " Pe Pr "] {
        assert_eq!(material_family(name).unwrap(), MaterialFamily::Pe);
    }
    assert_eq!(material_family("none").unwrap(), MaterialFamily::Empty);
    assert_eq!(material_family("tvist").unwrap(), MaterialFamily::Twist);
    assert_eq!(material_family("popp").unwrap(), MaterialFamily::FirstLayer);
    assert_eq!(material_family("jem").unwrap(), MaterialFamily::Jem);
}

#[test]
fn cpp_and_mcp_names_are_of_the_mcp_cpp_family() {
    assert_eq!(material_family("cpp").unwrap(), MaterialFamily::McpCpp);
    assert_eq!(material_family("CPP 20").unwrap(), MaterialFamily::McpCpp);
    assert_eq!(material_family("mcp").unwrap(), MaterialFamily::McpCpp);
    assert_eq!(coefficient_single("cpp", 20, false).unwrap(), 1070);
    assert_eq!(coefficient_single("cpp", 45, false).unwrap(), 2700);
}
