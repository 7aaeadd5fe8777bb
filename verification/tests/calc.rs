use rust_math::coeff::interpolate;
use rust_math::calc::{calculate_order, calculate_order_lengths};
use rust_math::materials::coefficient_single;
use rust_math::num::Decimal;
use rust_math::order::OrderDraft;

fn whole(n: u64) -> Option<Decimal> {
    Some(Decimal { units: n, scale: 0 })
}

fn text(s: &str) -> Option<String> {
    Some(s.to_string())
}

fn coefficient(material: &str, micron: u32) -> f64 {
    coefficient_single(material, micron, false).unwrap() as f64 / 1000.0
}

#[test]
fn calc_calculates_with_empty_first_layer() {
    let order = OrderDraft {
        kg: whole(150),
        width_mm: whole(810),
        first_material: text("--"),
        first_micron: text("--"),
        second_material: text("pe"),
        second_micron: text("55/60"),
        ..OrderDraft::default()
    };

    assert_eq!(calculate_order(&order).unwrap().rounded_length, 3000);
}

#[test]
fn accepts_new_material_aliases_and_low_microns() {
    assert_eq!(coefficient("st01", 18), 1.0);
    assert_eq!(coefficient("opp", 18), 1.0);
    assert_eq!(coefficient("pf", 18), 1.0);
    assert_eq!(coefficient("oppm", 12), 1.0);
    assert_eq!(coefficient("twisjem", 40), 2.0);
}

#[test]
fn interpolates_missing_microns_inside_table() {
    assert_eq!(coefficient("cpp", 55), 3.0);
    let mcp_23 = coefficient("mcp", 23);
    assert!((mcp_23 - 1.208).abs() < 0.001);
}

#[test]
fn calculates_alternative_materials() {
    let order = OrderDraft {
        kg: whole(300),
        width_mm: whole(530),
        first_material: text("pet"),
        first_micron: text("12"),
        second_material: text("pe oq yoki mcp"),
        second_micron: text("30"),
        ..OrderDraft::default()
    };

    let lengths = calculate_order_lengths(&order).unwrap();
    assert_eq!(lengths, vec![12000, 14000]);
}

#[test]
fn bot_row_1178_is_least_multiple_of_500() {
    let order = OrderDraft {
        kg: whole(300),
        width_mm: whole(530),
        first_material: text("pet"),
        first_micron: text("12"),
        second_material: text("pe pr"),
        second_micron: text("30"),
        ..OrderDraft::default()
    };
    let result = calculate_order(&order).unwrap();
    assert_eq!(result.first_coeff, 1000);
    assert_eq!(result.other_coeff, 2000);
    assert_eq!(result.coeff_sum, 3000);
    let base = result.base_length.num as f64 / result.base_length.den as f64;
    assert!((base - 11320.7547).abs() < 0.001);
    assert_eq!(result.waste_length.num * 20, result.base_length.num);
    let total = base * 1.05;
    assert_eq!(result.rounded_length % 500, 0);
    assert!(result.rounded_length as f64 >= total);
    assert!((result.rounded_length as f64) - 500.0 < total);
}

#[test]
fn bot_order_without_weight_is_refused() {
    let order = OrderDraft {
        width_mm: whole(530),
        first_material: text("pet"),
        first_micron: text("12"),
        ..OrderDraft::default()
    };
    assert_eq!(calculate_order(&order).unwrap_err(), "KG to'ldirilmagan");
}

#[test]
fn bot_unknown_material_is_refused() {
    assert_eq!(
        coefficient_single("zzz", 20, false).unwrap_err(),
        "noma'lum material: zzz"
    );
}

#[test]
fn bot_micron_outside_table_is_refused() {
    let error = coefficient_single("pe", 95, false).unwrap_err();
    assert!(error.starts_with("'pe' uchun 95 mikron topilmadi."));
}

#[test]
fn cpp_takes_the_mcp_cpp_table_at_low_microns() {
    assert_eq!(coefficient_single("cpp", 20, false).unwrap(), 1070);
    assert_eq!(coefficient_single("mcp", 20, false).unwrap(), 1070);
    assert_eq!(coefficient("cpp", 45), 2.7);
}

#[test]
fn interpolates_on_any_table() {
    let falling = vec![(10u32, 2000u64), (20, 1000)];
    assert_eq!(interpolate(15, &falling), Some(1500));
    assert_eq!(interpolate(11, &falling), Some(1900));
    assert_eq!(interpolate(20, &falling), Some(1000));
    assert_eq!(interpolate(9, &falling), None);
    let uneven = vec![(10u32, 1000u64), (13, 0)];
    assert_eq!(interpolate(11, &uneven), Some(666));
    assert_eq!(interpolate(12, &vec![(10u32, 1000u64), (13, 2000)]), Some(1666));
}
